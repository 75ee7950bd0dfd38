//! Setting one field of a metadata record from a key and a text value.
use vstd::prelude::*;

use crate::exit::ExitCode;
use crate::meta::{Meta, MetaView};
use crate::text::{chars_of, push_char, push_str, same_text, string_from, string_of};

verus! {

/// Unicode `White_Space` characters, which `str::trim` removes.
pub open spec fn is_white(c: char) -> bool {
    ('\u{9}' <= c && c <= '\u{d}') || c == ' ' || c == '\u{85}' || c == '\u{a0}' || c == '\u{1680}'
        || ('\u{2000}' <= c && c <= '\u{200a}') || c == '\u{2028}' || c == '\u{2029}' || c
        == '\u{202f}' || c == '\u{205f}' || c == '\u{3000}'
}

/// Drops white space at the start.
pub open spec fn trim_start_white(s: Seq<char>) -> Seq<char>
    decreases s.len(),
{
    if s.len() > 0 && is_white(s[0]) {
        trim_start_white(s.drop_first())
    } else {
        s
    }
}

/// Drops white space at the end.
pub open spec fn trim_end_white(s: Seq<char>) -> Seq<char>
    decreases s.len(),
{
    if s.len() > 0 && is_white(s.last()) {
        trim_end_white(s.drop_last())
    } else {
        s
    }
}

/// Drops white space at both ends.
pub open spec fn trim_white(s: Seq<char>) -> Seq<char> {
    trim_end_white(trim_start_white(s))
}

fn white(c: char) -> (r: bool)
    ensures
        r == is_white(c),
{
    ('\u{9}' <= c && c <= '\u{d}') || c == ' ' || c == '\u{85}' || c == '\u{a0}' || c == '\u{1680}'
        || ('\u{2000}' <= c && c <= '\u{200a}') || c == '\u{2028}' || c == '\u{2029}' || c
        == '\u{202f}' || c == '\u{205f}' || c == '\u{3000}'
}

/// The text without white space (Unicode `White_Space`) at either end.
pub fn trim(s: &str) -> (r: String)
    ensures
        r@ == trim_white(s@),
{
    let cs = chars_of(s);
    let n = cs.len();
    let mut lo: usize = 0;
    assert(cs@.subrange(0, n as int) =~= cs@);
    while lo < n && white(cs[lo])
        invariant
            cs@ == s@,
            n == cs@.len(),
            lo <= n,
            trim_start_white(s@) == trim_start_white(cs@.subrange(lo as int, n as int)),
        decreases n - lo,
    {
        let ghost t = cs@.subrange(lo as int, n as int);
        assert(t.drop_first() =~= cs@.subrange(lo + 1, n as int));
        lo = lo + 1;
    }
    assert(cs@.subrange(0, n as int) =~= cs@);
    let ghost mid = cs@.subrange(lo as int, n as int);
    assert(trim_start_white(s@) == mid);
    let mut hi: usize = n;
    while hi > lo && white(cs[hi - 1])
        invariant
            cs@ == s@,
            n == cs@.len(),
            lo <= hi <= n,
            mid == cs@.subrange(lo as int, n as int),
            trim_end_white(mid) == trim_end_white(cs@.subrange(lo as int, hi as int)),
        decreases hi - lo,
    {
        let ghost t = cs@.subrange(lo as int, hi as int);
        assert(t.drop_last() =~= cs@.subrange(lo as int, hi - 1));
        hi = hi - 1;
    }
    string_range(cs.as_slice(), lo, hi)
}

/// The text in lower case, as `str::to_lowercase` gives it.
pub uninterp spec fn lower_of(s: Seq<char>) -> Seq<char>;

/// Relies on `str::to_lowercase`: the result depends on the text alone.
#[verifier::external_body]
fn to_lower(s: &str) -> (r: String)
    ensures
        r@ == lower_of(s@),
{
    s.to_lowercase()
}

/// The value of a digit in base `radix` (2, 10 or 16; letters in either case).
pub open spec fn digit_value(c: char, radix: nat) -> Option<nat> {
    let v = if '0' <= c && c <= '9' {
        Some((c as nat - 48) as nat)
    } else if 'a' <= c && c <= 'z' {
        Some((c as nat - 87) as nat)
    } else if 'A' <= c && c <= 'Z' {
        Some((c as nat - 55) as nat)
    } else {
        None
    };
    match v {
        Some(d) if d < radix => Some(d),
        _ => None,
    }
}

/// The value of digits in base `radix`, if they all are digits.
pub open spec fn digits_in(s: Seq<char>, radix: nat) -> Option<nat>
    decreases s.len(),
{
    if s.len() == 0 {
        Some(0)
    } else {
        match (digits_in(s.drop_last(), radix), digit_value(s.last(), radix)) {
            (Some(v), Some(d)) => Some(v * radix + d),
            _ => None,
        }
    }
}

/// An unsigned integer as std reads one: an optional `+`, then one or more
/// digits of the radix.
pub open spec fn int_value(s: Seq<char>, radix: nat) -> Option<nat> {
    let d = if s.len() > 0 && s[0] == '+' { s.drop_first() } else { s };
    if d.len() == 0 {
        None
    } else {
        digits_in(d, radix)
    }
}

/// What `u16::from_str` reports for a text it refuses.
pub uninterp spec fn u16_error_text(s: Seq<char>) -> Seq<char>;

/// What `u8::from_str_radix` reports for a text it refuses.
pub uninterp spec fn u8_error_text(s: Seq<char>, radix: nat) -> Seq<char>;

/// Relies on `u16::from_str`: an optional `+` and decimal digits whose value
/// fits; otherwise an error, shown as text.
#[verifier::external_body]
fn parse_u16(s: &str) -> (r: Result<u16, String>)
    ensures
        r is Ok <==> (int_value(s@, 10) matches Some(v) && v <= u16::MAX),
        r matches Ok(v) ==> int_value(s@, 10) == Some(v as nat),
        r matches Err(e) ==> e@ == u16_error_text(s@),
{
    s.parse::<u16>().map_err(|e| e.to_string())
}

/// Relies on `u8::from_str_radix`: an optional `+` and digits of the radix
/// whose value fits; otherwise an error, shown as text.
#[verifier::external_body]
fn parse_u8_radix(s: &str, radix: u32) -> (r: Result<u8, String>)
    requires
        radix == 2 || radix == 10 || radix == 16,
    ensures
        r is Ok <==> (int_value(s@, radix as nat) matches Some(v) && v <= u8::MAX),
        r matches Ok(v) ==> int_value(s@, radix as nat) == Some(v as nat),
        r matches Err(e) ==> e@ == u8_error_text(s@, radix as nat),
{
    u8::from_str_radix(s, radix).map_err(|e| e.to_string())
}

/// The lines of a text, split at line feeds; there is always at least one.
pub open spec fn lines(s: Seq<char>) -> Seq<Seq<char>>
    decreases s.len(),
{
    if s.len() == 0 {
        seq![seq![]]
    } else {
        let f = lines(s.drop_last());
        if s.last() == '\n' {
            f.push(seq![])
        } else {
            f.update(f.len() - 1, f.last().push(s.last()))
        }
    }
}

proof fn lemma_lines_len(s: Seq<char>)
    ensures
        lines(s).len() >= 1,
    decreases s.len(),
{
    if s.len() > 0 {
        lemma_lines_len(s.drop_last());
    }
}

/// Lines trimmed, the empty ones left out.
pub open spec fn kept_lines(ls: Seq<Seq<char>>) -> Seq<Seq<char>>
    decreases ls.len(),
{
    if ls.len() == 0 {
        seq![]
    } else {
        let k = kept_lines(ls.drop_last());
        let t = trim_white(ls.last());
        if t.len() > 0 {
            k.push(t)
        } else {
            k
        }
    }
}

/// The notes that a text gives: its lines, trimmed, without empty ones.
pub open spec fn notes_of(s: Seq<char>) -> Seq<Seq<char>> {
    kept_lines(lines(s))
}

/// Splits a text into notes: one per line, trimmed, empty lines dropped.
pub fn split_notes(value: &str) -> (r: Vec<String>)
    ensures
        r@.map_values(|n: String| n@) == notes_of(value@),
{
    let cs = chars_of(value);
    let mut out: Vec<String> = Vec::new();
    let mut cur: Vec<char> = Vec::new();
    let mut i: usize = 0;
    while i < cs.len()
        invariant
            cs@ == value@,
            i <= cs@.len(),
            lines(cs@.subrange(0, i as int)).len() >= 1,
            cur@ == lines(cs@.subrange(0, i as int)).last(),
            out@.map_values(|n: String| n@) == kept_lines(lines(cs@.subrange(0, i as int)).drop_last()),
        decreases cs@.len() - i,
    {
        let ghost f = lines(cs@.subrange(0, i as int));
        let ghost g = lines(cs@.subrange(0, i + 1));
        assert(cs@.subrange(0, i + 1).drop_last() =~= cs@.subrange(0, i as int));
        assert(cs@.subrange(0, i + 1).last() == cs@[i as int]);
        if cs[i] == '\n' {
            assert(g == f.push(seq![]));
            let line = string_of(cur.as_slice());
            let t = trim(line.as_str());
            assert(g.drop_last() =~= f);
            assert(f.drop_last().push(f.last()) =~= f);
            if !t.as_str().is_empty() {
                out.push(t);
            }
            assert(out@.map_values(|n: String| n@) =~= kept_lines(g.drop_last()));
            cur = Vec::new();
        } else {
            assert(g == f.update(f.len() - 1, f.last().push(cs@[i as int])));
            assert(g.drop_last() =~= f.drop_last());
            cur.push(cs[i]);
        }
        i = i + 1;
    }
    assert(cs@.subrange(0, i as int) =~= cs@);
    let ghost f = lines(cs@);
    let line = string_of(cur.as_slice());
    let t = trim(line.as_str());
    assert(f.drop_last().push(f.last()) =~= f);
    if !t.as_str().is_empty() {
        out.push(t);
    }
    assert(out@.map_values(|n: String| n@) =~= kept_lines(f));
    out
}

/// The file type that a lower-case type name stands for.
pub open spec fn type_named(lower: Seq<char>) -> Option<(u8, u8)> {
    if lower == "none"@ {
        Some((0u8, 0u8))
    } else if lower == "character/ascii"@ {
        Some((1u8, 0u8))
    } else if lower == "character/ansi"@ {
        Some((1u8, 1u8))
    } else {
        None
    }
}

/// The file type that a lower-case type name stands for.
pub fn type_from_lowercase(lower: &str) -> (r: Option<(u8, u8)>)
    ensures
        r == type_named(lower@),
{
    if same_text(lower, "none") {
        Some((0, 0))
    } else if same_text(lower, "character/ascii") {
        Some((1, 0))
    } else if same_text(lower, "character/ansi") {
        Some((1, 1))
    } else {
        None
    }
}

/// The usage error for a value that does not read as a number.
pub fn invalid_value(field: &str, detail: &str) -> (r: ExitCode)
    ensures
        r matches ExitCode::USAGE(e) && e@ == "Invalid "@ + field@ + " ("@ + detail@ + ")"@,
{
    let mut e = String::new();
    push_str(&mut e, "Invalid ");
    push_str(&mut e, field);
    push_str(&mut e, " (");
    push_str(&mut e, detail);
    push_str(&mut e, ")");
    ExitCode::USAGE(e)
}

/// How a flags value is read: `0x` hexadecimal, `0b` binary, else decimal;
/// the digits and the radix.
pub open spec fn flags_digits(v: Seq<char>) -> (Seq<char>, nat) {
    if v.len() >= 2 && v[0] == '0' && v[1] == 'x' {
        (v.subrange(2, v.len() as int), 16)
    } else if v.len() >= 2 && v[0] == '0' && v[1] == 'b' {
        (v.subrange(2, v.len() as int), 2)
    } else {
        (v, 10)
    }
}

/// A usage error with the given message.
pub open spec fn usage(r: ExitCode, msg: Seq<char>) -> bool {
    r matches ExitCode::USAGE(e) && e@ == msg
}

/// What setting `key` to `value` does to metadata `m`, giving `n` and the
/// outcome `r`. Text fields are trimmed; on any error nothing changes.
pub open spec fn edited(m: MetaView, key: Seq<char>, value: Seq<char>, n: MetaView, r: ExitCode) -> bool {
    if key == "title"@ {
        r is OK && n == (MetaView { title: trim_white(value), ..m })
    } else if key == "author"@ {
        r is OK && n == (MetaView { author: trim_white(value), ..m })
    } else if key == "group"@ {
        r is OK && n == (MetaView { group: trim_white(value), ..m })
    } else if key == "date"@ {
        r is OK && n == (MetaView { date: trim_white(value), ..m })
    } else if key == "size"@ {
        usage(r, "Size can't be changed"@) && n == m
    } else if key == "type"@ {
        match type_named(lower_of(value)) {
            Some(t) => r is OK && n == (MetaView { file_type: t, ..m }),
            None => usage(r, "Type is unsupported ("@ + value + ")"@) && n == m,
        }
    } else if key == "width"@ || key == "height"@ {
        match int_value(value, 10) {
            Some(v) if v <= u16::MAX => r is OK && n == (if key == "width"@ {
                MetaView { width: v as u16, ..m }
            } else {
                MetaView { height: v as u16, ..m }
            }),
            _ => usage(r, "Invalid "@ + key + " ("@ + u16_error_text(value) + ")"@) && n == m,
        }
    } else if key == "flags"@ {
        let (d, radix) = flags_digits(value);
        match int_value(d, radix) {
            Some(v) if v <= u8::MAX => r is OK && n == (MetaView { flags: v as u8, ..m }),
            _ => usage(r, "Invalid "@ + key + " ("@ + u8_error_text(d, radix) + ")"@) && n == m,
        }
    } else if key == "font"@ {
        if value == ""@ || value == "IBM VGA"@ || value == "IBM VGA 437"@ {
            r is OK && n == (MetaView { font: trim_white(value), ..m })
        } else {
            usage(r, "Font is unsupported ("@ + value + ")"@) && n == m
        }
    } else if key == "notes"@ {
        r is OK && n == (MetaView { notes: notes_of(value), ..m })
    } else {
        usage(r, "Unknown key: "@ + key) && n == m
    }
}

/// Sets one field of the metadata from a key and a text value.
pub fn set_meta(meta: &mut Meta, key: &str, value: &str) -> (r: ExitCode)
    ensures
        edited(old(meta)@, key@, value@, final(meta)@, r),
{
    if same_text(key, "title") {
        meta.title = trim(value);
    } else if same_text(key, "author") {
        meta.author = trim(value);
    } else if same_text(key, "group") {
        meta.group = trim(value);
    } else if same_text(key, "date") {
        meta.date = trim(value);
    } else if same_text(key, "size") {
        return ExitCode::USAGE("Size can't be changed".to_owned());
    } else if same_text(key, "type") {
        let lower = to_lower(value);
        match type_from_lowercase(lower.as_str()) {
            Some(t) => {
                meta.file_type = t;
            },
            None => {
                let mut e = String::new();
                push_str(&mut e, "Type is unsupported (");
                push_str(&mut e, value);
                push_str(&mut e, ")");
                return ExitCode::USAGE(e);
            },
        }
    } else if same_text(key, "width") || same_text(key, "height") {
        match parse_u16(value) {
            Ok(v) => {
                if same_text(key, "width") {
                    meta.width = v;
                } else {
                    meta.height = v;
                }
            },
            Err(e) => {
                return invalid_value(key, e.as_str());
            },
        }
    } else if same_text(key, "flags") {
        let cs = chars_of(value);
        let (digits, radix) = if cs.len() >= 2 && cs[0] == '0' && cs[1] == 'x' {
            (string_from(cs.as_slice(), 2), 16)
        } else if cs.len() >= 2 && cs[0] == '0' && cs[1] == 'b' {
            (string_from(cs.as_slice(), 2), 2)
        } else {
            (string_from(cs.as_slice(), 0), 10)
        };
        assert(cs@.subrange(0, cs@.len() as int) =~= cs@);
        match parse_u8_radix(digits.as_str(), radix) {
            Ok(v) => {
                meta.flags = v;
            },
            Err(e) => {
                return invalid_value(key, e.as_str());
            },
        }
    } else if same_text(key, "font") {
        if same_text(value, "") || same_text(value, "IBM VGA") || same_text(value, "IBM VGA 437") {
            meta.font = trim(value);
        } else {
            let mut e = String::new();
            push_str(&mut e, "Font is unsupported (");
            push_str(&mut e, value);
            push_str(&mut e, ")");
            return ExitCode::USAGE(e);
        }
    } else if same_text(key, "notes") {
        meta.notes = split_notes(value);
    } else {
        let mut e = String::new();
        push_str(&mut e, "Unknown key: ");
        push_str(&mut e, key);
        return ExitCode::USAGE(e);
    }
    ExitCode::OK
}

/// Whether a character is a hexadecimal digit, in either case.
pub open spec fn is_hex(c: char) -> bool {
    digit_value(c, 16) is Some
}

/// How many hexadecimal digits, at most `max`, follow from index `j`.
pub open spec fn hex_run(s: Seq<char>, j: int, max: nat) -> nat
    decreases max,
{
    if max == 0 || j < 0 || j >= s.len() || !is_hex(s[j]) {
        0
    } else {
        1 + hex_run(s, j + 1, (max - 1) as nat)
    }
}

/// What a one-letter escape stands for.
pub open spec fn simple_escape(c: char) -> Option<char> {
    if c == '0' {
        Some('\u{0}')
    } else if c == 't' {
        Some('\t')
    } else if c == 'n' {
        Some('\n')
    } else if c == 'r' {
        Some('\r')
    } else if c == '\\' {
        Some('\\')
    } else {
        None
    }
}

/// Whether a number is a Unicode scalar value.
pub open spec fn is_scalar(v: nat) -> bool {
    v <= 0x10FFFF && !(0xD800 <= v <= 0xDFFF)
}

/// A character put in front of a result.
pub open spec fn prepend(c: char, r: Result<Seq<char>, Seq<char>>) -> Result<Seq<char>, Seq<char>> {
    match r {
        Ok(t) => Ok(seq![c] + t),
        Err(e) => Err(e),
    }
}

/// A text put in front of a result.
pub open spec fn after(out: Seq<char>, r: Result<Seq<char>, Seq<char>>) -> Result<Seq<char>, Seq<char>> {
    match r {
        Ok(t) => Ok(out + t),
        Err(e) => Err(e),
    }
}

/// The text from index `i` on with escapes replaced: `\0`, `\t`, `\n`,
/// `\r` and `\\`; `\x` with one or two hex digits (a byte value); `\u`
/// with one to six hex digits (a code point, which must be a scalar value).
/// A backslash that starts none of these stays as it is.
pub open spec fn unescape_from(s: Seq<char>, i: int) -> Result<Seq<char>, Seq<char>>
    decreases s.len() - i,
{
    if i < 0 || i >= s.len() {
        Ok(seq![])
    } else if s[i] == '\\' && i + 1 < s.len() && simple_escape(s[i + 1]) is Some {
        prepend(simple_escape(s[i + 1])->0, unescape_from(s, i + 2))
    } else if s[i] == '\\' && i + 1 < s.len() && s[i + 1] == 'x' && hex_run(s, i + 2, 2) > 0
        && i + 2 + hex_run(s, i + 2, 2) <= s.len() {
        let k = hex_run(s, i + 2, 2) as int;
        let v = digits_in(s.subrange(i + 2, i + 2 + k), 16)->0;
        prepend(((v as u8) as char), unescape_from(s, i + 2 + k))
    } else if s[i] == '\\' && i + 1 < s.len() && s[i + 1] == 'u' && hex_run(s, i + 2, 6) > 0
        && i + 2 + hex_run(s, i + 2, 6) <= s.len() {
        let k = hex_run(s, i + 2, 6) as int;
        let v = digits_in(s.subrange(i + 2, i + 2 + k), 16)->0;
        if is_scalar(v) {
            prepend(((v as u32) as char), unescape_from(s, i + 2 + k))
        } else {
            Err("Invalid unicode: "@ + s.subrange(i + 2, i + 2 + k))
        }
    } else {
        prepend(s[i], unescape_from(s, i + 1))
    }
}

/// Relies on `char::from_u32`: the character with that code point, where
/// it is a scalar value.
#[verifier::external_body]
fn char_from(v: u32) -> (r: Option<char>)
    ensures
        r is Some <==> is_scalar(v as nat),
        r matches Some(c) ==> c == (v as char),
{
    char::from_u32(v)
}

fn hex_digit(c: char) -> (r: Option<u32>)
    ensures
        match digit_value(c, 16) {
            Some(d) => r == Some(d as u32),
            None => r is None,
        },
{
    if '0' <= c && c <= '9' {
        Some(c as u32 - 48)
    } else if 'a' <= c && c <= 'f' {
        Some(c as u32 - 87)
    } else if 'A' <= c && c <= 'F' {
        Some(c as u32 - 55)
    } else {
        proof {
            assert(!('a' <= c && c <= 'z') || (c as nat - 87) >= 16);
            assert(!('A' <= c && c <= 'Z') || (c as nat - 55) >= 16);
        }
        None
    }
}

/// Reads up to `max` hex digits from index `j`: how many, and their value.
fn read_hex(cs: &[char], j: usize, max: usize) -> (r: (usize, u32))
    requires
        max <= 6,
        j <= cs@.len(),
    ensures
        r.0 == hex_run(cs@, j as int, max as nat),
        r.0 <= max,
        j + r.0 <= cs@.len(),
        r.1 < pow16(r.0 as nat),
        r.0 > 0 ==> r.1 as nat == digits_in(cs@.subrange(j as int, j + r.0), 16)->0
            && digits_in(cs@.subrange(j as int, j + r.0), 16) is Some,
{
    let mut k: usize = 0;
    let mut v: u32 = 0;
    let len = cs.len();
    let mut done = false;
    proof {
        lemma_pow16_values();
    }
    while !done && k < max && j + k < len
        invariant
            len == cs@.len(),
            max <= 6,
            k <= max,
            j <= cs@.len(),
            j + k <= cs@.len(),
            done ==> j + k < cs@.len() && !is_hex(cs@[j + k]),
            hex_run(cs@, j as int, max as nat) == k + hex_run(cs@, j + k, (max - k) as nat),
            k > 0 ==> digits_in(cs@.subrange(j as int, j + k), 16) == Some(v as nat),
            v < pow16(k as nat),
        decreases max - k + if done { 0int } else { 1int },
    {
        match hex_digit(cs[j + k]) {
            None => {
                done = true;
            },
            Some(d) => {
                assert(cs@.subrange(j as int, j + k + 1).drop_last() =~= cs@.subrange(j as int, j + k));
                if k == 0 {
                    assert(cs@.subrange(j as int, j as int) =~= Seq::<char>::empty());
                }
                proof {
                    lemma_pow16_bound(k as nat, v as nat, d as nat);
                }
                v = v * 16 + d;
                k = k + 1;
            },
        }
    }
    (k, v)
}

/// Sixteen to the power `k`.
pub open spec fn pow16(k: nat) -> nat
    decreases k,
{
    if k == 0 {
        1
    } else {
        16 * pow16((k - 1) as nat)
    }
}

proof fn lemma_pow16_values()
    ensures
        pow16(0) == 1,
        pow16(1) == 16,
        pow16(2) == 256,
        pow16(3) == 4096,
        pow16(4) == 65536,
        pow16(5) == 1048576,
        pow16(6) == 16777216,
{
    assert(pow16(0) == 1);
    assert(pow16(1) == 16);
    assert(pow16(2) == 256);
    assert(pow16(3) == 4096);
    assert(pow16(4) == 65536);
    assert(pow16(5) == 1048576);
    assert(pow16(6) == 16777216);
}

proof fn lemma_pow16_bound(k: nat, v: nat, d: nat)
    requires
        k < 6,
        v < pow16(k),
        d < 16,
    ensures
        v * 16 + d < pow16(k + 1),
        pow16(k + 1) <= 0x1000000,
{
    lemma_pow16_values();
    assert(v * 16 + d < pow16(k) * 16) by (nonlinear_arith)
        requires
            v < pow16(k),
            d < 16,
    {
    }
}

/// Replaces the escapes of a text; fails on a `\u` code point that is not
/// a scalar value.
pub fn escape(haystack: &str) -> (r: Result<String, String>)
    ensures
        match unescape_from(haystack@, 0) {
            Ok(t) => r matches Ok(x) && x@ == t,
            Err(e) => r matches Err(x) && x@ == e,
        },
{
    let cs = chars_of(haystack);
    let n = cs.len();
    let mut out = String::new();
    let mut i: usize = 0;
    while i < n
        invariant
            cs@ == haystack@,
            n == cs@.len(),
            i <= n,
            unescape_from(cs@, 0) == after(out@, unescape_from(cs@, i as int)),
        decreases n - i,
    {
        let c = cs[i];
        if c == '\\' && i + 1 < n {
            let e = cs[i + 1];
            let simple = if e == '0' {
                Some('\u{0}')
            } else if e == 't' {
                Some('\t')
            } else if e == 'n' {
                Some('\n')
            } else if e == 'r' {
                Some('\r')
            } else if e == '\\' {
                Some('\\')
            } else {
                None
            };
            if let Some(x) = simple {
                let ghost before = out@;
                push_char(&mut out, x);
                proof {
                    lemma_after_push(before, x, unescape_from(cs@, i + 2));
                }
                i = i + 2;
                continue;
            }
            if e == 'x' || e == 'u' {
                let max: usize = if e == 'x' { 2 } else { 6 };
                let (k, v) = read_hex(cs.as_slice(), i + 2, max);
                if k > 0 {
                    let ghost before = out@;
                    if e == 'x' {
                        proof {
                            lemma_pow16_values();
                        }
                        assert(v < 256);
                        let x = (v as u8) as char;
                        push_char(&mut out, x);
                        proof {
                            lemma_after_push(before, x, unescape_from(cs@, i + 2 + k));
                        }
                    } else {
                        match char_from(v) {
                            Some(x) => {
                                push_char(&mut out, x);
                                proof {
                                    lemma_after_push(before, x, unescape_from(cs@, i + 2 + k));
                                }
                            },
                            None => {
                                let mut msg = String::new();
                                push_str(&mut msg, "Invalid unicode: ");
                                let digits = string_range(cs.as_slice(), i + 2, i + 2 + k);
                                push_str(&mut msg, digits.as_str());
                                return Err(msg);
                            },
                        }
                    }
                    i = i + 2 + k;
                    continue;
                }
            }
        }
        let ghost before = out@;
        push_char(&mut out, c);
        proof {
            lemma_after_push(before, c, unescape_from(cs@, i + 1));
        }
        i = i + 1;
    }
    assert(out@ + Seq::<char>::empty() =~= out@);
    Ok(out)
}

proof fn lemma_after_push(out: Seq<char>, c: char, r: Result<Seq<char>, Seq<char>>)
    ensures
        after(out, prepend(c, r)) == after(out.push(c), r),
{
    match r {
        Ok(t) => {
            assert(out + (seq![c] + t) =~= out.push(c) + t);
        },
        Err(e) => {},
    }
}

/// A string of the characters in `cs[lo..hi]`.
fn string_range(cs: &[char], lo: usize, hi: usize) -> (r: String)
    requires
        lo <= hi <= cs@.len(),
    ensures
        r@ == cs@.subrange(lo as int, hi as int),
{
    let mut r = String::new();
    let mut i: usize = lo;
    while i < hi
        invariant
            lo <= i <= hi <= cs@.len(),
            r@ == cs@.subrange(lo as int, i as int),
        decreases hi - i,
    {
        push_char(&mut r, cs[i]);
        i = i + 1;
        assert(r@ =~= cs@.subrange(lo as int, i as int));
    }
    r
}

} // verus!
