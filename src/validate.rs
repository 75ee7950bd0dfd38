//! The rules that a metadata record must follow, one check per field.
use vstd::prelude::*;
use vstd::utf8::encode_utf8;

use crate::cp437::{byte_to_char, cp437_char, is_cp437, lemma_byte_round_trip, lemma_char_round_trip, unmappable_message};
use crate::meta::{Meta, MetaView};
use crate::text::{chars_of, same_text, decimal, digit_char, push_char, push_decimal, push_hex, push_str, push_zero_padded, zero_padded};

verus! {

/// A check's result against the message it owes: `None` is success.
pub open spec fn reports(r: Result<(), String>, e: Option<Seq<char>>) -> bool {
    match e {
        None => r is Ok,
        Some(m) => r matches Err(x) && x@ == m,
    }
}

/// The length of a text in UTF-8 bytes, as `str::len` gives it (a text in
/// memory always has a length that fits in `usize`).
pub open spec fn byte_len(s: Seq<char>) -> nat {
    encode_utf8(s).len() as usize as nat
}

/// Characters kept for framing, line endings and escape sequences.
pub open spec fn is_reserved(c: char) -> bool {
    c == '\u{0}' || c == '\n' || c == '\r' || c == '\u{1a}' || c == '\u{1b}'
}

/// Characters that a text field may hold.
pub open spec fn is_legal(c: char) -> bool {
    !is_reserved(c) && is_cp437(c)
}

/// Whether every character of the text may stand in a field.
pub open spec fn all_legal(s: Seq<char>) -> bool {
    forall|i: int| 0 <= i < s.len() ==> is_legal(#[trigger] s[i])
}

/// The index of the first character that may not stand in a field.
pub open spec fn first_illegal(s: Seq<char>) -> int {
    choose|i: int| 0 <= i < s.len() && !is_legal(s[i]) && all_legal(s.subrange(0, i))
}

/// Why a character may not stand in a field.
pub open spec fn char_message(c: char) -> Seq<char> {
    if is_reserved(c) {
        "0x"@ + seq![digit_char(c as u32 as nat / 16), digit_char(c as u32 as nat % 16)]
            + " is a control character"@
    } else {
        unmappable_message(c)
    }
}

/// What is wrong with a character, if anything.
pub open spec fn char_error(c: char) -> Option<Seq<char>> {
    if is_legal(c) {
        None
    } else {
        Some(char_message(c))
    }
}

/// What is wrong with a text field named `name` of at most `max` bytes.
pub open spec fn str_error(s: Seq<char>, name: Seq<char>, max: nat) -> Option<Seq<char>> {
    if byte_len(s) > max {
        Some(
            name + " is too long (expected <="@ + decimal(max) + ", got "@ + decimal(byte_len(s))
                + ")"@,
        )
    } else if !all_legal(s) {
        Some(name + " contains illegal characters ("@ + char_message(s[first_illegal(s)]) + ")"@)
    } else {
        None
    }
}

/// Whether some byte of the table stands for the character.
fn in_table(c: char) -> (r: bool)
    ensures
        r == is_cp437(c),
{
    let mut b: u16 = 0;
    while b < 256
        invariant
            b <= 256,
            forall|x: u8| x < b ==> cp437_char(x) != c,
        decreases 256 - b,
    {
        if byte_to_char(b as u8) == c {
            proof {
                lemma_byte_round_trip(b as u8);
            }
            return true;
        }
        b = b + 1;
    }
    proof {
        lemma_char_round_trip(c);
    }
    false
}

/// Checks that a character may stand in a text field.
pub fn check_char(c: char) -> (r: Result<(), String>)
    ensures
        reports(r, char_error(c)),
{
    if c == '\u{0}' || c == '\n' || c == '\r' || c == '\u{1a}' || c == '\u{1b}' {
        let v = c as u32 as u64;
        let mut e = String::new();
        push_str(&mut e, "0x");
        push_hex(&mut e, v / 16);
        push_hex(&mut e, v % 16);
        push_str(&mut e, " is a control character");
        assert(e@ =~= char_message(c));
        Err(e)
    } else if !in_table(c) {
        let mut e = String::new();
        push_char(&mut e, c);
        push_str(&mut e, " (U+");
        push_hex(&mut e, c as u32 as u64);
        push_str(&mut e, ") is not a valid CP437 character");
        Err(e)
    } else {
        Ok(())
    }
}

/// Checks a text field named `name` of at most `max_length` UTF-8 bytes.
pub fn check_str(string: &str, name: &str, max_length: usize) -> (r: Result<(), String>)
    ensures
        reports(r, str_error(string@, name@, max_length as nat)),
{
    let len = string.len();
    assert(len as nat == byte_len(string@));
    if len > max_length {
        let mut e = String::new();
        push_str(&mut e, name);
        push_str(&mut e, " is too long (expected <=");
        push_decimal(&mut e, max_length as u64);
        push_str(&mut e, ", got ");
        push_decimal(&mut e, len as u64);
        push_str(&mut e, ")");
        return Err(e);
    }
    let cs = chars_of(string);
    let mut i: usize = 0;
    while i < cs.len()
        invariant
            cs@ == string@,
            byte_len(string@) <= max_length,
            i <= cs@.len(),
            all_legal(cs@.subrange(0, i as int)),
        decreases cs@.len() - i,
    {
        match check_char(cs[i]) {
            Ok(()) => {},
            Err(msg) => {
                let mut e = String::new();
                push_str(&mut e, name);
                push_str(&mut e, " contains illegal characters (");
                push_str(&mut e, msg.as_str());
                push_str(&mut e, ")");
                proof {
                    let s = string@;
                    assert(cs@.subrange(0, i as int) =~= s.subrange(0, i as int));
                    assert(!is_legal(s[i as int]) && all_legal(s.subrange(0, i as int)));
                    let k = first_illegal(s);
                    assert(0 <= k < s.len() && !is_legal(s[k]) && all_legal(s.subrange(0, k)));
                    if k < i {
                        assert(cs@.subrange(0, i as int)[k] == s[k]);
                    } else if k > i {
                        assert(s.subrange(0, k)[i as int] == s[i as int]);
                    }
                    assert(k == i);
                    assert(e@ =~= name@ + " contains illegal characters ("@ + char_message(s[k]) + ")"@);
                }
                return Err(e);
            },
        }
        i = i + 1;
        assert forall|j: int| 0 <= j < i implies is_legal(#[trigger] cs@.subrange(0, i as int)[j]) by {
            if j < i - 1 {
                assert(cs@.subrange(0, i - 1)[j] == cs@[j]);
            }
        }
    }
    assert(cs@.subrange(0, i as int) =~= cs@);
    Ok(())
}

/// What is wrong with a title, if anything.
pub open spec fn title_error(m: MetaView) -> Option<Seq<char>> {
    str_error(m.title, "Title"@, 35)
}

/// What is wrong with an author, if anything.
pub open spec fn author_error(m: MetaView) -> Option<Seq<char>> {
    str_error(m.author, "Author"@, 20)
}

/// What is wrong with a group, if anything.
pub open spec fn group_error(m: MetaView) -> Option<Seq<char>> {
    str_error(m.group, "Group"@, 20)
}

/// Checks the title of the metadata, if there is any.
pub fn check_title(meta: Option<&Meta>) -> (r: Result<(), String>)
    ensures
        meta is None ==> r is Ok,
        meta matches Some(m) ==> reports(r, title_error(m@)),
{
    match meta {
        None => Ok(()),
        Some(m) => check_str(m.title.as_str(), "Title", 35),
    }
}

/// Checks the author of the metadata, if there is any.
pub fn check_author(meta: Option<&Meta>) -> (r: Result<(), String>)
    ensures
        meta is None ==> r is Ok,
        meta matches Some(m) ==> reports(r, author_error(m@)),
{
    match meta {
        None => Ok(()),
        Some(m) => check_str(m.author.as_str(), "Author", 20),
    }
}

/// Checks the group of the metadata, if there is any.
pub fn check_group(meta: Option<&Meta>) -> (r: Result<(), String>)
    ensures
        meta is None ==> r is Ok,
        meta matches Some(m) ==> reports(r, group_error(m@)),
{
    match meta {
        None => Ok(()),
        Some(m) => check_str(m.group.as_str(), "Group", 20),
    }
}

/// What reading a text as a `%Y%m%d` calendar date reports: `None` where it
/// is a date, else the reason.
pub uninterp spec fn date_parse_error(s: Seq<char>) -> Option<Seq<char>>;

/// Relies on chrono's `NaiveDate::parse_from_str` with format `%Y%m%d`:
/// success where the text is a calendar date, else an error whose text is
/// its `Display`.
#[verifier::external_body]
fn parse_date(s: &str) -> (r: Option<String>)
    ensures
        r is None <==> date_parse_error(s@) is None,
        r matches Some(e) ==> date_parse_error(s@) == Some(e@),
{
    match chrono::NaiveDate::parse_from_str(s, "%Y%m%d") {
        Ok(_) => None,
        Err(e) => Some(e.to_string()),
    }
}

/// The message for a date that does not parse, given what parsing reported.
pub open spec fn date_format_message(reason: Seq<char>) -> Seq<char> {
    "Date format is wrong ("@ + reason + ")"@
}

/// Whether every character is an ASCII digit.
pub open spec fn all_ascii_digits(d: Seq<char>) -> bool {
    forall|i: int| 0 <= i < d.len() ==> '0' <= #[trigger] d[i] && d[i] <= '9'
}

/// The message for an eight-byte date that is not eight digits.
pub open spec fn date_digits_message() -> Seq<char> {
    "Date format is wrong (expected YYYYMMDD digits)"@
}

/// What is wrong with a date, if anything: it must be empty, or eight
/// ASCII digits that read as a calendar date `YYYYMMDD`.
pub open spec fn date_error(d: Seq<char>) -> Option<Seq<char>> {
    if d.len() == 0 {
        None
    } else if byte_len(d) != 8 {
        Some("Date length is wrong (expected =8, got "@ + decimal(byte_len(d)) + ")"@)
    } else if !all_ascii_digits(d) {
        Some(date_digits_message())
    } else {
        match date_parse_error(d) {
            None => None,
            Some(reason) => Some(date_format_message(reason)),
        }
    }
}

/// The outcome of the date check once the date has been parsed: `parsed`
/// is `None` where it parsed, else the reason it did not.
pub fn check_parsed_date(parsed: Option<&str>) -> (r: Result<(), String>)
    ensures
        parsed is None ==> r is Ok,
        parsed matches Some(reason) ==> r matches Err(e) && e@ == date_format_message(reason@),
{
    match parsed {
        None => Ok(()),
        Some(reason) => {
            let mut e = String::new();
            push_str(&mut e, "Date format is wrong (");
            push_str(&mut e, reason);
            push_str(&mut e, ")");
            Err(e)
        },
    }
}

/// Checks that the date is empty or eight digits that form a calendar date.
pub fn check_date(meta: Option<&Meta>) -> (r: Result<(), String>)
    ensures
        meta is None ==> r is Ok,
        meta matches Some(m) ==> reports(r, date_error(m.date@)),
{
    match meta {
        None => Ok(()),
        Some(m) => {
            let d = m.date.as_str();
            if d.is_empty() {
                return Ok(());
            }
            let len = d.len();
            assert(len as nat == byte_len(d@));
            if len != 8 {
                let mut e = String::new();
                push_str(&mut e, "Date length is wrong (expected =8, got ");
                push_decimal(&mut e, len as u64);
                push_str(&mut e, ")");
                return Err(e);
            }
            let cs = chars_of(d);
            let mut i: usize = 0;
            while i < cs.len()
                invariant
                    meta == Some(m),
                    d@ == m.date@,
                    d@.len() > 0,
                    byte_len(d@) == 8,
                    cs@ == d@,
                    i <= cs@.len(),
                    forall|j: int| 0 <= j < i ==> '0' <= #[trigger] cs@[j] && cs@[j] <= '9',
                decreases cs@.len() - i,
            {
                if !('0' <= cs[i] && cs[i] <= '9') {
                    assert(!all_ascii_digits(d@));
                    return Err("Date format is wrong (expected YYYYMMDD digits)".to_owned());
                }
                i = i + 1;
            }
            let parsed = parse_date(d);
            match parsed {
                None => Ok(()),
                Some(reason) => check_parsed_date(Some(reason.as_str())),
            }
        },
    }
}

/// A readable name for a file type.
pub open spec fn file_type_name_text(t: (u8, u8)) -> Seq<char> {
    if t.0 == 0 {
        "None"@
    } else if t.0 == 1 {
        if t.1 == 0 {
            "Character/ASCII"@
        } else if t.1 == 1 {
            "Character/ANSi"@
        } else if t.1 == 2 {
            "Character/ANSiMation"@
        } else if t.1 == 3 {
            "Character/RIPScript"@
        } else if t.1 == 4 {
            "Character/PCBoard"@
        } else if t.1 == 5 {
            "Character/Avatar"@
        } else if t.1 == 6 {
            "Character/HTML"@
        } else if t.1 == 7 {
            "Character/Source"@
        } else if t.1 == 8 {
            "Character/TundraDraw"@
        } else {
            "Character/Unknown "@ + decimal(t.1 as nat)
        }
    } else if t.0 == 2 {
        "Bitmap"@
    } else if t.0 == 3 {
        "Vector"@
    } else if t.0 == 4 {
        "Audio"@
    } else if t.0 == 5 {
        "BinaryText"@
    } else if t.0 == 6 {
        "XBin"@
    } else if t.0 == 7 {
        "Archive"@
    } else if t.0 == 8 {
        "Executable"@
    } else {
        "Unknown "@ + decimal(t.0 as nat) + "/Unknown "@ + decimal(t.1 as nat)
    }
}

/// A readable name for a file type.
pub fn file_type_name(file_type: (u8, u8)) -> (r: String)
    ensures
        r@ == file_type_name_text(file_type),
{
    let (major, minor) = file_type;
    let mut r = String::new();
    if major == 0 {
        push_str(&mut r, "None");
    } else if major == 1 {
        if minor == 0 {
            push_str(&mut r, "Character/ASCII");
        } else if minor == 1 {
            push_str(&mut r, "Character/ANSi");
        } else if minor == 2 {
            push_str(&mut r, "Character/ANSiMation");
        } else if minor == 3 {
            push_str(&mut r, "Character/RIPScript");
        } else if minor == 4 {
            push_str(&mut r, "Character/PCBoard");
        } else if minor == 5 {
            push_str(&mut r, "Character/Avatar");
        } else if minor == 6 {
            push_str(&mut r, "Character/HTML");
        } else if minor == 7 {
            push_str(&mut r, "Character/Source");
        } else if minor == 8 {
            push_str(&mut r, "Character/TundraDraw");
        } else {
            push_str(&mut r, "Character/Unknown ");
            push_decimal(&mut r, minor as u64);
        }
    } else if major == 2 {
        push_str(&mut r, "Bitmap");
    } else if major == 3 {
        push_str(&mut r, "Vector");
    } else if major == 4 {
        push_str(&mut r, "Audio");
    } else if major == 5 {
        push_str(&mut r, "BinaryText");
    } else if major == 6 {
        push_str(&mut r, "XBin");
    } else if major == 7 {
        push_str(&mut r, "Archive");
    } else if major == 8 {
        push_str(&mut r, "Executable");
    } else {
        push_str(&mut r, "Unknown ");
        push_decimal(&mut r, major as u64);
        push_str(&mut r, "/Unknown ");
        push_decimal(&mut r, minor as u64);
    }
    assert(r@ =~= file_type_name_text(file_type));
    r
}

/// What is wrong with a file type, if anything: both parts must be 0 or 1.
pub open spec fn type_error(t: (u8, u8)) -> Option<Seq<char>> {
    if t.0 <= 1 && t.1 <= 1 {
        None
    } else {
        Some("Type is unsupported ("@ + file_type_name_text(t) + ")"@)
    }
}

/// Checks that the file type is none, ASCII or ANSI.
pub fn check_type(meta: Option<&Meta>) -> (r: Result<(), String>)
    ensures
        meta is None ==> r is Ok,
        meta matches Some(m) ==> reports(r, type_error(m.file_type)),
{
    match meta {
        None => Ok(()),
        Some(m) => {
            if m.file_type.0 <= 1 && m.file_type.1 <= 1 {
                Ok(())
            } else {
                let mut e = String::new();
                push_str(&mut e, "Type is unsupported (");
                let name = file_type_name(m.file_type);
                push_str(&mut e, name.as_str());
                push_str(&mut e, ")");
                Err(e)
            }
        },
    }
}

/// What is wrong with a flags byte, if anything, in the order the rules
/// are checked: the non-blink bit, letter spacing, aspect ratio, high bits.
pub open spec fn flags_error(f: u8) -> Option<Seq<char>> {
    if f % 2 == 0 {
        Some("Blink mode is unsupported"@)
    } else if (f / 2) % 4 == 3 {
        Some("Invalid letter spacing"@)
    } else if (f / 8) % 4 == 3 {
        Some("Invalid aspect ratio"@)
    } else if f > 0x1F {
        Some("Invalid flags"@)
    } else {
        None
    }
}

/// Checks the flags: non-blink mode, and no reserved bit pattern.
pub fn check_flags(meta: Option<&Meta>) -> (r: Result<(), String>)
    ensures
        meta is None ==> r is Ok,
        meta matches Some(m) ==> reports(r, flags_error(m.flags)),
{
    match meta {
        None => Ok(()),
        Some(m) => {
            let f = m.flags;
            if f % 2 == 0 {
                Err("Blink mode is unsupported".to_owned())
            } else if (f / 2) % 4 == 3 {
                Err("Invalid letter spacing".to_owned())
            } else if (f / 8) % 4 == 3 {
                Err("Invalid aspect ratio".to_owned())
            } else if f > 0x1F {
                Err("Invalid flags".to_owned())
            } else {
                Ok(())
            }
        },
    }
}

/// The font names that are supported; empty means the default.
pub open spec fn is_supported_font(f: Seq<char>) -> bool {
    f == "IBM VGA"@ || f == "IBM VGA 437"@ || f == ""@
}

/// What is wrong with a font, if anything.
pub open spec fn font_error(f: Seq<char>) -> Option<Seq<char>> {
    if is_supported_font(f) {
        None
    } else {
        Some("Font is unsupported ("@ + f + ")"@)
    }
}

/// Checks that the font is IBM VGA, IBM VGA 437 or empty.
pub fn check_font(meta: Option<&Meta>) -> (r: Result<(), String>)
    ensures
        meta is None ==> r is Ok,
        meta matches Some(m) ==> reports(r, font_error(m.font@)),
{
    match meta {
        None => Ok(()),
        Some(m) => {
            let f = m.font.as_str();
            if same_text(f, "IBM VGA") || same_text(f, "IBM VGA 437") || same_text(f, "") {
                Ok(())
            } else {
                let mut e = String::new();
                push_str(&mut e, "Font is unsupported (");
                push_str(&mut e, f);
                push_str(&mut e, ")");
                Err(e)
            }
        },
    }
}

/// The number of digits that note labels are padded to for `n` notes: the
/// least `k` with `10^k >= n`.
pub open spec fn label_width(n: nat) -> nat
    decreases n,
{
    if n <= 1 {
        0
    } else {
        1 + label_width(((n + 9) / 10) as nat)
    }
}

/// The number of digits that note labels are padded to for `n` notes.
pub fn label_width_of(n: u64) -> (k: u64)
    ensures
        k as nat == label_width(n as nat),
        k <= n,
    decreases n,
{
    if n <= 1 {
        0
    } else {
        1 + label_width_of(n / 10 + if n % 10 != 0 { 1 } else { 0 })
    }
}

/// The label of note `i` among `n`.
pub open spec fn note_label(i: nat, n: nat) -> Seq<char> {
    "Notes["@ + zero_padded(i, label_width(n)) + "]"@
}

/// What is wrong with note `i`, if anything.
pub open spec fn note_error(notes: Seq<Seq<char>>, i: int) -> Option<Seq<char>> {
    str_error(notes[i], note_label(i as nat, notes.len()), 64)
}

/// The first problem among the notes from index `i` on.
pub open spec fn notes_error_from(notes: Seq<Seq<char>>, i: int) -> Option<Seq<char>>
    decreases notes.len() - i,
{
    if i < 0 || i >= notes.len() {
        None
    } else if note_error(notes, i) is Some {
        note_error(notes, i)
    } else {
        notes_error_from(notes, i + 1)
    }
}

/// What is wrong with the notes, if anything.
pub open spec fn notes_error(notes: Seq<Seq<char>>) -> Option<Seq<char>> {
    if notes.len() > 255 {
        Some("Too many notes (expected <= 255, got "@ + decimal(notes.len()) + ")"@)
    } else {
        notes_error_from(notes, 0)
    }
}

/// Checks note `i` of the metadata, if there is any.
pub fn check_note(meta: Option<&Meta>, i: usize) -> (r: Result<(), String>)
    requires
        meta matches Some(m) ==> i < m.notes@.len(),
    ensures
        meta is None ==> r is Ok,
        meta matches Some(m) ==> reports(r, note_error(m@.notes, i as int)),
{
    match meta {
        None => Ok(()),
        Some(m) => {
            let mut label = String::new();
            push_str(&mut label, "Notes[");
            push_zero_padded(&mut label, i as u64, label_width_of(m.notes.len() as u64));
            push_str(&mut label, "]");
            assert(label@ =~= note_label(i as nat, m@.notes.len()));
            check_str(m.notes[i].as_str(), label.as_str(), 64)
        },
    }
}

/// Checks the number of notes and each note in order.
pub fn check_notes(meta: Option<&Meta>) -> (r: Result<(), String>)
    ensures
        meta is None ==> r is Ok,
        meta matches Some(m) ==> reports(r, notes_error(m@.notes)),
{
    match meta {
        None => Ok(()),
        Some(m) => {
            let n = m.notes.len();
            if n > 255 {
                let mut e = String::new();
                push_str(&mut e, "Too many notes (expected <= 255, got ");
                push_decimal(&mut e, n as u64);
                push_str(&mut e, ")");
                return Err(e);
            }
            let mut i: usize = 0;
            while i < n
                invariant
                    meta == Some(m),
                    n == m.notes@.len(),
                    n <= 255,
                    i <= n,
                    notes_error_from(m@.notes, 0) == notes_error_from(m@.notes, i as int),
                decreases n - i,
            {
                let r = check_note(meta, i);
                if r.is_err() {
                    return r;
                }
                i = i + 1;
            }
            Ok(())
        },
    }
}

/// The first problem with the metadata, in the order title, author, group,
/// date, type, flags, font, notes.
pub open spec fn meta_error(m: MetaView) -> Option<Seq<char>> {
    if title_error(m) is Some {
        title_error(m)
    } else if author_error(m) is Some {
        author_error(m)
    } else if group_error(m) is Some {
        group_error(m)
    } else if date_error(m.date) is Some {
        date_error(m.date)
    } else if type_error(m.file_type) is Some {
        type_error(m.file_type)
    } else if flags_error(m.flags) is Some {
        flags_error(m.flags)
    } else if font_error(m.font) is Some {
        font_error(m.font)
    } else {
        notes_error(m.notes)
    }
}

/// Whether the metadata follows every rule.
pub open spec fn is_valid(m: MetaView) -> bool {
    meta_error(m) is None
}

/// Checks every rule and reports the first that fails; absent metadata is
/// valid.
pub fn check(meta: Option<&Meta>) -> (r: Result<(), String>)
    ensures
        meta is None ==> r is Ok,
        meta matches Some(m) ==> reports(r, meta_error(m@)),
{
    let r = check_title(meta);
    if r.is_err() {
        return r;
    }
    let r = check_author(meta);
    if r.is_err() {
        return r;
    }
    let r = check_group(meta);
    if r.is_err() {
        return r;
    }
    let r = check_date(meta);
    if r.is_err() {
        return r;
    }
    let r = check_type(meta);
    if r.is_err() {
        return r;
    }
    let r = check_flags(meta);
    if r.is_err() {
        return r;
    }
    let r = check_font(meta);
    if r.is_err() {
        return r;
    }
    check_notes(meta)
}

/// The flag rules as bit masks: with bit 0 clear the flags fail as blink
/// mode; with it set, letter-spacing bits `11` (mask 0x06) fail as invalid
/// letter spacing, and otherwise aspect-ratio bits `11` (mask 0x18) fail as
/// an invalid aspect ratio.
pub proof fn lemma_flag_masks(f: u8)
    ensures
        f & 0x01 == 0 ==> flags_error(f) == Some("Blink mode is unsupported"@),
        f & 0x01 == 1 && f & 0x06 == 0x06 ==> flags_error(f) == Some("Invalid letter spacing"@),
        f & 0x01 == 1 && f & 0x06 != 0x06 && f & 0x18 == 0x18 ==> flags_error(f) == Some(
            "Invalid aspect ratio"@,
        ),
        flags_error(f) is None <==> (f & 0x01 == 1 && f & 0x06 != 0x06 && f & 0x18 != 0x18 && f
            <= 0x1F),
{
    assert((f & 0x01 == 0) <==> (f % 2 == 0)) by (bit_vector);
    assert((f & 0x01 == 1) <==> (f % 2 == 1)) by (bit_vector);
    assert((f & 0x06 == 0x06) <==> ((f / 2) % 4 == 3)) by (bit_vector);
    assert((f & 0x18 == 0x18) <==> ((f / 8) % 4 == 3)) by (bit_vector);
}

} // verus!
