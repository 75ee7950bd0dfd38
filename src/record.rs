//! The trailing metadata record: finding it at the end of a file, reading
//! its fields, and writing it back.
//!
//! Every field sits at a fixed distance from the end of the record. The
//! record is a 0x1A byte, an optional comment block (`COMNT` followed by
//! 64-byte lines), and a 128-byte block that starts with `SAUCE00`.
use vstd::prelude::*;
use vstd::utf8::encode_utf8;

use crate::cp437::{
    cp437_char, decode, encodable, encode, first_unmappable, is_cp437, lemma_char_round_trip,
    lemma_text_round_trip, to_cp437, to_utf8, unmappable_message,
};
use crate::validate::{is_legal, is_valid, note_error, notes_error_from, str_error};
use crate::meta::{Meta, MetaView};

verus! {

/// The bytes `SAUCE00`.
pub open spec fn sauce_tag() -> Seq<u8> {
    seq![0x53u8, 0x41u8, 0x55u8, 0x43u8, 0x45u8, 0x30u8, 0x30u8]
}

/// The bytes `COMNT`.
pub open spec fn comnt_tag() -> Seq<u8> {
    seq![0x43u8, 0x4Fu8, 0x4Du8, 0x4Eu8, 0x54u8]
}

/// The byte that ends a file's content and opens its record.
pub const EOF_MARK: u8 = 0x1A;

/// The length of a record with `count` comment lines.
pub open spec fn record_len(count: u8) -> nat {
    (count * 64 + if count > 0 { 134int } else { 129int }) as nat
}

/// The comment count, read 24 bytes from the end.
pub open spec fn comment_count(bytes: Seq<u8>) -> u8 {
    bytes[bytes.len() - 24]
}

/// Whether a file ends with a well-formed record.
pub open spec fn has_record(file: Seq<u8>) -> bool {
    let len = file.len();
    let rl = record_len(comment_count(file));
    &&& len >= 129
    &&& file.subrange(len - 128, len - 121) == sauce_tag()
    &&& rl <= len
    &&& file[len - rl] == EOF_MARK
    &&& comment_count(file) > 0 ==> file.subrange(len - rl + 1, len - rl + 6) == comnt_tag()
}

/// The record at the end of a file, if there is one.
pub open spec fn located(file: Seq<u8>) -> Option<Seq<u8>> {
    if has_record(file) {
        Some(file.subrange(file.len() - record_len(comment_count(file)), file.len() as int))
    } else {
        None
    }
}

/// Whether bytes have the length of a record with the comment count they
/// hold.
pub open spec fn is_record(raw: Seq<u8>) -> bool {
    raw.len() >= 129 && raw.len() == record_len(comment_count(raw))
}

fn bytes_at(file: &[u8], at: usize, tag: &[u8]) -> (r: bool)
    requires
        at + tag@.len() <= file@.len(),
    ensures
        r == (file@.subrange(at as int, at + tag@.len()) == tag@),
{
    let flen = file.len();
    let mut i: usize = 0;
    while i < tag.len()
        invariant
            flen == file@.len(),
            at + tag@.len() <= file@.len(),
            i <= tag@.len(),
            forall|j: int| 0 <= j < i ==> file@[at + j] == tag@[j],
        decreases tag@.len() - i,
    {
        if file[at + i] != tag[i] {
            assert(file@.subrange(at as int, at + tag@.len())[i as int] != tag@[i as int]);
            return false;
        }
        i = i + 1;
    }
    assert(file@.subrange(at as int, at + tag@.len()) =~= tag@);
    true
}

/// Finds the record at the end of a file: `None` where the file is shorter
/// than 129 bytes, or its end holds no well-formed record.
pub fn locate(file: &[u8]) -> (r: Option<Vec<u8>>)
    ensures
        match r {
            None => located(file@) is None,
            Some(v) => located(file@) == Some(v@),
        },
        file@.len() < 129 ==> r is None,
        file@.len() >= 128 && file@.subrange(file@.len() - 128, file@.len() - 121) != sauce_tag()
            ==> r is None,
{
    let len = file.len();
    if len < 129 {
        return None;
    }
    let sauce: [u8; 7] = [0x53, 0x41, 0x55, 0x43, 0x45, 0x30, 0x30];
    assert(sauce@ =~= sauce_tag());
    if !bytes_at(file, len - 128, &sauce) {
        return None;
    }
    let count = file[len - 24];
    let rl: usize = count as usize * 64 + if count > 0 { 134 } else { 129 };
    if rl > len {
        return None;
    }
    let start = len - rl;
    if file[start] != EOF_MARK {
        return None;
    }
    if count > 0 {
        let comnt: [u8; 5] = [0x43, 0x4F, 0x4D, 0x4E, 0x54];
        assert(comnt@ =~= comnt_tag());
        if !bytes_at(file, start + 1, &comnt) {
            return None;
        }
    }
    let mut out: Vec<u8> = Vec::new();
    let mut i: usize = start;
    while i < len
        invariant
            len == file@.len(),
            start <= i <= len,
            out@ == file@.subrange(start as int, i as int),
        decreases len - i,
    {
        out.push(file[i]);
        i = i + 1;
        assert(out@ =~= file@.subrange(start as int, i as int));
    }
    Some(out)
}

/// Drops the `pad` bytes at the start.
pub open spec fn strip_start(s: Seq<u8>, pad: u8) -> Seq<u8>
    decreases s.len(),
{
    if s.len() > 0 && s[0] == pad {
        strip_start(s.subrange(1, s.len() as int), pad)
    } else {
        s
    }
}

/// Drops the `pad` bytes at the end.
pub open spec fn strip_end(s: Seq<u8>, pad: u8) -> Seq<u8>
    decreases s.len(),
{
    if s.len() > 0 && s[s.len() - 1] == pad {
        strip_end(s.subrange(0, s.len() - 1), pad)
    } else {
        s
    }
}

/// Drops the `pad` bytes at both ends.
pub open spec fn trim(s: Seq<u8>, pad: u8) -> Seq<u8> {
    strip_end(strip_start(s, pad), pad)
}

/// The bounds of `s[lo..hi]` once `pad` bytes are dropped at both ends.
fn trim_range(s: &[u8], lo0: usize, hi0: usize, pad: u8) -> (r: (usize, usize))
    requires
        lo0 <= hi0 <= s@.len(),
    ensures
        lo0 <= r.0 <= r.1 <= hi0,
        s@.subrange(r.0 as int, r.1 as int) == trim(s@.subrange(lo0 as int, hi0 as int), pad),
{
    let mut lo = lo0;
    while lo < hi0 && s[lo] == pad
        invariant
            lo0 <= lo <= hi0 <= s@.len(),
            strip_start(s@.subrange(lo0 as int, hi0 as int), pad) == strip_start(
                s@.subrange(lo as int, hi0 as int),
                pad,
            ),
        decreases hi0 - lo,
    {
        let ghost t = s@.subrange(lo as int, hi0 as int);
        assert(t.subrange(1, t.len() as int) =~= s@.subrange(lo + 1, hi0 as int));
        lo = lo + 1;
    }
    let ghost mid = s@.subrange(lo as int, hi0 as int);
    assert(strip_start(s@.subrange(lo0 as int, hi0 as int), pad) == mid);
    let mut hi = hi0;
    while hi > lo && s[hi - 1] == pad
        invariant
            lo <= hi <= hi0 <= s@.len(),
            mid == s@.subrange(lo as int, hi0 as int),
            strip_end(mid, pad) == strip_end(s@.subrange(lo as int, hi as int), pad),
        decreases hi - lo,
    {
        let ghost t = s@.subrange(lo as int, hi as int);
        assert(t.subrange(0, t.len() - 1) =~= s@.subrange(lo as int, hi - 1));
        hi = hi - 1;
    }
    (lo, hi)
}

/// Decodes `s[lo..hi]`.
fn decode_range(s: &[u8], lo: usize, hi: usize) -> (r: String)
    requires
        lo <= hi <= s@.len(),
    ensures
        r@ == decode(s@.subrange(lo as int, hi as int)),
{
    let mut part: Vec<u8> = Vec::new();
    let mut i: usize = lo;
    while i < hi
        invariant
            lo <= i <= hi <= s@.len(),
            part@ == s@.subrange(lo as int, i as int),
        decreases hi - i,
    {
        part.push(s[i]);
        i = i + 1;
        assert(part@ =~= s@.subrange(lo as int, i as int));
    }
    to_utf8(part.as_slice())
}

/// A text field: `s[lo..hi]` without its padding, decoded.
pub open spec fn text_field(s: Seq<u8>, lo: int, hi: int, pad: u8) -> Seq<char> {
    decode(trim(s.subrange(lo, hi), pad))
}

fn read_text(s: &[u8], lo: usize, hi: usize, pad: u8) -> (r: String)
    requires
        lo <= hi <= s@.len(),
    ensures
        r@ == text_field(s@, lo as int, hi as int, pad),
{
    let (a, b) = trim_range(s, lo, hi, pad);
    decode_range(s, a, b)
}

/// A little-endian 16-bit value.
pub open spec fn le16(b0: u8, b1: u8) -> u16 {
    (b0 + 256 * b1) as u16
}

/// A little-endian 32-bit value.
pub open spec fn le32(b0: u8, b1: u8, b2: u8, b3: u8) -> u32 {
    (b0 + 256 * b1 + 65536 * b2 + 16777216 * b3) as u32
}

/// Where comment line `k` of `n` starts in a record of length `len`.
pub open spec fn note_start(len: int, n: int, k: int) -> int {
    len - (n + 2 - k) * 64
}

/// The metadata that a record holds.
pub open spec fn parsed(raw: Seq<u8>) -> MetaView {
    let len = raw.len() as int;
    let n = comment_count(raw) as int;
    MetaView {
        title: text_field(raw, len - 121, len - 86, 0x20),
        author: text_field(raw, len - 86, len - 66, 0x20),
        group: text_field(raw, len - 66, len - 46, 0x20),
        date: text_field(raw, len - 46, len - 38, 0x20),
        size: le32(raw[len - 38], raw[len - 37], raw[len - 36], raw[len - 35]),
        file_type: (raw[len - 34], raw[len - 33]),
        width: le16(raw[len - 32], raw[len - 31]),
        height: le16(raw[len - 30], raw[len - 29]),
        flags: raw[len - 23],
        font: text_field(raw, len - 22, len, 0x00),
        notes: Seq::new(
            n as nat,
            |k: int| text_field(raw, note_start(len, n, k), note_start(len, n, k) + 64, 0x20),
        ),
    }
}

/// Reads the fields of a record that `locate` found.
pub fn parse(raw: &[u8]) -> (r: Meta)
    requires
        is_record(raw@),
    ensures
        r@ == parsed(raw@),
{
    let len = raw.len();
    let n = raw[len - 24] as usize;
    let mut notes: Vec<String> = Vec::new();
    let mut k: usize = 0;
    while k < n
        invariant
            len == raw@.len(),
            is_record(raw@),
            n == comment_count(raw@),
            k <= n,
            notes@.len() == k,
            forall|j: int| 0 <= j < k ==> #[trigger] notes@[j]@ == parsed(raw@).notes[j],
        decreases n - k,
    {
        let at = len - (n + 2 - k) * 64;
        notes.push(read_text(raw, at, at + 64, 0x20));
        k = k + 1;
    }
    let r = Meta {
        title: read_text(raw, len - 121, len - 86, 0x20),
        author: read_text(raw, len - 86, len - 66, 0x20),
        group: read_text(raw, len - 66, len - 46, 0x20),
        date: read_text(raw, len - 46, len - 38, 0x20),
        size: raw[len - 38] as u32 + 256 * raw[len - 37] as u32 + 65536 * raw[len - 36] as u32
            + 16777216 * raw[len - 35] as u32,
        file_type: (raw[len - 34], raw[len - 33]),
        width: raw[len - 32] as u16 + 256 * raw[len - 31] as u16,
        height: raw[len - 30] as u16 + 256 * raw[len - 29] as u16,
        flags: raw[len - 23],
        font: read_text(raw, len - 22, len, 0x00),
        notes,
    };
    assert(r@.notes =~= parsed(raw@).notes);
    r
}

/// A text encoded and padded with `pad` to at least `width` bytes.
pub open spec fn padded(s: Seq<char>, width: nat, pad: u8) -> Seq<u8> {
    encode(s) + Seq::new(if s.len() < width { (width - s.len()) as nat } else { 0 }, |i: int| pad)
}

/// A 16-bit value, little-endian.
pub open spec fn le16_bytes(v: u16) -> Seq<u8> {
    seq![(v % 256) as u8, (v / 256) as u8]
}

/// A 32-bit value, little-endian.
pub open spec fn le32_bytes(v: u32) -> Seq<u8> {
    seq![(v % 256) as u8, ((v / 256) % 256) as u8, ((v / 65536) % 256) as u8, (v / 16777216) as u8]
}

/// The comment lines, each padded to 64 bytes.
pub open spec fn notes_bytes(notes: Seq<Seq<char>>) -> Seq<u8>
    decreases notes.len(),
{
    if notes.len() == 0 {
        seq![]
    } else {
        notes_bytes(notes.drop_last()) + padded(notes.last(), 64, 0x20)
    }
}

/// The comment block: nothing where there are no notes.
pub open spec fn comment_block(notes: Seq<Seq<char>>) -> Seq<u8> {
    if notes.len() == 0 {
        seq![]
    } else {
        comnt_tag() + notes_bytes(notes)
    }
}

/// The fixed-width text fields, after the tag.
pub open spec fn text_bytes(m: MetaView) -> Seq<u8> {
    padded(m.title, 35, 0x20) + padded(m.author, 20, 0x20) + padded(m.group, 20, 0x20) + padded(
        m.date,
        8,
        0x20,
    )
}

/// The numeric fields: size, type, width, height, four reserved bytes,
/// comment count and flags.
pub open spec fn number_bytes(m: MetaView) -> Seq<u8> {
    le32_bytes(m.size) + seq![m.file_type.0, m.file_type.1] + le16_bytes(m.width) + le16_bytes(
        m.height,
    ) + seq![0u8, 0u8, 0u8, 0u8] + seq![m.notes.len() as u8, m.flags]
}

/// The record that stands for the metadata.
pub open spec fn record_bytes(m: MetaView) -> Seq<u8> {
    seq![EOF_MARK] + comment_block(m.notes) + sauce_tag() + text_bytes(m) + number_bytes(m)
        + padded(m.font, 22, 0x00)
}

/// Why a text cannot be encoded, if it cannot.
pub open spec fn encode_error(s: Seq<char>) -> Option<Seq<char>> {
    if encodable(s) {
        None
    } else {
        Some(unmappable_message(s[first_unmappable(s)]))
    }
}

/// The first note from index `i` on that cannot be encoded.
pub open spec fn notes_encode_error_from(notes: Seq<Seq<char>>, i: int) -> Option<Seq<char>>
    decreases notes.len() - i,
{
    if i < 0 || i >= notes.len() {
        None
    } else if encode_error(notes[i]) is Some {
        encode_error(notes[i])
    } else {
        notes_encode_error_from(notes, i + 1)
    }
}

/// The first text that cannot be encoded, in the order the record is
/// written: notes, title, author, group, date, font.
pub open spec fn serialize_error(m: MetaView) -> Option<Seq<char>> {
    if notes_encode_error_from(m.notes, 0) is Some {
        notes_encode_error_from(m.notes, 0)
    } else if encode_error(m.title) is Some {
        encode_error(m.title)
    } else if encode_error(m.author) is Some {
        encode_error(m.author)
    } else if encode_error(m.group) is Some {
        encode_error(m.group)
    } else if encode_error(m.date) is Some {
        encode_error(m.date)
    } else {
        encode_error(m.font)
    }
}

fn append(out: &mut Vec<u8>, bytes: &[u8])
    ensures
        final(out)@ == old(out)@ + bytes@,
{
    let mut i: usize = 0;
    while i < bytes.len()
        invariant
            i <= bytes@.len(),
            out@ == old(out)@ + bytes@.subrange(0, i as int),
        decreases bytes@.len() - i,
    {
        out.push(bytes[i]);
        i = i + 1;
        assert(out@ =~= old(out)@ + bytes@.subrange(0, i as int));
    }
    assert(bytes@.subrange(0, i as int) =~= bytes@);
}

/// Appends a text encoded and padded to `width` bytes, or reports why it
/// cannot be encoded.
fn append_padded(out: &mut Vec<u8>, s: &str, width: usize, pad: u8) -> (r: Result<(), String>)
    ensures
        r is Ok <==> encode_error(s@) is None,
        r is Ok ==> final(out)@ == old(out)@ + padded(s@, width as nat, pad),
        r matches Err(e) ==> encode_error(s@) == Some(e@),
{
    match to_cp437(s) {
        Err(e) => Err(e),
        Ok(bytes) => {
            append(out, bytes.as_slice());
            let ghost start = out@;
            let mut k: usize = bytes.len();
            while k < width
                invariant
                    bytes@.len() <= k,
                    k <= width || k == bytes@.len(),
                    out@ == start + Seq::new((k - bytes@.len()) as nat, |i: int| pad),
                decreases width - k,
            {
                out.push(pad);
                k = k + 1;
                assert(out@ =~= start + Seq::new((k - bytes@.len()) as nat, |i: int| pad));
            }
            assert(out@ =~= old(out)@ + padded(s@, width as nat, pad));
            Ok(())
        },
    }
}

fn append_notes(out: &mut Vec<u8>, notes: &Vec<String>) -> (r: Result<(), String>)
    ensures
        r is Ok <==> notes_encode_error_from(notes@.map_values(|n: String| n@), 0) is None,
        r is Ok ==> final(out)@ == old(out)@ + notes_bytes(notes@.map_values(|n: String| n@)),
        r matches Err(e) ==> notes_encode_error_from(notes@.map_values(|n: String| n@), 0) == Some(e@),
{
    let ghost ns = notes@.map_values(|n: String| n@);
    let ghost start = out@;
    let mut i: usize = 0;
    while i < notes.len()
        invariant
            ns == notes@.map_values(|n: String| n@),
            i <= notes@.len(),
            out@ == start + notes_bytes(ns.subrange(0, i as int)),
            notes_encode_error_from(ns, 0) == notes_encode_error_from(ns, i as int),
        decreases notes@.len() - i,
    {
        match append_padded(out, notes[i].as_str(), 64, 0x20) {
            Err(e) => {
                return Err(e);
            },
            Ok(()) => {},
        }
        i = i + 1;
        assert(ns.subrange(0, i as int).drop_last() =~= ns.subrange(0, i - 1));
    }
    assert(ns.subrange(0, i as int) =~= ns);
    Ok(())
}

fn append_numbers(out: &mut Vec<u8>, meta: &Meta)
    requires
        meta.notes@.len() <= 255,
    ensures
        final(out)@ == old(out)@ + number_bytes(meta@),
{
    let size = meta.size;
    out.push((size % 256) as u8);
    out.push(((size / 256) % 256) as u8);
    out.push(((size / 65536) % 256) as u8);
    out.push((size / 16777216) as u8);
    out.push(meta.file_type.0);
    out.push(meta.file_type.1);
    out.push((meta.width % 256) as u8);
    out.push((meta.width / 256) as u8);
    out.push((meta.height % 256) as u8);
    out.push((meta.height / 256) as u8);
    out.push(0);
    out.push(0);
    out.push(0);
    out.push(0);
    out.push(meta.notes.len() as u8);
    out.push(meta.flags);
    assert(out@ =~= old(out)@ + number_bytes(meta@));
}

fn append_texts(out: &mut Vec<u8>, meta: &Meta) -> (r: Result<(), String>)
    ensures
        r is Ok <==> (encode_error(meta.title@) is None && encode_error(meta.author@) is None
            && encode_error(meta.group@) is None && encode_error(meta.date@) is None),
        r is Ok ==> final(out)@ == old(out)@ + text_bytes(meta@),
        r matches Err(e) ==> Some(e@) == (if encode_error(meta.title@) is Some {
            encode_error(meta.title@)
        } else if encode_error(meta.author@) is Some {
            encode_error(meta.author@)
        } else if encode_error(meta.group@) is Some {
            encode_error(meta.group@)
        } else {
            encode_error(meta.date@)
        }),
{
    match append_padded(out, meta.title.as_str(), 35, 0x20) {
        Err(e) => {
            return Err(e);
        },
        Ok(()) => {},
    }
    match append_padded(out, meta.author.as_str(), 20, 0x20) {
        Err(e) => {
            return Err(e);
        },
        Ok(()) => {},
    }
    match append_padded(out, meta.group.as_str(), 20, 0x20) {
        Err(e) => {
            return Err(e);
        },
        Ok(()) => {},
    }
    match append_padded(out, meta.date.as_str(), 8, 0x20) {
        Err(e) => {
            return Err(e);
        },
        Ok(()) => {},
    }
    assert(out@ =~= old(out)@ + text_bytes(meta@));
    Ok(())
}

/// Writes the content followed by the record that stands for the metadata.
///
/// Fails where a text field holds a character that has no CP437 byte.
pub fn serialize(body: &[u8], meta: &Meta) -> (r: Result<Vec<u8>, String>)
    requires
        meta.notes@.len() <= 255,
    ensures
        r is Ok <==> serialize_error(meta@) is None,
        r matches Ok(v) ==> v@ == body@ + record_bytes(meta@),
        r matches Err(e) ==> serialize_error(meta@) == Some(e@),
{
    let ghost m = meta@;
    let mut out: Vec<u8> = Vec::new();
    append(&mut out, body);
    out.push(EOF_MARK);
    if meta.notes.len() > 0 {
        let comnt: [u8; 5] = [0x43, 0x4F, 0x4D, 0x4E, 0x54];
        assert(comnt@ =~= comnt_tag());
        append(&mut out, &comnt);
        match append_notes(&mut out, &meta.notes) {
            Err(e) => {
                return Err(e);
            },
            Ok(()) => {},
        }
    } else {
        assert(notes_encode_error_from(m.notes, 0) is None);
    }
    let ghost head = out@;
    assert(head =~= body@ + seq![EOF_MARK] + comment_block(m.notes));
    let sauce: [u8; 7] = [0x53, 0x41, 0x55, 0x43, 0x45, 0x30, 0x30];
    assert(sauce@ =~= sauce_tag());
    append(&mut out, &sauce);
    match append_texts(&mut out, meta) {
        Err(e) => {
            return Err(e);
        },
        Ok(()) => {},
    }
    append_numbers(&mut out, meta);
    match append_padded(&mut out, meta.font.as_str(), 22, 0x00) {
        Err(e) => {
            return Err(e);
        },
        Ok(()) => {},
    }
    assert(out@ =~= body@ + record_bytes(m));
    Ok(out)
}

/// Whether a text's UTF-8 length fits in memory, as that of every string
/// does.
pub open spec fn fits(s: Seq<char>) -> bool {
    encode_utf8(s).len() <= usize::MAX
}

/// Whether a text does not begin or end with the character.
pub open spec fn no_edge(s: Seq<char>, c: char) -> bool {
    s.len() == 0 || (s[0] != c && s[s.len() - 1] != c)
}

/// Whether every text field's UTF-8 length fits in memory, as that of every
/// string does.
pub open spec fn texts_fit(m: MetaView) -> bool {
    &&& fits(m.title) && fits(m.author) && fits(m.group) && fits(m.date)
    &&& forall|k: int| 0 <= k < m.notes.len() ==> fits(#[trigger] m.notes[k])
}

/// What reading a record back needs beyond validity: texts that fit in
/// memory (as every string does), and no spaces at either end of a
/// space-padded text field (the padding would absorb them). A valid date is
/// empty or digits, so it needs neither.
pub open spec fn survives_padding(m: MetaView) -> bool {
    &&& texts_fit(m)
    &&& no_edge(m.title, ' ') && no_edge(m.author, ' ') && no_edge(m.group, ' ')
    &&& forall|k: int| 0 <= k < m.notes.len() ==> no_edge(#[trigger] m.notes[k], ' ')
}

proof fn lemma_utf8_len(s: Seq<char>)
    ensures
        encode_utf8(s).len() >= s.len(),
    decreases s.len(),
{
    if s.len() > 0 {
        lemma_utf8_len(s.drop_first());
    }
}

proof fn lemma_legal_field(s: Seq<char>, name: Seq<char>, max: nat)
    requires
        str_error(s, name, max) is None,
        fits(s),
    ensures
        s.len() <= max,
        encodable(s),
{
    lemma_utf8_len(s);
    assert forall|i: int| 0 <= i < s.len() implies is_cp437(#[trigger] s[i]) by {
        assert(is_legal(s[i]));
    }
}

proof fn lemma_notes_legal(notes: Seq<Seq<char>>, i: int)
    requires
        0 <= i,
        notes_error_from(notes, i) is None,
    ensures
        forall|j: int| i <= j < notes.len() ==> #[trigger] note_error(notes, j) is None,
    decreases notes.len() - i,
{
    if i < notes.len() {
        lemma_notes_legal(notes, i + 1);
    }
}

proof fn lemma_strip_end_pads(x: Seq<u8>, k: nat, pad: u8)
    ensures
        strip_end(x + Seq::new(k, |i: int| pad), pad) == strip_end(x, pad),
    decreases k,
{
    if k > 0 {
        let y = x + Seq::new(k, |i: int| pad);
        assert(y.subrange(0, y.len() - 1) =~= x + Seq::new((k - 1) as nat, |i: int| pad));
        lemma_strip_end_pads(x, (k - 1) as nat, pad);
    } else {
        assert(x + Seq::new(k, |i: int| pad) =~= x);
    }
}

proof fn lemma_strip_start_pads(k: nat, pad: u8)
    ensures
        strip_start(Seq::new(k, |i: int| pad), pad) == Seq::<u8>::empty(),
    decreases k,
{
    if k > 0 {
        assert(Seq::new(k, |i: int| pad).subrange(1, k as int) =~= Seq::new((k - 1) as nat, |i: int| pad));
        lemma_strip_start_pads((k - 1) as nat, pad);
    } else {
        assert(Seq::new(k, |i: int| pad) =~= Seq::<u8>::empty());
    }
}

/// A padded field reads back as the text it was written from.
proof fn lemma_padded_field(s: Seq<char>, w: nat, pad: u8)
    requires
        encodable(s),
        s.len() <= w,
        no_edge(s, cp437_char(pad)),
    ensures
        padded(s, w, pad).len() == w,
        decode(trim(padded(s, w, pad), pad)) == s,
{
    let e = encode(s);
    let k = (w - s.len()) as nat;
    let pads = Seq::new(k, |i: int| pad);
    assert(padded(s, w, pad) == e + pads);
    lemma_strip_end_pads(strip_start(e + pads, pad), 0, pad);
    if s.len() == 0 {
        assert(e + pads =~= pads);
        lemma_strip_start_pads(k, pad);
        assert(strip_end(Seq::<u8>::empty(), pad) == Seq::<u8>::empty());
        assert(e =~= Seq::<u8>::empty());
    } else {
        lemma_char_round_trip(s[0]);
        lemma_char_round_trip(s[s.len() - 1]);
        assert((e + pads)[0] == e[0]);
        assert(e[0] != pad);
        assert(strip_start(e + pads, pad) == e + pads);
        lemma_strip_end_pads(e, k, pad);
        assert(e[e.len() - 1] != pad);
        assert(strip_end(e, pad) == e);
    }
    lemma_text_round_trip(s);
}

proof fn lemma_notes_layout(notes: Seq<Seq<char>>)
    requires
        forall|k: int| 0 <= k < notes.len() ==> (#[trigger] notes[k]).len() <= 64,
    ensures
        notes_bytes(notes).len() == 64 * notes.len(),
        forall|k: int|
            0 <= k < notes.len() ==> notes_bytes(notes).subrange(64 * k, 64 * k + 64) == padded(
                #[trigger] notes[k],
                64,
                0x20,
            ),
    decreases notes.len(),
{
    if notes.len() > 0 {
        let front = notes.drop_last();
        lemma_notes_layout(front);
        let a = notes_bytes(front);
        let b = padded(notes.last(), 64, 0x20);
        assert forall|k: int| 0 <= k < notes.len() implies notes_bytes(notes).subrange(
            64 * k,
            64 * k + 64,
        ) == padded(#[trigger] notes[k], 64, 0x20) by {
            if k < notes.len() - 1 {
                assert(front[k] == notes[k]);
                assert((a + b).subrange(64 * k, 64 * k + 64) =~= a.subrange(64 * k, 64 * k + 64));
            } else {
                assert((a + b).subrange(64 * k, 64 * k + 64) =~= b);
            }
        }
    }
}

proof fn lemma_le32(v: u32)
    ensures
        le32(
            (v % 256) as u8,
            ((v / 256) % 256) as u8,
            ((v / 65536) % 256) as u8,
            (v / 16777216) as u8,
        ) == v,
{
    assert(v == (v % 256) + 256 * ((v / 256) % 256) + 65536 * ((v / 65536) % 256) + 16777216 * (v
        / 16777216)) by (nonlinear_arith);
}

proof fn lemma_le16(v: u16)
    ensures
        le16((v % 256) as u8, (v / 256) as u8) == v,
{
}

proof fn lemma_notes_encodable(notes: Seq<Seq<char>>, i: int)
    requires
        0 <= i,
        forall|k: int| 0 <= k < notes.len() ==> encodable(#[trigger] notes[k]),
    ensures
        notes_encode_error_from(notes, i) is None,
    decreases notes.len() - i,
{
    if i < notes.len() {
        lemma_notes_encodable(notes, i + 1);
    }
}

/// A valid date is empty or ASCII digits, so every character has a byte and
/// none is a space.
proof fn lemma_valid_date(d: Seq<char>)
    requires
        crate::validate::date_error(d) is None,
    ensures
        encodable(d),
        no_edge(d, ' '),
{
    if d.len() > 0 {
        assert(crate::validate::all_ascii_digits(d));
        assert forall|i: int| 0 <= i < d.len() implies is_cp437(#[trigger] d[i]) by {
            let c = d[i];
            assert('0' <= c && c <= '9');
            assert(c == '0' || c == '1' || c == '2' || c == '3' || c == '4' || c == '5' || c == '6'
                || c == '7' || c == '8' || c == '9');
        }
        assert('0' <= d[0] && d[0] <= '9');
        assert('0' <= d[d.len() - 1] && d[d.len() - 1] <= '9');
    }
}

/// Metadata that passes every check can be written: no text field holds a
/// character without a byte.
pub proof fn lemma_valid_serializes(m: MetaView)
    requires
        is_valid(m),
        texts_fit(m),
    ensures
        serialize_error(m) is None,
        m.notes.len() <= 255,
{
    let n = m.notes.len();
    lemma_legal_field(m.title, "Title"@, 35);
    lemma_legal_field(m.author, "Author"@, 20);
    lemma_legal_field(m.group, "Group"@, 20);
    lemma_valid_date(m.date);
    lemma_notes_legal(m.notes, 0);
    assert forall|k: int| 0 <= k < n implies encodable(#[trigger] m.notes[k]) by {
        assert(note_error(m.notes, k) is None);
        lemma_legal_field(m.notes[k], crate::validate::note_label(k as nat, n), 64);
    }
    lemma_notes_encodable(m.notes, 0);
    proof_font(m.font);
}

/// The field facts that writing and reading back depend on.
spec fn sound_fields(m: MetaView) -> bool {
    &&& encodable(m.title) && m.title.len() <= 35 && no_edge(m.title, ' ')
    &&& encodable(m.author) && m.author.len() <= 20 && no_edge(m.author, ' ')
    &&& encodable(m.group) && m.group.len() <= 20 && no_edge(m.group, ' ')
    &&& encodable(m.date) && m.date.len() <= 8 && no_edge(m.date, ' ')
    &&& encodable(m.font) && m.font.len() <= 22 && no_edge(m.font, cp437_char(0x00))
    &&& m.notes.len() <= 255
    &&& forall|k: int|
        0 <= k < m.notes.len() ==> (#[trigger] m.notes[k]).len() <= 64 && encodable(m.notes[k])
            && no_edge(m.notes[k], ' ')
}

proof fn lemma_sound_fields(m: MetaView)
    requires
        is_valid(m),
        survives_padding(m),
    ensures
        sound_fields(m),
        serialize_error(m) is None,
{
    let n = m.notes.len();
    lemma_legal_field(m.title, "Title"@, 35);
    lemma_legal_field(m.author, "Author"@, 20);
    lemma_legal_field(m.group, "Group"@, 20);
    lemma_utf8_len(m.date);
    lemma_valid_date(m.date);
    lemma_notes_legal(m.notes, 0);
    assert forall|k: int| 0 <= k < n implies (#[trigger] m.notes[k]).len() <= 64 && encodable(m.notes[k]) by {
        assert(note_error(m.notes, k) is None);
        lemma_legal_field(m.notes[k], crate::validate::note_label(k as nat, n), 64);
    }
    lemma_notes_encodable(m.notes, 0);
    proof_font(m.font);
}

/// Where the fields of a written record stand.
proof fn lemma_record_layout(m: MetaView)
    requires
        sound_fields(m),
    ensures
        ({
            let rec = record_bytes(m);
            let len = rec.len() as int;
            let n = m.notes.len() as int;
            &&& len == record_len(n as u8)
            &&& rec.subrange(len - 128, len - 121) == sauce_tag()
            &&& rec.subrange(len - 121, len - 86) == padded(m.title, 35, 0x20)
            &&& rec.subrange(len - 86, len - 66) == padded(m.author, 20, 0x20)
            &&& rec.subrange(len - 66, len - 46) == padded(m.group, 20, 0x20)
            &&& rec.subrange(len - 46, len - 38) == padded(m.date, 8, 0x20)
            &&& rec.subrange(len - 38, len - 22) == number_bytes(m)
            &&& rec.subrange(len - 22, len) == padded(m.font, 22, 0x00)
            &&& rec[0] == EOF_MARK
            &&& n > 0 ==> rec.subrange(1, 6) == comnt_tag()
            &&& n > 0 ==> rec.subrange(6, 6 + 64 * n) == notes_bytes(m.notes)
        }),
{
    let n = m.notes.len();
    lemma_padded_field(m.title, 35, 0x20);
    lemma_padded_field(m.author, 20, 0x20);
    lemma_padded_field(m.group, 20, 0x20);
    lemma_padded_field(m.date, 8, 0x20);
    lemma_padded_field(m.font, 22, 0x00);
    assert forall|k: int| 0 <= k < n implies (#[trigger] m.notes[k]).len() <= 64 by {}
    lemma_notes_layout(m.notes);
    let nb = number_bytes(m);
    let cb = comment_block(m.notes);
    let f = padded(m.font, 22, 0x00);
    let tail = sauce_tag() + text_bytes(m) + nb + f;
    let rec = record_bytes(m);
    assert(rec =~= seq![EOF_MARK] + cb + tail);
    assert(tail.len() == 128);
    let len = rec.len() as int;
    assert(rec.subrange(len - 128, len) =~= tail);
    assert(tail.subrange(106, 128) =~= f);
    assert(tail.subrange(90, 106) =~= nb);
    assert(tail.subrange(7, 42) =~= padded(m.title, 35, 0x20));
    assert(tail.subrange(42, 62) =~= padded(m.author, 20, 0x20));
    assert(tail.subrange(62, 82) =~= padded(m.group, 20, 0x20));
    assert(tail.subrange(82, 90) =~= padded(m.date, 8, 0x20));
    assert(tail.subrange(0, 7) =~= sauce_tag());
    assert(rec.subrange(len - 128, len - 121) =~= tail.subrange(0, 7));
    assert(rec.subrange(len - 121, len - 86) =~= tail.subrange(7, 42));
    assert(rec.subrange(len - 86, len - 66) =~= tail.subrange(42, 62));
    assert(rec.subrange(len - 66, len - 46) =~= tail.subrange(62, 82));
    assert(rec.subrange(len - 46, len - 38) =~= tail.subrange(82, 90));
    assert(rec.subrange(len - 38, len - 22) =~= tail.subrange(90, 106));
    assert(rec.subrange(len - 22, len) =~= tail.subrange(106, 128));
    if n > 0 {
        assert(rec.subrange(1, 6) =~= comnt_tag());
        assert(rec.subrange(6, 6 + 64 * n as int) =~= notes_bytes(m.notes));
    }
}

/// A record found at the end of any content is found again.
proof fn lemma_located(body: Seq<u8>, rec: Seq<u8>)
    requires
        is_record(rec),
        rec.subrange(rec.len() - 128, rec.len() - 121) == sauce_tag(),
        rec[0] == EOF_MARK,
        comment_count(rec) > 0 ==> rec.subrange(1, 6) == comnt_tag(),
    ensures
        located(body + rec) == Some(rec),
{
    let len = rec.len() as int;
    let file = body + rec;
    let fl = file.len() as int;
    assert(file.subrange(fl - len, fl) =~= rec);
    assert(file[fl - 24] == rec[len - 24]);
    assert(comment_count(file) == comment_count(rec));
    assert(file.subrange(fl - 128, fl - 121) =~= rec.subrange(len - 128, len - 121));
    assert(file[fl - len] == rec[0]);
    if comment_count(rec) > 0 {
        assert(file.subrange(fl - len + 1, fl - len + 6) =~= rec.subrange(1, 6));
    }
}

proof fn lemma_parsed_numbers(m: MetaView)
    requires
        sound_fields(m),
    ensures
        ({
            let rec = record_bytes(m);
            let p = parsed(rec);
            &&& comment_count(rec) == m.notes.len() as u8
            &&& p.size == m.size && p.file_type == m.file_type && p.width == m.width
            &&& p.height == m.height && p.flags == m.flags
        }),
{
    lemma_record_layout(m);
    let rec = record_bytes(m);
    let len = rec.len() as int;
    let nb = number_bytes(m);
    let s = rec.subrange(len - 38, len - 22);
    assert(rec[len - 24] == s[14]);
    assert(rec[len - 38] == s[0] && rec[len - 37] == s[1] && rec[len - 36] == s[2] && rec[len - 35] == s[3]);
    assert(rec[len - 34] == s[4] && rec[len - 33] == s[5] && rec[len - 32] == s[6] && rec[len - 31] == s[7]);
    assert(rec[len - 30] == s[8] && rec[len - 29] == s[9] && rec[len - 23] == s[15]);
    lemma_le32(m.size);
    lemma_le16(m.width);
    lemma_le16(m.height);
}

proof fn lemma_parsed_texts(m: MetaView)
    requires
        sound_fields(m),
    ensures
        ({
            let p = parsed(record_bytes(m));
            &&& p.title == m.title && p.author == m.author && p.group == m.group
            &&& p.date == m.date && p.font == m.font
        }),
{
    lemma_record_layout(m);
    lemma_padded_field(m.title, 35, 0x20);
    lemma_padded_field(m.author, 20, 0x20);
    lemma_padded_field(m.group, 20, 0x20);
    lemma_padded_field(m.date, 8, 0x20);
    lemma_padded_field(m.font, 22, 0x00);
}

#[verifier::rlimit(50)]
proof fn lemma_parsed_notes(m: MetaView)
    requires
        sound_fields(m),
    ensures
        parsed(record_bytes(m)).notes == m.notes,
{
    lemma_record_layout(m);
    lemma_parsed_numbers(m);
    let n = m.notes.len();
    let rec = record_bytes(m);
    let len = rec.len() as int;
    let p = parsed(rec);
    assert forall|k: int| 0 <= k < n implies (#[trigger] m.notes[k]).len() <= 64 by {}
    lemma_notes_layout(m.notes);
    assert forall|k: int| 0 <= k < n implies #[trigger] p.notes[k] == m.notes[k] by {
        let at = note_start(len, n as int, k);
        assert(at == 6 + 64 * k);
        let nbs = notes_bytes(m.notes);
        assert(rec.subrange(at, at + 64) =~= rec.subrange(6, 6 + 64 * n as int).subrange(
            64 * k,
            64 * k + 64,
        ));
        lemma_padded_field(m.notes[k], 64, 0x20);
    }
    assert(p.notes =~= m.notes);
}

/// Writing valid metadata after any content, then finding and reading the
/// record, gives the metadata back.
pub proof fn lemma_record_round_trip(body: Seq<u8>, m: MetaView)
    requires
        is_valid(m),
        survives_padding(m),
    ensures
        serialize_error(m) is None,
        located(body + record_bytes(m)) == Some(record_bytes(m)),
        is_record(record_bytes(m)),
        parsed(record_bytes(m)) == m,
{
    lemma_sound_fields(m);
    lemma_record_layout(m);
    lemma_parsed_numbers(m);
    lemma_parsed_texts(m);
    lemma_parsed_notes(m);
    lemma_located(body, record_bytes(m));
}

/// The supported font names have bytes, fit their field and have no NUL at
/// either end.
proof fn proof_font(font: Seq<char>)
    requires
        crate::validate::is_supported_font(font),
    ensures
        encodable(font),
        font.len() <= 22,
        no_edge(font, cp437_char(0x00)),
{
    reveal_strlit("IBM VGA");
    reveal_strlit("IBM VGA 437");
    reveal_strlit("");
    assert forall|i: int| 0 <= i < font.len() implies is_cp437(#[trigger] font[i]) by {
        assert(font[i] == 'I' || font[i] == 'B' || font[i] == 'M' || font[i] == ' ' || font[i] == 'V'
            || font[i] == 'G' || font[i] == 'A' || font[i] == '4' || font[i] == '3' || font[i] == '7');
    }
}

} // verus!
