//! Code page 437 to and from Unicode.
//!
//! The table follows code page 437, except that 0x0A and 0x0D stay line
//! feed and carriage return, and 0x1A and 0x1B stay the raw control
//! characters that frame metadata records and start escape sequences.
//! Byte 0x00 decodes to U+0000, which keeps it apart from the space.
use indexmap::IndexMap;
use vstd::prelude::*;

use crate::text::{chars_of, push_char, push_hex, push_str, hex};

verus! {

/// The character that a byte stands for.
pub open spec fn cp437_char(b: u8) -> char {
    match b {
            0x00 => '\u{0}',
            0x01 => '☺',
            0x02 => '☻',
            0x03 => '♥',
            0x04 => '♦',
            0x05 => '♣',
            0x06 => '♠',
            0x07 => '•',
            0x08 => '◘',
            0x09 => '○',
            0x0A => '\u{a}',
            0x0B => '♂',
            0x0C => '♀',
            0x0D => '\u{d}',
            0x0E => '♫',
            0x0F => '☼',
            0x10 => '►',
            0x11 => '◄',
            0x12 => '↕',
            0x13 => '‼',
            0x14 => '¶',
            0x15 => '§',
            0x16 => '▬',
            0x17 => '↨',
            0x18 => '↑',
            0x19 => '↓',
            0x1A => '\u{1a}',
            0x1B => '\u{1b}',
            0x1C => '∟',
            0x1D => '↔',
            0x1E => '▲',
            0x1F => '▼',
            0x20 => ' ',
            0x21 => '!',
            0x22 => '"',
            0x23 => '#',
            0x24 => '$',
            0x25 => '%',
            0x26 => '&',
            0x27 => '\'',
            0x28 => '(',
            0x29 => ')',
            0x2A => '*',
            0x2B => '+',
            0x2C => ',',
            0x2D => '-',
            0x2E => '.',
            0x2F => '/',
            0x30 => '0',
            0x31 => '1',
            0x32 => '2',
            0x33 => '3',
            0x34 => '4',
            0x35 => '5',
            0x36 => '6',
            0x37 => '7',
            0x38 => '8',
            0x39 => '9',
            0x3A => ':',
            0x3B => ';',
            0x3C => '<',
            0x3D => '=',
            0x3E => '>',
            0x3F => '?',
            0x40 => '@',
            0x41 => 'A',
            0x42 => 'B',
            0x43 => 'C',
            0x44 => 'D',
            0x45 => 'E',
            0x46 => 'F',
            0x47 => 'G',
            0x48 => 'H',
            0x49 => 'I',
            0x4A => 'J',
            0x4B => 'K',
            0x4C => 'L',
            0x4D => 'M',
            0x4E => 'N',
            0x4F => 'O',
            0x50 => 'P',
            0x51 => 'Q',
            0x52 => 'R',
            0x53 => 'S',
            0x54 => 'T',
            0x55 => 'U',
            0x56 => 'V',
            0x57 => 'W',
            0x58 => 'X',
            0x59 => 'Y',
            0x5A => 'Z',
            0x5B => '[',
            0x5C => '\\',
            0x5D => ']',
            0x5E => '^',
            0x5F => '_',
            0x60 => '`',
            0x61 => 'a',
            0x62 => 'b',
            0x63 => 'c',
            0x64 => 'd',
            0x65 => 'e',
            0x66 => 'f',
            0x67 => 'g',
            0x68 => 'h',
            0x69 => 'i',
            0x6A => 'j',
            0x6B => 'k',
            0x6C => 'l',
            0x6D => 'm',
            0x6E => 'n',
            0x6F => 'o',
            0x70 => 'p',
            0x71 => 'q',
            0x72 => 'r',
            0x73 => 's',
            0x74 => 't',
            0x75 => 'u',
            0x76 => 'v',
            0x77 => 'w',
            0x78 => 'x',
            0x79 => 'y',
            0x7A => 'z',
            0x7B => '{',
            0x7C => '|',
            0x7D => '}',
            0x7E => '~',
            0x7F => '⌂',
            0x80 => 'Ç',
            0x81 => 'ü',
            0x82 => 'é',
            0x83 => 'â',
            0x84 => 'ä',
            0x85 => 'à',
            0x86 => 'å',
            0x87 => 'ç',
            0x88 => 'ê',
            0x89 => 'ë',
            0x8A => 'è',
            0x8B => 'ï',
            0x8C => 'î',
            0x8D => 'ì',
            0x8E => 'Ä',
            0x8F => 'Å',
            0x90 => 'É',
            0x91 => 'æ',
            0x92 => 'Æ',
            0x93 => 'ô',
            0x94 => 'ö',
            0x95 => 'ò',
            0x96 => 'û',
            0x97 => 'ù',
            0x98 => 'ÿ',
            0x99 => 'Ö',
            0x9A => 'Ü',
            0x9B => '¢',
            0x9C => '£',
            0x9D => '¥',
            0x9E => '₧',
            0x9F => 'ƒ',
            0xA0 => 'á',
            0xA1 => 'í',
            0xA2 => 'ó',
            0xA3 => 'ú',
            0xA4 => 'ñ',
            0xA5 => 'Ñ',
            0xA6 => 'ª',
            0xA7 => 'º',
            0xA8 => '¿',
            0xA9 => '⌐',
            0xAA => '¬',
            0xAB => '½',
            0xAC => '¼',
            0xAD => '¡',
            0xAE => '«',
            0xAF => '»',
            0xB0 => '░',
            0xB1 => '▒',
            0xB2 => '▓',
            0xB3 => '│',
            0xB4 => '┤',
            0xB5 => '╡',
            0xB6 => '╢',
            0xB7 => '╖',
            0xB8 => '╕',
            0xB9 => '╣',
            0xBA => '║',
            0xBB => '╗',
            0xBC => '╝',
            0xBD => '╜',
            0xBE => '╛',
            0xBF => '┐',
            0xC0 => '└',
            0xC1 => '┴',
            0xC2 => '┬',
            0xC3 => '├',
            0xC4 => '─',
            0xC5 => '┼',
            0xC6 => '╞',
            0xC7 => '╟',
            0xC8 => '╚',
            0xC9 => '╔',
            0xCA => '╩',
            0xCB => '╦',
            0xCC => '╠',
            0xCD => '═',
            0xCE => '╬',
            0xCF => '╧',
            0xD0 => '╨',
            0xD1 => '╤',
            0xD2 => '╥',
            0xD3 => '╙',
            0xD4 => '╘',
            0xD5 => '╒',
            0xD6 => '╓',
            0xD7 => '╫',
            0xD8 => '╪',
            0xD9 => '┘',
            0xDA => '┌',
            0xDB => '█',
            0xDC => '▄',
            0xDD => '▌',
            0xDE => '▐',
            0xDF => '▀',
            0xE0 => 'α',
            0xE1 => 'ß',
            0xE2 => 'Γ',
            0xE3 => 'π',
            0xE4 => 'Σ',
            0xE5 => 'σ',
            0xE6 => 'µ',
            0xE7 => 'τ',
            0xE8 => 'Φ',
            0xE9 => 'Θ',
            0xEA => 'Ω',
            0xEB => 'δ',
            0xEC => '∞',
            0xED => 'φ',
            0xEE => 'ε',
            0xEF => '∩',
            0xF0 => '≡',
            0xF1 => '±',
            0xF2 => '≥',
            0xF3 => '≤',
            0xF4 => '⌠',
            0xF5 => '⌡',
            0xF6 => '÷',
            0xF7 => '≈',
            0xF8 => '°',
            0xF9 => '∙',
            0xFA => '·',
            0xFB => '√',
            0xFC => 'ⁿ',
            0xFD => '²',
            0xFE => '■',
            _ => '\u{a0}',
    }
}

/// The byte that stands for a character, where there is one.
pub open spec fn cp437_byte(c: char) -> Option<u8> {
    match c {
            '\u{0}' => Some(0x00u8),
            '☺' => Some(0x01u8),
            '☻' => Some(0x02u8),
            '♥' => Some(0x03u8),
            '♦' => Some(0x04u8),
            '♣' => Some(0x05u8),
            '♠' => Some(0x06u8),
            '•' => Some(0x07u8),
            '◘' => Some(0x08u8),
            '○' => Some(0x09u8),
            '\u{a}' => Some(0x0Au8),
            '♂' => Some(0x0Bu8),
            '♀' => Some(0x0Cu8),
            '\u{d}' => Some(0x0Du8),
            '♫' => Some(0x0Eu8),
            '☼' => Some(0x0Fu8),
            '►' => Some(0x10u8),
            '◄' => Some(0x11u8),
            '↕' => Some(0x12u8),
            '‼' => Some(0x13u8),
            '¶' => Some(0x14u8),
            '§' => Some(0x15u8),
            '▬' => Some(0x16u8),
            '↨' => Some(0x17u8),
            '↑' => Some(0x18u8),
            '↓' => Some(0x19u8),
            '\u{1a}' => Some(0x1Au8),
            '\u{1b}' => Some(0x1Bu8),
            '∟' => Some(0x1Cu8),
            '↔' => Some(0x1Du8),
            '▲' => Some(0x1Eu8),
            '▼' => Some(0x1Fu8),
            ' ' => Some(0x20u8),
            '!' => Some(0x21u8),
            '"' => Some(0x22u8),
            '#' => Some(0x23u8),
            '$' => Some(0x24u8),
            '%' => Some(0x25u8),
            '&' => Some(0x26u8),
            '\'' => Some(0x27u8),
            '(' => Some(0x28u8),
            ')' => Some(0x29u8),
            '*' => Some(0x2Au8),
            '+' => Some(0x2Bu8),
            ',' => Some(0x2Cu8),
            '-' => Some(0x2Du8),
            '.' => Some(0x2Eu8),
            '/' => Some(0x2Fu8),
            '0' => Some(0x30u8),
            '1' => Some(0x31u8),
            '2' => Some(0x32u8),
            '3' => Some(0x33u8),
            '4' => Some(0x34u8),
            '5' => Some(0x35u8),
            '6' => Some(0x36u8),
            '7' => Some(0x37u8),
            '8' => Some(0x38u8),
            '9' => Some(0x39u8),
            ':' => Some(0x3Au8),
            ';' => Some(0x3Bu8),
            '<' => Some(0x3Cu8),
            '=' => Some(0x3Du8),
            '>' => Some(0x3Eu8),
            '?' => Some(0x3Fu8),
            '@' => Some(0x40u8),
            'A' => Some(0x41u8),
            'B' => Some(0x42u8),
            'C' => Some(0x43u8),
            'D' => Some(0x44u8),
            'E' => Some(0x45u8),
            'F' => Some(0x46u8),
            'G' => Some(0x47u8),
            'H' => Some(0x48u8),
            'I' => Some(0x49u8),
            'J' => Some(0x4Au8),
            'K' => Some(0x4Bu8),
            'L' => Some(0x4Cu8),
            'M' => Some(0x4Du8),
            'N' => Some(0x4Eu8),
            'O' => Some(0x4Fu8),
            'P' => Some(0x50u8),
            'Q' => Some(0x51u8),
            'R' => Some(0x52u8),
            'S' => Some(0x53u8),
            'T' => Some(0x54u8),
            'U' => Some(0x55u8),
            'V' => Some(0x56u8),
            'W' => Some(0x57u8),
            'X' => Some(0x58u8),
            'Y' => Some(0x59u8),
            'Z' => Some(0x5Au8),
            '[' => Some(0x5Bu8),
            '\\' => Some(0x5Cu8),
            ']' => Some(0x5Du8),
            '^' => Some(0x5Eu8),
            '_' => Some(0x5Fu8),
            '`' => Some(0x60u8),
            'a' => Some(0x61u8),
            'b' => Some(0x62u8),
            'c' => Some(0x63u8),
            'd' => Some(0x64u8),
            'e' => Some(0x65u8),
            'f' => Some(0x66u8),
            'g' => Some(0x67u8),
            'h' => Some(0x68u8),
            'i' => Some(0x69u8),
            'j' => Some(0x6Au8),
            'k' => Some(0x6Bu8),
            'l' => Some(0x6Cu8),
            'm' => Some(0x6Du8),
            'n' => Some(0x6Eu8),
            'o' => Some(0x6Fu8),
            'p' => Some(0x70u8),
            'q' => Some(0x71u8),
            'r' => Some(0x72u8),
            's' => Some(0x73u8),
            't' => Some(0x74u8),
            'u' => Some(0x75u8),
            'v' => Some(0x76u8),
            'w' => Some(0x77u8),
            'x' => Some(0x78u8),
            'y' => Some(0x79u8),
            'z' => Some(0x7Au8),
            '{' => Some(0x7Bu8),
            '|' => Some(0x7Cu8),
            '}' => Some(0x7Du8),
            '~' => Some(0x7Eu8),
            '⌂' => Some(0x7Fu8),
            'Ç' => Some(0x80u8),
            'ü' => Some(0x81u8),
            'é' => Some(0x82u8),
            'â' => Some(0x83u8),
            'ä' => Some(0x84u8),
            'à' => Some(0x85u8),
            'å' => Some(0x86u8),
            'ç' => Some(0x87u8),
            'ê' => Some(0x88u8),
            'ë' => Some(0x89u8),
            'è' => Some(0x8Au8),
            'ï' => Some(0x8Bu8),
            'î' => Some(0x8Cu8),
            'ì' => Some(0x8Du8),
            'Ä' => Some(0x8Eu8),
            'Å' => Some(0x8Fu8),
            'É' => Some(0x90u8),
            'æ' => Some(0x91u8),
            'Æ' => Some(0x92u8),
            'ô' => Some(0x93u8),
            'ö' => Some(0x94u8),
            'ò' => Some(0x95u8),
            'û' => Some(0x96u8),
            'ù' => Some(0x97u8),
            'ÿ' => Some(0x98u8),
            'Ö' => Some(0x99u8),
            'Ü' => Some(0x9Au8),
            '¢' => Some(0x9Bu8),
            '£' => Some(0x9Cu8),
            '¥' => Some(0x9Du8),
            '₧' => Some(0x9Eu8),
            'ƒ' => Some(0x9Fu8),
            'á' => Some(0xA0u8),
            'í' => Some(0xA1u8),
            'ó' => Some(0xA2u8),
            'ú' => Some(0xA3u8),
            'ñ' => Some(0xA4u8),
            'Ñ' => Some(0xA5u8),
            'ª' => Some(0xA6u8),
            'º' => Some(0xA7u8),
            '¿' => Some(0xA8u8),
            '⌐' => Some(0xA9u8),
            '¬' => Some(0xAAu8),
            '½' => Some(0xABu8),
            '¼' => Some(0xACu8),
            '¡' => Some(0xADu8),
            '«' => Some(0xAEu8),
            '»' => Some(0xAFu8),
            '░' => Some(0xB0u8),
            '▒' => Some(0xB1u8),
            '▓' => Some(0xB2u8),
            '│' => Some(0xB3u8),
            '┤' => Some(0xB4u8),
            '╡' => Some(0xB5u8),
            '╢' => Some(0xB6u8),
            '╖' => Some(0xB7u8),
            '╕' => Some(0xB8u8),
            '╣' => Some(0xB9u8),
            '║' => Some(0xBAu8),
            '╗' => Some(0xBBu8),
            '╝' => Some(0xBCu8),
            '╜' => Some(0xBDu8),
            '╛' => Some(0xBEu8),
            '┐' => Some(0xBFu8),
            '└' => Some(0xC0u8),
            '┴' => Some(0xC1u8),
            '┬' => Some(0xC2u8),
            '├' => Some(0xC3u8),
            '─' => Some(0xC4u8),
            '┼' => Some(0xC5u8),
            '╞' => Some(0xC6u8),
            '╟' => Some(0xC7u8),
            '╚' => Some(0xC8u8),
            '╔' => Some(0xC9u8),
            '╩' => Some(0xCAu8),
            '╦' => Some(0xCBu8),
            '╠' => Some(0xCCu8),
            '═' => Some(0xCDu8),
            '╬' => Some(0xCEu8),
            '╧' => Some(0xCFu8),
            '╨' => Some(0xD0u8),
            '╤' => Some(0xD1u8),
            '╥' => Some(0xD2u8),
            '╙' => Some(0xD3u8),
            '╘' => Some(0xD4u8),
            '╒' => Some(0xD5u8),
            '╓' => Some(0xD6u8),
            '╫' => Some(0xD7u8),
            '╪' => Some(0xD8u8),
            '┘' => Some(0xD9u8),
            '┌' => Some(0xDAu8),
            '█' => Some(0xDBu8),
            '▄' => Some(0xDCu8),
            '▌' => Some(0xDDu8),
            '▐' => Some(0xDEu8),
            '▀' => Some(0xDFu8),
            'α' => Some(0xE0u8),
            'ß' => Some(0xE1u8),
            'Γ' => Some(0xE2u8),
            'π' => Some(0xE3u8),
            'Σ' => Some(0xE4u8),
            'σ' => Some(0xE5u8),
            'µ' => Some(0xE6u8),
            'τ' => Some(0xE7u8),
            'Φ' => Some(0xE8u8),
            'Θ' => Some(0xE9u8),
            'Ω' => Some(0xEAu8),
            'δ' => Some(0xEBu8),
            '∞' => Some(0xECu8),
            'φ' => Some(0xEDu8),
            'ε' => Some(0xEEu8),
            '∩' => Some(0xEFu8),
            '≡' => Some(0xF0u8),
            '±' => Some(0xF1u8),
            '≥' => Some(0xF2u8),
            '≤' => Some(0xF3u8),
            '⌠' => Some(0xF4u8),
            '⌡' => Some(0xF5u8),
            '÷' => Some(0xF6u8),
            '≈' => Some(0xF7u8),
            '°' => Some(0xF8u8),
            '∙' => Some(0xF9u8),
            '·' => Some(0xFAu8),
            '√' => Some(0xFBu8),
            'ⁿ' => Some(0xFCu8),
            '²' => Some(0xFDu8),
            '■' => Some(0xFEu8),
            '\u{a0}' => Some(0xFFu8),
            _ => None,
    }
}

/// Whether some byte stands for the character.
pub open spec fn is_cp437(c: char) -> bool {
    cp437_byte(c) is Some
}

/// Bytes decoded one by one.
pub open spec fn decode(bytes: Seq<u8>) -> Seq<char> {
    bytes.map_values(|b: u8| cp437_char(b))
}

/// Characters encoded one by one; meaningful where each is encodable.
pub open spec fn encode(s: Seq<char>) -> Seq<u8> {
    s.map_values(|c: char| cp437_byte(c)->0)
}

/// Whether every character of the text is encodable.
pub open spec fn encodable(s: Seq<char>) -> bool {
    forall|i: int| 0 <= i < s.len() ==> is_cp437(#[trigger] s[i])
}

/// The index of the first character that cannot be encoded.
pub open spec fn first_unmappable(s: Seq<char>) -> int
    recommends
        !encodable(s),
{
    choose|i: int|
        0 <= i < s.len() && !is_cp437(s[i]) && forall|j: int| 0 <= j < i ==> is_cp437(#[trigger] s[j])
}

/// The message for a character that cannot be encoded.
pub open spec fn unmappable_message(c: char) -> Seq<char> {
    seq![c] + " (U+"@ + hex(c as u32 as nat) + ") is not a valid CP437 character"@
}

/// Decoding a byte and encoding the character gives the byte back.
pub proof fn lemma_byte_round_trip(b: u8)
    ensures
        cp437_byte(cp437_char(b)) == Some(b),
{
}

/// A byte found for a character decodes to that character.
pub proof fn lemma_char_round_trip(c: char)
    ensures
        cp437_byte(c) matches Some(b) ==> cp437_char(b) == c,
{
}

/// Decoding bytes and encoding the text gives the bytes back: every byte,
/// the line-ending and framing bytes included, has a character of its own.
pub proof fn lemma_round_trip(bytes: Seq<u8>)
    ensures
        encodable(decode(bytes)),
        encode(decode(bytes)) == bytes,
{
    assert forall|i: int| 0 <= i < decode(bytes).len() implies is_cp437(#[trigger] decode(bytes)[i]) by {
        lemma_byte_round_trip(bytes[i]);
    }
    assert forall|i: int| 0 <= i < bytes.len() implies #[trigger] encode(decode(bytes))[i] == bytes[i] by {
        lemma_byte_round_trip(bytes[i]);
    }
    assert(encode(decode(bytes)) =~= bytes);
}

/// Encoding text and decoding the bytes gives the text back.
pub proof fn lemma_text_round_trip(s: Seq<char>)
    requires
        encodable(s),
    ensures
        decode(encode(s)) == s,
{
    assert forall|i: int| 0 <= i < s.len() implies #[trigger] decode(encode(s))[i] == s[i] by {
        lemma_char_round_trip(s[i]);
    }
    assert(decode(encode(s)) =~= s);
}

/// The character that a byte stands for.
pub fn byte_to_char(b: u8) -> (c: char)
    ensures
        c == cp437_char(b),
{
    match b {
            0x00 => '\u{0}',
            0x01 => '☺',
            0x02 => '☻',
            0x03 => '♥',
            0x04 => '♦',
            0x05 => '♣',
            0x06 => '♠',
            0x07 => '•',
            0x08 => '◘',
            0x09 => '○',
            0x0A => '\u{a}',
            0x0B => '♂',
            0x0C => '♀',
            0x0D => '\u{d}',
            0x0E => '♫',
            0x0F => '☼',
            0x10 => '►',
            0x11 => '◄',
            0x12 => '↕',
            0x13 => '‼',
            0x14 => '¶',
            0x15 => '§',
            0x16 => '▬',
            0x17 => '↨',
            0x18 => '↑',
            0x19 => '↓',
            0x1A => '\u{1a}',
            0x1B => '\u{1b}',
            0x1C => '∟',
            0x1D => '↔',
            0x1E => '▲',
            0x1F => '▼',
            0x20 => ' ',
            0x21 => '!',
            0x22 => '"',
            0x23 => '#',
            0x24 => '$',
            0x25 => '%',
            0x26 => '&',
            0x27 => '\'',
            0x28 => '(',
            0x29 => ')',
            0x2A => '*',
            0x2B => '+',
            0x2C => ',',
            0x2D => '-',
            0x2E => '.',
            0x2F => '/',
            0x30 => '0',
            0x31 => '1',
            0x32 => '2',
            0x33 => '3',
            0x34 => '4',
            0x35 => '5',
            0x36 => '6',
            0x37 => '7',
            0x38 => '8',
            0x39 => '9',
            0x3A => ':',
            0x3B => ';',
            0x3C => '<',
            0x3D => '=',
            0x3E => '>',
            0x3F => '?',
            0x40 => '@',
            0x41 => 'A',
            0x42 => 'B',
            0x43 => 'C',
            0x44 => 'D',
            0x45 => 'E',
            0x46 => 'F',
            0x47 => 'G',
            0x48 => 'H',
            0x49 => 'I',
            0x4A => 'J',
            0x4B => 'K',
            0x4C => 'L',
            0x4D => 'M',
            0x4E => 'N',
            0x4F => 'O',
            0x50 => 'P',
            0x51 => 'Q',
            0x52 => 'R',
            0x53 => 'S',
            0x54 => 'T',
            0x55 => 'U',
            0x56 => 'V',
            0x57 => 'W',
            0x58 => 'X',
            0x59 => 'Y',
            0x5A => 'Z',
            0x5B => '[',
            0x5C => '\\',
            0x5D => ']',
            0x5E => '^',
            0x5F => '_',
            0x60 => '`',
            0x61 => 'a',
            0x62 => 'b',
            0x63 => 'c',
            0x64 => 'd',
            0x65 => 'e',
            0x66 => 'f',
            0x67 => 'g',
            0x68 => 'h',
            0x69 => 'i',
            0x6A => 'j',
            0x6B => 'k',
            0x6C => 'l',
            0x6D => 'm',
            0x6E => 'n',
            0x6F => 'o',
            0x70 => 'p',
            0x71 => 'q',
            0x72 => 'r',
            0x73 => 's',
            0x74 => 't',
            0x75 => 'u',
            0x76 => 'v',
            0x77 => 'w',
            0x78 => 'x',
            0x79 => 'y',
            0x7A => 'z',
            0x7B => '{',
            0x7C => '|',
            0x7D => '}',
            0x7E => '~',
            0x7F => '⌂',
            0x80 => 'Ç',
            0x81 => 'ü',
            0x82 => 'é',
            0x83 => 'â',
            0x84 => 'ä',
            0x85 => 'à',
            0x86 => 'å',
            0x87 => 'ç',
            0x88 => 'ê',
            0x89 => 'ë',
            0x8A => 'è',
            0x8B => 'ï',
            0x8C => 'î',
            0x8D => 'ì',
            0x8E => 'Ä',
            0x8F => 'Å',
            0x90 => 'É',
            0x91 => 'æ',
            0x92 => 'Æ',
            0x93 => 'ô',
            0x94 => 'ö',
            0x95 => 'ò',
            0x96 => 'û',
            0x97 => 'ù',
            0x98 => 'ÿ',
            0x99 => 'Ö',
            0x9A => 'Ü',
            0x9B => '¢',
            0x9C => '£',
            0x9D => '¥',
            0x9E => '₧',
            0x9F => 'ƒ',
            0xA0 => 'á',
            0xA1 => 'í',
            0xA2 => 'ó',
            0xA3 => 'ú',
            0xA4 => 'ñ',
            0xA5 => 'Ñ',
            0xA6 => 'ª',
            0xA7 => 'º',
            0xA8 => '¿',
            0xA9 => '⌐',
            0xAA => '¬',
            0xAB => '½',
            0xAC => '¼',
            0xAD => '¡',
            0xAE => '«',
            0xAF => '»',
            0xB0 => '░',
            0xB1 => '▒',
            0xB2 => '▓',
            0xB3 => '│',
            0xB4 => '┤',
            0xB5 => '╡',
            0xB6 => '╢',
            0xB7 => '╖',
            0xB8 => '╕',
            0xB9 => '╣',
            0xBA => '║',
            0xBB => '╗',
            0xBC => '╝',
            0xBD => '╜',
            0xBE => '╛',
            0xBF => '┐',
            0xC0 => '└',
            0xC1 => '┴',
            0xC2 => '┬',
            0xC3 => '├',
            0xC4 => '─',
            0xC5 => '┼',
            0xC6 => '╞',
            0xC7 => '╟',
            0xC8 => '╚',
            0xC9 => '╔',
            0xCA => '╩',
            0xCB => '╦',
            0xCC => '╠',
            0xCD => '═',
            0xCE => '╬',
            0xCF => '╧',
            0xD0 => '╨',
            0xD1 => '╤',
            0xD2 => '╥',
            0xD3 => '╙',
            0xD4 => '╘',
            0xD5 => '╒',
            0xD6 => '╓',
            0xD7 => '╫',
            0xD8 => '╪',
            0xD9 => '┘',
            0xDA => '┌',
            0xDB => '█',
            0xDC => '▄',
            0xDD => '▌',
            0xDE => '▐',
            0xDF => '▀',
            0xE0 => 'α',
            0xE1 => 'ß',
            0xE2 => 'Γ',
            0xE3 => 'π',
            0xE4 => 'Σ',
            0xE5 => 'σ',
            0xE6 => 'µ',
            0xE7 => 'τ',
            0xE8 => 'Φ',
            0xE9 => 'Θ',
            0xEA => 'Ω',
            0xEB => 'δ',
            0xEC => '∞',
            0xED => 'φ',
            0xEE => 'ε',
            0xEF => '∩',
            0xF0 => '≡',
            0xF1 => '±',
            0xF2 => '≥',
            0xF3 => '≤',
            0xF4 => '⌠',
            0xF5 => '⌡',
            0xF6 => '÷',
            0xF7 => '≈',
            0xF8 => '°',
            0xF9 => '∙',
            0xFA => '·',
            0xFB => '√',
            0xFC => 'ⁿ',
            0xFD => '²',
            0xFE => '■',
            _ => '\u{a0}',
    }
}

#[verifier::external_type_specification]
#[verifier::external_body]
#[verifier::reject_recursive_types(K)]
#[verifier::reject_recursive_types(V)]
#[verifier::reject_recursive_types(S)]
pub struct ExIndexMap<K, V, S>(IndexMap<K, V, S>);

/// A table from characters to bytes.
pub type CharTable = IndexMap<char, u8>;

/// What an inverse table maps each character to.
pub uninterp spec fn table_contents(m: CharTable) -> Map<char, u8>;

/// Relies on `IndexMap::new`: a new map holds no entry.
#[verifier::external_body]
fn table_new() -> (r: CharTable)
    ensures
        table_contents(r).dom().is_empty(),
{
    IndexMap::new()
}

/// Relies on `IndexMap::insert`: afterwards the key maps to the value,
/// whether or not it was present before; other entries stay.
#[verifier::external_body]
fn table_insert(m: &mut CharTable, k: char, v: u8)
    ensures
        table_contents(*final(m)) == table_contents(*old(m)).insert(k, v),
{
    m.insert(k, v);
}

/// Relies on `IndexMap::get`: the value of the key, if it is present.
#[verifier::external_body]
fn table_get(m: &CharTable, k: char) -> (r: Option<u8>)
    ensures
        r == (if table_contents(*m).contains_key(k) {
            Some(table_contents(*m)[k])
        } else {
            None
        }),
{
    m.get(&k).copied()
}

/// The inverse of the byte table: each character maps to its byte.
fn inverse_table() -> (m: CharTable)
    ensures
        forall|c: char| #[trigger] table_contents(m).contains_key(c) <==> is_cp437(c),
        forall|c: char| is_cp437(c) ==> #[trigger] table_contents(m)[c] == cp437_byte(c)->0,
{
    let mut m = table_new();
    let mut i: u16 = 0;
    while i < 256
        invariant
            i <= 256,
            forall|c: char| #[trigger]
                table_contents(m).contains_key(c) <==> (cp437_byte(c) matches Some(b) && b < i),
            forall|c: char| #[trigger]
                table_contents(m).contains_key(c) ==> table_contents(m)[c] == cp437_byte(c)->0,
        decreases 256 - i,
    {
        let b = i as u8;
        let c = byte_to_char(b);
        proof {
            lemma_byte_round_trip(b);
        }
        table_insert(&mut m, c, b);
        assert forall|d: char| #[trigger]
            table_contents(m).contains_key(d) <==> (cp437_byte(d) matches Some(x) && x < i + 1) by {
            lemma_char_round_trip(d);
        }
        i = i + 1;
    }
    assert forall|c: char| is_cp437(c) implies #[trigger] table_contents(m)[c] == cp437_byte(c)->0 by {
        assert(table_contents(m).contains_key(c));
    }
    m
}

/// Decodes bytes into a string, one character per byte.
pub fn to_utf8(cp437: &[u8]) -> (r: String)
    ensures
        r@ == decode(cp437@),
{
    let mut r = String::new();
    let mut i: usize = 0;
    while i < cp437.len()
        invariant
            i <= cp437@.len(),
            r@ == decode(cp437@.subrange(0, i as int)),
        decreases cp437@.len() - i,
    {
        push_char(&mut r, byte_to_char(cp437[i]));
        i = i + 1;
        assert(r@ =~= decode(cp437@.subrange(0, i as int)));
    }
    assert(cp437@.subrange(0, i as int) =~= cp437@);
    r
}

/// Encodes a string, one byte per character.
///
/// Fails on the first character that has no byte, with a message that names
/// it and its code point.
pub fn to_cp437(utf8: &str) -> (r: Result<Vec<u8>, String>)
    ensures
        r is Ok <==> encodable(utf8@),
        r matches Ok(v) ==> v@ == encode(utf8@),
        r matches Err(e) ==> e@ == unmappable_message(utf8@[first_unmappable(utf8@)]),
{
    let table = inverse_table();
    let cs = chars_of(utf8);
    let mut out: Vec<u8> = Vec::new();
    let mut i: usize = 0;
    while i < cs.len()
        invariant
            cs@ == utf8@,
            i <= cs@.len(),
            encodable(cs@.subrange(0, i as int)),
            out@ == encode(cs@.subrange(0, i as int)),
            forall|c: char| #[trigger] table_contents(table).contains_key(c) <==> is_cp437(c),
            forall|c: char| is_cp437(c) ==> #[trigger] table_contents(table)[c] == cp437_byte(c)->0,
        decreases cs@.len() - i,
    {
        let c = cs[i];
        match table_get(&table, c) {
            Some(b) => {
                out.push(b);
            },
            None => {
                let mut e = String::new();
                push_char(&mut e, c);
                push_str(&mut e, " (U+");
                push_hex(&mut e, c as u32 as u64);
                push_str(&mut e, ") is not a valid CP437 character");
                proof {
                    let s = utf8@;
                    assert(!encodable(s));
                    let k = first_unmappable(s);
                    assert forall|j: int| 0 <= j < i implies is_cp437(#[trigger] s[j]) by {
                        assert(cs@.subrange(0, i as int)[j] == s[j]);
                    }
                    assert(0 <= k < s.len() && !is_cp437(s[k]) && forall|j: int|
                        0 <= j < k ==> is_cp437(#[trigger] s[j]));
                    assert(k == i);
                }
                return Err(e);
            },
        }
        i = i + 1;
        assert(cs@.subrange(0, i as int) =~= cs@.subrange(0, i - 1).push(c));
        assert(out@ =~= encode(cs@.subrange(0, i as int)));
    }
    assert(cs@.subrange(0, i as int) =~= cs@);
    Ok(out)
}

} // verus!
