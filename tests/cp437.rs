use cp437_tools::{to_cp437, to_utf8};

#[test]
fn cp437_to_utf8() {
    for i in 0x00..=0xFFu8 {
        let text = to_utf8(&[i]);
        assert_eq!(text.chars().count(), 1);
        assert_eq!(to_cp437(&text), Ok(vec![i]));
    }
}

#[test]
fn utf8_to_cp437() {
    let all: Vec<u8> = (0x00..=0xFFu8).collect();
    let text = to_utf8(&all);
    for c in text.chars() {
        let byte = to_cp437(&c.to_string()).unwrap();
        assert_eq!(to_utf8(&byte), c.to_string());
    }
}

#[test]
fn vec_to_utf8() {
    assert_eq!(to_utf8(&[0x01]), "☺");
}

#[test]
fn str_to_cp437_ok() {
    let result = to_cp437("☺");
    assert!(result.is_ok());
    assert_eq!(result.unwrap(), vec![0x01]);
}

#[test]
fn str_to_cp437_err() {
    let result = to_cp437("🚫");
    assert!(result.is_err());
    assert_eq!(result.unwrap_err(), "🚫 (U+1F6AB) is not a valid CP437 character");
}

#[test]
fn every_byte_round_trips() {
    let all: Vec<u8> = (0x00..=0xFFu8).collect();
    assert_eq!(to_cp437(&to_utf8(&all)), Ok(all));
}

#[test]
fn line_endings_and_framing_bytes_decode_to_themselves() {
    assert_eq!(to_utf8(&[0x0A, 0x0D, 0x1A, 0x1B, 0x00]), "\n\r\u{1A}\u{1B}\0");
    assert_eq!(to_utf8(&[0x20, 0xFF]), " \u{A0}");
}

#[test]
fn table_samples() {
    assert_eq!(to_utf8(&[0xB0, 0xDB, 0xE0, 0x9E, 0x7F, 0x41]), "░█α₧⌂A");
    assert_eq!(to_utf8(&[]), "");
}

#[test]
fn first_unmappable_character_is_reported() {
    assert_eq!(to_cp437("ab€c😀").unwrap_err(), "€ (U+20AC) is not a valid CP437 character");
    assert_eq!(to_cp437(""), Ok(vec![]));
}
