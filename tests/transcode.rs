use cp437_tools::transcode::Transcoder;

fn transcode(bytes: &[u8], width: u16, height: u16) -> String {
    let mut t = Transcoder::new(width, height);
    let mut out = String::new();
    for b in bytes {
        out.push_str(&t.step(*b));
    }
    out
}

#[test]
fn text_is_decoded_and_wrapped() {
    assert_eq!(transcode(b"abc\xB0", 2, 25), "ab\r\nc\u{2591}\r\n");
}

#[test]
fn escapes_pass_through_without_moving() {
    assert_eq!(transcode(b"\x1B[1;33mab", 2, 25), "\u{1B}[1;33mab\r\n");
}

#[test]
fn nul_shows_as_space_and_rows_past_height_are_dropped() {
    assert_eq!(transcode(b"\x00\nb\nc", 80, 2), " \nb\n");
}
