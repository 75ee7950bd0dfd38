use cp437_tools::meta::{check, locate, parse, serialize, Meta};

fn sample() -> Meta {
    Meta {
        title: String::from("A title"),
        author: String::from("Someone"),
        group: String::from("Group"),
        date: String::from("19700101"),
        size: 3,
        file_type: (1, 1),
        width: 32,
        height: 8,
        flags: 0x13,
        font: String::from("IBM VGA"),
        notes: vec![String::from("first"), String::from("░▒▓"), String::new()],
    }
}

#[test]
fn serialized_record_reads_back() {
    let meta = sample();
    assert!(check(Some(&meta)).is_ok());
    let file = serialize(b"abc", &meta).unwrap();
    assert_eq!(&file[..3], b"abc");
    assert_eq!(file.len(), 3 + 134 + 3 * 64);
    let raw = locate(&file).unwrap();
    assert_eq!(raw, file[3..].to_vec());
    assert_eq!(parse(&raw), meta);
}

#[test]
fn serialized_record_without_notes() {
    let meta = Meta { notes: vec![], ..sample() };
    let file = serialize(b"", &meta).unwrap();
    assert_eq!(file.len(), 129);
    assert_eq!(file[0], 0x1A);
    assert_eq!(&file[1..8], b"SAUCE00");
    assert_eq!(&file[8..15], b"A title");
    assert_eq!(file[file.len() - 24], 0);
    assert_eq!(file[file.len() - 23], 0x13);
    assert_eq!(&file[file.len() - 22..file.len() - 15], b"IBM VGA");
    assert_eq!(file[file.len() - 1], 0);
    assert_eq!(parse(&locate(&file).unwrap()), meta);
}

#[test]
fn numbers_are_little_endian() {
    let meta = Meta { size: 0x01020304, width: 0x0506, height: 0x0708, notes: vec![], ..sample() };
    let file = serialize(b"", &meta).unwrap();
    let n = file.len();
    assert_eq!(&file[n - 38..n - 34], &[4, 3, 2, 1]);
    assert_eq!(&file[n - 32..n - 28], &[6, 5, 8, 7]);
}

#[test]
fn unencodable_text_is_refused() {
    let meta = Meta { title: String::from("€"), ..sample() };
    assert_eq!(serialize(b"", &meta).unwrap_err(), "€ (U+20AC) is not a valid CP437 character");
}

#[test]
fn locate_refuses_short_or_untagged_files() {
    assert!(locate(&[0u8; 128]).is_none());
    assert!(locate(&[0u8; 400]).is_none());
    let mut file = serialize(b"body", &Meta { notes: vec![], ..sample() }).unwrap();
    let n = file.len();
    file[n - 128] = b'X';
    assert!(locate(&file).is_none());
}

#[test]
fn locate_refuses_missing_markers() {
    let mut file = serialize(b"body", &sample()).unwrap();
    let start = file.len() - (134 + 3 * 64);
    file[start + 1] = b'X';
    assert!(locate(&file).is_none());
    let mut file = serialize(b"body", &Meta { notes: vec![], ..sample() }).unwrap();
    let start = file.len() - 129;
    file[start] = b' ';
    assert!(locate(&file).is_none());
}

#[test]
fn locate_refuses_a_comment_count_past_the_start() {
    let mut file = serialize(b"", &Meta { notes: vec![], ..sample() }).unwrap();
    let n = file.len();
    file[n - 24] = 9;
    assert!(locate(&file).is_none());
}

#[test]
fn padding_is_trimmed_on_read() {
    let meta = Meta { title: String::from("T"), font: String::new(), notes: vec![], ..sample() };
    let parsed = parse(&locate(&serialize(b"", &meta).unwrap()).unwrap());
    assert_eq!(parsed.title, "T");
    assert_eq!(parsed.font, "");
}
