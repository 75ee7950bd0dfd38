use cp437_tools::meta::{
    check, check_date, check_flags, check_font, check_notes, check_str, check_title, check_type, locate,
    parse, Meta,
};

/// A record as the sample files carry it: title, author, group, date,
/// the given size and notes, type (1, 1), 32 by 8, flags 0x01, IBM VGA.
fn sample_record(size: u32, notes: &[&str]) -> Vec<u8> {
    let mut v: Vec<u8> = vec![0x1A];
    if !notes.is_empty() {
        v.extend(b"COMNT");
        for n in notes {
            v.extend(format!("{:<64}", n).bytes());
        }
    }
    v.extend(b"SAUCE00");
    v.extend(format!("{:<35}", "TITLE").bytes());
    v.extend(format!("{:<20}", "AUTHOR").bytes());
    v.extend(format!("{:<20}", "GROUP").bytes());
    v.extend(b"19700101");
    v.extend(size.to_le_bytes());
    v.extend([1u8, 1u8]);
    v.extend(32u16.to_le_bytes());
    v.extend(8u16.to_le_bytes());
    v.extend(0u32.to_le_bytes());
    v.push(notes.len() as u8);
    v.push(0x01);
    v.extend(format!("{:\0<22}", "IBM VGA").bytes());
    v
}

/// Some art: a coloured line, then text.
fn sample_body(len: usize) -> Vec<u8> {
    let mut v: Vec<u8> = b"\x1B[1;33mHello\x1B[0m\r\n".to_vec();
    while v.len() < len {
        v.push(b'A' + (v.len() % 26) as u8);
    }
    v.truncate(len);
    v
}

fn read(file: &[u8]) -> Option<Meta> {
    return locate(file).map(|raw| parse(&raw));
}

#[test]
fn default() {
    let meta = Meta::default();
    assert_eq!(meta.title(), None);
    assert_eq!(meta.author(), None);
    assert_eq!(meta.group(), None);
    assert_eq!(meta.date(), None);
    assert_eq!(meta.size(), 0);
    assert_eq!(meta.file_type(), (1, 1));
    assert_eq!(meta.dimensions(), (80, 25));
    assert_eq!(meta.flags(), (0b01, 0b10, 0b1));
    assert_eq!(meta.font(), Some(&String::from("IBM VGA")));
    assert_eq!(meta.notes(), &Vec::<String>::new());
}

#[test]
fn meta_none() -> Result<(), String> {
    let file = sample_body(416);
    assert!(read(&file).is_none());
    assert!(locate(&file).is_none());
    check(None)?;
    return check_type(Some(&Meta { file_type: (0, 0), ..Default::default() }));
}

#[test]
fn meta_some() -> Result<(), String> {
    let mut file = sample_body(416);
    file.extend(sample_record(416, &[]));
    let meta = read(&file);
    assert!(meta.is_some());
    let meta = meta.unwrap();
    assert_eq!(meta.title(), Some(&String::from("TITLE")));
    assert_eq!(meta.author(), Some(&String::from("AUTHOR")));
    assert_eq!(meta.group(), Some(&String::from("GROUP")));
    assert_eq!(meta.date(), Some(&String::from("19700101")));
    assert_eq!(meta.size(), 416);
    assert_eq!(meta.file_type(), (1, 1));
    assert_eq!(meta.dimensions(), (32, 8));
    assert_eq!(meta.flags(), (0, 0, 1));
    assert_eq!(meta.font(), Some(&String::from("IBM VGA")));
    assert_eq!(meta.notes(), &Vec::<String>::new());
    assert_eq!(locate(&file).unwrap(), sample_record(416, &[]));
    return check(Some(&Meta::default()));
}

#[test]
fn meta_notes() {
    let notes = ["Lorem", "ipsum", "dolor", "sit", "amet"];
    let mut file = sample_body(416);
    file.extend(sample_record(416, &notes));
    let meta = read(&file);
    assert!(meta.is_some());
    let meta = meta.unwrap();
    assert_eq!(meta.title(), Some(&String::from("TITLE")));
    assert_eq!(meta.author(), Some(&String::from("AUTHOR")));
    assert_eq!(meta.group(), Some(&String::from("GROUP")));
    assert_eq!(meta.date(), Some(&String::from("19700101")));
    assert_eq!(meta.size(), 416);
    assert_eq!(meta.file_type(), (1, 1));
    assert_eq!(meta.dimensions(), (32, 8));
    assert_eq!(meta.flags(), (0, 0, 1));
    assert_eq!(meta.font(), Some(&String::from("IBM VGA")));
    assert_eq!(meta.notes(), &vec!["Lorem", "ipsum", "dolor", "sit", "amet"]);
    assert_eq!(locate(&file).unwrap(), sample_record(416, &notes));
}

#[test]
fn meta_comments() {
    let mut file = sample_body(404);
    file.extend(sample_record(404, &["Lorem", "ipsum", "dolor", "sit", "amet"]));
    let meta = read(&file).unwrap();
    assert_eq!(meta.title, "TITLE");
    assert_eq!(meta.author, "AUTHOR");
    assert_eq!(meta.group, "GROUP");
    assert_eq!(meta.date, "19700101");
    assert_eq!(meta.size, 404);
    assert_eq!(meta.file_type, (1, 1));
    assert_eq!(meta.width, 32);
    assert_eq!(meta.height, 8);
    assert_eq!(meta.flags, 0x01);
    assert_eq!(meta.font, "IBM VGA");
    assert_eq!(meta.notes, vec!["Lorem", "ipsum", "dolor", "sit", "amet"]);
}

#[test]
fn meta_empty() -> Result<(), String> {
    let file: Vec<u8> = vec![];
    assert!(read(&file).is_none());
    assert!(locate(&file).is_none());
    return check_notes(Some(&Meta { notes: vec![], ..Default::default() }));
}

#[test]
fn meta_no_data() {
    let file = sample_record(0, &[]);
    let meta = read(&file);
    assert!(meta.is_some());
    assert_eq!(meta.unwrap().size(), 0);
    assert_eq!(locate(&file).unwrap(), sample_record(0, &[]));
}

#[test]
fn meta_one_hundred_twenty_eight_bytes() {
    let file = sample_record(0, &[])[1..].to_vec();
    assert_eq!(file.len(), 128);
    assert!(read(&file).is_none());
    assert!(locate(&file).is_none());
}

#[test]
fn meta_valid() -> Result<(), String> {
    check_date(Some(&Meta { date: String::from("19700101"), ..Default::default() }))?;
    check_font(Some(&Meta { font: String::from("IBM VGA"), ..Default::default() }))?;
    return check_str("string", "name", 99);
}

#[test]
fn meta_invalid() {
    assert!(check_date(Some(&Meta { date: String::from("X"), ..Default::default() })).is_err());
    assert!(check_flags(Some(&Meta { flags: 0x21, ..Default::default() })).is_err());
    assert!(check_font(Some(&Meta { font: String::from("X"), ..Default::default() })).is_err());
    let result = check_str("🚫", "name", 99);
    assert!(result.is_err());
    assert_eq!(result.unwrap_err(), "name contains illegal characters (🚫 (U+1F6AB) is not a valid CP437 character)");
    assert!(check_str("\0", "name", 99).is_err());
}

#[test]
fn meta_illegal() {
    assert!(check_date(Some(&Meta { date: String::from("19700230"), ..Default::default() })).is_err());
}

#[test]
fn meta_b_0() {
    assert!(check_flags(Some(&Meta { flags: 0x00, ..Default::default() })).is_err());
}

#[test]
fn meta_ls_00() -> Result<(), String> {
    return check_flags(Some(&Meta { flags: 0x01, ..Default::default() }));
}

#[test]
fn meta_ls_01() -> Result<(), String> {
    return check_flags(Some(&Meta { flags: 0x03, ..Default::default() }));
}

#[test]
fn meta_ls_10() -> Result<(), String> {
    return check_flags(Some(&Meta { flags: 0x05, ..Default::default() }));
}

#[test]
fn meta_ls_11() {
    assert!(check_flags(Some(&Meta { flags: 0x07, ..Default::default() })).is_err());
}

#[test]
fn meta_ar_00() -> Result<(), String> {
    return check_flags(Some(&Meta { flags: 0x01, ..Default::default() }));
}

#[test]
fn meta_ar_01() -> Result<(), String> {
    return check_flags(Some(&Meta { flags: 0x09, ..Default::default() }));
}

#[test]
fn meta_ar_10() -> Result<(), String> {
    return check_flags(Some(&Meta { flags: 0x11, ..Default::default() }));
}

#[test]
fn meta_ar_11() {
    assert!(check_flags(Some(&Meta { flags: 0x19, ..Default::default() })).is_err());
}

#[test]
fn font_size_8x16() {
    assert_eq!((Meta { flags: 0x03, ..Default::default() }).font_size(), (8, 16));
}

#[test]
fn font_size_9x16() {
    assert_eq!((Meta { flags: 0x01, ..Default::default() }).font_size(), (9, 16));
}

#[test]
fn meta_not_empty() -> Result<(), String> {
    return check_notes(Some(&Meta { notes: vec![String::new()], ..Default::default() }));
}

#[test]
fn too_many() {
    assert!(check_notes(Some(&Meta { notes: vec![String::new(); 256], ..Default::default() })).is_err());
}

#[test]
fn valid_non_ascii() -> Result<(), String> {
    return check_str("░", "name", 99);
}

#[test]
fn meta_ok() -> Result<(), String> {
    return check_str("string", "name", 99);
}

#[test]
fn meta_long() {
    let result = check_str("string", "name", 0);
    assert!(result.is_err());
    assert_eq!(result.unwrap_err(), "name is too long (expected <=0, got 6)");
}

#[test]
fn control() {
    let result = check_str("\0", "name", 99);
    assert!(result.is_err());
    assert_eq!(result.unwrap_err(), "name contains illegal characters (0x00 is a control character)");
}

#[test]
fn meta_ascii() -> Result<(), String> {
    return check_type(Some(&Meta { file_type: (1, 0), ..Default::default() }));
}

#[test]
fn meta_ansi() -> Result<(), String> {
    return check_type(Some(&Meta { file_type: (1, 1), ..Default::default() }));
}

#[test]
fn meta_bitmap() {
    assert!(check_type(Some(&Meta { file_type: (2, 0), ..Default::default() })).is_err());
}

#[test]
fn meta_vector() {
    assert!(check_type(Some(&Meta { file_type: (3, 0), ..Default::default() })).is_err());
}

#[test]
fn meta_audio() {
    assert!(check_type(Some(&Meta { file_type: (4, 0), ..Default::default() })).is_err());
}

#[test]
fn meta_binary_test() {
    assert!(check_type(Some(&Meta { file_type: (5, 0), ..Default::default() })).is_err());
}

#[test]
fn meta_xbin() {
    assert!(check_type(Some(&Meta { file_type: (6, 0), ..Default::default() })).is_err());
}

#[test]
fn meta_archive() {
    assert!(check_type(Some(&Meta { file_type: (7, 0), ..Default::default() })).is_err());
}

#[test]
fn meta_executable() {
    assert!(check_type(Some(&Meta { file_type: (8, 0), ..Default::default() })).is_err());
}

#[test]
fn meta_ansimation() {
    assert!(check_type(Some(&Meta { file_type: (1, 2), ..Default::default() })).is_err());
}

#[test]
fn meta_rip_script() {
    assert!(check_type(Some(&Meta { file_type: (1, 3), ..Default::default() })).is_err());
}

#[test]
fn meta_pcboard() {
    assert!(check_type(Some(&Meta { file_type: (1, 4), ..Default::default() })).is_err());
}

#[test]
fn meta_avatar() {
    assert!(check_type(Some(&Meta { file_type: (1, 5), ..Default::default() })).is_err());
}

#[test]
fn meta_html() {
    assert!(check_type(Some(&Meta { file_type: (1, 6), ..Default::default() })).is_err());
}

#[test]
fn meta_source() {
    assert!(check_type(Some(&Meta { file_type: (1, 7), ..Default::default() })).is_err());
}

#[test]
fn meta_tundra_draw() {
    assert!(check_type(Some(&Meta { file_type: (1, 8), ..Default::default() })).is_err());
}

#[test]
fn title_checked_in_check() {
    let result = check_title(Some(&Meta { title: "x".repeat(36), ..Default::default() }));
    assert_eq!(result.unwrap_err(), "Title is too long (expected <=35, got 36)");
}
