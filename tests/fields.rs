use cp437_tools::meta::{check, check_flags, check_font, check_notes, check_str, check_type, locate, parse, Meta};

#[test]
fn b_0() {
    assert!(check_flags(Some(&Meta { flags: 0x00, ..Default::default() })).is_err());
}

#[test]
fn ls_00() -> Result<(), String> {
    return check_flags(Some(&Meta { flags: 0x01, ..Default::default() }));
}

#[test]
fn ls_01() -> Result<(), String> {
    return check_flags(Some(&Meta { flags: 0x03, ..Default::default() }));
}

#[test]
fn ls_10() -> Result<(), String> {
    return check_flags(Some(&Meta { flags: 0x05, ..Default::default() }));
}

#[test]
fn ls_11() {
    assert!(check_flags(Some(&Meta { flags: 0x07, ..Default::default() })).is_err());
}

#[test]
fn ar_00() -> Result<(), String> {
    return check_flags(Some(&Meta { flags: 0x01, ..Default::default() }));
}

#[test]
fn ar_01() -> Result<(), String> {
    return check_flags(Some(&Meta { flags: 0x09, ..Default::default() }));
}

#[test]
fn ar_10() -> Result<(), String> {
    return check_flags(Some(&Meta { flags: 0x11, ..Default::default() }));
}

#[test]
fn ar_11() {
    assert!(check_flags(Some(&Meta { flags: 0x19, ..Default::default() })).is_err());
}

#[test]
fn invalid() {
    assert!(check_flags(Some(&Meta { flags: 0x21, ..Default::default() })).is_err());
}

#[test]
fn none() -> Result<(), String> {
    assert!(locate(b"plain text, no record").is_none());
    check(None)?;
    return check_type(Some(&Meta { file_type: (0, 0), ..Default::default() }));
}

#[test]
fn ascii() -> Result<(), String> {
    return check_type(Some(&Meta { file_type: (1, 0), ..Default::default() }));
}

#[test]
fn ansi() -> Result<(), String> {
    return check_type(Some(&Meta { file_type: (1, 1), ..Default::default() }));
}

#[test]
fn bitmap() {
    assert!(check_type(Some(&Meta { file_type: (2, 0), ..Default::default() })).is_err());
}

#[test]
fn vector() {
    assert!(check_type(Some(&Meta { file_type: (3, 0), ..Default::default() })).is_err());
}

#[test]
fn audio() {
    assert!(check_type(Some(&Meta { file_type: (4, 0), ..Default::default() })).is_err());
}

#[test]
fn binary_test() {
    assert!(check_type(Some(&Meta { file_type: (5, 0), ..Default::default() })).is_err());
}

#[test]
fn xbin() {
    assert!(check_type(Some(&Meta { file_type: (6, 0), ..Default::default() })).is_err());
}

#[test]
fn archive() {
    assert!(check_type(Some(&Meta { file_type: (7, 0), ..Default::default() })).is_err());
}

#[test]
fn executable() {
    assert!(check_type(Some(&Meta { file_type: (8, 0), ..Default::default() })).is_err());
}

#[test]
fn ansimation() {
    assert!(check_type(Some(&Meta { file_type: (1, 2), ..Default::default() })).is_err());
}

#[test]
fn rip_script() {
    assert!(check_type(Some(&Meta { file_type: (1, 3), ..Default::default() })).is_err());
}

#[test]
fn pcboard() {
    assert!(check_type(Some(&Meta { file_type: (1, 4), ..Default::default() })).is_err());
}

#[test]
fn avatar() {
    assert!(check_type(Some(&Meta { file_type: (1, 5), ..Default::default() })).is_err());
}

#[test]
fn html() {
    assert!(check_type(Some(&Meta { file_type: (1, 6), ..Default::default() })).is_err());
}

#[test]
fn source() {
    assert!(check_type(Some(&Meta { file_type: (1, 7), ..Default::default() })).is_err());
}

#[test]
fn tundra_draw() {
    assert!(check_type(Some(&Meta { file_type: (1, 8), ..Default::default() })).is_err());
}

#[test]
fn some() -> Result<(), String> {
    return check(Some(&Meta::default()));
}

#[test]
fn comments() {
    let mut record: Vec<u8> = vec![0x1A];
    record.extend(b"COMNT");
    for n in ["Lorem", "ipsum", "dolor", "sit", "amet"] {
        record.extend(format!("{:<64}", n).bytes());
    }
    record.extend(b"SAUCE00");
    record.extend(format!("{:<35}{:<20}{:<20}19700101", "TITLE", "AUTHOR", "GROUP").bytes());
    record.extend(404u32.to_le_bytes());
    record.extend([1u8, 1, 32, 0, 8, 0, 0, 0, 0, 0, 5, 0x01]);
    record.extend(format!("{:\0<22}", "IBM VGA").bytes());
    let mut file = vec![b'.'; 404];
    file.extend(&record);
    let meta = parse(&locate(&file).unwrap());
    assert_eq!(meta.size, 404);
    assert_eq!((meta.width, meta.height), (32, 8));
    assert_eq!(meta.notes, vec!["Lorem", "ipsum", "dolor", "sit", "amet"]);
}

#[test]
fn empty() -> Result<(), String> {
    return check_notes(Some(&Meta { notes: vec![], ..Default::default() }));
}

#[test]
fn not_empty() -> Result<(), String> {
    return check_notes(Some(&Meta { notes: vec![String::from("")], ..Default::default() }));
}

#[test]
fn valid() -> Result<(), String> {
    return check_font(Some(&Meta { font: String::from("IBM VGA"), ..Default::default() }));
}

#[test]
fn ok() -> Result<(), String> {
    return check_str("string", "name", 99);
}

#[test]
fn long() {
    assert!(check_str("string", "name", 0).is_err());
}
