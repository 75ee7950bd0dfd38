use cp437_tools::validate::label_width_of;
use cp437_tools::meta::{check, check_date, check_flags, check_font, check_note, check_notes, check_type, file_type_name, Meta};

#[test]
fn flags_zero_is_blink_mode() {
    assert_eq!(check(Some(&Meta { flags: 0x00, ..Default::default() })).unwrap_err(), "Blink mode is unsupported");
}

#[test]
fn flags_masks() {
    assert_eq!(check_flags(Some(&Meta { flags: 0x07, ..Default::default() })).unwrap_err(), "Invalid letter spacing");
    assert_eq!(check_flags(Some(&Meta { flags: 0x19, ..Default::default() })).unwrap_err(), "Invalid aspect ratio");
    assert_eq!(check_flags(Some(&Meta { flags: 0x21, ..Default::default() })).unwrap_err(), "Invalid flags");
    assert!(check_flags(Some(&Meta { flags: 0x1F, ..Default::default() })).is_err());
    assert!(check_flags(Some(&Meta { flags: 0x15, ..Default::default() })).is_ok());
    assert!(check_flags(None).is_ok());
}

#[test]
fn date_calendar() {
    assert!(check_date(Some(&Meta { date: String::from("19700230"), ..Default::default() })).is_err());
    assert!(check_date(Some(&Meta { date: String::from("19700101"), ..Default::default() })).is_ok());
    assert!(check_date(Some(&Meta { date: String::new(), ..Default::default() })).is_ok());
    assert_eq!(
        check_date(Some(&Meta { date: String::from("1970"), ..Default::default() })).unwrap_err(),
        "Date length is wrong (expected =8, got 4)"
    );
    let e = check_date(Some(&Meta { date: String::from("19701301"), ..Default::default() })).unwrap_err();
    assert!(e.starts_with("Date format is wrong ("));
}

#[test]
fn type_names() {
    assert_eq!(file_type_name((0, 7)), "None");
    assert_eq!(file_type_name((1, 1)), "Character/ANSi");
    assert_eq!(file_type_name((1, 42)), "Character/Unknown 42");
    assert_eq!(file_type_name((6, 0)), "XBin");
    assert_eq!(file_type_name((200, 3)), "Unknown 200/Unknown 3");
    assert_eq!(
        check_type(Some(&Meta { file_type: (2, 0), ..Default::default() })).unwrap_err(),
        "Type is unsupported (Bitmap)"
    );
}

#[test]
fn fonts() {
    assert!(check_font(Some(&Meta { font: String::from("IBM VGA 437"), ..Default::default() })).is_ok());
    assert!(check_font(Some(&Meta { font: String::new(), ..Default::default() })).is_ok());
    assert_eq!(
        check_font(Some(&Meta { font: String::from("Topaz"), ..Default::default() })).unwrap_err(),
        "Font is unsupported (Topaz)"
    );
}

#[test]
fn note_labels_are_padded() {
    let mut notes = vec![String::new(); 120];
    notes[7] = String::from("\u{1B}");
    let meta = Meta { notes, ..Default::default() };
    assert_eq!(
        check_notes(Some(&meta)).unwrap_err(),
        "Notes[007] contains illegal characters (0x1B is a control character)"
    );
    assert_eq!(
        check_note(Some(&Meta { notes: vec![String::from("x".repeat(65))], ..Default::default() }), 0).unwrap_err(),
        "Notes[0] is too long (expected <=64, got 65)"
    );
    assert_eq!(
        check_notes(Some(&Meta { notes: vec![String::new(); 256], ..Default::default() })).unwrap_err(),
        "Too many notes (expected <= 255, got 256)"
    );
}

#[test]
fn check_reports_the_first_failure() {
    let meta = Meta { author: "a".repeat(21), flags: 0, ..Default::default() };
    assert_eq!(check(Some(&meta)).unwrap_err(), "Author is too long (expected <=20, got 21)");
    assert!(check(Some(&Meta::default())).is_ok());
}

#[test]
fn getters_apply_defaults() {
    let meta = Meta { width: 0, height: 0, file_type: (0, 0), flags: 0x11, ..Default::default() };
    assert_eq!(meta.dimensions(), (80, 25));
    assert_eq!(meta.file_type(), (1, 1));
    assert_eq!(meta.aspect_ratio(), (1, 1));
    assert_eq!((Meta { flags: 0x03, ..Default::default() }).aspect_ratio(), (5, 6));
    assert_eq!((Meta { flags: 0x01, ..Default::default() }).aspect_ratio(), (20, 27));
    assert_eq!(meta.font_height(), 16);
}

#[test]
fn label_widths() {
    assert_eq!(label_width_of(1), 0);
    assert_eq!(label_width_of(2), 1);
    assert_eq!(label_width_of(10), 1);
    assert_eq!(label_width_of(11), 2);
    assert_eq!(label_width_of(100), 2);
    assert_eq!(label_width_of(101), 3);
    assert_eq!(label_width_of(255), 3);
}

#[test]
fn clones_keep_every_field() {
    let meta = Meta { title: String::from("t"), notes: vec![String::from("n")], flags: 0x13, ..Default::default() };
    assert_eq!(meta.clone(), meta);
    let scheme = cp437_tools::ColourScheme::CUSTOM([[1, 2, 3]; 16]);
    assert_eq!(scheme.clone(), scheme);
}

#[test]
fn date_must_be_digits() {
    let msg = "Date format is wrong (expected YYYYMMDD digits)";
    assert_eq!(check_date(Some(&Meta { date: String::from("1970\t1\t1"), ..Default::default() })).unwrap_err(), msg);
    assert_eq!(check_date(Some(&Meta { date: String::from("1970\n1\n1"), ..Default::default() })).unwrap_err(), msg);
    assert_eq!(check_date(Some(&Meta { date: String::from("+1970101"), ..Default::default() })).unwrap_err(), msg);
    assert_eq!(check(Some(&Meta { date: String::from(" 1970101"), ..Default::default() })).unwrap_err(), msg);
}

#[test]
fn checked_metadata_serializes() {
    let meta = Meta { date: String::from("19991231"), notes: vec![String::from("α ß")], ..Default::default() };
    assert!(check(Some(&meta)).is_ok());
    assert!(cp437_tools::meta::serialize(b"x", &meta).is_ok());
}
