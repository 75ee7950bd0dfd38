use cp437_tools::edit::{escape, set_meta, split_notes, type_from_lowercase};
use cp437_tools::meta::{check, Meta};
use cp437_tools::ExitCode;

fn check_escape(input: &str, output: &str) -> Result<(), String> {
    return escape(input).map(|input| assert_eq!(input, output));
}

#[test]
fn escape_empty() -> Result<(), String> {
    return check_escape("", "");
}

#[test]
fn no_escape() -> Result<(), String> {
    return check_escape("X", "X");
}

#[test]
fn escape_ascii() -> Result<(), String> {
    return check_escape("\\x40", "@");
}

#[test]
fn escape_unicode() -> Result<(), String> {
    return check_escape("\\u263A", "☺");
}

#[test]
fn double() -> Result<(), String> {
    return check_escape("\\\\0", "\\0");
}

#[test]
fn triple() -> Result<(), String> {
    return check_escape("\\\\\\0", "\\\0");
}

#[test]
fn others() -> Result<(), String> {
    return check_escape("\\0\\t\\n\\r\\\\", "\0\t\n\r\\");
}

#[test]
fn escape_invalid() {
    assert!(escape("\\u110000").is_err());
    assert_eq!(escape("a\\uD800z").unwrap_err(), "Invalid unicode: D800");
}

#[test]
fn escape_edges() -> Result<(), String> {
    check_escape("\\q\\", "\\q\\")?;
    check_escape("\\x4g", "\u{4}g")?;
    check_escape("\\xFFF", "\u{FF}F")?;
    check_escape("\\u3B1", "α")?;
    return check_escape("\\x", "\\x");
}

fn set(key: &str, value: &str) -> (Meta, ExitCode) {
    let mut meta = Meta { size: 416, ..Default::default() };
    let code = set_meta(&mut meta, key, value);
    (meta, code)
}

#[test]
fn set_text_fields() {
    let (meta, code) = set("title", "  TITLE \t");
    assert_eq!(code, ExitCode::OK);
    assert_eq!(meta, Meta { title: String::from("TITLE"), size: 416, ..Default::default() });
    assert_eq!(set("author", "AUTHOR").0.author, "AUTHOR");
    assert_eq!(set("group", "GROUP").0.group, "GROUP");
    assert_eq!(set("date", "19700101").0.date, "19700101");
    assert_eq!(set("title", "\u{3000}x\u{a0}").0.title, "x");
}

#[test]
fn set_size_refused() {
    let (meta, code) = set("size", "1");
    assert_eq!(code, ExitCode::USAGE(String::from("Size can't be changed")));
    assert_eq!(meta.size, 416);
}

#[test]
fn set_type() {
    assert_eq!(set("type", "None").0.file_type, (0, 0));
    assert_eq!(set("type", "Character/ASCII").0.file_type, (1, 0));
    assert_eq!(set("type", "character/ansi").0.file_type, (1, 1));
    assert_eq!(set("type", "bitmap").1, ExitCode::USAGE(String::from("Type is unsupported (bitmap)")));
    assert_eq!(type_from_lowercase("none"), Some((0, 0)));
    assert_eq!(type_from_lowercase("NONE"), None);
}

#[test]
fn set_dimensions() {
    assert_eq!(set("width", "32").0.width, 32);
    assert_eq!(set("height", "+8").0.height, 8);
    assert_eq!(set("width", "x").1, ExitCode::USAGE(String::from("Invalid width (invalid digit found in string)")));
    assert_eq!(
        set("height", "70000").1,
        ExitCode::USAGE(String::from("Invalid height (number too large to fit in target type)"))
    );
    assert_eq!(set("width", "").1, ExitCode::USAGE(String::from("Invalid width (cannot parse integer from empty string)")));
}

#[test]
fn set_flags() {
    assert_eq!(set("flags", "0x13").0.flags, 0x13);
    assert_eq!(set("flags", "0b10001").0.flags, 0x11);
    assert_eq!(set("flags", "9").0.flags, 9);
    assert_eq!(set("flags", "0x1G").1, ExitCode::USAGE(String::from("Invalid flags (invalid digit found in string)")));
    assert_eq!(set("flags", "256").1, ExitCode::USAGE(String::from("Invalid flags (number too large to fit in target type)")));
}

#[test]
fn set_font() {
    assert_eq!(set("font", "IBM VGA 437").0.font, "IBM VGA 437");
    assert_eq!(set("font", "").0.font, "");
    assert_eq!(set("font", "Topaz").1, ExitCode::USAGE(String::from("Font is unsupported (Topaz)")));
}

#[test]
fn set_notes() {
    assert_eq!(set("notes", "").0.notes, Vec::<String>::new());
    assert_eq!(set("notes", "one").0.notes, vec!["one"]);
    assert_eq!(set("notes", "one\ntwo\n three ").0.notes, vec!["one", "two", "three"]);
    assert_eq!(set("notes", "one\n\n  \ntwo\n").0.notes, vec!["one", "two"]);
    assert_eq!(split_notes("\n"), Vec::<String>::new());
}

#[test]
fn set_unknown_key() {
    let (meta, code) = set("foo", "bar");
    assert_eq!(code, ExitCode::USAGE(String::from("Unknown key: foo")));
    assert_eq!(meta, Meta { size: 416, ..Default::default() });
}

#[test]
fn set_then_check() {
    let (meta, _) = set("title", &escape("\\x40").unwrap());
    assert_eq!(meta.title, "@");
    assert!(check(Some(&meta)).is_ok());
    let (meta, _) = set("title", "🚫");
    assert_eq!(
        check(Some(&meta)).unwrap_err(),
        "Title contains illegal characters (🚫 (U+1F6AB) is not a valid CP437 character)"
    );
}
