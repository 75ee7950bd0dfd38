use cp437_tools::ExitCode;

const MSG: &str = "foo";

fn ok() -> ExitCode {
    ExitCode::OK
}

fn err() -> ExitCode {
    ExitCode::ERROR(String::from(MSG))
}

#[test]
fn is_ok() {
    assert!(ok().is_ok());
}

#[test]
fn is_err() {
    assert!(err().is_err());
}

#[test]
fn ok_code() {
    assert_eq!(ok().as_u8(), 0x00);
}

#[test]
fn error_code() {
    assert_eq!(err().as_u8(), 0x7F);
}

#[test]
fn ok_message() {
    assert_eq!(ok().as_string(), "");
}

#[test]
fn error_message() {
    assert_eq!(err().as_string(), MSG);
}

#[test]
fn display_message() {
    assert_eq!(err().as_str(), MSG);
}

#[test]
fn other_codes() {
    assert_eq!(ExitCode::FAIL(String::from(MSG)).as_u8(), 0x01);
    assert_eq!(ExitCode::USAGE(String::from(MSG)).as_u8(), 0x7E);
    assert!(ExitCode::USAGE(String::new()).is_err());
    assert!(!ok().is_err());
}
