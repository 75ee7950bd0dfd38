//! The outcome of a command: success, or a failure of one of three kinds,
//! each with its message and process status.
use vstd::prelude::*;

verus! {

/// The outcome of a command.
#[derive(Debug, PartialEq, Eq)]
pub enum ExitCode {
    /// Success (status 0).
    OK,
    /// The input was read but failed a check (status 1).
    FAIL(String),
    /// The command was called wrongly (status 126).
    USAGE(String),
    /// Something could not be read or written (status 127).
    ERROR(String),
}

impl ExitCode {
    /// Whether this is success.
    pub fn is_ok(&self) -> (r: bool)
        ensures
            r == (*self is OK),
    {
        match self {
            ExitCode::OK => true,
            _ => false,
        }
    }

    /// Whether this is a failure.
    pub fn is_err(&self) -> (r: bool)
        ensures
            r == !(*self is OK),
    {
        !self.is_ok()
    }

    /// The message; empty on success.
    pub fn as_str(&self) -> (r: &str)
        ensures
            match *self {
                ExitCode::OK => r@ == Seq::<char>::empty(),
                ExitCode::FAIL(s) | ExitCode::USAGE(s) | ExitCode::ERROR(s) => r@ == s@,
            },
    {
        match self {
            ExitCode::OK => {
                proof {
                    reveal_strlit("");
                }
                ""
            },
            ExitCode::USAGE(s) | ExitCode::FAIL(s) | ExitCode::ERROR(s) => s.as_str(),
        }
    }

    /// The message, owned; empty on success.
    pub fn as_string(&self) -> (r: String)
        ensures
            match *self {
                ExitCode::OK => r@ == Seq::<char>::empty(),
                ExitCode::FAIL(s) | ExitCode::USAGE(s) | ExitCode::ERROR(s) => r@ == s@,
            },
    {
        match self {
            ExitCode::OK => String::new(),
            ExitCode::USAGE(s) | ExitCode::FAIL(s) | ExitCode::ERROR(s) => s.clone(),
        }
    }

    /// The process status.
    pub fn as_u8(&self) -> (r: u8)
        ensures
            r == match *self {
                ExitCode::OK => 0u8,
                ExitCode::FAIL(_) => 1u8,
                ExitCode::USAGE(_) => 0x7Eu8,
                ExitCode::ERROR(_) => 0x7Fu8,
            },
    {
        match self {
            ExitCode::OK => 0,
            ExitCode::FAIL(_) => 1,
            ExitCode::USAGE(_) => 0x7E,
            ExitCode::ERROR(_) => 0x7F,
        }
    }
}

} // verus!
