//! The error type shared by buses, controllers and protocol helpers.
use vstd::prelude::*;

verus! {

/// What went wrong in a bus or motor operation; each kind carries a message.
#[derive(Clone, Debug)]
pub enum MotorError {
    Io(String),
    InvalidArgument(String),
    Unsupported(String),
    Timeout(String),
}

/// The text a `MotorError` is shown as: its kind, a colon and its message.
pub open spec fn error_text(e: MotorError) -> Seq<char> {
    match e {
        MotorError::Io(m) => "io error: "@ + m@,
        MotorError::InvalidArgument(m) => "invalid argument: "@ + m@,
        MotorError::Unsupported(m) => "unsupported: "@ + m@,
        MotorError::Timeout(m) => "timeout: "@ + m@,
    }
}

impl MotorError {
    /// The message without its kind.
    pub fn message(&self) -> (r: &String)
        ensures
            r@ == match *self {
                MotorError::Io(m) => m@,
                MotorError::InvalidArgument(m) => m@,
                MotorError::Unsupported(m) => m@,
                MotorError::Timeout(m) => m@,
            },
    {
        match self {
            MotorError::Io(m) => m,
            MotorError::InvalidArgument(m) => m,
            MotorError::Unsupported(m) => m,
            MotorError::Timeout(m) => m,
        }
    }

    /// The text the error is shown as.
    pub fn to_string(&self) -> (r: String)
        ensures
            r@ == error_text(*self),
    {
        let mut r = match self {
            MotorError::Io(_) => String::from_str("io error: "),
            MotorError::InvalidArgument(_) => String::from_str("invalid argument: "),
            MotorError::Unsupported(_) => String::from_str("unsupported: "),
            MotorError::Timeout(_) => String::from_str("timeout: "),
        };
        r.append(self.message().as_str());
        r
    }
}

} // verus!
