//! The library's error type.
use vstd::prelude::*;

verus! {

/// What can go wrong while turning a log record into datagrams.
#[derive(Debug)]
pub enum Error {
    IOError(String),
    SerdeParsing(String),
    InsufficientLogLevel,
    NoMessage,
    InternalError(String),
}

/// Short description of an error.
pub open spec fn error_description(e: Error) -> Seq<char> {
    match e {
        Error::IOError(reason) => reason@,
        Error::SerdeParsing(reason) => reason@,
        Error::InternalError(reason) => reason@,
        Error::InsufficientLogLevel => "insufficient log level"@,
        Error::NoMessage => "no message found"@,
    }
}

/// Description of an error with the kind it belongs to, as it is logged.
pub open spec fn error_text(e: Error) -> Seq<char> {
    match e {
        Error::IOError(reason) => "[IO] "@ + reason@,
        Error::SerdeParsing(reason) => "[JSON parsing] "@ + reason@,
        Error::InternalError(reason) => "[Internal] "@ + reason@,
        _ => error_description(e),
    }
}

impl Error {
    /// Short description of the error.
    pub fn description(&self) -> (r: String)
        ensures
            r@ == error_description(*self),
    {
        match self {
            Error::IOError(reason) => reason.clone(),
            Error::SerdeParsing(reason) => reason.clone(),
            Error::InternalError(reason) => reason.clone(),
            Error::InsufficientLogLevel => String::from_str("insufficient log level"),
            Error::NoMessage => String::from_str("no message found"),
        }
    }

    /// The description with the kind of the error in front, as it is logged.
    pub fn to_text(&self) -> (r: String)
        ensures
            r@ == error_text(*self),
    {
        match self {
            Error::IOError(reason) => String::from_str("[IO] ").concat(reason.as_str()),
            Error::SerdeParsing(reason) => String::from_str("[JSON parsing] ").concat(
                reason.as_str(),
            ),
            Error::InternalError(reason) => String::from_str("[Internal] ").concat(
                reason.as_str(),
            ),
            _ => self.description(),
        }
    }
}

} // verus!
