//! Error type for the crate.

use crate::text::{decimal, int_decimal};
use vstd::prelude::*;

verus! {

/// `std::io::Error`, carried through opaquely.
#[verifier::external_type_specification]
#[verifier::external_body]
pub struct ExIoError(std::io::Error);

#[derive(Debug)]
pub enum Error {
    /// No matching camera node was found under /dev/v4l/by-id/.
    DeviceNotFound(String),
    /// A filesystem or ioctl syscall failed.
    Io(std::io::Error),
    /// The vendor command sent but no matching reply arrived in the mailbox.
    NoReply(&'static str),
    /// A value was outside the control's valid range.
    OutOfRange { what: &'static str, min: i64, max: i64, got: i64 },
    /// The user asked for something we can't do.
    Usage(String),
    /// Config parse/write error.
    Config(String),
}

/// The text of an error message, for every variant but `Io` (whose text is
/// the operating system's).
pub open spec fn error_text(e: Error) -> Seq<char> {
    match e {
        Error::DeviceNotFound(s) => "no OBSBOT Tiny 3 camera found: "@ + s@,
        Error::Io(_) => Seq::empty(),
        Error::NoReply(what) => "no reply from camera for "@ + what@,
        Error::OutOfRange { what, min, max, got } => what@ + " must be "@ + int_decimal(min as int)
            + "..="@ + int_decimal(max as int) + ", got "@ + int_decimal(got as int),
        Error::Usage(s) => s@,
        Error::Config(s) => "config error: "@ + s@,
    }
}

/// The crate's result type.
pub type Result<T> = std::result::Result<T, Error>;

impl Error {
    /// The human-readable message for this error.
    pub fn message(&self) -> (m: String)
        ensures
            !(self is Io) ==> m@ == error_text(*self),
    {
        let mut m = String::new();
        match self {
            Error::DeviceNotFound(s) => {
                m.append("no OBSBOT Tiny 3 camera found: ");
                m.append(s.as_str());
            },
            Error::Io(e) => {
                m = e.to_string();
            },
            Error::NoReply(what) => {
                m.append("no reply from camera for ");
                m.append(what);
            },
            Error::OutOfRange { what, min, max, got } => {
                m.append(what);
                m.append(" must be ");
                m.append(decimal(*min).as_str());
                m.append("..=");
                m.append(decimal(*max).as_str());
                m.append(", got ");
                m.append(decimal(*got).as_str());
            },
            Error::Usage(s) => {
                m.append(s.as_str());
            },
            Error::Config(s) => {
                m.append("config error: ");
                m.append(s.as_str());
            },
        }
        m
    }
}

} // verus!
