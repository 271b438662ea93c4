//! Codecs for pixel-drawing wire protocols and the state machine of the
//! connection workers that drive them.
//!
//! The crate performs no I/O. Codecs encode whole frames into an in-memory
//! [`transport::Outbound`]; a worker is a state machine that is fed what
//! happened on its connection and answers with what to do next.

use vstd::prelude::*;
use vstd::string::StringExecFns;

pub mod args;
pub mod color;
pub mod orchestrator;
pub mod pixel;
pub mod protocol;
pub mod sampling;
pub mod transport;
pub mod worker;

pub use crate::args::{verify_args, Args};
pub use crate::color::Color;
pub use crate::protocol::{CanvasSize, Proto, Protocol};

verus! {

/// `std::io::Error`, carried through as an opaque value.
#[verifier::external_type_specification]
#[verifier::external_body]
pub struct ExIoError(std::io::Error);

/// Everything that can go wrong in the library or around it.
#[derive(Debug)]
pub enum Error {
    /// The transport refused a read, a write or a flush.
    Io(std::io::Error),
    /// A file could not be read as what it was taken for.
    FileParseError(String),
    /// The video tool failed.
    FFmpegError(String),
    /// The command line asks for what cannot be done.
    InvalidArgs(String),
    /// The settings cannot be run with.
    InvalidConfig(String),
    /// The peer answered the size request with something else than a size.
    Protocol(String),
    /// Anything else, in its own words.
    Custom(String),
}

impl From<std::io::Error> for Error {
    fn from(e: std::io::Error) -> (r: Self) {
        Error::Io(e)
    }
}

impl vstd::std_specs::convert::FromSpecImpl<std::io::Error> for Error {
    open spec fn obeys_from_spec() -> bool {
        true
    }

    open spec fn from_spec(e: std::io::Error) -> Self {
        Error::Io(e)
    }
}

impl Error {
    /// What the error says of itself: what kind it is, then its own text.
    pub fn to_string(&self) -> (text: String)
        ensures
            match self {
                Error::Io(_) => exists|detail: Seq<char>| text@ == "IO error: "@ + detail,
                Error::FileParseError(e) => text@ == "File parse error: "@ + e@,
                Error::FFmpegError(e) => text@ == "FFmpeg error: "@ + e@,
                Error::InvalidArgs(e) => text@ == "Invalid arguments: "@ + e@,
                Error::InvalidConfig(e) => text@ == "Invalid config: "@ + e@,
                Error::Protocol(e) => text@ == "Protocol error: "@ + e@,
                Error::Custom(e) => text@ == e@,
            },
    {
        match self {
            Error::Io(e) => {
                let detail = io_error_text(e);
                "IO error: ".to_owned().concat(detail.as_str())
            },
            Error::FileParseError(e) => "File parse error: ".to_owned().concat(e.as_str()),
            Error::FFmpegError(e) => "FFmpeg error: ".to_owned().concat(e.as_str()),
            Error::InvalidArgs(e) => "Invalid arguments: ".to_owned().concat(e.as_str()),
            Error::InvalidConfig(e) => "Invalid config: ".to_owned().concat(e.as_str()),
            Error::Protocol(e) => "Protocol error: ".to_owned().concat(e.as_str()),
            Error::Custom(e) => e.clone(),
        }
    }
}

/// The text that `std::io::Error` shows of itself through `to_string`.
/// Nothing is claimed of it.
#[verifier::external_body]
fn io_error_text(e: &std::io::Error) -> String {
    e.to_string()
}

/// What `std::io::Error::from` gives for `ErrorKind::BrokenPipe`: the error
/// of a stream that takes no more bytes. Nothing is claimed of the value.
#[verifier::external_body]
pub(crate) fn broken_pipe() -> std::io::Error {
    std::io::Error::from(std::io::ErrorKind::BrokenPipe)
}

} // verus!
