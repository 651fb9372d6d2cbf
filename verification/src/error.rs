//! Errors shared by every formatter.
use vstd::prelude::*;

verus! {

/// Errors shared by every formatter. Output that fails verification is
/// reported as [`Error::Verification`] and is never handed back.
#[derive(Debug, Clone)]
pub enum Error {
    Parse(String),
    /// The transformed output failed re-parsing or equivalence checking.
    Verification(String),
    UnsupportedLanguage(String),
    UnknownTokenizer(String),
    /// An input/output failure, carrying the operating system's message.
    Io(String),
}

impl Error {
    /// The rendered message of an error.
    pub open spec fn message_view(self) -> Seq<char> {
        match self {
            Error::Parse(s) => "parse error: "@ + s@,
            Error::Verification(s) => "verification failed: "@ + s@,
            Error::UnsupportedLanguage(s) => "unsupported language for path: "@ + s@,
            Error::UnknownTokenizer(s) => "unknown tokenizer: "@ + s@,
            Error::Io(s) => s@,
        }
    }

    /// Renders the error the way it is shown to users; an I/O error shows
    /// the operating system's message unchanged.
    pub fn to_string(&self) -> (r: String)
        ensures
            r@ == self.message_view(),
    {
        match self {
            Error::Parse(s) => String::from_str("parse error: ").concat(s.as_str()),
            Error::Verification(s) => String::from_str("verification failed: ").concat(s.as_str()),
            Error::UnsupportedLanguage(s) => String::from_str(
                "unsupported language for path: ",
            ).concat(s.as_str()),
            Error::UnknownTokenizer(s) => String::from_str("unknown tokenizer: ").concat(
                s.as_str(),
            ),
            Error::Io(s) => s.clone(),
        }
    }

    /// Whether this is a verification failure.
    pub fn is_verification(&self) -> (r: bool)
        ensures
            r == (self is Verification),
    {
        match self {
            Error::Verification(_) => true,
            _ => false,
        }
    }
}

#[verifier::external_type_specification]
#[verifier::external_body]
pub struct ExIoError(std::io::Error);

/// `std::io::Error`'s `Display` rendering, the operating system's message.
/// Nothing is claimed about its text.
#[verifier::external_body]
fn io_message(e: &std::io::Error) -> String {
    e.to_string()
}

impl From<std::io::Error> for Error {
    /// An input/output failure, carrying the operating system's message.
    fn from(e: std::io::Error) -> (r: Self)
        ensures
            r is Io,
    {
        Error::Io(io_message(&e))
    }
}

impl vstd::std_specs::convert::FromSpecImpl<std::io::Error> for Error {
    /// The operating system's message is not described, so no exact result
    /// is claimed for the conversion beyond its variant.
    open spec fn obeys_from_spec() -> bool {
        false
    }

    open spec fn from_spec(v: std::io::Error) -> Error {
        Error::Io(vstd::pervasive::arbitrary())
    }
}

} // verus!
