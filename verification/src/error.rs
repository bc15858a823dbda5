use vstd::prelude::*;

verus! {

/// Error types.
#[derive(Debug, Clone, Copy, PartialEq, Eq)]
pub enum Error {
    /// A body could not be transferred whole, or is not text.
    IoError,
    /// An address is not an absolute URL, with the reason why.
    UrlParseError(url::ParseError),
    /// The transport gave up before a response arrived.
    HttpError,
}

impl Error {
    /// A short description of the kind of failure.
    pub fn description(&self) -> (s: &'static str)
        ensures
            s@ == match *self {
                Error::IoError => "IO error"@,
                Error::UrlParseError(_) => "Url Parse error"@,
                Error::HttpError => "http error"@,
            },
    {
        match *self {
            Error::IoError => "IO error",
            Error::UrlParseError(_) => "Url Parse error",
            Error::HttpError => "http error",
        }
    }
}

} // verus!
