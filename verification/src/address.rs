//! Addresses of endpoints, as the `url` crate reads and writes them.

use vstd::prelude::*;
use vstd::utf8::encode_utf8;

verus! {

#[verifier::external_type_specification]
#[verifier::external_body]
pub struct ExParseError(url::ParseError);

/// What parsing `text` as an absolute URL gives: the URL's serialization, or
/// the reason why `text` is none.
pub uninterp spec fn parsed_url(text: Seq<char>) -> Result<Seq<char>, url::ParseError>;

/// The serialization of the URL `base` once its path is `path`.
pub uninterp spec fn url_with_path(base: Seq<char>, path: Seq<char>) -> Seq<char>;

/// The serialization of the URL `base` once its query is `query`.
pub uninterp spec fn url_with_query(base: Seq<char>, query: Seq<char>) -> Seq<char>;

/// `text` is a URL as it is serialized: parsing it gives it back.
pub open spec fn serialized(text: Seq<char>) -> bool {
    parsed_url(text) == Ok::<Seq<char>, url::ParseError>(text)
}

/// A URL cannot grow to 4 GiB. The serialized URL `base` has room for
/// `part` where it stays below that with four bytes for every byte of
/// `part` and eight to spare: a byte of a path or a query takes at most
/// three in a URL, and a few slashes or a question mark may come with it.
pub open spec fn room(base: Seq<char>, part: Seq<char>) -> bool {
    encode_utf8(base).len() + 4 * encode_utf8(part).len() + 8 <= u32::MAX
}

/// Calls `url::Url::parse`. On success the result is the URL's serialization,
/// the same for the same text, and that serialization parses to itself. On
/// failure it is the error, the same for the same text.
#[verifier::external_body]
pub(crate) fn parse(text: &str) -> (r: Result<String, url::ParseError>)
    ensures
        match r {
            Ok(s) => parsed_url(text@) == Ok::<Seq<char>, url::ParseError>(s@) && parsed_url(s@)
                == Ok::<Seq<char>, url::ParseError>(s@),
            Err(e) => parsed_url(text@) == Err::<Seq<char>, url::ParseError>(e),
        },
{
    match url::Url::parse(text) {
        Ok(url) => Ok(String::from(url)),
        Err(e) => Err(e),
    }
}

/// Calls `url::Url::set_path` on the URL that `base` serializes. The result
/// is the new serialization, the same for the same arguments. `base` parses
/// to itself, so the error of the parse does not come.
#[verifier::external_body]
pub(crate) fn with_path(base: &str, path: &str) -> (r: Result<String, url::ParseError>)
    requires
        serialized(base@),
        room(base@, path@),
    ensures
        match r {
            Ok(s) => s@ == url_with_path(base@, path@),
            Err(e) => parsed_url(base@) == Err::<Seq<char>, url::ParseError>(e),
        },
{
    match url::Url::parse(base) {
        Ok(mut url) => {
            url.set_path(path);
            Ok(String::from(url))
        },
        Err(e) => Err(e),
    }
}

/// Calls `url::Url::set_query` on the URL that `base` serializes. The result
/// is the new serialization, the same for the same arguments. `base` parses
/// to itself, so the error of the parse does not come.
#[verifier::external_body]
pub(crate) fn with_query(base: &str, query: &str) -> (r: Result<String, url::ParseError>)
    requires
        serialized(base@),
        room(base@, query@),
    ensures
        match r {
            Ok(s) => s@ == url_with_query(base@, query@),
            Err(e) => parsed_url(base@) == Err::<Seq<char>, url::ParseError>(e),
        },
{
    match url::Url::parse(base) {
        Ok(mut url) => {
            url.set_query(Some(query));
            Ok(String::from(url))
        },
        Err(e) => Err(e),
    }
}

/// Gives `url::ParseError::Overflow`, the `url` crate's error for a URL of
/// 4 GiB or more.
#[verifier::external_body]
pub(crate) fn too_long() -> url::ParseError {
    url::ParseError::Overflow
}

} // verus!
