//! The request that a response answers, as far as reading the response
//! depends on it.

use vstd::prelude::*;
use url::Url;
use crate::text::{eq_ignore_ascii_case, eq_ignoring_ascii_case};

verus! {

/// `url::Url`, a parsed URL. The library carries such a value along and
/// looks at nothing inside it.
#[verifier::external_type_specification]
#[verifier::external_body]
pub struct ExUrl(Url);

/// The text that a URL holds: its serialization.
pub uninterp spec fn url_text(url: Url) -> Seq<char>;

/// `Url::as_str` returns the serialization that the URL holds. The text is
/// named, not described.
#[verifier::external_body]
pub(crate) fn url_as_str(url: &Url) -> (r: &str)
    ensures
        r@ == url_text(*url),
{
    url.as_str()
}

/// `Url::clone` returns a URL that is equal to the one it was given.
#[verifier::external_body]
pub(crate) fn url_clone(url: &Url) -> (r: Url)
    ensures
        r == *url,
{
    url.clone()
}

/// The context of a request: its method, its URL, the read timeout of its
/// connection and its deadline. Times are in milliseconds; the deadline is
/// absolute, counted from the Unix epoch.
#[derive(Debug)]
pub struct Unit {
    pub method: String,
    pub url: Url,
    pub timeout_read: Option<u64>,
    pub deadline: Option<u64>,
}

impl Unit {
    /// The context of a request.
    pub fn new(method: &str, url: Url, timeout_read: Option<u64>, deadline: Option<u64>) -> (unit:
        Unit)
        ensures
            unit.method@ == method@,
            unit.url == url,
            unit.timeout_read == timeout_read,
            unit.deadline == deadline,
    {
        Unit { method: method.to_owned(), url, timeout_read, deadline }
    }

    /// Whether the method is `HEAD`, in any case of letters.
    pub open spec fn head(&self) -> bool {
        eq_ignoring_ascii_case(self.method@, "head"@)
    }

    /// Whether the request asked for the head of the resource only.
    pub fn is_head(&self) -> (r: bool)
        ensures
            r == self.head(),
    {
        eq_ignore_ascii_case(self.method.as_str(), "head")
    }
}

} // verus!
