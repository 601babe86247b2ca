//! URLs, backed by the `url` crate.

use vstd::prelude::*;
use crate::text::{copy_of, split_once_at};

verus! {

#[verifier::external_type_specification]
#[verifier::external_body]
pub struct ExUrl(url::Url);

#[verifier::external_type_specification]
#[verifier::external_body]
pub struct ExUrlParseError(url::ParseError);

/// A parsed URL, together with its serialization. Nothing verified ties the
/// two: they are kept in step because only trusted functions that read both
/// from the same `url::Url` build or change one (those of this module, and
/// the lock file reader), and its clone copies both.
#[derive(Debug)]
pub struct SourceUrl {
    pub(crate) text: String,
    pub(crate) inner: url::Url,
}

/// Copies a `url::Url`.
///
/// Wraps its derived `Clone`; nothing is stated of the copy, which the
/// caller pairs with the serialization it copies itself.
#[verifier::external_body]
fn url_clone(u: &url::Url) -> url::Url {
    u.clone()
}

impl Clone for SourceUrl {
    fn clone(&self) -> (res: Self)
        ensures
            res@ == self@,
    {
        SourceUrl { text: copy_of(self.text.as_str()), inner: url_clone(&self.inner) }
    }
}

impl View for SourceUrl {
    type V = Seq<char>;

    /// The URL's serialization (`Url::as_str`).
    closed spec fn view(&self) -> Seq<char> {
        self.text@
    }
}

/// The serialization of the URL that `url::Url::parse` reads from a text:
/// `None` where it fails.
pub uninterp spec fn parsed_url(text: Seq<char>) -> Option<Seq<char>>;

/// The scheme of the URL with this serialization: the text before its first
/// `:` (a serialization starts with the scheme and a `:`, and a scheme holds
/// no `:`).
pub open spec fn url_scheme(url: Seq<char>) -> Seq<char> {
    match split_once_at(url, ':') {
        Some((scheme, _)) => scheme,
        None => url,
    }
}

/// The serialization after `url::Url::set_scheme` on the URL with this
/// serialization: `None` where the change is refused.
pub uninterp spec fn url_with_scheme(url: Seq<char>, scheme: Seq<char>) -> Option<Seq<char>>;

/// Parses a URL.
///
/// Wraps `url::Url::parse`: `Ok` exactly where [`parsed_url`] is `Some`, and
/// then the URL with the serialization that it names.
#[verifier::external_body]
fn url_parse(text: &str) -> (res: Result<SourceUrl, url::ParseError>)
    ensures
        res is Ok <==> parsed_url(text@) is Some,
        res matches Ok(u) ==> parsed_url(text@) == Some(u@),
{
    match url::Url::parse(text) {
        Ok(u) => Ok(SourceUrl { text: u.as_str().to_string(), inner: u }),
        Err(e) => Err(e),
    }
}

/// The URL's scheme.
///
/// Wraps `url::Url::scheme`, which the `url` documentation defines as the
/// scheme without its `:` delimiter, the serialization's first component:
/// the result is [`url_scheme`] of the serialization.
#[verifier::external_body]
fn url_get_scheme(u: &SourceUrl) -> (res: String)
    ensures
        res@ == url_scheme(u@),
{
    u.inner.scheme().to_string()
}

/// Changes the URL's scheme.
///
/// Wraps `url::Url::set_scheme`: `true` exactly where [`url_with_scheme`] is
/// `Some`, and then the URL has the serialization it names; on failure the
/// URL is left as it was, as the function's documentation states.
#[verifier::external_body]
fn url_set_scheme(u: &mut SourceUrl, scheme: &str) -> (res: bool)
    ensures
        res <==> url_with_scheme(old(u)@, scheme@) is Some,
        res ==> url_with_scheme(old(u)@, scheme@) == Some(final(u)@),
        !res ==> final(u)@ == old(u)@,
{
    match u.inner.set_scheme(scheme) {
        Ok(()) => {
            u.text = u.inner.as_str().to_string();
            true
        },
        Err(()) => false,
    }
}

/// A text that is not a URL.
#[derive(Debug, PartialEq, Eq)]
pub struct InvalidUrl {
    pub text: String,
}

impl SourceUrl {
    /// Parses a URL.
    pub fn parse(text: &str) -> (res: Result<SourceUrl, InvalidUrl>)
        ensures
            match res {
                Ok(u) => parsed_url(text@) == Some(u@),
                Err(e) => parsed_url(text@) is None && e.text@ == text@,
            },
    {
        match url_parse(text) {
            Ok(u) => Ok(u),
            Err(_) => Err(InvalidUrl { text: copy_of(text) }),
        }
    }

    /// The URL's scheme.
    pub fn scheme(&self) -> (res: String)
        ensures
            res@ == url_scheme(self@),
    {
        url_get_scheme(self)
    }

    /// Changes the URL's scheme; `false`, leaving the URL as it was, where the
    /// change is refused.
    pub fn set_scheme(&mut self, scheme: &str) -> (res: bool)
        ensures
            res <==> url_with_scheme(old(self)@, scheme@) is Some,
            res ==> url_with_scheme(old(self)@, scheme@) == Some(final(self)@),
            !res ==> final(self)@ == old(self)@,
    {
        url_set_scheme(self, scheme)
    }

    /// The URL's serialization.
    pub fn as_string(&self) -> (res: String)
        ensures
            res@ == self@,
    {
        copy_of(self.text.as_str())
    }
}

} // verus!
