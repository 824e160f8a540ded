//! URLs that documents reference.

use vstd::prelude::*;

use crate::strings::str_eq;

verus! {

#[verifier::external_type_specification]
#[verifier::external_body]
pub struct ExUrl(url::Url);

/// Whether `Url::parse` accepts `input` as an absolute URL.
pub uninterp spec fn url_parses(input: Seq<char>) -> bool;

/// The scheme (`Url::scheme`) of the URL that `Url::parse` makes of `input`.
pub uninterp spec fn url_scheme(input: Seq<char>) -> Seq<char>;

/// The serialization (`Url::as_str`) of the URL that `Url::parse` makes of `input`.
pub uninterp spec fn url_serialization(input: Seq<char>) -> Seq<char>;

/// A URL parsed from the text that is its view.  It can only be made by
/// [`AllowedUrl::parse`].
pub struct AllowedUrl {
    url: url::Url,
    text: Ghost<Seq<char>>,
}

impl View for AllowedUrl {
    type V = Seq<char>;

    closed spec fn view(&self) -> Seq<char> {
        self.text@
    }
}

/// `Url::parse`: it succeeds exactly where `url_parses` says.
#[verifier::external_body]
fn parse_url(input: &str) -> (r: Option<AllowedUrl>)
    ensures
        r is Some <==> url_parses(input@),
        r matches Some(u) ==> u@ == input@,
{
    match url::Url::parse(input) {
        Ok(url) => Some(AllowedUrl { url, text: Ghost(input@) }),
        Err(_) => None,
    }
}

/// `Url::scheme`
#[verifier::external_body]
fn scheme_of(u: &AllowedUrl) -> (r: &str)
    ensures
        r@ == url_scheme(u@),
{
    u.url.scheme()
}

/// `Url::as_str`
#[verifier::external_body]
fn serialization_of(u: &AllowedUrl) -> (r: &str)
    ensures
        r@ == url_serialization(u@),
{
    u.url.as_str()
}

impl AllowedUrl {
    /// Parses an absolute URL.
    pub fn parse(input: &str) -> (r: Option<AllowedUrl>)
        ensures
            r is Some <==> url_parses(input@),
            r matches Some(u) ==> u@ == input@,
    {
        parse_url(input)
    }

    pub fn scheme(&self) -> (r: &str)
        ensures
            r@ == url_scheme(self@),
    {
        scheme_of(self)
    }

    pub fn as_str(&self) -> (r: &str)
        ensures
            r@ == url_serialization(self@),
    {
        serialization_of(self)
    }
}

/// How a URL is shown in messages: `data:` URLs, which can be huge, as "data URL", and
/// others as themselves.
pub open spec fn human_readable_url_spec(u: Seq<char>) -> Seq<char> {
    if url_scheme(u) == "data"@ {
        "data URL"@
    } else {
        url_serialization(u)
    }
}

/// How a URL is shown in messages; avoids printing a huge data: URL for image data.
pub fn human_readable_url(aurl: &AllowedUrl) -> (r: &str)
    ensures
        r@ == human_readable_url_spec(aurl@),
{
    if str_eq(aurl.scheme(), "data") {
        "data URL"
    } else {
        aurl.as_str()
    }
}

} // verus!
