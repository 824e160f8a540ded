//! Data read from `data:` URLs.

use vstd::prelude::*;

use crate::strings::str_eq;
use vstd::string::{StrSliceExecFns, StringExecFns};

verus! {

#[verifier::external_type_specification]
#[verifier::external_body]
pub struct ExDataUrl<'a>(data_url::DataUrl<'a>);

/// Whether `DataUrl::process` accepts `uri` as a `data:` URL.
pub uninterp spec fn data_url_processes(uri: Seq<char>) -> bool;

/// The text (`Display`) of the MIME type that `DataUrl::process` finds in `uri`.
pub uninterp spec fn data_url_mime_type(uri: Seq<char>) -> Seq<char>;

/// What `DataUrl::decode_to_vec` gives for the URL parsed from `uri`: the decoded bytes
/// and whether there is a fragment identifier, or `None` for invalid base64.
pub uninterp spec fn data_url_decoded(uri: Seq<char>) -> Option<(Seq<u8>, bool)>;

/// A `data:` URL parsed from the text that is its view.  It can only be made by
/// [`process_data_url`].
pub struct ParsedDataUrl<'a> {
    url: data_url::DataUrl<'a>,
    text: Ghost<Seq<char>>,
}

impl<'a> View for ParsedDataUrl<'a> {
    type V = Seq<char>;

    closed spec fn view(&self) -> Seq<char> {
        self.text@
    }
}

/// `DataUrl::process`: it succeeds exactly where `data_url_processes` says.
#[verifier::external_body]
fn process_data_url<'a>(uri: &'a str) -> (r: Option<ParsedDataUrl<'a>>)
    ensures
        r is Some <==> data_url_processes(uri@),
        r matches Some(u) ==> u@ == uri@,
{
    match data_url::DataUrl::process(uri) {
        Ok(url) => Some(ParsedDataUrl { url, text: Ghost(uri@) }),
        Err(_) => None,
    }
}

/// `DataUrl::mime_type`, as text.
#[verifier::external_body]
fn mime_type_text(url: &ParsedDataUrl) -> (r: String)
    ensures
        r@ == data_url_mime_type(url@),
{
    url.url.mime_type().to_string()
}

/// `DataUrl::decode_to_vec`: the bytes and whether a fragment identifier follows them.
#[verifier::external_body]
fn decode_to_vec(url: &ParsedDataUrl) -> (r: Option<(Vec<u8>, bool)>)
    ensures
        match r {
            Some((v, f)) => data_url_decoded(url@) == Some((v@, f)),
            None => data_url_decoded(url@) is None,
        },
{
    match url.url.decode_to_vec() {
        Ok((bytes, fragment)) => Some((bytes, fragment.is_some())),
        Err(_) => None,
    }
}

/// Errors when reading data from a URL.
#[derive(Debug, Clone, Copy, PartialEq, Eq, Structural)]
pub enum IoError {
    BadDataUrl,
}

impl IoError {
    /// The message of the error.
    pub fn message(&self) -> (s: &'static str)
        ensures
            s@ == "invalid data: URL"@,
    {
        "invalid data: URL"
    }
}

/// Data read from a URL, with its MIME type when known.
#[derive(Debug, Clone, PartialEq, Eq)]
pub struct BinaryData {
    pub data: Vec<u8>,
    pub content_type: Option<String>,
}

/// What decoding the `data:` URL `uri` gives: its bytes and the text of its MIME type,
/// or `None` when it is not a valid `data:` URL, its base64 is invalid, or it has a
/// fragment identifier (which data: URLs cannot have; it probably indicates mis-quoted
/// SVG data inside the URL).
pub open spec fn decode_data_uri_spec(uri: Seq<char>) -> Option<(Seq<u8>, Seq<char>)> {
    if !data_url_processes(uri) {
        None
    } else {
        match data_url_decoded(uri) {
            Some((bytes, false)) => Some((bytes, data_url_mime_type(uri))),
            _ => None,
        }
    }
}

/// Decodes a `data:` URL.
pub fn decode_data_uri(uri: &str) -> (r: Result<BinaryData, IoError>)
    ensures
        match decode_data_uri_spec(uri@) {
            Some((bytes, mime)) => (r matches Ok(d) && d.data@ == bytes && (d.content_type matches Some(
                m,
            ) && m@ == mime)),
            None => r == Err::<BinaryData, IoError>(IoError::BadDataUrl),
        },
{
    let data_url = match process_data_url(uri) {
        Some(u) => u,
        None => return Err(IoError::BadDataUrl),
    };
    let mime_type = mime_type_text(&data_url);
    let (bytes, has_fragment) = match decode_to_vec(&data_url) {
        Some(p) => p,
        None => return Err(IoError::BadDataUrl),
    };
    if has_fragment {
        return Err(IoError::BadDataUrl);
    }
    Ok(BinaryData { data: bytes, content_type: Some(mime_type) })
}

/// A MIME type: its type, subtype and parameters.
///
/// <https://mimesniff.spec.whatwg.org/#mime-type-representation>
#[derive(Debug, Clone, PartialEq, Eq)]
pub struct Mime {
    pub type_: String,
    pub subtype: String,
    /// (name, value)
    pub parameters: Vec<(String, String)>,
}

/// The parts of a MIME type: the type, the subtype and the (name, value) parameters.
pub type MimeView = (Seq<char>, Seq<char>, Seq<(Seq<char>, Seq<char>)>);

impl Mime {
    pub open spec fn view(&self) -> MimeView {
        (self.type_@, self.subtype@, self.parameters@.map_values(|p: (String, String)| (p.0@, p.1@)))
    }
}

/// What `data_url::mime::Mime::from_str` gives for `s`: the parts of the MIME type, or
/// `None` where it is not one.
pub uninterp spec fn mime_parse(s: Seq<char>) -> Option<MimeView>;

/// `data_url::mime::Mime::from_str`, with the parts of the result moved into a [`Mime`].
#[verifier::external_body]
fn parse_mime(s: &str) -> (r: Option<Mime>)
    ensures
        match mime_parse(s@) {
            Some(v) => (r matches Some(m) && m.view() == v),
            None => r is None,
        },
{
    match <data_url::mime::Mime as std::str::FromStr>::from_str(s) {
        Ok(m) => Some(Mime { type_: m.type_, subtype: m.subtype, parameters: m.parameters }),
        Err(_) => None,
    }
}

/// The error for a string that is not a MIME type.
#[derive(Debug, Clone, Copy, PartialEq, Eq, Structural)]
pub struct MimeParsingError;

impl std::str::FromStr for Mime {
    type Err = MimeParsingError;

    /// Parses a MIME type.
    ///
    /// <https://mimesniff.spec.whatwg.org/#parsing-a-mime-type>
    fn from_str(s: &str) -> (r: Result<Mime, MimeParsingError>)
        ensures
            match mime_parse(s@) {
                Some(v) => (r matches Ok(m) && m.view() == v),
                None => r is Err,
            },
    {
        match parse_mime(s) {
            Some(m) => Ok(m),
            None => Err(MimeParsingError),
        }
    }
}

/// Whether two MIME types have the same parts.
fn mime_eq(a: &Mime, b: &Mime) -> (r: bool)
    ensures
        r == (a.view() == b.view()),
{
    if !str_eq(a.type_.as_str(), b.type_.as_str()) || !str_eq(a.subtype.as_str(), b.subtype.as_str()) {
        return false;
    }
    let ghost pa = a.parameters@.map_values(|p: (String, String)| (p.0@, p.1@));
    let ghost pb = b.parameters@.map_values(|p: (String, String)| (p.0@, p.1@));
    if a.parameters.len() != b.parameters.len() {
        assert(pa.len() != pb.len());
        return false;
    }
    let mut i: usize = 0;
    while i < a.parameters.len()
        invariant
            i <= a.parameters@.len(),
            a.parameters@.len() == b.parameters@.len(),
            pa == a.parameters@.map_values(|p: (String, String)| (p.0@, p.1@)),
            pb == b.parameters@.map_values(|p: (String, String)| (p.0@, p.1@)),
            forall|k: int| 0 <= k < i ==> pa[k] == pb[k],
        decreases a.parameters@.len() - i,
    {
        if !str_eq(a.parameters[i].0.as_str(), b.parameters[i].0.as_str()) || !str_eq(
            a.parameters[i].1.as_str(),
            b.parameters[i].1.as_str(),
        ) {
            assert(pa[i as int] != pb[i as int]);
            return false;
        }
        i = i + 1;
    }
    assert(pa =~= pb);
    true
}

/// The content type to load an image of MIME type `m` with: its type and subtype, without
/// parameters; or none, so that the image format is sniffed, for the MIME type that a
/// `data:` URL without one gets, `text/plain;charset=US-ASCII`.
pub open spec fn content_type_spec(m: MimeView) -> Option<Seq<char>> {
    if mime_parse("text/plain;charset=US-ASCII"@) == Some(m) {
        None
    } else {
        Some(m.0 + "/"@ + m.1)
    }
}

/// The content type to load an image of MIME type `mime_type` with.
pub fn content_type_for_gdk_pixbuf(mime_type: &Mime) -> (r: Option<String>)
    ensures
        match content_type_spec(mime_type.view()) {
            Some(t) => (r matches Some(s) && s@ == t),
            None => r is None,
        },
{
    // See issue #548 - data: URLs without a MIME-type automatically
    // fall back to "text/plain;charset=US-ASCII".  Some (old?) versions of
    // Adobe Illustrator generate data: URLs without MIME-type for image
    // data.  We'll catch this and fall back to sniffing by unsetting the
    // content_type.
    let unspecified_mime_type = parse_mime("text/plain;charset=US-ASCII");
    let unspecified = match &unspecified_mime_type {
        Some(u) => mime_eq(mime_type, u),
        None => false,
    };
    if unspecified {
        None
    } else {
        let mut s = mime_type.type_.clone();
        s.append("/");
        proof {
            reveal_strlit("/");
        }
        s.append(mime_type.subtype.as_str());
        Some(s)
    }
}

} // verus!
