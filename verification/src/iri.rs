//! CSS funciri values.

use vstd::prelude::*;

use crate::css::{
    css_next, css_url, exhausted, expect_url, is_exhausted, next_token, CssErrorKind,
    CssParseError, CssToken, CssTokenView,
};
use crate::document::{node_id_spec, NodeId, NodeIdView};
use crate::strings::{eq_ignore_ascii_case, str_eq_ignore_ascii_case};

verus! {

/// Used where style properties take a funciri or "none"
///
/// This is not to be used for values which don't come from properties.
/// For example, the `xlink:href` attribute in the `<image>` element
/// does not take a funciri value (which looks like `url(...)`), but rather
/// it takes a plain URL.
#[derive(Debug, PartialEq)]
pub enum Iri {
    /// The keyword `none`.
    NoResource,
    Resource(Box<NodeId>),
}

/// What reading an IRI from the start of `input` gives: the node it references (`None`
/// for `none`) and the input left after it.
pub open spec fn iri_spec(input: Seq<char>) -> Result<(Option<NodeIdView>, Seq<char>), CssErrorKind> {
    if css_next(input).0 matches Some(CssTokenView::Ident(id)) && eq_ignore_ascii_case(
        id,
        "none"@,
    ) {
        Ok((None, css_next(input).1))
    } else {
        match css_url(input).0 {
            None => Err(
                if exhausted(input) {
                    CssErrorKind::EndOfInput
                } else {
                    CssErrorKind::UnexpectedToken
                },
            ),
            Some(u) => match node_id_spec(u) {
                None => Err(CssErrorKind::Custom),
                Some(id) => Ok((Some(id), css_url(input).1)),
            },
        }
    }
}

impl Iri {
    pub open spec fn view(&self) -> Option<NodeIdView> {
        match self {
            Iri::NoResource => None,
            Iri::Resource(id) => Some(id.view()),
        }
    }

    /// Returns the contents of an `IRI::Resource`, or `None`
    pub fn get(&self) -> (r: Option<&NodeId>)
        ensures
            match self {
                Iri::NoResource => r is None,
                Iri::Resource(id) => r == Some(&**id),
            },
    {
        match self {
            Iri::NoResource => None,
            Iri::Resource(f) => Some(&**f),
        }
    }

    pub fn parse(input: &str) -> (r: Result<(Iri, &str), CssParseError>)
        ensures
            match iri_spec(input@) {
                Ok((v, rest)) => (r matches Ok((i, t)) && i.view() == v && t@ == rest),
                Err(k) => (r matches Err(e) && e.kind() == k),
            },
    {
        let (t, rest) = next_token(input);
        if let Some(CssToken::Ident(ref id)) = t {
            if str_eq_ignore_ascii_case(id.as_str(), "none") {
                return Ok((Iri::NoResource, rest));
            }
        }
        let (url, rest) = match expect_url(input) {
            Ok(p) => p,
            Err(e) => return Err(e),
        };
        match NodeId::parse(url.as_str()) {
            Ok(node_id) => Ok((Iri::Resource(Box::new(node_id)), rest)),
            Err(e) => Err(CssParseError::Custom(e.to_value_error())),
        }
    }

    pub fn parse_str(s: &str) -> (r: Result<Iri, CssParseError>)
        ensures
            match iri_spec(s@) {
                Ok((v, rest)) => if exhausted(rest) {
                    r matches Ok(i) && i.view() == v
                } else {
                    r matches Err(e) && e.kind() == CssErrorKind::UnexpectedToken
                },
                Err(k) => (r matches Err(e) && e.kind() == k),
            },
    {
        match Iri::parse(s) {
            Ok((i, rest)) => {
                if is_exhausted(rest) {
                    Ok(i)
                } else {
                    Err(CssParseError::UnexpectedToken)
                }
            },
            Err(e) => Err(e),
        }
    }
}

} // verus!
