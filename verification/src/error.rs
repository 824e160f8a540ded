//! Error types.

use vstd::prelude::*;

use crate::document::{Node, NodeId, MAX_LOADED_ELEMENTS, MAX_REFERENCED_ELEMENTS};
use crate::strings::{concat, decimal_string, decimal_text};
use vstd::string::{StrSliceExecFns, StringExecFns};

verus! {

/// A simple error which refers to an attribute's value
#[derive(Debug, Clone, PartialEq, Eq)]
pub enum ValueErrorKind {
    /// A property with the specified name was not found
    UnknownProperty,
    /// The value could not be parsed
    Parse(String),
    /// The value could be parsed, but is invalid
    Value(String),
}

impl ValueErrorKind {
    pub fn parse_error(s: &str) -> (res: ValueErrorKind)
        ensures
            res matches ValueErrorKind::Parse(m) && m@ == s@,
    {
        ValueErrorKind::Parse(s.to_owned())
    }

    pub fn value_error(s: &str) -> (res: ValueErrorKind)
        ensures
            res matches ValueErrorKind::Value(m) && m@ == s@,
    {
        ValueErrorKind::Value(s.to_owned())
    }
}


/// Errors returned when looking up a resource by URL reference.
#[derive(Debug, Clone, Copy, PartialEq, Eq, Structural)]
pub enum DefsLookupErrorKind {
    /// Error when parsing the id to lookup.
    InvalidId,
    /// Used when the public API tries to look up an external URL, which is not allowed.
    ///
    /// This catches the case where a public API wants to be misused to access an external
    /// resource.  For example, `SvgHandle.has_sub("https://evil.com/phone_home#element_id")` will
    /// fail with this error.
    CannotLookupExternalReferences,
    /// For internal use only.
    NotFound,
}

/// Errors for implementation-defined limits, to mitigate malicious SVG documents.
///
/// These get emitted as `LoadingError::LimitExceeded` or `RenderingError::LimitExceeded`.
/// The limits are present to mitigate malicious SVG documents which may try to exhaust
/// all available memory, or which would use large amounts of CPU time.
#[derive(Debug, Clone, Copy, PartialEq, Eq, Structural)]
pub enum ImplementationLimit {
    /// Document exceeded the maximum number of times that elements
    /// can be referenced through URL fragments.
    TooManyReferencedElements,
    /// Document exceeded the maximum number of elements that can be loaded.
    TooManyLoadedElements,
}

/// Errors that can happen while rendering or measuring an SVG document.
#[derive(Debug, Clone, PartialEq, Eq)]
pub enum RenderingError {
    /// An error from the rendering backend.
    Rendering(String),
    /// A particular implementation-defined limit was exceeded.
    LimitExceeded(ImplementationLimit),
    /// Tried to reference an SVG element that does not exist.
    IdNotFound,
    /// Tried to reference an SVG element from a fragment identifier that is incorrect.
    InvalidId(String),
    /// Not enough memory was available for rendering.
    OutOfMemory(String),
}

impl DefsLookupErrorKind {
    /// The message that describes the error.
    pub fn message(&self) -> (s: &'static str)
        ensures
            s@ == match self {
                DefsLookupErrorKind::InvalidId => "invalid id"@,
                DefsLookupErrorKind::CannotLookupExternalReferences => "cannot lookup references to elements in external files"@,
                DefsLookupErrorKind::NotFound => "not found"@,
            },
    {
        match self {
            DefsLookupErrorKind::InvalidId => "invalid id",
            DefsLookupErrorKind::CannotLookupExternalReferences => "cannot lookup references to elements in external files",
            DefsLookupErrorKind::NotFound => "not found",
        }
    }
}

impl RenderingError {
    /// The rendering error for a failed lookup: `NotFound` becomes `IdNotFound`, the
    /// others an `InvalidId` with the lookup error's message.
    pub fn from_defs_lookup_error(e: DefsLookupErrorKind) -> (r: RenderingError)
        ensures
            e == DefsLookupErrorKind::NotFound ==> r == RenderingError::IdNotFound,
            e != DefsLookupErrorKind::NotFound ==> (r matches RenderingError::InvalidId(s) && s@
                == match e {
                DefsLookupErrorKind::InvalidId => "invalid id"@,
                _ => "cannot lookup references to elements in external files"@,
            }),
    {
        match e {
            DefsLookupErrorKind::NotFound => RenderingError::IdNotFound,
            _ => RenderingError::InvalidId(e.message().to_owned()),
        }
    }
}

/// Errors from [`crate::document::AcquiredNodes`].
#[derive(Debug, PartialEq, Eq)]
pub enum AcquireError {
    /// An element with the specified id was not found.
    LinkNotFound(NodeId),
    InvalidLinkType(NodeId),
    /// A circular reference was detected; non-fatal error.
    ///
    /// Callers are expected to treat the offending element as invalid, for example
    /// if a graphic element uses a pattern fill, but the pattern in turn includes
    /// another graphic element that references the same pattern.
    ///
    /// ```xml
    /// <pattern id="foo">
    ///   <rect width="1" height="1" fill="url(#foo)"/>
    /// </pattern>
    /// ```
    CircularReference(Node),
    /// Too many referenced objects were resolved; fatal error.
    ///
    /// Callers are expected to exit as early as possible and return an error to
    /// the public API.  See [`ImplementationLimit::TooManyReferencedElements`] for details.
    MaxReferencesExceeded,
}

/// Errors returned when creating a `NodeId` out of a string
#[derive(Debug, Clone, Copy, PartialEq, Eq, Structural)]
pub enum NodeIdError {
    NodeIdRequired,
}

impl NodeIdError {
    /// The value error that a missing fragment identifier is reported as.
    pub fn to_value_error(self) -> (r: ValueErrorKind)
        ensures
            r matches ValueErrorKind::Value(s) && s@ == "fragment identifier required"@,
    {
        ValueErrorKind::value_error("fragment identifier required")
    }
}

/// Errors that can happen while loading an SVG document.
///
/// All of these codes are for unrecoverable errors that keep an SVG document from being
/// fully loaded and parsed.  Note that SVG is very lenient with respect to document
/// structure and the syntax of CSS property values; most errors there will not lead to a
/// `LoadingError`.
#[derive(Debug, Clone, PartialEq, Eq)]
pub enum LoadingError {
    /// XML syntax error.
    XmlParseError(String),
    /// Not enough memory to load the document.
    OutOfMemory(String),
    /// A malformed or disallowed URL was used.
    BadUrl,
    /// An invalid stylesheet was used.
    BadCss,
    /// There is no `<svg>` root element in the XML.
    NoSvgRoot,
    /// I/O error.
    Io(String),
    /// A particular implementation-defined limit was exceeded.
    LimitExceeded(ImplementationLimit),
    /// Catch-all for loading errors.
    Other(String),
}

/// What `Debug` writes for the string `s`: `s` quoted and escaped as a Rust literal.
pub uninterp spec fn debug_text(s: Seq<char>) -> Seq<char>;

/// `format!("{:?}", s)` for a string.
#[verifier::external_body]
fn debug_string(s: &str) -> (r: String)
    ensures
        r@ == debug_text(s@),
{
    format!("{:?}", s)
}

impl ValueErrorKind {
    /// The text of the error.
    pub open spec fn text(&self) -> Seq<char> {
        match self {
            ValueErrorKind::UnknownProperty => "unknown property name"@,
            ValueErrorKind::Parse(s) => "parse error: "@ + s@,
            ValueErrorKind::Value(s) => "invalid value: "@ + s@,
        }
    }

    /// The text of the error, as `Display` writes it.
    pub fn to_string(&self) -> (s: String)
        ensures
            s@ == self.text(),
    {
        proof {
            reveal_strlit("unknown property name");
            reveal_strlit("parse error: ");
            reveal_strlit("invalid value: ");
        }
        match self {
            ValueErrorKind::UnknownProperty => "unknown property name".to_owned(),
            ValueErrorKind::Parse(s) => concat("parse error: ", s.as_str()),
            ValueErrorKind::Value(s) => concat("invalid value: ", s.as_str()),
        }
    }
}

impl ImplementationLimit {
    /// The text of the limit that was exceeded.
    pub open spec fn text(&self) -> Seq<char> {
        match self {
            ImplementationLimit::TooManyReferencedElements => "exceeded more than "@ + decimal_text(
                MAX_REFERENCED_ELEMENTS as nat,
            ) + " referenced elements"@,
            ImplementationLimit::TooManyLoadedElements => "cannot load more than "@ + decimal_text(
                MAX_LOADED_ELEMENTS as nat,
            ) + " XML elements"@,
        }
    }

    /// The text of the limit that was exceeded, as `Display` writes it.
    pub fn to_string(&self) -> (s: String)
        ensures
            s@ == self.text(),
    {
        proof {
            reveal_strlit("exceeded more than ");
            reveal_strlit(" referenced elements");
            reveal_strlit("cannot load more than ");
            reveal_strlit(" XML elements");
        }
        let (before, n, after) = match self {
            ImplementationLimit::TooManyReferencedElements => (
                "exceeded more than ",
                MAX_REFERENCED_ELEMENTS,
                " referenced elements",
            ),
            ImplementationLimit::TooManyLoadedElements => (
                "cannot load more than ",
                MAX_LOADED_ELEMENTS,
                " XML elements",
            ),
        };
        let mut s = concat(before, decimal_string(n as u64).as_str());
        s.append(after);
        s
    }
}

impl LoadingError {
    /// The text of the error.
    pub open spec fn text(&self) -> Seq<char> {
        match self {
            LoadingError::XmlParseError(s) => "XML parse error: "@ + s@,
            LoadingError::OutOfMemory(s) => "out of memory: "@ + s@,
            LoadingError::BadUrl => "invalid URL"@,
            LoadingError::BadCss => "invalid CSS"@,
            LoadingError::NoSvgRoot => "XML does not have <svg> root"@,
            LoadingError::Io(s) => "I/O error: "@ + s@,
            LoadingError::LimitExceeded(l) => l.text(),
            LoadingError::Other(s) => s@,
        }
    }

    /// The text of the error, as `Display` writes it.
    pub fn to_string(&self) -> (s: String)
        ensures
            s@ == self.text(),
    {
        proof {
            reveal_strlit("XML parse error: ");
            reveal_strlit("out of memory: ");
            reveal_strlit("invalid URL");
            reveal_strlit("invalid CSS");
            reveal_strlit("XML does not have <svg> root");
            reveal_strlit("I/O error: ");
        }
        match self {
            LoadingError::XmlParseError(s) => concat("XML parse error: ", s.as_str()),
            LoadingError::OutOfMemory(s) => concat("out of memory: ", s.as_str()),
            LoadingError::BadUrl => "invalid URL".to_owned(),
            LoadingError::BadCss => "invalid CSS".to_owned(),
            LoadingError::NoSvgRoot => "XML does not have <svg> root".to_owned(),
            LoadingError::Io(s) => concat("I/O error: ", s.as_str()),
            LoadingError::LimitExceeded(l) => l.to_string(),
            LoadingError::Other(s) => s.clone(),
        }
    }
}

impl RenderingError {
    /// The text of the error.
    pub open spec fn text(&self) -> Seq<char> {
        match self {
            RenderingError::Rendering(s) => "rendering error: "@ + s@,
            RenderingError::LimitExceeded(l) => l.text(),
            RenderingError::IdNotFound => "element id not found"@,
            RenderingError::InvalidId(s) => "invalid id: "@ + debug_text(s@),
            RenderingError::OutOfMemory(s) => "out of memory: "@ + s@,
        }
    }

    /// The text of the error, as `Display` writes it.
    pub fn to_string(&self) -> (s: String)
        ensures
            s@ == self.text(),
    {
        proof {
            reveal_strlit("rendering error: ");
            reveal_strlit("element id not found");
            reveal_strlit("invalid id: ");
            reveal_strlit("out of memory: ");
        }
        match self {
            RenderingError::Rendering(s) => concat("rendering error: ", s.as_str()),
            RenderingError::LimitExceeded(l) => l.to_string(),
            RenderingError::IdNotFound => "element id not found".to_owned(),
            RenderingError::InvalidId(s) => concat("invalid id: ", debug_string(s.as_str()).as_str()),
            RenderingError::OutOfMemory(s) => concat("out of memory: ", s.as_str()),
        }
    }
}

} // verus!
