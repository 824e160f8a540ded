//! The `<image>` element.

use vstd::prelude::*;

verus! {

/// The `<image>` element: the URL of the image it shows, if any.
///
/// Its x/y/width/height are properties in SVG2, so they are not fields here.
#[derive(Debug, Clone, PartialEq, Eq)]
pub struct Image {
    pub href: Option<String>,
}

impl Image {
    /// An image element that references nothing yet.
    pub fn new() -> (i: Image)
        ensures
            i.href is None,
    {
        Image { href: None }
    }
}

} // verus!
