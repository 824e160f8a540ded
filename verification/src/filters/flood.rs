//! The `feFlood` filter primitive.

use vstd::prelude::*;

use crate::css::CssParseError;
use crate::filters::{standard_attributes, InputView, Primitive};

verus! {

/// The `feFlood` filter primitive, which fills its subregion with the flood colour.
#[derive(Debug, PartialEq, Eq)]
pub struct FeFlood {
    pub base: Primitive,
}

impl FeFlood {
    /// A flood with no subregion and no result name.
    pub fn new() -> (f: FeFlood)
        ensures
            f.base.x is None && f.base.y is None && f.base.width is None && f.base.height is None
                && f.base.result is None,
    {
        FeFlood { base: Primitive::new() }
    }

    /// Reads the standard attributes of the primitive; it takes no input.
    pub fn set_attributes(&mut self, attrs: &Vec<(String, String)>) -> (r: Result<(), CssParseError>)
        ensures
            ({
                let (p, _, _, ok) = standard_attributes(
                    old(self).base.view(),
                    InputView::Unspecified,
                    InputView::Unspecified,
                    attrs@.map_values(|a: (String, String)| (a.0@, a.1@)),
                );
                &&& final(self).base.view() == p
                &&& ok <==> r is Ok
            }),
    {
        self.base.parse_no_inputs(attrs)
    }
}

} // verus!
