//! The `feTile` filter primitive.

use vstd::prelude::*;

use crate::css::CssParseError;
use crate::filters::{standard_attributes, Input, InputView, Primitive};

verus! {

/// Parameters of the `feTile` primitive, for rendering.
#[derive(Debug, PartialEq, Eq)]
pub struct Tile {
    pub in1: Input,
}

/// The `feTile` filter primitive.
#[derive(Debug, PartialEq, Eq)]
pub struct FeTile {
    pub base: Primitive,
    pub params: Tile,
}

impl FeTile {
    /// A tiling of an unspecified input.
    pub fn new() -> (f: FeTile)
        ensures
            f.params.in1 == Input::Unspecified,
            f.base.x is None && f.base.y is None && f.base.width is None && f.base.height is None
                && f.base.result is None,
    {
        FeTile { base: Primitive::new(), params: Tile { in1: Input::Unspecified } }
    }

    /// Reads the standard attributes with one input.
    pub fn set_attributes(&mut self, attrs: &Vec<(String, String)>) -> (r: Result<(), CssParseError>)
        ensures
            ({
                let (p, a, _, ok) = standard_attributes(
                    old(self).base.view(),
                    InputView::Unspecified,
                    InputView::Unspecified,
                    attrs@.map_values(|a: (String, String)| (a.0@, a.1@)),
                );
                &&& final(self).base.view() == p
                &&& ok <==> r is Ok
                &&& !ok ==> final(self).params == old(self).params
                &&& ok ==> final(self).params.in1.view() == a
            }),
    {
        self.params.in1 = match self.base.parse_one_input(attrs) {
            Ok(i) => i,
            Err(e) => return Err(e),
        };
        Ok(())
    }
}

} // verus!
