//! The `feOffset` filter primitive: its offsets.

use vstd::prelude::*;

use crate::css::{number_spec, CssNumber, CssParseError, Parse};
use crate::filters::lighting::number_value;
use crate::filters::{standard_attributes, Input, InputView, Primitive};
use crate::strings::str_eq;

verus! {

/// Parameters of the `feOffset` primitive, for rendering.
#[derive(Debug, PartialEq, Eq)]
pub struct Offset {
    pub in1: Input,
    pub dx: CssNumber,
    pub dy: CssNumber,
}

/// The `feOffset` filter primitive.
#[derive(Debug, PartialEq, Eq)]
pub struct FeOffset {
    pub base: Primitive,
    pub params: Offset,
}

/// The offsets after the attributes `attrs`, in order, up to the first invalid one, and
/// whether every one was valid.
pub open spec fn offset_attributes(dx: CssNumber, dy: CssNumber, attrs: Seq<(Seq<char>, Seq<char>)>) -> (
    CssNumber,
    CssNumber,
    bool,
)
    decreases attrs.len(),
{
    if attrs.len() == 0 {
        (dx, dy, true)
    } else if attrs[0].0 == "dx"@ {
        match number_spec(attrs[0].1) {
            Ok((n, _)) => offset_attributes(n, dy, attrs.drop_first()),
            Err(_) => (dx, dy, false),
        }
    } else if attrs[0].0 == "dy"@ {
        match number_spec(attrs[0].1) {
            Ok((n, _)) => offset_attributes(dx, n, attrs.drop_first()),
            Err(_) => (dx, dy, false),
        }
    } else {
        offset_attributes(dx, dy, attrs.drop_first())
    }
}

/// Reading one attribute of `feOffset`: `dx` sets the horizontal offset and `dy` the
/// vertical one to the number that the value starts with, each leaving the other offset as
/// it was; any other attribute changes neither, and only `dx` or `dy` with a value that
/// does not start with a number is refused, changing nothing.
pub proof fn lemma_offset_attribute_sets_its_offset(dx: CssNumber, dy: CssNumber, name: Seq<char>, value: Seq<char>)
    ensures
        ({
            let (a, b, ok) = offset_attributes(dx, dy, seq![(name, value)]);
            &&& ok == !((name == "dx"@ || name == "dy"@) && number_value(value) is None)
            &&& ok ==> Some(a) == (if name == "dx"@ { number_value(value) } else { Some(dx) })
            &&& ok ==> Some(b) == (if name == "dy"@ { number_value(value) } else { Some(dy) })
            &&& !ok ==> a == dx && b == dy
        }),
{
    reveal_strlit("dx");
    reveal_strlit("dy");
    assert("dx"@.len() == 2 && "dx"@[1] == 'x');
    assert("dy"@.len() == 2 && "dy"@[1] == 'y');
    let attrs = seq![(name, value)];
    assert(attrs.drop_first().len() == 0);
    assert(attrs[0] == (name, value));
    reveal_with_fuel(offset_attributes, 2);
}

impl FeOffset {
    /// No offset of an unspecified input.
    pub fn new() -> (f: FeOffset)
        ensures
            f.params.in1 == Input::Unspecified,
            f.params.dx == CssNumber(0) && f.params.dy == CssNumber(0),
            f.base.x is None && f.base.y is None && f.base.width is None && f.base.height is None
                && f.base.result is None,
    {
        FeOffset {
            base: Primitive::new(),
            params: Offset { in1: Input::Unspecified, dx: CssNumber(0), dy: CssNumber(0) },
        }
    }

    /// Reads the standard attributes with one input, then `dx` and `dy`.
    pub fn set_attributes(&mut self, attrs: &Vec<(String, String)>) -> (r: Result<(), CssParseError>)
        ensures
            ({
                let av = attrs@.map_values(|a: (String, String)| (a.0@, a.1@));
                let (p, a, _, ok) = standard_attributes(
                    old(self).base.view(),
                    InputView::Unspecified,
                    InputView::Unspecified,
                    av,
                );
                let (dx, dy, rest_ok) = offset_attributes(old(self).params.dx, old(self).params.dy, av);
                &&& final(self).base.view() == p
                &&& !ok ==> r is Err && final(self).params == old(self).params
                &&& ok ==> final(self).params.in1.view() == a && final(self).params.dx == dx
                    && final(self).params.dy == dy && (r is Ok <==> rest_ok)
            }),
    {
        let ghost av = attrs@.map_values(|a: (String, String)| (a.0@, a.1@));
        self.params.in1 = match self.base.parse_one_input(attrs) {
            Ok(i) => i,
            Err(e) => return Err(e),
        };
        let ghost sa = standard_attributes(
            old(self).base.view(),
            InputView::Unspecified,
            InputView::Unspecified,
            av,
        );
        let mut i: usize = 0;
        assert(av.skip(0) =~= av);
        while i < attrs.len()
            invariant
                sa == standard_attributes(
                    old(self).base.view(),
                    InputView::Unspecified,
                    InputView::Unspecified,
                    av,
                ),
                sa.3 && sa.0 == self.base.view() && self.params.in1.view() == sa.1,
                i <= attrs@.len(),
                av == attrs@.map_values(|a: (String, String)| (a.0@, a.1@)),
                offset_attributes(old(self).params.dx, old(self).params.dy, av) == offset_attributes(
                    self.params.dx,
                    self.params.dy,
                    av.skip(i as int),
                ),
            decreases attrs@.len() - i,
        {
            assert(av.skip(i as int)[0] == av[i as int]);
            assert(av.skip(i as int).drop_first() =~= av.skip(i + 1));
            let name = attrs[i].0.as_str();
            let value = attrs[i].1.as_str();
            if str_eq(name, "dx") {
                match CssNumber::parse(value) {
                    Ok((n, _)) => self.params.dx = n,
                    Err(e) => return Err(e),
                }
            } else if str_eq(name, "dy") {
                match CssNumber::parse(value) {
                    Ok((n, _)) => self.params.dy = n,
                    Err(e) => return Err(e),
                }
            }
            i = i + 1;
        }
        assert(av.skip(i as int).len() == 0);
        Ok(())
    }
}

} // verus!
