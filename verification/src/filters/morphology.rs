//! The `feMorphology` filter primitive: its operator and radius, and the erosion or
//! dilation of one channel of a pixel over its window.

use vstd::prelude::*;

use crate::css::{
    css_next, keyword_spec, lemma_keyword_spec_matches, parse_keyword, value_of, CssErrorKind,
    CssNumber, CssParseError, CssTokenView, NonNegative, NumberOptionalNumber, Parse,
};
use crate::strings::eq_ignore_ascii_case;
use crate::filters::lighting::bounds_inside;
use crate::filters::{standard_attributes, Input, InputView, Primitive};
use crate::rect::IRect;
use crate::surface_utils::ImageChannel;
use crate::strings::str_eq;

verus! {

/// Enumeration of the possible morphology operations.
#[derive(Debug, Clone, Copy, PartialEq, Eq, Structural)]
pub enum Operator {
    Erode,
    Dilate,
}

/// The keywords of the operators, in the order of [`Operator`]'s variants.
pub open spec fn operator_keywords() -> Seq<Seq<char>> {
    seq!["erode"@, "dilate"@]
}

/// An operator is read from an identifier that is its own keyword, ignoring ASCII case:
/// `erode` gives [`Operator::Erode`] and `dilate` gives [`Operator::Dilate`].
pub proof fn lemma_operator_is_named_by_its_keyword(input: Seq<char>)
    ensures
        <Operator as Parse>::parse_spec(input) matches Ok((o, rest)) ==> (css_next(input).0 matches Some(
            CssTokenView::Ident(id),
        ) && eq_ignore_ascii_case(id, match o {
            Operator::Erode => "erode"@,
            Operator::Dilate => "dilate"@,
        }) && rest == css_next(input).1),
{
    lemma_keyword_spec_matches(input, operator_keywords());
}

impl Default for Operator {
    fn default() -> (o: Operator)
        ensures
            o == Operator::Erode,
    {
        Operator::Erode
    }
}

impl Parse for Operator {
    open spec fn parse_spec(input: Seq<char>) -> Result<(Operator, Seq<char>), CssErrorKind> {
        match keyword_spec(input, operator_keywords()) {
            Ok((i, rest)) => Ok((if i == 0 { Operator::Erode } else { Operator::Dilate }, rest)),
            Err(k) => Err(k),
        }
    }

    /// Parses `erode` or `dilate`, ignoring ASCII case.
    fn parse(input: &str) -> (r: Result<(Operator, &str), CssParseError>) {
        let keywords = ["erode", "dilate"];
        proof {
            reveal_strlit("erode");
            reveal_strlit("dilate");
        }
        assert(keywords@.map_values(|k: &str| k@) =~= operator_keywords());
        match parse_keyword(input, &keywords) {
            Ok((i, rest)) => Ok((if i == 0 { Operator::Erode } else { Operator::Dilate }, rest)),
            Err(e) => Err(e),
        }
    }
}

/// Parameters of the `feMorphology` primitive, for rendering.
#[derive(Debug, PartialEq, Eq)]
pub struct Morphology {
    pub in1: Input,
    pub operator: Operator,
    /// The radius in both directions, not negative.
    pub radius: (CssNumber, CssNumber),
}

/// The `feMorphology` filter primitive.
#[derive(Debug, PartialEq, Eq)]
pub struct FeMorphology {
    pub base: Primitive,
    pub params: Morphology,
}

/// The operator and radius after the attributes `attrs`, in order, up to the first
/// invalid one, and whether every one was valid.
pub open spec fn morphology_attributes(
    op: Operator,
    radius: (CssNumber, CssNumber),
    attrs: Seq<(Seq<char>, Seq<char>)>,
) -> (Operator, (CssNumber, CssNumber), bool)
    decreases attrs.len(),
{
    if attrs.len() == 0 {
        (op, radius, true)
    } else if attrs[0].0 == "operator"@ {
        match <Operator as Parse>::parse_spec(attrs[0].1) {
            Ok((o, _)) => morphology_attributes(o, radius, attrs.drop_first()),
            Err(_) => (op, radius, false),
        }
    } else if attrs[0].0 == "radius"@ {
        match <NumberOptionalNumber<NonNegative> as Parse>::parse_spec(attrs[0].1) {
            Ok((NumberOptionalNumber(x, y), _)) => morphology_attributes(
                op,
                (x.0, y.0),
                attrs.drop_first(),
            ),
            Err(_) => (op, radius, false),
        }
    } else {
        morphology_attributes(op, radius, attrs.drop_first())
    }
}

/// Reading one attribute of `feMorphology`: `operator` sets the operator to the keyword
/// read, and `radius` sets the horizontal and the vertical radius to the first and the
/// second number of the pair read, each leaving the other as it was; any other attribute
/// changes nothing, and only one of these with a value that does not give what it is read
/// from is refused, changing nothing.
pub proof fn lemma_morphology_attribute_sets_its_parameter(
    op: Operator,
    radius: (CssNumber, CssNumber),
    name: Seq<char>,
    value: Seq<char>,
)
    ensures
        ({
            let (o, r, ok) = morphology_attributes(op, radius, seq![(name, value)]);
            &&& ok == !(name == "operator"@ && value_of::<Operator>(value) is None || name == "radius"@
                && value_of::<NumberOptionalNumber<NonNegative>>(value) is None)
            &&& ok ==> Some(o) == (if name == "operator"@ { value_of::<Operator>(value) } else { Some(op) })
            &&& ok ==> Some(r) == (if name == "radius"@ {
                match value_of::<NumberOptionalNumber<NonNegative>>(value) {
                    Some(NumberOptionalNumber(x, y)) => Some((x.0, y.0)),
                    None => None,
                }
            } else {
                Some(radius)
            })
            &&& !ok ==> o == op && r == radius
        }),
{
    reveal_strlit("operator");
    reveal_strlit("radius");
    assert("operator"@.len() == 8);
    assert("radius"@.len() == 6);
    let attrs = seq![(name, value)];
    assert(attrs.drop_first().len() == 0);
    assert(attrs[0] == (name, value));
    reveal_with_fuel(morphology_attributes, 2);
}

impl FeMorphology {
    /// An erosion of radius 0 of an unspecified input.
    pub fn new() -> (f: FeMorphology)
        ensures
            f.params.in1 == Input::Unspecified,
            f.params.operator == Operator::Erode,
            f.params.radius == (CssNumber(0), CssNumber(0)),
            f.base.x is None && f.base.y is None && f.base.width is None && f.base.height is None
                && f.base.result is None,
    {
        FeMorphology {
            base: Primitive::new(),
            params: Morphology {
                in1: Input::Unspecified,
                operator: Operator::Erode,
                radius: (CssNumber(0), CssNumber(0)),
            },
        }
    }

    /// Reads the standard attributes with one input, then the operator and the radius.
    pub fn set_attributes(&mut self, attrs: &Vec<(String, String)>) -> (r: Result<(), CssParseError>)
        ensures
            ({
                let av = attrs@.map_values(|a: (String, String)| (a.0@, a.1@));
                let (p, a, _, ok) = standard_attributes(
                    old(self).base.view(),
                    InputView::Unspecified,
                    InputView::Unspecified,
                    av,
                );
                let (o, rad, rest_ok) = morphology_attributes(
                    old(self).params.operator,
                    old(self).params.radius,
                    av,
                );
                &&& final(self).base.view() == p
                &&& !ok ==> r is Err && final(self).params == old(self).params
                &&& ok ==> final(self).params.in1.view() == a && final(self).params.operator == o
                    && final(self).params.radius == rad && (r is Ok <==> rest_ok)
            }),
    {
        let ghost av = attrs@.map_values(|a: (String, String)| (a.0@, a.1@));
        self.params.in1 = match self.base.parse_one_input(attrs) {
            Ok(i) => i,
            Err(e) => return Err(e),
        };
        let ghost sa = standard_attributes(
            old(self).base.view(),
            InputView::Unspecified,
            InputView::Unspecified,
            av,
        );
        let mut i: usize = 0;
        assert(av.skip(0) =~= av);
        while i < attrs.len()
            invariant
                sa == standard_attributes(
                    old(self).base.view(),
                    InputView::Unspecified,
                    InputView::Unspecified,
                    av,
                ),
                sa.3 && sa.0 == self.base.view() && self.params.in1.view() == sa.1,
                i <= attrs@.len(),
                av == attrs@.map_values(|a: (String, String)| (a.0@, a.1@)),
                morphology_attributes(old(self).params.operator, old(self).params.radius, av)
                    == morphology_attributes(self.params.operator, self.params.radius, av.skip(i as int)),
            decreases attrs@.len() - i,
        {
            assert(av.skip(i as int)[0] == av[i as int]);
            assert(av.skip(i as int).drop_first() =~= av.skip(i + 1));
            let name = attrs[i].0.as_str();
            let value = attrs[i].1.as_str();
            if str_eq(name, "operator") {
                match Operator::parse(value) {
                    Ok((o, _)) => self.params.operator = o,
                    Err(e) => return Err(e),
                }
            } else if str_eq(name, "radius") {
                match NumberOptionalNumber::<NonNegative>::parse(value) {
                    Ok((NumberOptionalNumber(x, y), _)) => self.params.radius = (x.0, y.0),
                    Err(e) => return Err(e),
                }
            }
            i = i + 1;
        }
        assert(av.skip(i as int).len() == 0);
        Ok(())
    }
}

/// Whether the pixel `(x, y)` lies in the rectangle `r`.
pub open spec fn in_rect(r: IRect, x: int, y: int) -> bool {
    r.x0 <= x < r.x1 && r.y0 <= y < r.y1
}

/// The value of the pixel `(x, y)` as the morphology window sees it: its value inside
/// `bounds`, and 0 (transparent) outside.
pub open spec fn window_value(s: &ImageChannel, bounds: IRect, x: int, y: int) -> int {
    if in_rect(bounds, x, y) {
        s.value_at(x, y)
    } else {
        0
    }
}

/// Whether `v` is the result of `op` over the window `kernel`: for erosion the least
/// value in the window (255 for an empty window), for dilation the greatest (0 for an
/// empty window).
pub open spec fn is_window_result(op: Operator, s: &ImageChannel, bounds: IRect, kernel: IRect, v: int) -> bool {
    match op {
        Operator::Erode => {
            &&& forall|x: int, y: int| in_rect(kernel, x, y) ==> v <= #[trigger] window_value(s, bounds, x, y)
            &&& (v == 255 || exists|x: int, y: int| in_rect(kernel, x, y) && v == #[trigger] window_value(s, bounds, x, y))
        },
        Operator::Dilate => {
            &&& forall|x: int, y: int| in_rect(kernel, x, y) ==> v >= #[trigger] window_value(s, bounds, x, y)
            &&& (v == 0 || exists|x: int, y: int| in_rect(kernel, x, y) && v == #[trigger] window_value(s, bounds, x, y))
        },
    }
}

fn window_pixel(s: &ImageChannel, bounds: IRect, x: i32, y: i32) -> (v: u8)
    requires
        s.wf(),
        bounds_inside(s, bounds),
    ensures
        v == window_value(s, bounds, x as int, y as int),
{
    if bounds.x0 <= x && x < bounds.x1 && bounds.y0 <= y && y < bounds.y1 {
        s.get_value(x as u32, y as u32)
    } else {
        0
    }
}

/// Erodes or dilates one channel at a pixel: the least (erosion) or greatest (dilation)
/// value over the pixel's window `kernel`, where the pixels outside `bounds` count as
/// transparent.  The window comes from the pixel and the radius, which are not whole
/// numbers.
pub fn morphology_value(op: Operator, s: &ImageChannel, bounds: IRect, kernel: IRect) -> (v: u8)
    requires
        s.wf(),
        bounds_inside(s, bounds),
    ensures
        is_window_result(op, s, bounds, kernel, v as int),
{
    let initial: u8 = match op {
        Operator::Erode => 255,
        Operator::Dilate => 0,
    };
    let mut v = initial;
    let mut y = kernel.y0;
    while y < kernel.y1
        invariant
            s.wf(),
            bounds_inside(s, bounds),
            kernel.y0 <= y <= kernel.y1 || kernel.y1 <= kernel.y0 && y == kernel.y0,
            forall|i: int, j: int| #![trigger window_value(s, bounds, i, j)]
                kernel.x0 <= i < kernel.x1 && kernel.y0 <= j < y ==> match op {
                    Operator::Erode => v <= window_value(s, bounds, i, j),
                    Operator::Dilate => v >= window_value(s, bounds, i, j),
                },
            v == initial || exists|i: int, j: int|
                kernel.x0 <= i < kernel.x1 && kernel.y0 <= j < y && v == #[trigger] window_value(s, bounds, i, j),
        decreases kernel.y1 - y,
    {
        let mut x = kernel.x0;
        while x < kernel.x1
            invariant
                s.wf(),
                bounds_inside(s, bounds),
                kernel.y0 <= y < kernel.y1,
                kernel.x0 <= x <= kernel.x1 || kernel.x1 <= kernel.x0 && x == kernel.x0,
                forall|i: int, j: int| #![trigger window_value(s, bounds, i, j)]
                    (kernel.x0 <= i < kernel.x1 && kernel.y0 <= j < y || kernel.x0 <= i < x && j == y)
                        ==> match op {
                        Operator::Erode => v <= window_value(s, bounds, i, j),
                        Operator::Dilate => v >= window_value(s, bounds, i, j),
                    },
                v == initial || exists|i: int, j: int|
                    (kernel.x0 <= i < kernel.x1 && kernel.y0 <= j < y || kernel.x0 <= i < x && j == y)
                        && v == #[trigger] window_value(s, bounds, i, j),
            decreases kernel.x1 - x,
        {
            let p = window_pixel(s, bounds, x, y);
            match op {
                Operator::Erode => if p < v {
                    v = p;
                },
                Operator::Dilate => if p > v {
                    v = p;
                },
            }
            x = x + 1;
        }
        y = y + 1;
    }
    v
}

} // verus!
