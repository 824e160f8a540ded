//! Filter effects: the inputs of filter primitives and the bookkeeping of their results.

use vstd::prelude::*;

use crate::css::{
    custom_ident_spec, keyword_spec, parse_keyword, value_of, CssErrorKind, CssParseError, CustomIdent,
    Parse,
};
use crate::length::{Horizontal, Length, ULength, Vertical};
use crate::strings::str_eq;

pub mod blend;
pub mod component_transfer;
pub mod composite;
pub mod context;
pub mod displacement_map;
pub mod flood;
pub mod convolve_matrix;
pub mod image;
pub mod lighting;
pub mod merge;
pub mod morphology;
pub mod policy;
pub mod offset;
pub mod tile;

verus! {

/// Errors when resolving the parameters of a filter primitive.
#[derive(Debug, Clone, Copy, PartialEq, Eq, Structural)]
pub enum FilterResolveError {
    /// A reference to an element that is not a `<filter>`, or that cannot be acquired.
    ReferenceToNonFilterElement,
    /// A child element of the primitive has invalid attributes.
    ChildNodeInError,
    /// A lighting primitive has no light source child, or more than one.
    InvalidLightSourceCount,
}

/// The input of a filter primitive.
#[derive(Debug, PartialEq, Eq)]
pub enum Input {
    Unspecified,
    SourceGraphic,
    SourceAlpha,
    BackgroundImage,
    BackgroundAlpha,
    FillPaint,
    StrokePaint,
    FilterOutput(CustomIdent),
}

/// The keywords of the standard inputs, in the order of [`Input`]'s variants after
/// `Unspecified`.
pub open spec fn input_keywords() -> Seq<Seq<char>> {
    seq![
        "SourceGraphic"@,
        "SourceAlpha"@,
        "BackgroundImage"@,
        "BackgroundAlpha"@,
        "FillPaint"@,
        "StrokePaint"@
    ]
}

/// The standard input at position `i` of [`input_keywords`].
pub open spec fn standard_input(i: nat) -> Input {
    if i == 0 {
        Input::SourceGraphic
    } else if i == 1 {
        Input::SourceAlpha
    } else if i == 2 {
        Input::BackgroundImage
    } else if i == 3 {
        Input::BackgroundAlpha
    } else if i == 4 {
        Input::FillPaint
    } else {
        Input::StrokePaint
    }
}

/// What reading an input from the start of `input` gives: a standard input keyword, or
/// else the name of a result.
pub open spec fn input_spec(input: Seq<char>) -> Result<(Option<nat>, Seq<char>, Seq<char>), CssErrorKind> {
    match keyword_spec(input, input_keywords()) {
        Ok((i, rest)) => Ok((Some(i), Seq::empty(), rest)),
        Err(_) => match custom_ident_spec(input) {
            Ok((id, rest)) => Ok((None, id, rest)),
            Err(k) => Err(k),
        },
    }
}

/// What an [`Input`] is in specifications.
pub enum InputView {
    Unspecified,
    SourceGraphic,
    SourceAlpha,
    BackgroundImage,
    BackgroundAlpha,
    FillPaint,
    StrokePaint,
    FilterOutput(Seq<char>),
}

impl Input {
    pub open spec fn view(&self) -> InputView {
        match self {
            Input::Unspecified => InputView::Unspecified,
            Input::SourceGraphic => InputView::SourceGraphic,
            Input::SourceAlpha => InputView::SourceAlpha,
            Input::BackgroundImage => InputView::BackgroundImage,
            Input::BackgroundAlpha => InputView::BackgroundAlpha,
            Input::FillPaint => InputView::FillPaint,
            Input::StrokePaint => InputView::StrokePaint,
            Input::FilterOutput(c) => InputView::FilterOutput(c.0@),
        }
    }
}

/// What reading an input from the start of `input` gives, as an [`InputView`].
pub open spec fn input_view_spec(input: Seq<char>) -> Result<(InputView, Seq<char>), CssErrorKind> {
    match input_spec(input) {
        Ok((Some(i), _, rest)) => Ok((standard_input(i).view(), rest)),
        Ok((None, id, rest)) => Ok((InputView::FilterOutput(id), rest)),
        Err(k) => Err(k),
    }
}

impl Default for Input {
    fn default() -> (i: Input)
        ensures
            i == Input::Unspecified,
    {
        Input::Unspecified
    }
}

impl Input {
    /// A copy of the input.
    pub fn duplicate(&self) -> (r: Input)
        ensures
            r.view() == self.view(),
    {
        match self {
            Input::Unspecified => Input::Unspecified,
            Input::SourceGraphic => Input::SourceGraphic,
            Input::SourceAlpha => Input::SourceAlpha,
            Input::BackgroundImage => Input::BackgroundImage,
            Input::BackgroundAlpha => Input::BackgroundAlpha,
            Input::FillPaint => Input::FillPaint,
            Input::StrokePaint => Input::StrokePaint,
            Input::FilterOutput(c) => Input::FilterOutput(CustomIdent(c.0.clone())),
        }
    }

    /// Parses an input: `SourceGraphic`, `SourceAlpha`, `BackgroundImage`,
    /// `BackgroundAlpha`, `FillPaint` or `StrokePaint`, or the name of a result.  The result
    /// is the input and what is left of `input`.  In the specification, a standard input is
    /// given by its position among the keywords, a named one by its name.
    pub fn parse(input: &str) -> (r: Result<(Input, &str), CssParseError>)
        ensures
            match input_spec(input@) {
                Ok((Some(i), _, rest)) => (r matches Ok((v, t)) && v == standard_input(i) && t@
                    == rest),
                Ok((None, id, rest)) => (r matches Ok((v, t)) && (v matches Input::FilterOutput(c)
                    && c.0@ == id) && t@ == rest),
                Err(k) => (r matches Err(e) && e.kind() == k),
            },
    {
        let keywords = [
            "SourceGraphic",
            "SourceAlpha",
            "BackgroundImage",
            "BackgroundAlpha",
            "FillPaint",
            "StrokePaint",
        ];
        proof {
            reveal_strlit("SourceGraphic");
            reveal_strlit("SourceAlpha");
            reveal_strlit("BackgroundImage");
            reveal_strlit("BackgroundAlpha");
            reveal_strlit("FillPaint");
            reveal_strlit("StrokePaint");
        }
        assert(keywords@.map_values(|k: &str| k@) =~= input_keywords());
        match parse_keyword(input, &keywords) {
            Ok((i, rest)) => {
                let v = if i == 0 {
                    Input::SourceGraphic
                } else if i == 1 {
                    Input::SourceAlpha
                } else if i == 2 {
                    Input::BackgroundImage
                } else if i == 3 {
                    Input::BackgroundAlpha
                } else if i == 4 {
                    Input::FillPaint
                } else {
                    Input::StrokePaint
                };
                Ok((v, rest))
            },
            Err(_) => match CustomIdent::parse(input) {
                Ok((id, rest)) => Ok((Input::FilterOutput(id), rest)),
                Err(e) => Err(e),
            },
        }
    }
}

/// A filter primitive resolved for rendering: its kind and its parameters.  The colour
/// matrix, Gaussian blur, turbulence and flood primitives carry their parameters
/// elsewhere: their numbers are floating point or come from the style.
#[derive(Debug)]
pub enum PrimitiveParams {
    Blend(blend::Blend),
    ColorMatrix,
    ComponentTransfer(component_transfer::ComponentTransfer),
    Composite(composite::Composite),
    ConvolveMatrix(convolve_matrix::ConvolveMatrix),
    DiffuseLighting(lighting::DiffuseLightingParams, lighting::UntransformedLightSource),
    DisplacementMap(displacement_map::DisplacementMap),
    Flood,
    GaussianBlur,
    Image(image::Image),
    Merge(Vec<merge::FeMergeNode>),
    Morphology(morphology::Morphology),
    Offset(offset::Offset),
    SpecularLighting(lighting::SpecularLightingParams, lighting::UntransformedLightSource),
    Tile(tile::Tile),
    Turbulence,
}

impl PrimitiveParams {
    /// The element name of each kind of primitive.
    pub open spec fn name_spec(self) -> Seq<char> {
        match self {
            PrimitiveParams::Blend(..) => "feBlend"@,
            PrimitiveParams::ColorMatrix => "feColorMatrix"@,
            PrimitiveParams::ComponentTransfer(..) => "feComponentTransfer"@,
            PrimitiveParams::Composite(..) => "feComposite"@,
            PrimitiveParams::ConvolveMatrix(..) => "feConvolveMatrix"@,
            PrimitiveParams::DiffuseLighting(..) => "feDiffuseLighting"@,
            PrimitiveParams::DisplacementMap(..) => "feDisplacementMap"@,
            PrimitiveParams::Flood => "feFlood"@,
            PrimitiveParams::GaussianBlur => "feGaussianBlur"@,
            PrimitiveParams::Image(..) => "feImage"@,
            PrimitiveParams::Merge(..) => "feMerge"@,
            PrimitiveParams::Morphology(..) => "feMorphology"@,
            PrimitiveParams::Offset(..) => "feOffset"@,
            PrimitiveParams::SpecularLighting(..) => "feSpecularLighting"@,
            PrimitiveParams::Tile(..) => "feTile"@,
            PrimitiveParams::Turbulence => "feTurbulence"@,
        }
    }

    /// Returns a human-readable name for a primitive.
    pub fn name(&self) -> (s: &'static str)
        ensures
            s@ == self.name_spec(),
    {
        match self {
            PrimitiveParams::Blend(..) => "feBlend",
            PrimitiveParams::ColorMatrix => "feColorMatrix",
            PrimitiveParams::ComponentTransfer(..) => "feComponentTransfer",
            PrimitiveParams::Composite(..) => "feComposite",
            PrimitiveParams::ConvolveMatrix(..) => "feConvolveMatrix",
            PrimitiveParams::DiffuseLighting(..) => "feDiffuseLighting",
            PrimitiveParams::DisplacementMap(..) => "feDisplacementMap",
            PrimitiveParams::Flood => "feFlood",
            PrimitiveParams::GaussianBlur => "feGaussianBlur",
            PrimitiveParams::Image(..) => "feImage",
            PrimitiveParams::Merge(..) => "feMerge",
            PrimitiveParams::Morphology(..) => "feMorphology",
            PrimitiveParams::Offset(..) => "feOffset",
            PrimitiveParams::SpecularLighting(..) => "feSpecularLighting",
            PrimitiveParams::Tile(..) => "feTile",
            PrimitiveParams::Turbulence => "feTurbulence",
        }
    }
}

/// The base filter primitive node containing common properties.
#[derive(Debug, PartialEq, Eq)]
pub struct Primitive {
    pub x: Option<Length<Horizontal>>,
    pub y: Option<Length<Vertical>>,
    pub width: Option<ULength<Horizontal>>,
    pub height: Option<ULength<Vertical>>,
    pub result: Option<CustomIdent>,
}

/// What a [`Primitive`] is in specifications.
pub struct PrimitiveView {
    pub x: Option<Length<Horizontal>>,
    pub y: Option<Length<Vertical>>,
    pub width: Option<ULength<Horizontal>>,
    pub height: Option<ULength<Vertical>>,
    pub result: Option<Seq<char>>,
}

impl Primitive {
    pub open spec fn view(&self) -> PrimitiveView {
        PrimitiveView {
            x: self.x,
            y: self.y,
            width: self.width,
            height: self.height,
            result: match self.result {
                Some(c) => Some(c.0@),
                None => None,
            },
        }
    }
}

/// The primitive and its two inputs after the attribute `name="value"`, or `None` if the
/// value is invalid.
pub open spec fn standard_attribute(
    p: PrimitiveView,
    in1: InputView,
    in2: InputView,
    name: Seq<char>,
    value: Seq<char>,
) -> Option<(PrimitiveView, InputView, InputView)> {
    if name == "x"@ {
        match <Length<Horizontal> as Parse>::parse_spec(value) {
            Ok((l, _)) => Some((PrimitiveView { x: Some(l), ..p }, in1, in2)),
            Err(_) => None,
        }
    } else if name == "y"@ {
        match <Length<Vertical> as Parse>::parse_spec(value) {
            Ok((l, _)) => Some((PrimitiveView { y: Some(l), ..p }, in1, in2)),
            Err(_) => None,
        }
    } else if name == "width"@ {
        match <ULength<Horizontal> as Parse>::parse_spec(value) {
            Ok((l, _)) => Some((PrimitiveView { width: Some(l), ..p }, in1, in2)),
            Err(_) => None,
        }
    } else if name == "height"@ {
        match <ULength<Vertical> as Parse>::parse_spec(value) {
            Ok((l, _)) => Some((PrimitiveView { height: Some(l), ..p }, in1, in2)),
            Err(_) => None,
        }
    } else if name == "result"@ {
        match custom_ident_spec(value) {
            Ok((id, _)) => Some((PrimitiveView { result: Some(id), ..p }, in1, in2)),
            Err(_) => None,
        }
    } else if name == "in"@ {
        match input_view_spec(value) {
            Ok((v, _)) => Some((p, v, in2)),
            Err(_) => None,
        }
    } else if name == "in2"@ {
        match input_view_spec(value) {
            Ok((v, _)) => Some((p, in1, v)),
            Err(_) => None,
        }
    } else {
        Some((p, in1, in2))
    }
}

/// Reading a standard attribute of a filter primitive sets exactly the subregion
/// coordinate, the result name or the input of that name to the value read, and leaves
/// the others as they were; the attribute is refused only when it is one of them and its
/// value does not start with what that one is read from.
pub proof fn lemma_standard_attribute_sets_its_parameter(
    p: PrimitiveView,
    in1: InputView,
    in2: InputView,
    name: Seq<char>,
    value: Seq<char>,
)
    ensures
        match standard_attribute(p, in1, in2, name, value) {
            Some((q, a, b)) => {
                &&& q.x == (if name == "x"@ { value_of::<Length<Horizontal>>(value) } else { p.x })
                &&& q.y == (if name == "y"@ { value_of::<Length<Vertical>>(value) } else { p.y })
                &&& q.width == (if name == "width"@ { value_of::<ULength<Horizontal>>(value) } else { p.width })
                &&& q.height == (if name == "height"@ {
                    value_of::<ULength<Vertical>>(value)
                } else {
                    p.height
                })
                &&& q.result == (if name == "result"@ {
                    match custom_ident_spec(value) {
                        Ok((id, _)) => Some(id),
                        Err(_) => None,
                    }
                } else {
                    p.result
                })
                &&& a == (if name == "in"@ { input_view_spec(value)->Ok_0.0 } else { in1 })
                &&& b == (if name == "in2"@ { input_view_spec(value)->Ok_0.0 } else { in2 })
                &&& name == "x"@ ==> q.x is Some
                &&& name == "y"@ ==> q.y is Some
                &&& name == "width"@ ==> q.width is Some
                &&& name == "height"@ ==> q.height is Some
                &&& name == "result"@ ==> q.result is Some
                &&& (name == "in"@ || name == "in2"@) ==> input_view_spec(value) is Ok
            },
            None => {
                ||| name == "x"@ && value_of::<Length<Horizontal>>(value) is None
                ||| name == "y"@ && value_of::<Length<Vertical>>(value) is None
                ||| name == "width"@ && value_of::<ULength<Horizontal>>(value) is None
                ||| name == "height"@ && value_of::<ULength<Vertical>>(value) is None
                ||| name == "result"@ && custom_ident_spec(value) is Err
                ||| (name == "in"@ || name == "in2"@) && input_view_spec(value) is Err
            },
        },
{
    reveal_strlit("x");
    reveal_strlit("y");
    reveal_strlit("width");
    reveal_strlit("height");
    reveal_strlit("result");
    reveal_strlit("in");
    reveal_strlit("in2");
    assert("x"@.len() == 1 && "x"@[0] == 'x');
    assert("y"@.len() == 1 && "y"@[0] == 'y');
    assert("width"@.len() == 5);
    assert("height"@.len() == 6 && "height"@[0] == 'h');
    assert("result"@.len() == 6 && "result"@[0] == 'r');
    assert("in"@.len() == 2);
    assert("in2"@.len() == 3);
}

/// The standard attributes of a primitive applied in order, up to the first invalid one:
/// the primitive, its two inputs, and whether every attribute was valid.
pub open spec fn standard_attributes(
    p: PrimitiveView,
    in1: InputView,
    in2: InputView,
    attrs: Seq<(Seq<char>, Seq<char>)>,
) -> (PrimitiveView, InputView, InputView, bool)
    decreases attrs.len(),
{
    if attrs.len() == 0 {
        (p, in1, in2, true)
    } else {
        match standard_attribute(p, in1, in2, attrs[0].0, attrs[0].1) {
            Some((p2, a, b)) => standard_attributes(p2, a, b, attrs.drop_first()),
            None => (p, in1, in2, false),
        }
    }
}

impl Primitive {
    /// A primitive that gives no subregion and no result name.
    pub fn new() -> (p: Primitive)
        ensures
            p.x is None && p.y is None && p.width is None && p.height is None && p.result is None,
    {
        Primitive { x: None, y: None, width: None, height: None, result: None }
    }

    /// Reads the subregion, the result name and the two inputs from the attributes, in
    /// order; an invalid value is an error, and the attributes after it are not read.
    fn parse_standard_attributes(&mut self, attrs: &Vec<(String, String)>) -> (r: Result<
        (Input, Input),
        CssParseError,
    >)
        ensures
            ({
                let (p, a, b, ok) = standard_attributes(
                    old(self).view(),
                    InputView::Unspecified,
                    InputView::Unspecified,
                    attrs@.map_values(|a: (String, String)| (a.0@, a.1@)),
                );
                &&& final(self).view() == p
                &&& ok <==> r is Ok
                &&& r matches Ok((i1, i2)) ==> i1.view() == a && i2.view() == b
            }),
    {
        let ghost av = attrs@.map_values(|a: (String, String)| (a.0@, a.1@));
        let mut input_1 = Input::Unspecified;
        let mut input_2 = Input::Unspecified;
        let mut i: usize = 0;
        assert(av.skip(0) =~= av);
        while i < attrs.len()
            invariant
                i <= attrs@.len(),
                av == attrs@.map_values(|a: (String, String)| (a.0@, a.1@)),
                standard_attributes(old(self).view(), InputView::Unspecified, InputView::Unspecified, av)
                    == standard_attributes(self.view(), input_1.view(), input_2.view(), av.skip(i as int)),
            decreases attrs@.len() - i,
        {
            let ghost before = (self.view(), input_1.view(), input_2.view());
            assert(av.skip(i as int)[0] == av[i as int]);
            assert(av.skip(i as int).drop_first() =~= av.skip(i + 1));
            let name = attrs[i].0.as_str();
            let value = attrs[i].1.as_str();
            if str_eq(name, "x") {
                match Length::<Horizontal>::parse(value) {
                    Ok((l, _)) => self.x = Some(l),
                    Err(e) => return Err(e),
                }
            } else if str_eq(name, "y") {
                match Length::<Vertical>::parse(value) {
                    Ok((l, _)) => self.y = Some(l),
                    Err(e) => return Err(e),
                }
            } else if str_eq(name, "width") {
                match ULength::<Horizontal>::parse(value) {
                    Ok((l, _)) => self.width = Some(l),
                    Err(e) => return Err(e),
                }
            } else if str_eq(name, "height") {
                match ULength::<Vertical>::parse(value) {
                    Ok((l, _)) => self.height = Some(l),
                    Err(e) => return Err(e),
                }
            } else if str_eq(name, "result") {
                match CustomIdent::parse(value) {
                    Ok((id, _)) => self.result = Some(id),
                    Err(e) => return Err(e),
                }
            } else if str_eq(name, "in") {
                match Input::parse(value) {
                    Ok((v, _)) => input_1 = v,
                    Err(e) => return Err(e),
                }
            } else if str_eq(name, "in2") {
                match Input::parse(value) {
                    Ok((v, _)) => input_2 = v,
                    Err(e) => return Err(e),
                }
            }
            assert(standard_attribute(before.0, before.1, before.2, av[i as int].0, av[i as int].1)
                == Some((self.view(), input_1.view(), input_2.view())));
            i = i + 1;
        }
        assert(av.skip(i as int).len() == 0);
        Ok((input_1, input_2))
    }

    /// Reads the standard attributes of a primitive that takes no input.
    pub fn parse_no_inputs(&mut self, attrs: &Vec<(String, String)>) -> (r: Result<(), CssParseError>)
        ensures
            ({
                let (p, _, _, ok) = standard_attributes(
                    old(self).view(),
                    InputView::Unspecified,
                    InputView::Unspecified,
                    attrs@.map_values(|a: (String, String)| (a.0@, a.1@)),
                );
                &&& final(self).view() == p
                &&& ok <==> r is Ok
            }),
    {
        match self.parse_standard_attributes(attrs) {
            Ok(_) => Ok(()),
            Err(e) => Err(e),
        }
    }

    /// Reads the standard attributes of a primitive that takes one input, `in`.
    pub fn parse_one_input(&mut self, attrs: &Vec<(String, String)>) -> (r: Result<Input, CssParseError>)
        ensures
            ({
                let (p, a, _, ok) = standard_attributes(
                    old(self).view(),
                    InputView::Unspecified,
                    InputView::Unspecified,
                    attrs@.map_values(|a: (String, String)| (a.0@, a.1@)),
                );
                &&& final(self).view() == p
                &&& ok <==> r is Ok
                &&& r matches Ok(i1) ==> i1.view() == a
            }),
    {
        match self.parse_standard_attributes(attrs) {
            Ok((i1, _)) => Ok(i1),
            Err(e) => Err(e),
        }
    }

    /// Reads the standard attributes of a primitive that takes two inputs, `in` and
    /// `in2`.
    pub fn parse_two_inputs(&mut self, attrs: &Vec<(String, String)>) -> (r: Result<
        (Input, Input),
        CssParseError,
    >)
        ensures
            ({
                let (p, a, b, ok) = standard_attributes(
                    old(self).view(),
                    InputView::Unspecified,
                    InputView::Unspecified,
                    attrs@.map_values(|a: (String, String)| (a.0@, a.1@)),
                );
                &&& final(self).view() == p
                &&& ok <==> r is Ok
                &&& r matches Ok((i1, i2)) ==> i1.view() == a && i2.view() == b
            }),
    {
        self.parse_standard_attributes(attrs)
    }
}

} // verus!
