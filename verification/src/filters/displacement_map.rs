//! The `feDisplacementMap` filter primitive: its scale and channel selectors.

use vstd::prelude::*;

use crate::css::{
    css_next, keyword_spec, lemma_keyword_spec_matches, number_spec, parse_keyword, CssErrorKind,
    CssNumber, CssParseError, CssTokenView, Parse,
};
use crate::strings::eq_ignore_ascii_case;
use crate::css::value_of;
use crate::filters::lighting::number_value;
use crate::filters::{standard_attributes, Input, InputView, Primitive};
use crate::strings::str_eq;

verus! {

/// Enumeration of the color channels the displacement map can source.
#[derive(Debug, Clone, Copy, PartialEq, Eq, Structural)]
pub enum ColorChannel {
    R,
    G,
    B,
    A,
}

/// The keywords of the channels, in the order of [`ColorChannel`]'s variants.
pub open spec fn channel_keywords() -> Seq<Seq<char>> {
    seq!["R"@, "G"@, "B"@, "A"@]
}

/// The channel at position `i` of [`channel_keywords`].
pub open spec fn channel_at(i: nat) -> ColorChannel {
    if i == 0 {
        ColorChannel::R
    } else if i == 1 {
        ColorChannel::G
    } else if i == 2 {
        ColorChannel::B
    } else {
        ColorChannel::A
    }
}

/// The keyword that names each color channel.
pub open spec fn channel_name(c: ColorChannel) -> Seq<char> {
    match c {
        ColorChannel::R => "R"@,
        ColorChannel::G => "G"@,
        ColorChannel::B => "B"@,
        ColorChannel::A => "A"@,
    }
}

/// A color channel is read from an identifier that is that channel's own letter, ignoring
/// ASCII case: whatever channel parsing gives, the identifier read names it.
pub proof fn lemma_channel_is_named_by_its_keyword(input: Seq<char>)
    ensures
        <ColorChannel as Parse>::parse_spec(input) matches Ok((c, rest)) ==> (css_next(input).0 matches Some(
            CssTokenView::Ident(id),
        ) && eq_ignore_ascii_case(id, channel_name(c)) && rest == css_next(input).1),
{
    lemma_keyword_spec_matches(input, channel_keywords());
    if let Ok((i, _)) = keyword_spec(input, channel_keywords()) {
        assert(channel_name(channel_at(i)) == channel_keywords()[i as int]);
    }
}

impl Parse for ColorChannel {
    open spec fn parse_spec(input: Seq<char>) -> Result<(ColorChannel, Seq<char>), CssErrorKind> {
        match keyword_spec(input, channel_keywords()) {
            Ok((i, rest)) => Ok((channel_at(i), rest)),
            Err(k) => Err(k),
        }
    }

    /// Parses `R`, `G`, `B` or `A`, ignoring ASCII case.
    fn parse(input: &str) -> (r: Result<(ColorChannel, &str), CssParseError>) {
        let keywords = ["R", "G", "B", "A"];
        proof {
            reveal_strlit("R");
            reveal_strlit("G");
            reveal_strlit("B");
            reveal_strlit("A");
        }
        assert(keywords@.map_values(|k: &str| k@) =~= channel_keywords());
        match parse_keyword(input, &keywords) {
            Ok((i, rest)) => {
                let c = if i == 0 {
                    ColorChannel::R
                } else if i == 1 {
                    ColorChannel::G
                } else if i == 2 {
                    ColorChannel::B
                } else {
                    ColorChannel::A
                };
                Ok((c, rest))
            },
            Err(e) => Err(e),
        }
    }
}

/// The `feDisplacementMap` filter primitive.
#[derive(Debug, PartialEq, Eq)]
pub struct FeDisplacementMap {
    pub base: Primitive,
    pub in1: Input,
    pub in2: Input,
    pub scale: CssNumber,
    pub x_channel_selector: ColorChannel,
    pub y_channel_selector: ColorChannel,
}

/// The scale and the channel selectors after the attributes `attrs`, in order, up to
/// the first invalid one, and whether every one was valid.
pub open spec fn displacement_attributes(
    scale: CssNumber,
    x: ColorChannel,
    y: ColorChannel,
    attrs: Seq<(Seq<char>, Seq<char>)>,
) -> (CssNumber, ColorChannel, ColorChannel, bool)
    decreases attrs.len(),
{
    if attrs.len() == 0 {
        (scale, x, y, true)
    } else if attrs[0].0 == "scale"@ {
        match number_spec(attrs[0].1) {
            Ok((n, _)) => displacement_attributes(n, x, y, attrs.drop_first()),
            Err(_) => (scale, x, y, false),
        }
    } else if attrs[0].0 == "xChannelSelector"@ {
        match <ColorChannel as Parse>::parse_spec(attrs[0].1) {
            Ok((c, _)) => displacement_attributes(scale, c, y, attrs.drop_first()),
            Err(_) => (scale, x, y, false),
        }
    } else if attrs[0].0 == "yChannelSelector"@ {
        match <ColorChannel as Parse>::parse_spec(attrs[0].1) {
            Ok((c, _)) => displacement_attributes(scale, x, c, attrs.drop_first()),
            Err(_) => (scale, x, y, false),
        }
    } else {
        displacement_attributes(scale, x, y, attrs.drop_first())
    }
}

/// Reading one attribute of `feDisplacementMap`: `scale` sets the scale to the number that
/// the value starts with, `xChannelSelector` the channel for horizontal displacement and
/// `yChannelSelector` the one for vertical displacement to the channel read, each leaving
/// the others as they were; any other attribute changes nothing, and only one of these
/// with a value that does not give what it is read from is refused, changing nothing.
pub proof fn lemma_displacement_attribute_sets_its_parameter(
    scale: CssNumber,
    x: ColorChannel,
    y: ColorChannel,
    name: Seq<char>,
    value: Seq<char>,
)
    ensures
        ({
            let (s, a, b, ok) = displacement_attributes(scale, x, y, seq![(name, value)]);
            &&& ok == !(name == "scale"@ && number_value(value) is None || (name == "xChannelSelector"@
                || name == "yChannelSelector"@) && value_of::<ColorChannel>(value) is None)
            &&& ok ==> Some(s) == (if name == "scale"@ { number_value(value) } else { Some(scale) })
            &&& ok ==> Some(a) == (if name == "xChannelSelector"@ { value_of::<ColorChannel>(value) } else { Some(x) })
            &&& ok ==> Some(b) == (if name == "yChannelSelector"@ { value_of::<ColorChannel>(value) } else { Some(y) })
            &&& !ok ==> s == scale && a == x && b == y
        }),
{
    reveal_strlit("scale");
    reveal_strlit("xChannelSelector");
    reveal_strlit("yChannelSelector");
    assert("scale"@.len() == 5);
    assert("xChannelSelector"@.len() == 16 && "xChannelSelector"@[0] == 'x');
    assert("yChannelSelector"@.len() == 16 && "yChannelSelector"@[0] == 'y');
    let attrs = seq![(name, value)];
    assert(attrs.drop_first().len() == 0);
    assert(attrs[0] == (name, value));
    reveal_with_fuel(displacement_attributes, 2);
}

impl FeDisplacementMap {
    /// A displacement of scale 0 of unspecified inputs, by the alpha channel in both
    /// directions.
    pub fn default() -> (f: FeDisplacementMap)
        ensures
            f.in1 == Input::Unspecified && f.in2 == Input::Unspecified,
            f.scale == CssNumber(0),
            f.x_channel_selector == ColorChannel::A && f.y_channel_selector == ColorChannel::A,
            f.base.x is None && f.base.y is None && f.base.width is None && f.base.height is None
                && f.base.result is None,
    {
        FeDisplacementMap {
            base: Primitive::new(),
            in1: Input::Unspecified,
            in2: Input::Unspecified,
            scale: CssNumber(0),
            x_channel_selector: ColorChannel::A,
            y_channel_selector: ColorChannel::A,
        }
    }

    /// Reads the standard attributes with the two inputs, then the scale and the channel
    /// selectors.
    pub fn set_attributes(&mut self, attrs: &Vec<(String, String)>) -> (r: Result<(), CssParseError>)
        ensures
            ({
                let av = attrs@.map_values(|a: (String, String)| (a.0@, a.1@));
                let (p, a, b, ok) = standard_attributes(
                    old(self).base.view(),
                    InputView::Unspecified,
                    InputView::Unspecified,
                    av,
                );
                let (sc, x, y, rest_ok) = displacement_attributes(
                    old(self).scale,
                    old(self).x_channel_selector,
                    old(self).y_channel_selector,
                    av,
                );
                &&& final(self).base.view() == p
                &&& !ok ==> r is Err && final(self).in1 == old(self).in1 && final(self).in2 == old(
                    self,
                ).in2 && final(self).scale == old(self).scale && final(self).x_channel_selector
                    == old(self).x_channel_selector && final(self).y_channel_selector == old(
                    self,
                ).y_channel_selector
                &&& ok ==> final(self).in1.view() == a && final(self).in2.view() == b
                    && final(self).scale == sc && final(self).x_channel_selector == x
                    && final(self).y_channel_selector == y && (r is Ok <==> rest_ok)
            }),
    {
        let ghost av = attrs@.map_values(|a: (String, String)| (a.0@, a.1@));
        let (in1, in2) = match self.base.parse_two_inputs(attrs) {
            Ok(p) => p,
            Err(e) => return Err(e),
        };
        self.in1 = in1;
        self.in2 = in2;
        let ghost sa = standard_attributes(
            old(self).base.view(),
            InputView::Unspecified,
            InputView::Unspecified,
            av,
        );
        let mut i: usize = 0;
        assert(av.skip(0) =~= av);
        while i < attrs.len()
            invariant
                sa == standard_attributes(
                    old(self).base.view(),
                    InputView::Unspecified,
                    InputView::Unspecified,
                    av,
                ),
                sa.3 && sa.0 == self.base.view() && self.in1.view() == sa.1 && self.in2.view() == sa.2,
                i <= attrs@.len(),
                av == attrs@.map_values(|a: (String, String)| (a.0@, a.1@)),
                displacement_attributes(
                    old(self).scale,
                    old(self).x_channel_selector,
                    old(self).y_channel_selector,
                    av,
                ) == displacement_attributes(
                    self.scale,
                    self.x_channel_selector,
                    self.y_channel_selector,
                    av.skip(i as int),
                ),
            decreases attrs@.len() - i,
        {
            assert(av.skip(i as int)[0] == av[i as int]);
            assert(av.skip(i as int).drop_first() =~= av.skip(i + 1));
            let name = attrs[i].0.as_str();
            let value = attrs[i].1.as_str();
            if str_eq(name, "scale") {
                match CssNumber::parse(value) {
                    Ok((n, _)) => self.scale = n,
                    Err(e) => return Err(e),
                }
            } else if str_eq(name, "xChannelSelector") {
                match ColorChannel::parse(value) {
                    Ok((c, _)) => self.x_channel_selector = c,
                    Err(e) => return Err(e),
                }
            } else if str_eq(name, "yChannelSelector") {
                match ColorChannel::parse(value) {
                    Ok((c, _)) => self.y_channel_selector = c,
                    Err(e) => return Err(e),
                }
            }
            i = i + 1;
        }
        assert(av.skip(i as int).len() == 0);
        Ok(())
    }
}

/// Parameters of the `feDisplacementMap` primitive, for rendering.
#[derive(Debug, PartialEq, Eq)]
pub struct DisplacementMap {
    pub in1: Input,
    pub in2: Input,
    pub scale: CssNumber,
    pub x_channel_selector: ColorChannel,
    pub y_channel_selector: ColorChannel,
}

impl FeDisplacementMap {
    /// The parameters for rendering: those of the element.
    pub fn resolve(&self) -> (d: DisplacementMap)
        ensures
            d.in1.view() == self.in1.view() && d.in2.view() == self.in2.view(),
            d.scale == self.scale,
            d.x_channel_selector == self.x_channel_selector,
            d.y_channel_selector == self.y_channel_selector,
    {
        DisplacementMap {
            in1: self.in1.duplicate(),
            in2: self.in2.duplicate(),
            scale: self.scale,
            x_channel_selector: self.x_channel_selector,
            y_channel_selector: self.y_channel_selector,
        }
    }
}

} // verus!
