//! The `feBlend` filter primitive: its blend mode and inputs.

use vstd::prelude::*;

use crate::css::{
    css_next, keyword_spec, lemma_keyword_index_bound, lemma_keyword_index_matches, parse_keyword,
    CssErrorKind, CssParseError, CssTokenView, Parse,
};
use crate::strings::eq_ignore_ascii_case;
use crate::filters::{standard_attributes, Input, InputView, Primitive};
use crate::strings::str_eq;

verus! {

/// Enumeration of the possible blending modes.
#[derive(Debug, Clone, Copy, PartialEq, Eq, Hash, Structural)]
pub enum Mode {
    Normal,
    Multiply,
    Screen,
    Darken,
    Lighten,
    Overlay,
    ColorDodge,
    ColorBurn,
    HardLight,
    SoftLight,
    Difference,
    Exclusion,
    HslHue,
    HslSaturation,
    HslColor,
    HslLuminosity,
}

/// The keywords of the blend modes, in the order of [`Mode`]'s variants.
pub open spec fn mode_keywords() -> Seq<Seq<char>> {
    seq![
        "normal"@,
        "multiply"@,
        "screen"@,
        "darken"@,
        "lighten"@,
        "overlay"@,
        "color-dodge"@,
        "color-burn"@,
        "hard-light"@,
        "soft-light"@,
        "difference"@,
        "exclusion"@,
        "hue"@,
        "saturation"@,
        "color"@,
        "luminosity"@
    ]
}

/// The blend mode at position `i` of [`mode_keywords`].
pub open spec fn mode_at(i: nat) -> Mode {
    if i == 0 {
        Mode::Normal
    } else if i == 1 {
        Mode::Multiply
    } else if i == 2 {
        Mode::Screen
    } else if i == 3 {
        Mode::Darken
    } else if i == 4 {
        Mode::Lighten
    } else if i == 5 {
        Mode::Overlay
    } else if i == 6 {
        Mode::ColorDodge
    } else if i == 7 {
        Mode::ColorBurn
    } else if i == 8 {
        Mode::HardLight
    } else if i == 9 {
        Mode::SoftLight
    } else if i == 10 {
        Mode::Difference
    } else if i == 11 {
        Mode::Exclusion
    } else if i == 12 {
        Mode::HslHue
    } else if i == 13 {
        Mode::HslSaturation
    } else if i == 14 {
        Mode::HslColor
    } else {
        Mode::HslLuminosity
    }
}

/// The CSS keyword of each blend mode (Compositing and Blending Level 1).
pub open spec fn mode_name(m: Mode) -> Seq<char> {
    match m {
        Mode::Normal => "normal"@,
        Mode::Multiply => "multiply"@,
        Mode::Screen => "screen"@,
        Mode::Darken => "darken"@,
        Mode::Lighten => "lighten"@,
        Mode::Overlay => "overlay"@,
        Mode::ColorDodge => "color-dodge"@,
        Mode::ColorBurn => "color-burn"@,
        Mode::HardLight => "hard-light"@,
        Mode::SoftLight => "soft-light"@,
        Mode::Difference => "difference"@,
        Mode::Exclusion => "exclusion"@,
        Mode::HslHue => "hue"@,
        Mode::HslSaturation => "saturation"@,
        Mode::HslColor => "color"@,
        Mode::HslLuminosity => "luminosity"@,
    }
}

/// A blend mode is read from an identifier that is that mode's own keyword, ignoring ASCII
/// case: whatever mode parsing gives, the identifier read names it.
pub proof fn lemma_mode_is_named_by_its_keyword(input: Seq<char>)
    ensures
        <Mode as Parse>::parse_spec(input) matches Ok((m, rest)) ==> (css_next(input).0 matches Some(
            CssTokenView::Ident(id),
        ) && eq_ignore_ascii_case(id, mode_name(m)) && rest == css_next(input).1),
{
    if let Some(CssTokenView::Ident(id)) = css_next(input).0 {
        lemma_keyword_index_matches(id, mode_keywords());
        lemma_keyword_index_bound(id, mode_keywords());
        if let Some(i) = crate::css::keyword_index(id, mode_keywords()) {
            assert(mode_name(mode_at(i)) == mode_keywords()[i as int]);
        }
    }
}

impl Default for Mode {
    fn default() -> (m: Mode)
        ensures
            m == Mode::Normal,
    {
        Mode::Normal
    }
}

impl Parse for Mode {
    open spec fn parse_spec(input: Seq<char>) -> Result<(Mode, Seq<char>), CssErrorKind> {
        match keyword_spec(input, mode_keywords()) {
            Ok((i, rest)) => Ok((mode_at(i), rest)),
            Err(k) => Err(k),
        }
    }

    /// Parses a blend mode keyword, ignoring ASCII case.
    fn parse(input: &str) -> (r: Result<(Mode, &str), CssParseError>) {
        let keywords = [
            "normal",
            "multiply",
            "screen",
            "darken",
            "lighten",
            "overlay",
            "color-dodge",
            "color-burn",
            "hard-light",
            "soft-light",
            "difference",
            "exclusion",
            "hue",
            "saturation",
            "color",
            "luminosity",
        ];
        proof {
            reveal_strlit("normal");
            reveal_strlit("multiply");
            reveal_strlit("screen");
            reveal_strlit("darken");
            reveal_strlit("lighten");
            reveal_strlit("overlay");
            reveal_strlit("color-dodge");
            reveal_strlit("color-burn");
            reveal_strlit("hard-light");
            reveal_strlit("soft-light");
            reveal_strlit("difference");
            reveal_strlit("exclusion");
            reveal_strlit("hue");
            reveal_strlit("saturation");
            reveal_strlit("color");
            reveal_strlit("luminosity");
        }
        assert(keywords@.map_values(|k: &str| k@) =~= mode_keywords());
        let (i, rest) = match parse_keyword(input, &keywords) {
            Ok(p) => p,
            Err(e) => return Err(e),
        };
        let m = if i == 0 {
            Mode::Normal
        } else if i == 1 {
            Mode::Multiply
        } else if i == 2 {
            Mode::Screen
        } else if i == 3 {
            Mode::Darken
        } else if i == 4 {
            Mode::Lighten
        } else if i == 5 {
            Mode::Overlay
        } else if i == 6 {
            Mode::ColorDodge
        } else if i == 7 {
            Mode::ColorBurn
        } else if i == 8 {
            Mode::HardLight
        } else if i == 9 {
            Mode::SoftLight
        } else if i == 10 {
            Mode::Difference
        } else if i == 11 {
            Mode::Exclusion
        } else if i == 12 {
            Mode::HslHue
        } else if i == 13 {
            Mode::HslSaturation
        } else if i == 14 {
            Mode::HslColor
        } else {
            Mode::HslLuminosity
        };
        Ok((m, rest))
    }
}

/// Parameters of the `feBlend` primitive, for rendering.
#[derive(Debug, PartialEq, Eq)]
pub struct Blend {
    pub in1: Input,
    pub in2: Input,
    pub mode: Mode,
}

/// The `feBlend` filter primitive.
#[derive(Debug, PartialEq, Eq)]
pub struct FeBlend {
    pub base: Primitive,
    pub params: Blend,
}

/// The blend mode after the `mode` attributes among `attrs`, in order, up to the first
/// invalid one: the mode, and whether every one was valid.
pub open spec fn mode_attributes(m: Mode, attrs: Seq<(Seq<char>, Seq<char>)>) -> (Mode, bool)
    decreases attrs.len(),
{
    if attrs.len() == 0 {
        (m, true)
    } else if attrs[0].0 == "mode"@ {
        match <Mode as Parse>::parse_spec(attrs[0].1) {
            Ok((n, _)) => mode_attributes(n, attrs.drop_first()),
            Err(_) => (m, false),
        }
    } else {
        mode_attributes(m, attrs.drop_first())
    }
}

impl FeBlend {
    /// A blend of unspecified inputs in the normal mode.
    pub fn new() -> (f: FeBlend)
        ensures
            f.params.in1 == Input::Unspecified && f.params.in2 == Input::Unspecified,
            f.params.mode == Mode::Normal,
            f.base.x is None && f.base.y is None && f.base.width is None && f.base.height is None
                && f.base.result is None,
    {
        FeBlend {
            base: Primitive::new(),
            params: Blend { in1: Input::Unspecified, in2: Input::Unspecified, mode: Mode::Normal },
        }
    }

    /// Reads the standard attributes with the two inputs, then the `mode`.
    pub fn set_attributes(&mut self, attrs: &Vec<(String, String)>) -> (r: Result<(), CssParseError>)
        ensures
            ({
                let av = attrs@.map_values(|a: (String, String)| (a.0@, a.1@));
                let (p, a, b, ok) = standard_attributes(
                    old(self).base.view(),
                    InputView::Unspecified,
                    InputView::Unspecified,
                    av,
                );
                let (m, mode_ok) = mode_attributes(old(self).params.mode, av);
                &&& final(self).base.view() == p
                &&& !ok ==> r is Err && final(self).params == old(self).params
                &&& ok ==> final(self).params.in1.view() == a && final(self).params.in2.view() == b
                    && final(self).params.mode == m && (r is Ok <==> mode_ok)
            }),
    {
        let ghost av = attrs@.map_values(|a: (String, String)| (a.0@, a.1@));
        let (in1, in2) = match self.base.parse_two_inputs(attrs) {
            Ok(p) => p,
            Err(e) => return Err(e),
        };
        self.params.in1 = in1;
        self.params.in2 = in2;
        let ghost m0 = self.params.mode;
        let ghost sa = standard_attributes(
            old(self).base.view(),
            InputView::Unspecified,
            InputView::Unspecified,
            av,
        );
        let mut i: usize = 0;
        assert(av.skip(0) =~= av);
        while i < attrs.len()
            invariant
                sa == standard_attributes(
                    old(self).base.view(),
                    InputView::Unspecified,
                    InputView::Unspecified,
                    av,
                ),
                sa.3 && sa.0 == self.base.view(),
                self.params.in1.view() == sa.1 && self.params.in2.view() == sa.2,
                m0 == old(self).params.mode,
                i <= attrs@.len(),
                av == attrs@.map_values(|a: (String, String)| (a.0@, a.1@)),
                mode_attributes(m0, av) == mode_attributes(self.params.mode, av.skip(i as int)),
            decreases attrs@.len() - i,
        {
            assert(av.skip(i as int)[0] == av[i as int]);
            assert(av.skip(i as int).drop_first() =~= av.skip(i + 1));
            if str_eq(attrs[i].0.as_str(), "mode") {
                match Mode::parse(attrs[i].1.as_str()) {
                    Ok((m, _)) => self.params.mode = m,
                    Err(e) => return Err(e),
                }
            }
            i = i + 1;
        }
        assert(av.skip(i as int).len() == 0);
        Ok(())
    }
}

} // verus!
