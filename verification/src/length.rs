//! CSS length values.
//!
//! [`CssLength`] is the struct used to represent CSS lengths.
//!
//! `CssLength` values need to know whether they will be normalized with respect to the
//! width, height, or both dimensions of the current viewport.  `CssLength` values can be
//! signed or unsigned.  So, a `CssLength` has two type parameters: [`Horizontal`],
//! [`Vertical`] or [`Both`] for the orientation, and [`Signed`] or [`Unsigned`] for the
//! validation, which implements [`Validate`].
//!
//! For ease of use, two type aliases [`Length`] and [`ULength`] correspond to signed and
//! unsigned lengths.

use vstd::prelude::*;

use core::marker::PhantomData;

use crate::css::{
    css_next, f32_is_finite, f32_is_non_negative, next_token, parse_all, unexpected, CssErrorKind,
    CssNumber, CssParseError, CssToken, CssTokenView, Parse,
};
use crate::error::ValueErrorKind;
use crate::strings::{concat, str_eq};

verus! {

/// Units for length values.
#[derive(Debug, PartialEq, Eq, Copy, Clone, Structural)]
pub enum LengthUnit {
    /// `1.0` means 100%
    Percent,
    /// Pixels, or the CSS default unit
    Px,
    /// Size of the current font
    Em,
    /// x-height of the current font
    Ex,
    /// Inches (25.4 mm)
    In,
    /// Centimeters
    Cm,
    /// Millimeters
    Mm,
    /// Points (1/72 inch)
    Pt,
    /// Picas (12 points)
    Pc,
}

/// Allows declaring `CssLength<Horizontal>`.
#[derive(Debug, PartialEq, Eq, Copy, Clone)]
pub struct Horizontal;

/// Allows declaring `CssLength<Vertical>`.
#[derive(Debug, PartialEq, Eq, Copy, Clone)]
pub struct Vertical;

/// Allows declaring `CssLength<Both>`.
#[derive(Debug, PartialEq, Eq, Copy, Clone)]
pub struct Both;

/// Used for the `V` type parameter of `CssLength<N, V: Validate>`.
pub trait Validate {
    /// Whether the number with `f32` bits `bits` is an acceptable length.
    spec fn accepts(bits: u32) -> bool;

    /// Checks if the specified value is acceptable.
    ///
    /// This is used when parsing a length value
    fn validate(v: CssNumber) -> (r: Result<CssNumber, ValueErrorKind>)
        ensures
            r is Ok <==> Self::accepts(v.0),
            r matches Ok(w) ==> w == v,
    ;
}

#[derive(Debug, PartialEq, Eq, Copy, Clone)]
pub struct Signed;

impl Validate for Signed {
    open spec fn accepts(bits: u32) -> bool {
        true
    }

    fn validate(v: CssNumber) -> (r: Result<CssNumber, ValueErrorKind>) {
        Ok(v)
    }
}

#[derive(Debug, PartialEq, Eq, Copy, Clone)]
pub struct Unsigned;

impl Validate for Unsigned {
    open spec fn accepts(bits: u32) -> bool {
        f32_is_non_negative(bits)
    }

    fn validate(v: CssNumber) -> (r: Result<CssNumber, ValueErrorKind>) {
        if (v.0 >> 23u32) & 0xffu32 != 0xffu32 && ((v.0 >> 31u32) == 0u32 || v.0
            == 0x8000_0000u32) {
            Ok(v)
        } else {
            Err(ValueErrorKind::Value("value must be non-negative".to_owned()))
        }
    }
}

/// A CSS length value.
///
/// This is equivalent to [CSS lengths].
///
/// [CSS lengths]: https://www.w3.org/TR/CSS22/syndata.html#length-units
///
/// The numeric part is the number that was read, as the bits of an `f32`.  During
/// rendering a `CssLength` is normalized into the current coordinate system's units.
#[derive(Debug, PartialEq, Eq)]
#[verifier::reject_recursive_types(N)]
#[verifier::reject_recursive_types(V)]
pub struct CssLength<N, V> {
    /// Numeric part of the length
    pub length: CssNumber,
    /// Unit part of the length
    pub unit: LengthUnit,
    /// Dummy; used internally for the type parameter `N`
    pub orientation: PhantomData<N>,
    /// Dummy; used internally for the type parameter `V`
    pub validation: PhantomData<V>,
}

/// Alias for `CssLength` types that can have negative values
pub type Length<N> = CssLength<N, Signed>;

/// Alias for `CssLength` types that are non negative
pub type ULength<N> = CssLength<N, Unsigned>;

/// A percentage length: `bits` are those of the fraction, as an `f32` (1 for 100%).
pub open spec fn percent<N, V>(bits: u32) -> CssLength<N, V> {
    CssLength {
        length: CssNumber(bits),
        unit: LengthUnit::Percent,
        orientation: PhantomData,
        validation: PhantomData,
    }
}

impl<N, V> CssLength<N, V> {
    /// Creates a CssLength.
    pub fn new(l: CssNumber, unit: LengthUnit) -> (r: CssLength<N, V>)
        ensures
            r.length == l,
            r.unit == unit,
    {
        CssLength { length: l, unit, orientation: PhantomData, validation: PhantomData }
    }
}

/// The unit that a dimension's unit text names; units are matched exactly.
pub open spec fn unit_of(unit: Seq<char>) -> Option<LengthUnit> {
    if unit == "px"@ {
        Some(LengthUnit::Px)
    } else if unit == "em"@ {
        Some(LengthUnit::Em)
    } else if unit == "ex"@ {
        Some(LengthUnit::Ex)
    } else if unit == "in"@ {
        Some(LengthUnit::In)
    } else if unit == "cm"@ {
        Some(LengthUnit::Cm)
    } else if unit == "mm"@ {
        Some(LengthUnit::Mm)
    } else if unit == "pt"@ {
        Some(LengthUnit::Pt)
    } else if unit == "pc"@ {
        Some(LengthUnit::Pc)
    } else {
        None
    }
}

fn unit_from_str(unit: &str) -> (r: Option<LengthUnit>)
    ensures
        r == unit_of(unit@),
{
    if str_eq(unit, "px") {
        Some(LengthUnit::Px)
    } else if str_eq(unit, "em") {
        Some(LengthUnit::Em)
    } else if str_eq(unit, "ex") {
        Some(LengthUnit::Ex)
    } else if str_eq(unit, "in") {
        Some(LengthUnit::In)
    } else if str_eq(unit, "cm") {
        Some(LengthUnit::Cm)
    } else if str_eq(unit, "mm") {
        Some(LengthUnit::Mm)
    } else if str_eq(unit, "pt") {
        Some(LengthUnit::Pt)
    } else if str_eq(unit, "pc") {
        Some(LengthUnit::Pc)
    } else {
        None
    }
}

/// The number and unit of a length token: a number is in pixels, a percentage in
/// `Percent` (with `1.0` for 100%), a dimension in the unit it names.
pub open spec fn length_token(t: Option<CssTokenView>) -> Result<(u32, LengthUnit), CssErrorKind> {
    match t {
        Some(CssTokenView::Number { value, .. }) => Ok((value, LengthUnit::Px)),
        Some(CssTokenView::Percentage { unit_value }) => Ok((unit_value, LengthUnit::Percent)),
        Some(CssTokenView::Dimension { value, unit }) => match unit_of(unit) {
            Some(u) => Ok((value, u)),
            None => Err(CssErrorKind::UnexpectedToken),
        },
        t => Err(unexpected(t)),
    }
}

impl<N, V: Validate> Parse for CssLength<N, V> {
    open spec fn parse_spec(input: Seq<char>) -> Result<(CssLength<N, V>, Seq<char>), CssErrorKind> {
        match length_token(css_next(input).0) {
            Ok((bits, unit)) => if !f32_is_finite(bits) || !V::accepts(bits) {
                Err(CssErrorKind::Custom)
            } else {
                Ok(
                    (
                        CssLength {
                            length: CssNumber(bits),
                            unit,
                            orientation: PhantomData,
                            validation: PhantomData,
                        },
                        css_next(input).1,
                    ),
                )
            },
            Err(k) => Err(k),
        }
    }

    fn parse(input: &str) -> (r: Result<(CssLength<N, V>, &str), CssParseError>) {
        let (t, rest) = next_token(input);
        let (bits, unit) = match t {
            Some(CssToken::Number { value, .. }) => (value, LengthUnit::Px),
            Some(CssToken::Percentage { unit_value }) => (unit_value, LengthUnit::Percent),
            Some(CssToken::Dimension { value, ref unit }) => match unit_from_str(unit.as_str()) {
                Some(u) => (value, u),
                None => return Err(CssParseError::UnexpectedToken),
            },
            Some(_) => return Err(CssParseError::UnexpectedToken),
            None => return Err(CssParseError::EndOfInput),
        };
        if (bits >> 23u32) & 0xffu32 == 0xffu32 {
            return Err(CssParseError::Custom(ValueErrorKind::Value("expected finite number".to_owned())));
        }
        match V::validate(CssNumber(bits)) {
            Ok(l) => Ok((CssLength::new(l, unit), rest)),
            Err(e) => Err(CssParseError::Custom(e)),
        }
    }
}

/// Whether a length in `u` does not depend on the font or on a reference length.
pub open spec fn is_absolute_unit_spec(u: LengthUnit) -> bool {
    !(u == LengthUnit::Percent || u == LengthUnit::Em || u == LengthUnit::Ex)
}

/// Whether `u` is an absolute unit: px, in, cm, mm, pt or pc.
pub fn is_absolute_unit(u: LengthUnit) -> (r: bool)
    ensures
        r == is_absolute_unit_spec(u),
{
    match u {
        LengthUnit::Percent | LengthUnit::Em | LengthUnit::Ex => false,
        _ => true,
    }
}

/// The message for a command-line argument `s` that is not a length.
pub open spec fn not_a_length_message(s: Seq<char>) -> Seq<char> {
    "Invalid value: The argument '"@ + s + "' can not be parsed as a length"@
}

/// The message for a command-line argument `s` that is a length in a unit that is not
/// absolute.
pub open spec fn not_absolute_message(s: Seq<char>) -> Seq<char> {
    "Invalid value '"@ + s + "': supported units are px, in, cm, mm, pt, pc"@
}

/// Reads a command-line argument as a length in an absolute unit; the error is the
/// description of what is wrong with it.
pub fn parse_length<N, V: Validate>(s: &str) -> (r: Result<CssLength<N, V>, String>)
    ensures
        match parse_all::<CssLength<N, V>>(s@) {
            Ok(l) => if is_absolute_unit_spec(l.unit) {
                r == Ok::<CssLength<N, V>, String>(l)
            } else {
                r matches Err(m) && m@ == not_absolute_message(s@)
            },
            Err(_) => (r matches Err(m) && m@ == not_a_length_message(s@)),
        },
{
    proof {
        reveal_strlit("Invalid value: The argument '");
        reveal_strlit("' can not be parsed as a length");
        reveal_strlit("Invalid value '");
        reveal_strlit("': supported units are px, in, cm, mm, pt, pc");
    }
    match <CssLength<N, V> as Parse>::parse_str(s) {
        Ok(l) => {
            if is_absolute_unit(l.unit) {
                Ok(l)
            } else {
                let mut m = concat("Invalid value '", s);
                m.append("': supported units are px, in, cm, mm, pt, pc");
                Err(m)
            }
        },
        Err(_) => {
            let mut m = concat("Invalid value: The argument '", s);
            m.append("' can not be parsed as a length");
            Err(m)
        },
    }
}

} // verus!
