//! CSS filter functions, such as `blur(5px)` or `sepia(80%)`.
//!
//! <https://www.w3.org/TR/filter-effects/#filter-functions>
//!
//! Proportions are kept as the bits of the `f32` that the tokenizer produced; each one
//! is also exactly an `f64`.

use vstd::prelude::*;

use crate::css::{
    css_next, f32_is_finite, f32_is_non_negative, find_keyword, keyword_index,
    lemma_keyword_index_bound, lemma_keyword_index_matches, lemma_suffix_trans,
    next_token, is_suffix, CssErrorKind, CssNumber, CssParseError, CssToken, CssTokenView, Parse,
    ONE_BITS,
};
use crate::error::ValueErrorKind;
use crate::length::{Both, Length};
use crate::strings::eq_ignore_ascii_case;

verus! {

/// Parameters for the `blur()` filter function
///
/// <https://www.w3.org/TR/filter-effects/#funcdef-filter-blur>
#[derive(Debug, PartialEq, Eq)]
pub struct Blur {
    pub std_deviation: Option<Length<Both>>,
}

/// Parameters for the `brightness()` filter function
///
/// <https://www.w3.org/TR/filter-effects/#funcdef-filter-brightness>
#[derive(Debug, Clone, Copy, PartialEq, Eq, Structural)]
pub struct Brightness {
    pub proportion: Option<CssNumber>,
}

/// Parameters for the `contrast()` filter function
///
/// <https://www.w3.org/TR/filter-effects/#funcdef-filter-contrast>
#[derive(Debug, Clone, Copy, PartialEq, Eq, Structural)]
pub struct Contrast {
    pub proportion: Option<CssNumber>,
}

/// Parameters for the `grayscale()` filter function
///
/// <https://www.w3.org/TR/filter-effects/#funcdef-filter-grayscale>
#[derive(Debug, Clone, Copy, PartialEq, Eq, Structural)]
pub struct Grayscale {
    pub proportion: Option<CssNumber>,
}

/// Parameters for the `invert()` filter function
///
/// <https://www.w3.org/TR/filter-effects/#funcdef-filter-invert>
#[derive(Debug, Clone, Copy, PartialEq, Eq, Structural)]
pub struct Invert {
    pub proportion: Option<CssNumber>,
}

/// Parameters for the `opacity()` filter function
///
/// <https://www.w3.org/TR/filter-effects/#funcdef-filter-opacity>
#[derive(Debug, Clone, Copy, PartialEq, Eq, Structural)]
pub struct Opacity {
    pub proportion: Option<CssNumber>,
}

/// Parameters for the `saturate()` filter function
///
/// <https://www.w3.org/TR/filter-effects/#funcdef-filter-saturate>
#[derive(Debug, Clone, Copy, PartialEq, Eq, Structural)]
pub struct Saturate {
    pub proportion: Option<CssNumber>,
}

/// Parameters for the `sepia()` filter function
///
/// <https://www.w3.org/TR/filter-effects/#funcdef-filter-sepia>
#[derive(Debug, Clone, Copy, PartialEq, Eq, Structural)]
pub struct Sepia {
    pub proportion: Option<CssNumber>,
}

/// CSS Filter functions from the Filter Effects Module Level 1
///
/// <https://www.w3.org/TR/filter-effects/#filter-functions>
#[derive(Debug, PartialEq, Eq)]
pub enum FilterFunction {
    Blur(Blur),
    Brightness(Brightness),
    Contrast(Contrast),
    Grayscale(Grayscale),
    Invert(Invert),
    Opacity(Opacity),
    Saturate(Saturate),
    Sepia(Sepia),
}

/// The names of the filter functions, in the order of [`FilterFunction`]'s variants.
pub open spec fn filter_function_names() -> Seq<Seq<char>> {
    seq![
        "blur"@,
        "brightness"@,
        "contrast"@,
        "grayscale"@,
        "invert"@,
        "opacity"@,
        "saturate"@,
        "sepia"@
    ]
}

/// A number or a percentage at the start of `input`: its value (`1.0` for `100%`) as
/// the bits of an `f32`, if it is finite, and the input left after it.
pub open spec fn number_or_percentage_spec(input: Seq<char>) -> Option<(u32, Seq<char>)> {
    match css_next(input).0 {
        Some(CssTokenView::Number { value, .. }) => if f32_is_finite(value) {
            Some((value, css_next(input).1))
        } else {
            None
        },
        Some(CssTokenView::Percentage { unit_value }) => if f32_is_finite(unit_value) {
            Some((unit_value, css_next(input).1))
        } else {
            None
        },
        _ => None,
    }
}

/// An optional proportion: a number or percentage that is read even when it is negative,
/// but only kept when it is not.  Where there is none, nothing is read.
pub open spec fn proportion_spec(input: Seq<char>) -> (Option<u32>, Seq<char>) {
    match number_or_percentage_spec(input) {
        Some((v, rest)) => (
            if f32_is_non_negative(v) {
                Some(v)
            } else {
                None
            },
            rest,
        ),
        None => (None, input),
    }
}

/// A non-negative `f32` clamped to at most 1.
pub open spec fn clamp_to_one(bits: u32) -> u32 {
    if (bits >> 31u32) == 0u32 && bits > ONE_BITS {
        ONE_BITS
    } else {
        bits
    }
}

/// An optional proportion clamped to `[0, 1]`.
pub open spec fn clamped_proportion_spec(input: Seq<char>) -> (Option<u32>, Seq<char>) {
    match proportion_spec(input) {
        (Some(v), rest) => (Some(clamp_to_one(v)), rest),
        (None, rest) => (None, rest),
    }
}

/// The end of a function's arguments: a `)`, or the end of the input; the input left
/// after it.
pub open spec fn block_end_spec(input: Seq<char>) -> Option<Seq<char>> {
    match css_next(input).0 {
        Some(CssTokenView::CloseParenthesis) => Some(css_next(input).1),
        None => Some(css_next(input).1),
        _ => None,
    }
}

/// Whether the function at position `i` of [`filter_function_names`] clamps its
/// proportion to `[0, 1]`.
pub open spec fn clamps_proportion(i: nat) -> bool {
    i == 3 || i == 4 || i == 5 || i == 7
}

/// The function at position `i` of [`filter_function_names`], other than `blur`, with the
/// proportion `p`.
pub open spec fn proportion_function(i: nat, p: Option<CssNumber>) -> FilterFunction {
    if i == 1 {
        FilterFunction::Brightness(Brightness { proportion: p })
    } else if i == 2 {
        FilterFunction::Contrast(Contrast { proportion: p })
    } else if i == 3 {
        FilterFunction::Grayscale(Grayscale { proportion: p })
    } else if i == 4 {
        FilterFunction::Invert(Invert { proportion: p })
    } else if i == 5 {
        FilterFunction::Opacity(Opacity { proportion: p })
    } else if i == 6 {
        FilterFunction::Saturate(Saturate { proportion: p })
    } else {
        FilterFunction::Sepia(Sepia { proportion: p })
    }
}

/// The arguments of the function at position `i` of [`filter_function_names`], from the
/// start of `inner`, up to the end of the arguments: the function and the input left
/// after it, or `None` if anything else follows the optional argument.
pub open spec fn function_args_spec(i: nat, inner: Seq<char>) -> Option<(FilterFunction, Seq<char>)> {
    if i == 0 {
        let (l, rest) = match <Length<Both> as Parse>::parse_spec(inner) {
            Ok((l, r)) => (Some(l), r),
            Err(_) => (None, inner),
        };
        match block_end_spec(rest) {
            Some(after) => Some((FilterFunction::Blur(Blur { std_deviation: l }), after)),
            None => None,
        }
    } else {
        let (p, rest) = if clamps_proportion(i) {
            clamped_proportion_spec(inner)
        } else {
            proportion_spec(inner)
        };
        let n = match p {
            Some(v) => Some(CssNumber(v)),
            None => None,
        };
        match block_end_spec(rest) {
            Some(after) => Some((proportion_function(i, n), after)),
            None => None,
        }
    }
}

/// A number or a percentage, if `input` starts with a finite one.
pub(crate) fn number_or_percentage(input: &str) -> (r: Option<(u32, &str)>)
    ensures
        match number_or_percentage_spec(input@) {
            Some((v, rest)) => (r matches Some((w, t)) && w == v && t@ == rest),
            None => r is None,
        },
        r matches Some((_, t)) ==> is_suffix(t@, input@),
{
    let (t, rest) = next_token(input);
    let v = match t {
        Some(CssToken::Number { value, .. }) => value,
        Some(CssToken::Percentage { unit_value }) => unit_value,
        _ => return None,
    };
    if crate::css::f32_bits_finite(v) {
        Some((v, rest))
    } else {
        None
    }
}

/// An optional proportion, clamped to `[0, 1]` if `clamped`.
fn proportion(input: &str, clamped: bool) -> (r: (Option<CssNumber>, &str))
    ensures
        ({
            let (p, rest) = if clamped {
                clamped_proportion_spec(input@)
            } else {
                proportion_spec(input@)
            };
            &&& r.1@ == rest
            &&& r.0 == match p {
                Some(v) => Some(CssNumber(v)),
                None => None,
            }
        }),
        is_suffix(r.1@, input@),
{
    match number_or_percentage(input) {
        Some((v, rest)) => {
            if !crate::css::f32_bits_non_negative(v) {
                (None, rest)
            } else if clamped && (v >> 31u32) == 0u32 && v > ONE_BITS {
                (Some(CssNumber(ONE_BITS)), rest)
            } else {
                (Some(CssNumber(v)), rest)
            }
        },
        None => {
            assert(input@.subrange(0, input@.len() as int) =~= input@);
            (None, input)
        },
    }
}

/// The end of a function's arguments.
fn block_end(input: &str) -> (r: Option<&str>)
    ensures
        match block_end_spec(input@) {
            Some(rest) => (r matches Some(t) && t@ == rest),
            None => r is None,
        },
        r matches Some(t) ==> is_suffix(t@, input@),
{
    let (t, rest) = next_token(input);
    match t {
        Some(CssToken::CloseParenthesis) => Some(rest),
        None => Some(rest),
        _ => None,
    }
}

/// Reads the arguments of the function at position `i` of [`filter_function_names`].
fn function_args(i: usize, inner: &str) -> (r: Option<(FilterFunction, &str)>)
    requires
        i < 8,
    ensures
        match function_args_spec(i as nat, inner@) {
            Some((f, rest)) => (r matches Some((g, t)) && g == f && t@ == rest),
            None => r is None,
        },
        r matches Some((_, t)) ==> is_suffix(t@, inner@),
{
    if i == 0 {
        let (l, rest) = match Length::<Both>::parse(inner) {
            Ok((l, r)) => (Some(l), r),
            Err(_) => {
                assert(inner@.subrange(0, inner@.len() as int) =~= inner@);
                (None, inner)
            },
        };
        match block_end(rest) {
            Some(after) => {
                proof {
                    lemma_suffix_trans(after@, rest@, inner@);
                }
                Some((FilterFunction::Blur(Blur { std_deviation: l }), after))
            },
            None => None,
        }
    } else {
        let clamped = i == 3 || i == 4 || i == 5 || i == 7;
        let (p, rest) = proportion(inner, clamped);
        match block_end(rest) {
            Some(after) => {
                proof {
                    lemma_suffix_trans(after@, rest@, inner@);
                }
                let f = if i == 1 {
                    FilterFunction::Brightness(Brightness { proportion: p })
                } else if i == 2 {
                    FilterFunction::Contrast(Contrast { proportion: p })
                } else if i == 3 {
                    FilterFunction::Grayscale(Grayscale { proportion: p })
                } else if i == 4 {
                    FilterFunction::Invert(Invert { proportion: p })
                } else if i == 5 {
                    FilterFunction::Opacity(Opacity { proportion: p })
                } else if i == 6 {
                    FilterFunction::Saturate(Saturate { proportion: p })
                } else {
                    FilterFunction::Sepia(Sepia { proportion: p })
                };
                Some((f, after))
            },
            None => None,
        }
    }
}

fn expected_filter_function() -> (e: CssParseError)
    ensures
        e.kind() == CssErrorKind::Custom,
        e matches CssParseError::Custom(ValueErrorKind::Parse(m)) && m@ == "expected filter function"@,
{
    CssParseError::Custom(ValueErrorKind::parse_error("expected filter function"))
}

impl Parse for FilterFunction {
    /// A function token with one of the names of [`filter_function_names`], ignoring ASCII
    /// case, and its arguments; anything else is an error.
    open spec fn parse_spec(input: Seq<char>) -> Result<(FilterFunction, Seq<char>), CssErrorKind> {
        match css_next(input).0 {
            Some(CssTokenView::Function(name)) => match keyword_index(name, filter_function_names()) {
                Some(i) => match function_args_spec(i, css_next(input).1) {
                    Some(r) => Ok(r),
                    None => Err(CssErrorKind::Custom),
                },
                None => Err(CssErrorKind::Custom),
            },
            _ => Err(CssErrorKind::Custom),
        }
    }

    fn parse(input: &str) -> (r: Result<(FilterFunction, &str), CssParseError>) {
        let names = [
            "blur",
            "brightness",
            "contrast",
            "grayscale",
            "invert",
            "opacity",
            "saturate",
            "sepia",
        ];
        proof {
            reveal_strlit("blur");
            reveal_strlit("brightness");
            reveal_strlit("contrast");
            reveal_strlit("grayscale");
            reveal_strlit("invert");
            reveal_strlit("opacity");
            reveal_strlit("saturate");
            reveal_strlit("sepia");
        }
        assert(names@.map_values(|k: &str| k@) =~= filter_function_names());
        let (t, inner) = next_token(input);
        let i = match t {
            Some(CssToken::Function(ref name)) => match find_keyword(name.as_str(), &names) {
                Some(i) => {
                    proof {
                        crate::css::lemma_keyword_index_bound(name@, filter_function_names());
                    }
                    i
                },
                None => return Err(expected_filter_function()),
            },
            _ => return Err(expected_filter_function()),
        };
        match function_args(i, inner) {
            Some((f, rest)) => {
                proof {
                    lemma_suffix_trans(rest@, inner@, input@);
                }
                Ok((f, rest))
            },
            None => Err(expected_filter_function()),
        }
    }
}

/// The proportion of `grayscale()`, `invert()`, `opacity()` and `sepia()`, when there is
/// one, is a number in `[0, 1]`: not negative, and not above 1.
pub proof fn lemma_clamped_proportion_in_unit_interval(input: Seq<char>)
    ensures
        clamped_proportion_spec(input).0 matches Some(v) ==> f32_is_non_negative(v) && !((v
            >> 31u32) == 0u32 && v > ONE_BITS),
{
    match proportion_spec(input).0 {
        Some(v) => {
            assert(f32_is_non_negative(v));
            assert(f32_is_non_negative(v) ==> f32_is_non_negative(clamp_to_one(v))) by (bit_vector);
            assert(!((clamp_to_one(v) >> 31u32) == 0u32 && clamp_to_one(v) > 0x3f80_0000u32)) by (bit_vector);
        },
        None => {},
    }
}

/// The name of each filter function.
pub open spec fn function_name(f: FilterFunction) -> Seq<char> {
    match f {
        FilterFunction::Blur(_) => "blur"@,
        FilterFunction::Brightness(_) => "brightness"@,
        FilterFunction::Contrast(_) => "contrast"@,
        FilterFunction::Grayscale(_) => "grayscale"@,
        FilterFunction::Invert(_) => "invert"@,
        FilterFunction::Opacity(_) => "opacity"@,
        FilterFunction::Saturate(_) => "saturate"@,
        FilterFunction::Sepia(_) => "sepia"@,
    }
}

/// The argument of a filter function at the start of `args`: a number or percentage
/// that is not negative, if there is one.
pub open spec fn non_negative_argument(args: Seq<char>) -> Option<u32> {
    match number_or_percentage_spec(args) {
        Some((v, _)) => if f32_is_non_negative(v) {
            Some(v)
        } else {
            None
        },
        None => None,
    }
}

/// A filter function is read from a function token that is named after it, ignoring
/// ASCII case.  `brightness()`, `contrast()` and `saturate()` keep their argument as it
/// is read, however large; `grayscale()`, `invert()`, `opacity()` and `sepia()` keep it
/// up to 1 and take 1 for anything larger; `blur()` keeps the length it reads.  A
/// negative or missing argument gives no proportion.
pub proof fn lemma_filter_function_arguments(input: Seq<char>)
    ensures
        <FilterFunction as Parse>::parse_spec(input) matches Ok((f, _)) ==> {
            let args = css_next(input).1;
            let a = non_negative_argument(args);
            &&& css_next(input).0 matches Some(CssTokenView::Function(name)) && eq_ignore_ascii_case(
                name,
                function_name(f),
            )
            &&& match f {
                FilterFunction::Blur(b) => b.std_deviation == match <Length<Both> as Parse>::parse_spec(args) {
                    Ok((l, _)) => Some(l),
                    Err(_) => None,
                },
                FilterFunction::Brightness(b) => b.proportion == unclamped(a),
                FilterFunction::Contrast(c) => c.proportion == unclamped(a),
                FilterFunction::Saturate(c) => c.proportion == unclamped(a),
                FilterFunction::Grayscale(c) => c.proportion == at_most_one(a),
                FilterFunction::Invert(c) => c.proportion == at_most_one(a),
                FilterFunction::Opacity(c) => c.proportion == at_most_one(a),
                FilterFunction::Sepia(c) => c.proportion == at_most_one(a),
            }
        },
{
    if let Some(CssTokenView::Function(name)) = css_next(input).0 {
        lemma_keyword_index_matches(name, filter_function_names());
        lemma_keyword_index_bound(name, filter_function_names());
        if let Some(i) = keyword_index(name, filter_function_names()) {
            if let Some((f, _)) = function_args_spec(i, css_next(input).1) {
                assert(function_name(f) == filter_function_names()[i as int]);
            }
        }
    }
}

/// The argument read, as a number.
pub open spec fn unclamped(a: Option<u32>) -> Option<CssNumber> {
    match a {
        Some(v) => Some(CssNumber(v)),
        None => None,
    }
}

/// The argument read, as a number, taking 1 for anything larger than 1.
pub open spec fn at_most_one(a: Option<u32>) -> Option<CssNumber> {
    match a {
        Some(v) => Some(CssNumber(if (v >> 31u32) == 0u32 && v > ONE_BITS { ONE_BITS } else { v })),
        None => None,
    }
}

} // verus!
