//! Reading CSS values token by token.
//!
//! The tokenizer is `cssparser`'s.  Each step tokenizes the rest of the input from where
//! the previous step stopped, so a value parser here is a function from the input it
//! starts on to the value it read and the input that is left after it.

use vstd::prelude::*;

use cssparser::{Parser, Token};

use crate::error::ValueErrorKind;
use crate::strings::{eq_ignore_ascii_case, str_eq_ignore_ascii_case};
use vstd::string::StrSliceExecFns;

verus! {

/// A CSS token, in the terms that the value parsers need.
///
/// Numbers are kept as the bits of the `f32` that the tokenizer produced
/// (`f32::to_bits`).
#[derive(Debug, Clone, PartialEq, Eq)]
pub enum CssToken {
    Ident(String),
    Number { value: u32, int_value: Option<i32> },
    /// A percentage; `unit_value` is `0.0` for `0%` and `1.0` for `100%`.
    Percentage { unit_value: u32 },
    Dimension { value: u32, unit: String },
    Comma,
    /// The start of a function, `name(`.
    Function(String),
    /// A `)` that closes a block.
    CloseParenthesis,
    /// Any other token.
    Other,
}

/// What a [`CssToken`] is in specifications.
pub enum CssTokenView {
    Ident(Seq<char>),
    Number { value: u32, int_value: Option<i32> },
    Percentage { unit_value: u32 },
    Dimension { value: u32, unit: Seq<char> },
    Comma,
    Function(Seq<char>),
    CloseParenthesis,
    Other,
}

impl CssToken {
    pub open spec fn view(&self) -> CssTokenView {
        match self {
            CssToken::Ident(s) => CssTokenView::Ident(s@),
            CssToken::Number { value, int_value } => CssTokenView::Number {
                value: *value,
                int_value: *int_value,
            },
            CssToken::Percentage { unit_value } => CssTokenView::Percentage {
                unit_value: *unit_value,
            },
            CssToken::Dimension { value, unit } => CssTokenView::Dimension {
                value: *value,
                unit: unit@,
            },
            CssToken::Comma => CssTokenView::Comma,
            CssToken::Function(name) => CssTokenView::Function(name@),
            CssToken::CloseParenthesis => CssTokenView::CloseParenthesis,
            CssToken::Other => CssTokenView::Other,
        }
    }
}

/// What `cssparser::Parser::next` reads from the start of `input`, skipping white space
/// and comments: the token, or `None` at the end of the input, and the input left after
/// it.
pub uninterp spec fn css_next(input: Seq<char>) -> (Option<CssTokenView>, Seq<char>);

/// What `cssparser::Parser::expect_url` reads from the start of `input`: the URL of a
/// `url(...)` token or function, if there is one, and the input left after it.
pub uninterp spec fn css_url(input: Seq<char>) -> (Option<Seq<char>>, Seq<char>);

/// `s` ends `input`.
pub open spec fn is_suffix(s: Seq<char>, input: Seq<char>) -> bool {
    s.len() <= input.len() && s == input.subrange(input.len() - s.len(), input.len() as int)
}

/// `Parser::next` on a parser over `input`: the token it gives, converted to a
/// [`CssToken`], and the rest of the input after it (from `Parser::position`).  Besides
/// naming the result, this states that the rest ends the input, and that reading a token
/// consumes some of the input.
#[verifier::external_body]
pub(crate) fn next_token(input: &str) -> (r: (Option<CssToken>, &str))
    ensures
        (match r.0 {
            Some(t) => Some(t.view()),
            None => None,
        }) == css_next(input@).0,
        r.1@ == css_next(input@).1,
        is_suffix(r.1@, input@),
        r.0 is Some ==> r.1@.len() < input@.len(),
{
    let mut parser = Parser::new(input);
    let token = match parser.next() {
        Err(_) => None,
        Ok(t) => Some(match t {
            Token::Ident(v) => CssToken::Ident(v.to_string()),
            &Token::Number { value, int_value, .. } => CssToken::Number { value: value.to_bits(), int_value },
            Token::Percentage { unit_value, .. } => CssToken::Percentage { unit_value: unit_value.to_bits() },
            Token::Dimension { value, unit, .. } => CssToken::Dimension { value: value.to_bits(), unit: unit.to_string() },
            Token::Comma => CssToken::Comma,
            Token::Function(name) => CssToken::Function(name.to_string()),
            Token::CloseParenthesis => CssToken::CloseParenthesis,
            _ => CssToken::Other,
        }),
    };
    (token, &input[parser.position().byte_index()..])
}

/// `Parser::expect_url` on a parser over `input`: the URL, if the input starts with one,
/// and the rest of the input after what the parser read.  Besides naming the result, this
/// states that the rest ends the input.
#[verifier::external_body]
fn expect_url_token(input: &str) -> (r: (Option<String>, &str))
    ensures
        (match r.0 {
            Some(u) => Some(u@),
            None => None,
        }) == css_url(input@).0,
        r.1@ == css_url(input@).1,
        is_suffix(r.1@, input@),
        r.0 is Some ==> r.1@.len() < input@.len(),
{
    let mut parser = Parser::new(input);
    let url = match parser.expect_url() {
        Ok(u) => Some(u.to_string()),
        Err(_) => None,
    };
    (url, &input[parser.position().byte_index()..])
}

/// Errors from parsing CSS values.
#[derive(Debug, PartialEq)]
pub enum CssParseError {
    /// A token that the value cannot have.
    UnexpectedToken,
    /// The input ended before the value did.
    EndOfInput,
    /// The value was read but is not acceptable.
    Custom(ValueErrorKind),
}

/// The kinds of [`CssParseError`], for specifications.
#[derive(Debug, Clone, Copy, PartialEq, Eq, Structural)]
pub enum CssErrorKind {
    UnexpectedToken,
    EndOfInput,
    Custom,
}

impl CssParseError {
    pub open spec fn kind(&self) -> CssErrorKind {
        match self {
            CssParseError::UnexpectedToken => CssErrorKind::UnexpectedToken,
            CssParseError::EndOfInput => CssErrorKind::EndOfInput,
            CssParseError::Custom(_) => CssErrorKind::Custom,
        }
    }
}

/// The error for reading `t` where something else was expected: an unexpected token, or
/// the end of the input.
pub open spec fn unexpected(t: Option<CssTokenView>) -> CssErrorKind {
    match t {
        Some(_) => CssErrorKind::UnexpectedToken,
        None => CssErrorKind::EndOfInput,
    }
}

fn unexpected_error(t: &Option<CssToken>) -> (e: CssParseError)
    ensures
        e.kind() == unexpected(
            match t {
                Some(t) => Some(t.view()),
                None => None,
            },
        ),
{
    match t {
        Some(_) => CssParseError::UnexpectedToken,
        None => CssParseError::EndOfInput,
    }
}

/// Whether nothing but white space and comments is left in `input`.
pub open spec fn exhausted(input: Seq<char>) -> bool {
    css_next(input).0 is None
}

/// Ending a suffix of `b`, where `b` ends `c`, is ending `c`.
pub proof fn lemma_suffix_trans(a: Seq<char>, b: Seq<char>, c: Seq<char>)
    requires
        is_suffix(a, b),
        is_suffix(b, c),
    ensures
        is_suffix(a, c),
{
    assert(a =~= c.subrange(c.len() - a.len(), c.len() as int));
}

/// `Parser::is_exhausted`
pub fn is_exhausted(input: &str) -> (r: bool)
    ensures
        r == exhausted(input@),
{
    let (t, _) = next_token(input);
    t.is_none()
}

/// The input after an optional comma.
pub open spec fn skip_optional_comma(input: Seq<char>) -> Seq<char> {
    if css_next(input).0 == Some(CssTokenView::Comma) {
        css_next(input).1
    } else {
        input
    }
}

/// Consumes a comma if it exists, or does nothing.
pub fn optional_comma(input: &str) -> (rest: &str)
    ensures
        rest@ == skip_optional_comma(input@),
        is_suffix(rest@, input@),
{
    let (t, rest) = next_token(input);
    match t {
        Some(CssToken::Comma) => rest,
        _ => {
            assert(input@.subrange(0, input@.len() as int) =~= input@);
            input
        },
    }
}

/// Whether the `f32` with bits `bits` is finite (neither infinite nor NaN).
pub open spec fn f32_is_finite(bits: u32) -> bool {
    (bits >> 23u32) & 0xffu32 != 0xffu32
}

/// Whether the `f32` with bits `bits` is `>= 0.0`: positive numbers and both zeros.
pub open spec fn f32_is_non_negative(bits: u32) -> bool {
    f32_is_finite(bits) && ((bits >> 31u32) == 0u32 || bits == 0x8000_0000u32)
}

pub(crate) fn f32_bits_finite(bits: u32) -> (r: bool)
    ensures
        r == f32_is_finite(bits),
{
    (bits >> 23u32) & 0xffu32 != 0xffu32
}

pub(crate) fn f32_bits_non_negative(bits: u32) -> (r: bool)
    ensures
        r == f32_is_non_negative(bits),
{
    f32_bits_finite(bits) && ((bits >> 31u32) == 0u32 || bits == 0x8000_0000u32)
}

/// The bits of the `f32` number 1.
pub const ONE_BITS: u32 = 0x3f80_0000u32;

/// A number read from CSS: the bits of the `f32` that the tokenizer produced.  Its
/// value is also exactly representable as an `f64`.
#[derive(Debug, Clone, Copy, PartialEq, Eq, Structural)]
pub struct CssNumber(pub u32);

/// Non-Negative number
#[derive(Debug, Clone, Copy, PartialEq, Eq, Structural)]
pub struct NonNegative(pub CssNumber);

/// The value that `value` starts with, read as a `T`, if it starts with one.
pub open spec fn value_of<T: Parse>(value: Seq<char>) -> Option<T> {
    match T::parse_spec(value) {
        Ok((t, _)) => Some(t),
        Err(_) => None,
    }
}

/// Values that can be read from the start of some CSS input.
pub trait Parse: Sized {
    /// What reading a value from the start of `input` gives: the value and the input
    /// left after it, or the kind of error.
    spec fn parse_spec(input: Seq<char>) -> Result<(Self, Seq<char>), CssErrorKind>;

    /// Parses a value out of the start of `input`.
    fn parse(input: &str) -> (r: Result<(Self, &str), CssParseError>)
        ensures
            match Self::parse_spec(input@) {
                Ok((v, rest)) => (r matches Ok((w, t)) && w == v && t@ == rest),
                Err(k) => (r matches Err(e) && e.kind() == k),
            },
            r matches Ok((_, t)) ==> is_suffix(t@, input@) && t@.len() < input@.len(),
    ;

    /// Parses a whole string: the value must be followed by nothing but white space and
    /// comments.
    fn parse_str(s: &str) -> (r: Result<Self, CssParseError>)
        ensures
            match Self::parse_spec(s@) {
                Ok((v, rest)) => if exhausted(rest) {
                    r == Ok::<Self, CssParseError>(v)
                } else {
                    r matches Err(e) && e.kind() == CssErrorKind::UnexpectedToken
                },
                Err(k) => (r matches Err(e) && e.kind() == k),
            },
    {
        match Self::parse(s) {
            Ok((v, rest)) => {
                if is_exhausted(rest) {
                    Ok(v)
                } else {
                    Err(CssParseError::UnexpectedToken)
                }
            },
            Err(e) => Err(e),
        }
    }
}

/// What reading a whole string `s` as a `T` gives: the value must be followed by nothing.
pub open spec fn parse_all<T: Parse>(s: Seq<char>) -> Result<T, CssErrorKind> {
    match T::parse_spec(s) {
        Ok((v, rest)) => if exhausted(rest) {
            Ok(v)
        } else {
            Err(CssErrorKind::UnexpectedToken)
        },
        Err(k) => Err(k),
    }
}

/// A finite number.
pub open spec fn number_spec(input: Seq<char>) -> Result<(CssNumber, Seq<char>), CssErrorKind> {
    match css_next(input).0 {
        Some(CssTokenView::Number { value, .. }) => if f32_is_finite(value) {
            Ok((CssNumber(value), css_next(input).1))
        } else {
            Err(CssErrorKind::Custom)
        },
        t => Err(unexpected(t)),
    }
}

/// Checks that the number `n` is finite: not an infinity or NaN.
pub fn finite_f32(n: CssNumber) -> (r: Result<CssNumber, ValueErrorKind>)
    ensures
        f32_is_finite(n.0) ==> r == Ok::<CssNumber, ValueErrorKind>(n),
        !f32_is_finite(n.0) ==> (r matches Err(ValueErrorKind::Value(m)) && m@ == "expected finite number"@),
{
    if f32_bits_finite(n.0) {
        Ok(n)
    } else {
        Err(ValueErrorKind::value_error("expected finite number"))
    }
}

impl Parse for CssNumber {
    open spec fn parse_spec(input: Seq<char>) -> Result<(CssNumber, Seq<char>), CssErrorKind> {
        number_spec(input)
    }

    fn parse(input: &str) -> (r: Result<(CssNumber, &str), CssParseError>) {
        let (t, rest) = next_token(input);
        match t {
            Some(CssToken::Number { value, .. }) => match finite_f32(CssNumber(value)) {
                Ok(n) => Ok((n, rest)),
                Err(e) => Err(CssParseError::Custom(e)),
            },
            _ => Err(unexpected_error(&t)),
        }
    }
}

impl Parse for NonNegative {
    open spec fn parse_spec(input: Seq<char>) -> Result<(NonNegative, Seq<char>), CssErrorKind> {
        match number_spec(input) {
            Ok((n, rest)) => if f32_is_non_negative(n.0) {
                Ok((NonNegative(n), rest))
            } else {
                Err(CssErrorKind::Custom)
            },
            Err(k) => Err(k),
        }
    }

    fn parse(input: &str) -> (r: Result<(NonNegative, &str), CssParseError>) {
        match CssNumber::parse(input) {
            Ok((n, rest)) => {
                if f32_bits_non_negative(n.0) {
                    Ok((NonNegative(n), rest))
                } else {
                    Err(
                        CssParseError::Custom(
                            ValueErrorKind::value_error("expected non negative number"),
                        ),
                    )
                }
            },
            Err(e) => Err(e),
        }
    }
}

impl Parse for i32 {
    /// CSS integer
    ///
    /// <https://www.w3.org/TR/SVG11/types.html#DataTypeInteger>
    open spec fn parse_spec(input: Seq<char>) -> Result<(i32, Seq<char>), CssErrorKind> {
        match css_next(input).0 {
            Some(CssTokenView::Number { int_value: Some(n), .. }) => Ok((n, css_next(input).1)),
            t => Err(unexpected(t)),
        }
    }

    fn parse(input: &str) -> (r: Result<(i32, &str), CssParseError>) {
        let (t, rest) = next_token(input);
        match t {
            Some(CssToken::Number { int_value: Some(n), .. }) => Ok((n, rest)),
            _ => Err(unexpected_error(&t)),
        }
    }
}

impl Parse for u32 {
    open spec fn parse_spec(input: Seq<char>) -> Result<(u32, Seq<char>), CssErrorKind> {
        match css_next(input).0 {
            Some(CssTokenView::Number { int_value: Some(n), .. }) => if n >= 0 {
                Ok((n as u32, css_next(input).1))
            } else {
                Err(CssErrorKind::Custom)
            },
            t => Err(unexpected(t)),
        }
    }

    fn parse(input: &str) -> (r: Result<(u32, &str), CssParseError>) {
        let (t, rest) = next_token(input);
        match t {
            Some(CssToken::Number { int_value: Some(n), .. }) => {
                if n >= 0 {
                    Ok((n as u32, rest))
                } else {
                    Err(
                        CssParseError::Custom(ValueErrorKind::value_error("expected unsigned number")),
                    )
                }
            },
            _ => Err(unexpected_error(&t)),
        }
    }
}

/// CSS number-optional-number
///
/// <https://www.w3.org/TR/SVG/types.html#DataTypeNumberOptionalNumber>
#[derive(Debug, Clone, Copy, PartialEq, Eq)]
pub struct NumberOptionalNumber<T>(pub T, pub T);

impl<T: Parse + Copy> Parse for NumberOptionalNumber<T> {
    open spec fn parse_spec(input: Seq<char>) -> Result<(NumberOptionalNumber<T>, Seq<char>), CssErrorKind> {
        match T::parse_spec(input) {
            Ok((x, rest)) => if exhausted(rest) {
                Ok((NumberOptionalNumber(x, x), rest))
            } else {
                match T::parse_spec(skip_optional_comma(rest)) {
                    Ok((y, rest2)) => Ok((NumberOptionalNumber(x, y), rest2)),
                    Err(k) => Err(k),
                }
            },
            Err(k) => Err(k),
        }
    }

    fn parse(input: &str) -> (r: Result<(NumberOptionalNumber<T>, &str), CssParseError>) {
        let (x, rest) = match T::parse(input) {
            Ok(p) => p,
            Err(e) => return Err(e),
        };
        if !is_exhausted(rest) {
            let rest1 = optional_comma(rest);
            match T::parse(rest1) {
                Ok((y, rest2)) => {
                    proof {
                        lemma_suffix_trans(rest1@, rest@, input@);
                        lemma_suffix_trans(rest2@, rest1@, input@);
                    }
                    Ok((NumberOptionalNumber(x, y), rest2))
                },
                Err(e) => Err(e),
            }
        } else {
            Ok((NumberOptionalNumber(x, x), rest))
        }
    }
}

/// How many numbers a number list must have.
#[derive(Debug, Clone, Copy, PartialEq, Eq, Structural)]
pub enum NumberListLength {
    Exact(usize),
    Unbounded,
}

/// CSS number-list values.
#[derive(Debug, Clone, PartialEq, Eq)]
pub struct NumberList(pub Vec<CssNumber>);

/// The numbers of a list from `input` on, the `i`-th onwards, and the input left after
/// them.
pub open spec fn number_list_from(input: Seq<char>, i: nat, length: NumberListLength) -> Result<
    (Seq<CssNumber>, Seq<char>),
    CssErrorKind,
>
    decreases input.len(),
{
    let s1 = if i != 0 {
        skip_optional_comma(input)
    } else {
        input
    };
    match number_spec(s1) {
        Err(k) => Err(k),
        Ok((x, s2)) => {
            if (length matches NumberListLength::Exact(l) && i + 1 == l) || (exhausted(s2)
                && length is Unbounded) {
                Ok((seq![x], s2))
            } else if s2.len() >= input.len() {
                // Never the case: reading a number consumes input.
                Err(CssErrorKind::EndOfInput)
            } else {
                match number_list_from(s2, i + 1, length) {
                    Ok((v, rest)) => Ok((seq![x] + v, rest)),
                    Err(k) => Err(k),
                }
            }
        },
    }
}

/// What reading a number list from the start of `input` gives.
pub open spec fn number_list_spec(input: Seq<char>, length: NumberListLength) -> Result<
    (Seq<CssNumber>, Seq<char>),
    CssErrorKind,
> {
    if exhausted(input) && length is Unbounded {
        Ok((Seq::empty(), input))
    } else {
        number_list_from(input, 0, length)
    }
}

/// What reading a whole string as a number list gives.
pub open spec fn number_list_all(s: Seq<char>, length: NumberListLength) -> Result<
    Seq<CssNumber>,
    CssErrorKind,
> {
    match number_list_spec(s, length) {
        Ok((v, rest)) => if exhausted(rest) {
            Ok(v)
        } else {
            Err(CssErrorKind::UnexpectedToken)
        },
        Err(k) => Err(k),
    }
}

proof fn lemma_number_list_from_len(input: Seq<char>, i: nat, l: usize)
    requires
        i < l,
    ensures
        number_list_from(input, i, NumberListLength::Exact(l)) matches Ok((v, _)) ==> v.len() == l - i,
    decreases input.len(),
{
    let s1 = if i != 0 {
        skip_optional_comma(input)
    } else {
        input
    };
    match number_spec(s1) {
        Ok((_, s2)) => {
            if i + 1 != l && s2.len() < input.len() {
                lemma_number_list_from_len(s2, i + 1, l);
            }
        },
        Err(_) => {},
    }
}

/// A list read with an exact length has exactly that many numbers.
pub proof fn lemma_exact_number_list_len(input: Seq<char>, l: usize)
    requires
        l > 0,
    ensures
        number_list_spec(input, NumberListLength::Exact(l)) matches Ok((v, _)) ==> v.len() == l,
{
    lemma_number_list_from_len(input, 0, l);
}

impl NumberList {
    pub open spec fn view(&self) -> Seq<CssNumber> {
        self.0@
    }

    pub fn parse(input: &str, length: NumberListLength) -> (r: Result<
        (NumberList, &str),
        CssParseError,
    >)
        requires
            length != NumberListLength::Exact(0),
        ensures
            match number_list_spec(input@, length) {
                Ok((v, rest)) => (r matches Ok((w, t)) && w.view() == v && t@ == rest),
                Err(k) => (r matches Err(e) && e.kind() == k),
            },
    {
        let mut v: Vec<CssNumber> = Vec::new();
        if is_exhausted(input) && length == NumberListLength::Unbounded {
            return Ok((NumberList(v), input));
        }
        let mut cur = input;
        let mut i: usize = 0;
        let _ = input.unicode_len();
        loop
            invariant_except_break
                number_list_spec(input@, length) == match number_list_from(
                    cur@,
                    i as nat,
                    length,
                ) {
                    Ok((w, rest)) => Ok((v@ + w, rest)),
                    Err(k) => Err(k),
                },
                i == v@.len(),
                cur@.len() + i <= input@.len(),
            invariant
                length != NumberListLength::Exact(0),
                input@.len() <= usize::MAX,
                !(exhausted(input@) && length is Unbounded),
            ensures
                number_list_spec(input@, length) == Ok::<(Seq<CssNumber>, Seq<char>), CssErrorKind>(
                    (v@, cur@),
                ),
            decreases cur@.len(),
        {
            let s1 = if i != 0 {
                optional_comma(cur)
            } else {
                cur
            };
            let (x, s2) = match CssNumber::parse(s1) {
                Ok(p) => p,
                Err(e) => return Err(e),
            };
            assert(s2@.len() < s1@.len() <= cur@.len());
            let ghost before = v@;
            v.push(x);
            let last_exact = match length {
                NumberListLength::Exact(l) => i + 1 == l,
                NumberListLength::Unbounded => false,
            };
            let done = last_exact || (is_exhausted(s2) && length == NumberListLength::Unbounded);
            if done {
                assert(before + seq![x] =~= v@);
                cur = s2;
                break;
            }
            proof {
                assert forall|w: Seq<CssNumber>| #[trigger] (before + (seq![x] + w)) == v@ + w by {
                    assert(before + (seq![x] + w) =~= v@ + w);
                }
            }
            cur = s2;
            i = i + 1;
        }
        Ok((NumberList(v), cur))
    }

    pub fn parse_str(s: &str, length: NumberListLength) -> (r: Result<NumberList, CssParseError>)
        requires
            length != NumberListLength::Exact(0),
        ensures
            match number_list_all(s@, length) {
                Ok(v) => (r matches Ok(w) && w.view() == v),
                Err(k) => (r matches Err(e) && e.kind() == k),
            },
    {
        match NumberList::parse(s, length) {
            Ok((l, rest)) => {
                if is_exhausted(rest) {
                    Ok(l)
                } else {
                    Err(CssParseError::UnexpectedToken)
                }
            },
            Err(e) => Err(e),
        }
    }
}

/// The position of the first of `keywords` that `ident` matches, ignoring ASCII case.
pub open spec fn keyword_index(ident: Seq<char>, keywords: Seq<Seq<char>>) -> Option<nat>
    decreases keywords.len(),
{
    if keywords.len() == 0 {
        None
    } else if eq_ignore_ascii_case(ident, keywords[0]) {
        Some(0)
    } else {
        match keyword_index(ident, keywords.drop_first()) {
            Some(i) => Some(i + 1),
            None => None,
        }
    }
}

/// A keyword is found at a position of the list.
pub proof fn lemma_keyword_index_bound(ident: Seq<char>, keywords: Seq<Seq<char>>)
    ensures
        keyword_index(ident, keywords) matches Some(i) ==> i < keywords.len(),
    decreases keywords.len(),
{
    if keywords.len() > 0 {
        lemma_keyword_index_bound(ident, keywords.drop_first());
    }
}

/// The keyword found for an identifier is one that the identifier matches, ignoring
/// ASCII case.
pub proof fn lemma_keyword_index_matches(ident: Seq<char>, keywords: Seq<Seq<char>>)
    ensures
        keyword_index(ident, keywords) matches Some(i) ==> i < keywords.len() && eq_ignore_ascii_case(
            ident,
            keywords[i as int],
        ),
    decreases keywords.len(),
{
    if keywords.len() > 0 && !eq_ignore_ascii_case(ident, keywords[0]) {
        lemma_keyword_index_matches(ident, keywords.drop_first());
        if let Some(i) = keyword_index(ident, keywords.drop_first()) {
            assert(keywords.drop_first()[i as int] == keywords[i as int + 1]);
        }
    }
}

/// Reading one of `keywords`: which one, and the input left after it.
pub open spec fn keyword_spec(input: Seq<char>, keywords: Seq<Seq<char>>) -> Result<
    (nat, Seq<char>),
    CssErrorKind,
> {
    match css_next(input).0 {
        Some(CssTokenView::Ident(id)) => match keyword_index(id, keywords) {
            Some(i) => Ok((i, css_next(input).1)),
            None => Err(CssErrorKind::UnexpectedToken),
        },
        t => Err(unexpected(t)),
    }
}

/// A keyword read from the input is matched, ignoring ASCII case, by the identifier that
/// the input begins with, and reading it consumes exactly that identifier.
pub proof fn lemma_keyword_spec_matches(input: Seq<char>, keywords: Seq<Seq<char>>)
    ensures
        keyword_spec(input, keywords) matches Ok((i, rest)) ==> (css_next(input).0 matches Some(
            CssTokenView::Ident(id),
        ) && i < keywords.len() && eq_ignore_ascii_case(id, keywords[i as int]) && rest == css_next(
            input,
        ).1),
{
    if let Some(CssTokenView::Ident(id)) = css_next(input).0 {
        lemma_keyword_index_matches(id, keywords);
    }
}

/// The position of the first of `keywords` that `id` matches, ignoring ASCII case.
pub(crate) fn find_keyword(id: &str, keywords: &[&str]) -> (r: Option<usize>)
    ensures
        keyword_index(id@, keywords@.map_values(|k: &str| k@)) == match r {
            Some(j) => Some(j as nat),
            None => None::<nat>,
        },
{
    let ghost kws = keywords@.map_values(|k: &str| k@);
    let mut i: usize = 0;
    assert(kws.skip(0) =~= kws);
    while i < keywords.len()
        invariant
            i <= keywords@.len(),
            kws == keywords@.map_values(|k: &str| k@),
            keyword_index(id@, kws) == match keyword_index(id@, kws.skip(i as int)) {
                Some(j) => Some((j + i) as nat),
                None => None,
            },
        decreases keywords@.len() - i,
    {
        assert(kws.skip(i as int)[0] == kws[i as int]);
        assert(kws.skip(i as int).drop_first() =~= kws.skip(i + 1));
        if str_eq_ignore_ascii_case(id, keywords[i]) {
            return Some(i);
        }
        i = i + 1;
    }
    assert(kws.skip(i as int).len() == 0);
    None
}

/// Reads an identifier that is one of `keywords`, ignoring ASCII case, and gives its
/// position among them.
pub fn parse_keyword<'a>(input: &'a str, keywords: &[&str]) -> (r: Result<
    (usize, &'a str),
    CssParseError,
>)
    ensures
        match keyword_spec(input@, keywords@.map_values(|k: &str| k@)) {
            Ok((i, rest)) => (r matches Ok((j, t)) && j == i && t@ == rest),
            Err(k) => (r matches Err(e) && e.kind() == k),
        },
        r matches Ok((_, t)) ==> is_suffix(t@, input@) && t@.len() < input@.len(),
{
    let (t, rest) = next_token(input);
    match t {
        Some(CssToken::Ident(ref id)) => match find_keyword(id.as_str(), keywords) {
            Some(i) => Ok((i, rest)),
            None => Err(CssParseError::UnexpectedToken),
        },
        _ => Err(unexpected_error(&t)),
    }
}

/// <https://www.w3.org/TR/css-values-4/#custom-idents>
#[derive(Debug, Clone, PartialEq, Eq, Hash)]
pub struct CustomIdent(pub String);

/// CSS-wide keywords and "default", which cannot be custom identifiers.
pub open spec fn is_reserved_ident(id: Seq<char>) -> bool {
    ||| eq_ignore_ascii_case(id, "initial"@)
    ||| eq_ignore_ascii_case(id, "inherit"@)
    ||| eq_ignore_ascii_case(id, "unset"@)
    ||| eq_ignore_ascii_case(id, "default"@)
}

/// Reading a custom identifier: its text and the input left after it.
pub open spec fn custom_ident_spec(input: Seq<char>) -> Result<(Seq<char>, Seq<char>), CssErrorKind> {
    match css_next(input).0 {
        Some(CssTokenView::Ident(id)) => if is_reserved_ident(id) {
            Err(CssErrorKind::UnexpectedToken)
        } else {
            Ok((id, css_next(input).1))
        },
        t => Err(unexpected(t)),
    }
}

impl CustomIdent {
    pub fn parse(input: &str) -> (r: Result<(CustomIdent, &str), CssParseError>)
        ensures
            match custom_ident_spec(input@) {
                Ok((id, rest)) => (r matches Ok((c, t)) && c.0@ == id && t@ == rest),
                Err(k) => (r matches Err(e) && e.kind() == k),
            },
    {
        let (t, rest) = next_token(input);
        match t {
            Some(CssToken::Ident(id)) => {
                if str_eq_ignore_ascii_case(id.as_str(), "initial") || str_eq_ignore_ascii_case(
                    id.as_str(),
                    "inherit",
                ) || str_eq_ignore_ascii_case(id.as_str(), "unset") || str_eq_ignore_ascii_case(
                    id.as_str(),
                    "default",
                ) {
                    Err(CssParseError::UnexpectedToken)
                } else {
                    Ok((CustomIdent(id), rest))
                }
            },
            _ => Err(unexpected_error(&t)),
        }
    }

    pub fn parse_str(s: &str) -> (r: Result<CustomIdent, CssParseError>)
        ensures
            match custom_ident_spec(s@) {
                Ok((id, rest)) => if exhausted(rest) {
                    r matches Ok(c) && c.0@ == id
                } else {
                    r matches Err(e) && e.kind() == CssErrorKind::UnexpectedToken
                },
                Err(k) => (r matches Err(e) && e.kind() == k),
            },
    {
        match CustomIdent::parse(s) {
            Ok((c, rest)) => {
                if is_exhausted(rest) {
                    Ok(c)
                } else {
                    Err(CssParseError::UnexpectedToken)
                }
            },
            Err(e) => Err(e),
        }
    }
}

/// Reading a URL: the URL and the input left after it.
pub fn expect_url<'a>(input: &'a str) -> (r: Result<(String, &'a str), CssParseError>)
    ensures
        match css_url(input@).0 {
            Some(u) => (r matches Ok((v, t)) && v@ == u && t@ == css_url(input@).1 && is_suffix(
                t@,
                input@,
            ) && t@.len() < input@.len()),
            None => (r matches Err(e) && e.kind() == if exhausted(input@) {
                CssErrorKind::EndOfInput
            } else {
                CssErrorKind::UnexpectedToken
            }),
        },
{
    let (u, rest) = expect_url_token(input);
    match u {
        Some(u) => Ok((u, rest)),
        None => {
            if is_exhausted(input) {
                Err(CssParseError::EndOfInput)
            } else {
                Err(CssParseError::UnexpectedToken)
            }
        },
    }
}

} // verus!
