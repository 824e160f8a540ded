//! Parsers of CSS properties whose values are keywords and numbers.

use vstd::prelude::*;

use crate::css::{
    css_next, exhausted, is_exhausted, is_suffix, keyword_spec, lemma_keyword_spec_matches,
    lemma_suffix_trans, next_token, number_spec, parse_keyword,
    CssErrorKind, CssNumber, CssParseError, CssToken, CssTokenView, Parse,
};
use crate::accept_language::{language_tag_parses, Tag};
use crate::error::ValueErrorKind;
use crate::filter::{filter_values_spec, FilterValueList, FilterValueView};
use crate::strings::{eq_ignore_ascii_case, str_eq_ignore_ascii_case};

verus! {

/// Whether `input` starts with an identifier that matches `keyword`, ignoring ASCII case.
pub open spec fn starts_with_ident(input: Seq<char>, keyword: Seq<char>) -> bool {
    css_next(input).0 matches Some(CssTokenView::Ident(id)) && eq_ignore_ascii_case(id, keyword)
}

/// Whether `input` starts with an identifier that matches `keyword`, ignoring ASCII case.
fn ident_matches(input: &str, keyword: &str) -> (r: bool)
    ensures
        r == starts_with_ident(input@, keyword@),
{
    let (t, _) = next_token(input);
    match t {
        Some(CssToken::Ident(id)) => str_eq_ignore_ascii_case(id.as_str(), keyword),
        _ => false,
    }
}

/// `enable-background` property.
///
/// SVG1.1: <https://www.w3.org/TR/SVG11/filters.html#EnableBackgroundProperty>
///
/// This is deprecated in SVG2.  There is just a parser for it to avoid setting elements
/// in error if they have this property; its value is not used.  `New` holds the numbers
/// `x y width height` of the background rectangle when they are given.
#[derive(Debug, Clone, Copy, PartialEq, Eq, Structural)]
pub enum EnableBackground {
    Accumulate,
    New(Option<BackgroundRect>),
}

/// The numbers `x y width height` of an `enable-background` rectangle.
#[derive(Debug, Clone, Copy, PartialEq, Eq, Structural)]
pub struct BackgroundRect {
    pub x: CssNumber,
    pub y: CssNumber,
    pub width: CssNumber,
    pub height: CssNumber,
}

/// Reading four numbers in a row.
pub open spec fn four_numbers(input: Seq<char>) -> Option<
    (BackgroundRect, Seq<char>),
> {
    match number_spec(input) {
        Ok((x, r1)) => match number_spec(r1) {
            Ok((y, r2)) => match number_spec(r2) {
                Ok((w, r3)) => match number_spec(r3) {
                    Ok((h, r4)) => Some((BackgroundRect { x, y, width: w, height: h }, r4)),
                    Err(_) => None,
                },
                Err(_) => None,
            },
            Err(_) => None,
        },
        Err(_) => None,
    }
}

/// What reading an `enable-background` value from the start of `input` gives.
pub open spec fn enable_background_spec(input: Seq<char>) -> Result<
    (EnableBackground, Seq<char>),
    CssErrorKind,
> {
    if starts_with_ident(input, "accumulate"@) {
        Ok((EnableBackground::Accumulate, css_next(input).1))
    } else if starts_with_ident(input, "new"@) {
        let r0 = css_next(input).1;
        match four_numbers(r0) {
            Some((n, r4)) => Ok((EnableBackground::New(Some(n)), r4)),
            None => Ok((EnableBackground::New(None), r0)),
        }
    } else {
        Err(CssErrorKind::Custom)
    }
}

fn parse_four_numbers(input: &str) -> (r: Option<(BackgroundRect, &str)>)
    ensures
        match four_numbers(input@) {
            Some((n, rest)) => (r matches Some((m, t)) && m == n && t@ == rest),
            None => r is None,
        },
        r matches Some((_, t)) ==> is_suffix(t@, input@) && t@.len() < input@.len(),
{
    let (x, r1) = match CssNumber::parse(input) {
        Ok(p) => p,
        Err(_) => return None,
    };
    let (y, r2) = match CssNumber::parse(r1) {
        Ok(p) => p,
        Err(_) => return None,
    };
    let (w, r3) = match CssNumber::parse(r2) {
        Ok(p) => p,
        Err(_) => return None,
    };
    let (h, r4) = match CssNumber::parse(r3) {
        Ok(p) => p,
        Err(_) => return None,
    };
    proof {
        lemma_suffix_trans(r2@, r1@, input@);
        lemma_suffix_trans(r3@, r2@, input@);
        lemma_suffix_trans(r4@, r3@, input@);
    }
    Some((BackgroundRect { x, y, width: w, height: h }, r4))
}

impl Parse for EnableBackground {
    open spec fn parse_spec(input: Seq<char>) -> Result<(EnableBackground, Seq<char>), CssErrorKind> {
        enable_background_spec(input)
    }

    fn parse(input: &str) -> (r: Result<(EnableBackground, &str), CssParseError>) {
        if ident_matches(input, "accumulate") {
            let (_, rest) = next_token(input);
            return Ok((EnableBackground::Accumulate, rest));
        }
        if ident_matches(input, "new") {
            let (_, r0) = next_token(input);
            match parse_four_numbers(r0) {
                Some((n, r4)) => {
                    proof {
                        lemma_suffix_trans(r4@, r0@, input@);
                    }
                    Ok((EnableBackground::New(Some(n)), r4))
                },
                None => Ok((EnableBackground::New(None), r0)),
            }
        } else {
            Err(
                CssParseError::Custom(
                    ValueErrorKind::parse_error("invalid syntax for 'enable-background' property"),
                ),
            )
        }
    }
}


/// One of the three operations for the `paint-order` property; see [`PaintOrder`].
#[derive(Debug, Clone, Copy, PartialEq, Eq, Structural)]
pub enum PaintTarget {
    Fill,
    Stroke,
    Markers,
}

/// The target that a keyword of `paint-order` names.
pub open spec fn target_of(id: Seq<char>) -> Option<PaintTarget> {
    if eq_ignore_ascii_case(id, "fill"@) {
        Some(PaintTarget::Fill)
    } else if eq_ignore_ascii_case(id, "stroke"@) {
        Some(PaintTarget::Stroke)
    } else if eq_ignore_ascii_case(id, "markers"@) {
        Some(PaintTarget::Markers)
    } else {
        None
    }
}

fn target_from_ident(id: &str) -> (r: Option<PaintTarget>)
    ensures
        r == target_of(id@),
{
    if str_eq_ignore_ascii_case(id, "fill") {
        Some(PaintTarget::Fill)
    } else if str_eq_ignore_ascii_case(id, "stroke") {
        Some(PaintTarget::Stroke)
    } else if str_eq_ignore_ascii_case(id, "markers") {
        Some(PaintTarget::Markers)
    } else {
        None
    }
}

/// The targets listed from `input` on, after `targets`, up to the end of the input; a
/// target can be listed once.
pub open spec fn paint_targets_from(input: Seq<char>, targets: Seq<PaintTarget>) -> Result<
    (Seq<PaintTarget>, Seq<char>),
    CssErrorKind,
>
    decreases input.len(),
{
    if exhausted(input) {
        Ok((targets, input))
    } else {
        match css_next(input).0 {
            Some(CssTokenView::Ident(id)) => match target_of(id) {
                Some(t) => if targets.contains(t) {
                    Err(CssErrorKind::UnexpectedToken)
                } else if css_next(input).1.len() >= input.len() {
                    // Never the case: reading a token consumes input.
                    Err(CssErrorKind::EndOfInput)
                } else {
                    paint_targets_from(css_next(input).1, targets.push(t))
                },
                None => Err(CssErrorKind::UnexpectedToken),
            },
            _ => Err(CssErrorKind::UnexpectedToken),
        }
    }
}

/// `targets` followed by the targets it lacks, in the default order fill, stroke,
/// markers.
pub open spec fn complete_targets(targets: Seq<PaintTarget>) -> Seq<PaintTarget> {
    let t1 = if targets.contains(PaintTarget::Fill) {
        targets
    } else {
        targets.push(PaintTarget::Fill)
    };
    let t2 = if t1.contains(PaintTarget::Stroke) {
        t1
    } else {
        t1.push(PaintTarget::Stroke)
    };
    if t2.contains(PaintTarget::Markers) {
        t2
    } else {
        t2.push(PaintTarget::Markers)
    }
}

/// The default order: fill, stroke, markers.
pub open spec fn default_targets() -> Seq<PaintTarget> {
    seq![PaintTarget::Fill, PaintTarget::Stroke, PaintTarget::Markers]
}

/// What reading a `paint-order` value from the start of `input` gives.
pub open spec fn paint_order_spec(input: Seq<char>) -> Result<(Seq<PaintTarget>, Seq<char>), CssErrorKind> {
    if starts_with_ident(input, "normal"@) {
        Ok((default_targets(), css_next(input).1))
    } else {
        match paint_targets_from(input, Seq::empty()) {
            Ok((t, rest)) => Ok((complete_targets(t), rest)),
            Err(k) => Err(k),
        }
    }
}

/// Every target of the paint order occurs exactly once: completing a list of distinct
/// targets gives the three targets, each once.
pub proof fn lemma_complete_targets(targets: Seq<PaintTarget>)
    requires
        targets.no_duplicates(),
    ensures
        complete_targets(targets).len() == 3,
        complete_targets(targets).no_duplicates(),
        complete_targets(targets).contains(PaintTarget::Fill),
        complete_targets(targets).contains(PaintTarget::Stroke),
        complete_targets(targets).contains(PaintTarget::Markers),
        complete_targets(targets).subrange(0, targets.len() as int) == targets,
{
    lemma_distinct_targets_len(targets);
    let t1 = if targets.contains(PaintTarget::Fill) {
        targets
    } else {
        targets.push(PaintTarget::Fill)
    };
    let t2 = if t1.contains(PaintTarget::Stroke) {
        t1
    } else {
        t1.push(PaintTarget::Stroke)
    };
    let t3 = complete_targets(targets);
    lemma_push_new_target(targets, PaintTarget::Fill);
    lemma_push_new_target(t1, PaintTarget::Stroke);
    lemma_push_new_target(t2, PaintTarget::Markers);
    assert(t1.contains(PaintTarget::Fill));
    assert(t2.contains(PaintTarget::Fill) && t2.contains(PaintTarget::Stroke));
    assert(t3.contains(PaintTarget::Fill));
    assert(t3.contains(PaintTarget::Stroke));
    assert(t3.contains(PaintTarget::Markers));
    lemma_distinct_targets_len(t3);
    if t3.len() < 3 {
        let i = choose|i: int| 0 <= i < t3.len() && t3[i] == PaintTarget::Fill;
        let j = choose|j: int| 0 <= j < t3.len() && t3[j] == PaintTarget::Stroke;
        let k = choose|k: int| 0 <= k < t3.len() && t3[k] == PaintTarget::Markers;
        assert(i != j && j != k && i != k);
    }
    assert(t3.subrange(0, targets.len() as int) =~= targets);
}

/// Appending a target that is not in `t` keeps the targets distinct and keeps what
/// was there.
proof fn lemma_push_new_target(t: Seq<PaintTarget>, x: PaintTarget)
    requires
        t.no_duplicates(),
    ensures
        !t.contains(x) ==> t.push(x).no_duplicates(),
        t.push(x).contains(x),
        forall|y: PaintTarget| t.contains(y) ==> t.push(x).contains(y),
{
    assert(t.push(x)[t.len() as int] == x);
    assert forall|y: PaintTarget| t.contains(y) implies t.push(x).contains(y) by {
        let i = choose|i: int| 0 <= i < t.len() && t[i] == y;
        assert(t.push(x)[i] == y);
    }
}

/// There are only three targets, so a list of distinct ones has at most three.
proof fn lemma_distinct_targets_len(t: Seq<PaintTarget>)
    requires
        t.no_duplicates(),
    ensures
        t.len() <= 3,
{
    if t.len() > 3 {
        assert(t[0] != t[1] && t[0] != t[2] && t[0] != t[3] && t[1] != t[2] && t[1] != t[3] && t[2]
            != t[3]);
    }
}

fn targets_contain(v: &Vec<PaintTarget>, t: PaintTarget) -> (r: bool)
    ensures
        r == v@.contains(t),
{
    let mut i: usize = 0;
    while i < v.len()
        invariant
            i <= v@.len(),
            forall|k: int| 0 <= k < i ==> v@[k] != t,
        decreases v@.len() - i,
    {
        if v[i] == t {
            return true;
        }
        i = i + 1;
    }
    false
}

/// `paint-order` property.
///
/// SVG2: <https://www.w3.org/TR/SVG2/painting.html#PaintOrder>
///
/// The `targets` field specifies the order in which graphic elements should be
/// filled/stroked.  Instead of hard-coding an order of fill/stroke/markers, use the order
/// specified by the `targets`.
#[derive(Debug, Clone, Copy, PartialEq, Eq)]
pub struct PaintOrder {
    pub targets: [PaintTarget; 3],
}

impl PaintOrder {
    pub fn parse(input: &str) -> (r: Result<(PaintOrder, &str), CssParseError>)
        ensures
            match paint_order_spec(input@) {
                Ok((t, rest)) => (r matches Ok((p, u)) && p.targets@ == t && u@ == rest),
                Err(k) => (r matches Err(e) && e.kind() == k),
            },
    {
        if ident_matches(input, "normal") {
            let (_, rest) = next_token(input);
            let p = PaintOrder { targets: [PaintTarget::Fill, PaintTarget::Stroke, PaintTarget::Markers] };
            assert(p.targets@ =~= default_targets());
            return Ok((p, rest));
        }
        let mut targets: Vec<PaintTarget> = Vec::new();
        let mut cur = input;
        assert(Seq::<PaintTarget>::empty().no_duplicates());
        while !is_exhausted(cur)
            invariant
                !starts_with_ident(input@, "normal"@),
                paint_targets_from(input@, Seq::empty()) == paint_targets_from(cur@, targets@),
                targets@.no_duplicates(),
            decreases cur@.len(),
        {
            let (t, rest) = next_token(cur);
            let target = match t {
                Some(CssToken::Ident(ref id)) => target_from_ident(id.as_str()),
                _ => None,
            };
            let target = match target {
                Some(tg) => tg,
                None => return Err(CssParseError::UnexpectedToken),
            };
            if targets_contain(&targets, target) {
                return Err(CssParseError::UnexpectedToken);
            }
            targets.push(target);
            cur = rest;
        }
        if !targets_contain(&targets, PaintTarget::Fill) {
            targets.push(PaintTarget::Fill);
        }
        if !targets_contain(&targets, PaintTarget::Stroke) {
            targets.push(PaintTarget::Stroke);
        }
        if !targets_contain(&targets, PaintTarget::Markers) {
            targets.push(PaintTarget::Markers);
        }
        proof {
            let ghost t0 = paint_targets_from(input@, Seq::empty()).unwrap().0;
            lemma_complete_targets(t0);
        }
        let p = PaintOrder { targets: [targets[0], targets[1], targets[2]] };
        assert(p.targets@ =~= targets@);
        Ok((p, cur))
    }

    pub fn parse_str(s: &str) -> (r: Result<PaintOrder, CssParseError>)
        ensures
            match paint_order_spec(s@) {
                Ok((t, rest)) => if exhausted(rest) {
                    r matches Ok(p) && p.targets@ == t
                } else {
                    r matches Err(e) && e.kind() == CssErrorKind::UnexpectedToken
                },
                Err(k) => (r matches Err(e) && e.kind() == k),
            },
    {
        match PaintOrder::parse(s) {
            Ok((p, rest)) => {
                if is_exhausted(rest) {
                    Ok(p)
                } else {
                    Err(CssParseError::UnexpectedToken)
                }
            },
            Err(e) => Err(e),
        }
    }
}

/// `text-decoration` property.
///
/// SVG1.1: <https://www.w3.org/TR/SVG11/text.html#TextDecorationProperty>
#[derive(Debug, Clone, Copy, PartialEq, Eq, Structural)]
pub struct TextDecoration {
    pub overline: bool,
    pub underline: bool,
    pub strike: bool,
}

/// The decorations listed from `input` on, added to `d`, up to the end of the input.
pub open spec fn decorations_from(input: Seq<char>, d: TextDecoration) -> Result<
    (TextDecoration, Seq<char>),
    CssErrorKind,
>
    decreases input.len(),
{
    if exhausted(input) {
        Ok((d, input))
    } else if css_next(input).1.len() >= input.len() {
        // Never the case: reading a token consumes input.
        Err(CssErrorKind::EndOfInput)
    } else if starts_with_ident(input, "overline"@) {
        decorations_from(css_next(input).1, TextDecoration { overline: true, ..d })
    } else if starts_with_ident(input, "underline"@) {
        decorations_from(css_next(input).1, TextDecoration { underline: true, ..d })
    } else if starts_with_ident(input, "line-through"@) {
        decorations_from(css_next(input).1, TextDecoration { strike: true, ..d })
    } else {
        Err(CssErrorKind::UnexpectedToken)
    }
}

/// What reading a `text-decoration` value from the start of `input` gives.
pub open spec fn text_decoration_spec(input: Seq<char>) -> Result<(TextDecoration, Seq<char>), CssErrorKind> {
    let none = TextDecoration { overline: false, underline: false, strike: false };
    if starts_with_ident(input, "none"@) {
        Ok((none, css_next(input).1))
    } else {
        decorations_from(input, none)
    }
}

impl TextDecoration {
    pub fn parse(input: &str) -> (r: Result<(TextDecoration, &str), CssParseError>)
        ensures
            match text_decoration_spec(input@) {
                Ok((d, rest)) => (r matches Ok((e, t)) && e == d && t@ == rest),
                Err(k) => (r matches Err(e) && e.kind() == k),
            },
    {
        let mut d = TextDecoration { overline: false, underline: false, strike: false };
        if ident_matches(input, "none") {
            let (_, rest) = next_token(input);
            return Ok((d, rest));
        }
        let mut cur = input;
        assert(input@.subrange(0, input@.len() as int) =~= input@);
        while !is_exhausted(cur)
            invariant
                text_decoration_spec(input@) == decorations_from(cur@, d),
                !starts_with_ident(input@, "none"@),
                is_suffix(cur@, input@),
            decreases cur@.len(),
        {
            let (_, rest) = next_token(cur);
            if ident_matches(cur, "overline") {
                d = TextDecoration { overline: true, ..d };
            } else if ident_matches(cur, "underline") {
                d = TextDecoration { underline: true, ..d };
            } else if ident_matches(cur, "line-through") {
                d = TextDecoration { strike: true, ..d };
            } else {
                return Err(CssParseError::UnexpectedToken);
            }
            proof {
                lemma_suffix_trans(rest@, cur@, input@);
            }
            cur = rest;
        }
        Ok((d, cur))
    }

    pub fn parse_str(s: &str) -> (r: Result<TextDecoration, CssParseError>)
        ensures
            match text_decoration_spec(s@) {
                Ok((d, rest)) => if exhausted(rest) {
                    r == Ok::<TextDecoration, CssParseError>(d)
                } else {
                    r matches Err(e) && e.kind() == CssErrorKind::UnexpectedToken
                },
                Err(k) => (r matches Err(e) && e.kind() == k),
            },
    {
        match TextDecoration::parse(s) {
            Ok((d, rest)) => {
                if is_exhausted(rest) {
                    Ok(d)
                } else {
                    Err(CssParseError::UnexpectedToken)
                }
            },
            Err(e) => Err(e),
        }
    }
}

/// `filter` property: `none`, or a list of filter values.
///
/// Filter Effects 1: <https://www.w3.org/TR/filter-effects/#FilterProperty>
///
/// Note that in SVG2, the filters got offloaded to the [Filter Effects Module Level
/// 1](https://www.w3.org/TR/filter-effects/) specification.
#[derive(Debug, PartialEq, Eq)]
pub enum Filter {
    /// The keyword `none`, which is also the default.
    NoFilter,
    List(FilterValueList),
}

/// What a [`Filter`] is in specifications.
pub enum FilterView {
    NoFilter,
    List(Seq<FilterValueView>),
}

impl Filter {
    pub open spec fn view(&self) -> FilterView {
        match self {
            Filter::NoFilter => FilterView::NoFilter,
            Filter::List(l) => FilterView::List(l.view()),
        }
    }
}

/// The value of the `filter` property that makes up all of `input`: the keyword `none`,
/// or else a list of filter values.
pub open spec fn filter_property_spec(input: Seq<char>) -> Result<FilterView, CssErrorKind> {
    if starts_with_ident(input, "none"@) {
        if exhausted(css_next(input).1) {
            Ok(FilterView::NoFilter)
        } else {
            Err(CssErrorKind::UnexpectedToken)
        }
    } else {
        match filter_values_spec(input) {
            Ok(vs) => Ok(FilterView::List(vs)),
            Err(k) => Err(k),
        }
    }
}

impl Default for Filter {
    fn default() -> (f: Filter)
        ensures
            f == Filter::NoFilter,
    {
        Filter::NoFilter
    }
}

impl Filter {
    /// Parses the whole of `s` as the value of the property.
    pub fn parse_str(s: &str) -> (r: Result<Filter, CssParseError>)
        ensures
            match filter_property_spec(s@) {
                Ok(f) => (r matches Ok(g) && g.view() == f),
                Err(k) => (r matches Err(e) && e.kind() == k),
            },
    {
        if ident_matches(s, "none") {
            let (_, rest) = next_token(s);
            if is_exhausted(rest) {
                Ok(Filter::NoFilter)
            } else {
                Err(CssParseError::UnexpectedToken)
            }
        } else {
            match FilterValueList::parse_str(s) {
                Ok(l) => Ok(Filter::List(l)),
                Err(e) => Err(e),
            }
        }
    }
}

/// `writing-mode` property.
///
/// SVG1.1: <https://www.w3.org/TR/SVG11/text.html#WritingModeProperty>
///
/// SVG2: <https://svgwg.org/svg2-draft/text.html#WritingModeProperty>
///
/// CSS Writing Modes 3: <https://www.w3.org/TR/css-writing-modes-3/#block-flow>
///
/// See the comments in the SVG2 spec for how the SVG1.1 values must be translated
/// into CSS Writing Modes 3 values.
#[derive(Debug, Clone, Copy, PartialEq, Eq, Structural)]
pub enum WritingMode {
    HorizontalTb,
    VerticalRl,
    VerticalLr,
    Lr,
    LrTb,
    Rl,
    RlTb,
    Tb,
    TbRl,
}

/// The keywords of the writing modes, in the order of [`WritingMode`]'s variants.
pub open spec fn writing_mode_keywords() -> Seq<Seq<char>> {
    seq![
        "horizontal-tb"@,
        "vertical-rl"@,
        "vertical-lr"@,
        "lr"@,
        "lr-tb"@,
        "rl"@,
        "rl-tb"@,
        "tb"@,
        "tb-rl"@
    ]
}

/// The writing mode at position `i` of [`writing_mode_keywords`].
pub open spec fn writing_mode_at(i: nat) -> WritingMode {
    if i == 0 {
        WritingMode::HorizontalTb
    } else if i == 1 {
        WritingMode::VerticalRl
    } else if i == 2 {
        WritingMode::VerticalLr
    } else if i == 3 {
        WritingMode::Lr
    } else if i == 4 {
        WritingMode::LrTb
    } else if i == 5 {
        WritingMode::Rl
    } else if i == 6 {
        WritingMode::RlTb
    } else if i == 7 {
        WritingMode::Tb
    } else {
        WritingMode::TbRl
    }
}

/// The keyword that names each writing mode.
pub open spec fn writing_mode_name(m: WritingMode) -> Seq<char> {
    match m {
        WritingMode::HorizontalTb => "horizontal-tb"@,
        WritingMode::VerticalRl => "vertical-rl"@,
        WritingMode::VerticalLr => "vertical-lr"@,
        WritingMode::Lr => "lr"@,
        WritingMode::LrTb => "lr-tb"@,
        WritingMode::Rl => "rl"@,
        WritingMode::RlTb => "rl-tb"@,
        WritingMode::Tb => "tb"@,
        WritingMode::TbRl => "tb-rl"@,
    }
}

/// A writing mode is read from an identifier that is that mode's own keyword, ignoring
/// ASCII case: whatever mode reading a keyword gives, the identifier read names it.
pub proof fn lemma_writing_mode_is_named_by_its_keyword(input: Seq<char>)
    ensures
        keyword_spec(input, writing_mode_keywords()) matches Ok((i, rest)) ==> (css_next(input).0 matches Some(
            CssTokenView::Ident(id),
        ) && eq_ignore_ascii_case(id, writing_mode_name(writing_mode_at(i))) && rest == css_next(input).1),
{
    lemma_keyword_spec_matches(input, writing_mode_keywords());
    if let Ok((i, _)) = keyword_spec(input, writing_mode_keywords()) {
        assert(writing_mode_name(writing_mode_at(i)) == writing_mode_keywords()[i as int]);
    }
}

/// Whether lines in `m` run horizontally.
pub open spec fn horizontal(m: WritingMode) -> bool {
    matches!(m, WritingMode::HorizontalTb | WritingMode::Lr | WritingMode::LrTb | WritingMode::Rl | WritingMode::RlTb)
}

/// The CSS Writing Modes 3 value that `m` stands for: the SVG1.1 values become
/// `horizontal-tb` or `vertical-rl`.
pub open spec fn computed_writing_mode(m: WritingMode) -> WritingMode {
    match m {
        WritingMode::Lr | WritingMode::LrTb | WritingMode::Rl | WritingMode::RlTb => WritingMode::HorizontalTb,
        WritingMode::Tb | WritingMode::TbRl => WritingMode::VerticalRl,
        _ => m,
    }
}

impl Default for WritingMode {
    fn default() -> (m: WritingMode)
        ensures
            m == WritingMode::HorizontalTb,
    {
        WritingMode::HorizontalTb
    }
}

impl WritingMode {
    /// Parses the whole of `s` as one of the keywords, ignoring ASCII case.
    pub fn parse_str(s: &str) -> (r: Result<WritingMode, CssParseError>)
        ensures
            match keyword_spec(s@, writing_mode_keywords()) {
                Ok((i, rest)) => if exhausted(rest) {
                    r == Ok::<WritingMode, CssParseError>(writing_mode_at(i))
                } else {
                    r matches Err(e) && e.kind() == CssErrorKind::UnexpectedToken
                },
                Err(k) => (r matches Err(e) && e.kind() == k),
            },
    {
        let keywords = [
            "horizontal-tb",
            "vertical-rl",
            "vertical-lr",
            "lr",
            "lr-tb",
            "rl",
            "rl-tb",
            "tb",
            "tb-rl",
        ];
        proof {
            reveal_strlit("horizontal-tb");
            reveal_strlit("vertical-rl");
            reveal_strlit("vertical-lr");
            reveal_strlit("lr");
            reveal_strlit("lr-tb");
            reveal_strlit("rl");
            reveal_strlit("rl-tb");
            reveal_strlit("tb");
            reveal_strlit("tb-rl");
            assert(keywords@.map_values(|k: &str| k@) =~= writing_mode_keywords());
        }
        let (i, rest) = match parse_keyword(s, &keywords) {
            Ok(p) => p,
            Err(e) => return Err(e),
        };
        if !is_exhausted(rest) {
            return Err(CssParseError::UnexpectedToken);
        }
        let m = if i == 0 {
            WritingMode::HorizontalTb
        } else if i == 1 {
            WritingMode::VerticalRl
        } else if i == 2 {
            WritingMode::VerticalLr
        } else if i == 3 {
            WritingMode::Lr
        } else if i == 4 {
            WritingMode::LrTb
        } else if i == 5 {
            WritingMode::Rl
        } else if i == 6 {
            WritingMode::RlTb
        } else if i == 7 {
            WritingMode::Tb
        } else {
            WritingMode::TbRl
        };
        Ok(m)
    }

    /// Translates the SVG1.1 compatibility values to SVG2 / CSS Writing Modes 3.
    pub fn compute(&self) -> (m: WritingMode)
        ensures
            m == computed_writing_mode(*self),
    {
        match *self {
            WritingMode::Lr | WritingMode::LrTb | WritingMode::Rl | WritingMode::RlTb => WritingMode::HorizontalTb,
            WritingMode::Tb | WritingMode::TbRl => WritingMode::VerticalRl,
            _ => *self,
        }
    }

    /// Whether lines run horizontally in this writing mode.
    pub fn is_horizontal(self) -> (r: bool)
        ensures
            r == horizontal(self),
    {
        match self {
            WritingMode::HorizontalTb | WritingMode::Lr | WritingMode::LrTb | WritingMode::Rl | WritingMode::RlTb => true,
            _ => false,
        }
    }
}

/// Computing a writing mode keeps the direction of its lines, and a computed writing mode
/// computes to itself.
pub proof fn lemma_computed_writing_mode_keeps_direction(m: WritingMode)
    ensures
        horizontal(computed_writing_mode(m)) == horizontal(m),
        computed_writing_mode(computed_writing_mode(m)) == computed_writing_mode(m),
{
}

/// `xml:lang` attribute.
///
/// XML1.0: <https://www.w3.org/TR/xml/#sec-lang-tag>
///
/// Similar to `XmlSpace`, this is a hack in librsvg: the `xml:lang` attribute is supposed
/// to apply to an element and all its children, which works like CSS property inheritance.
pub struct XmlLang(pub Option<Tag>);

/// The value of `xml:lang` at the start of `input`: the text of an identifier that is a
/// valid language tag, and the input after it.
pub open spec fn xml_lang_spec(input: Seq<char>) -> Result<(Seq<char>, Seq<char>), CssErrorKind> {
    match css_next(input).0 {
        Some(CssTokenView::Ident(id)) => if language_tag_parses(id) {
            Ok((id, css_next(input).1))
        } else {
            Err(CssErrorKind::Custom)
        },
        t => Err(crate::css::unexpected(t)),
    }
}

impl Default for XmlLang {
    fn default() -> (l: XmlLang)
        ensures
            l.0 is None,
    {
        XmlLang(None)
    }
}

impl XmlLang {
    /// Parses the whole of `s` as a language tag.
    pub fn parse_str(s: &str) -> (r: Result<XmlLang, CssParseError>)
        ensures
            match xml_lang_spec(s@) {
                Ok((id, rest)) => if exhausted(rest) {
                    r matches Ok(XmlLang(Some(t))) && t@ == id
                } else {
                    r matches Err(e) && e.kind() == CssErrorKind::UnexpectedToken
                },
                Err(k) => (r matches Err(e) && e.kind() == k),
            },
            r matches Err(CssParseError::Custom(v)) ==> (v matches ValueErrorKind::Parse(m)
                && m@ == "invalid syntax for 'xml:lang' parameter"@),
    {
        let (t, rest) = next_token(s);
        let id = match t {
            Some(CssToken::Ident(id)) => id,
            Some(_) => return Err(CssParseError::UnexpectedToken),
            None => return Err(CssParseError::EndOfInput),
        };
        let tag = match Tag::parse(id.as_str()) {
            Ok(tag) => tag,
            Err(_) => {
                return Err(
                    CssParseError::Custom(ValueErrorKind::parse_error("invalid syntax for 'xml:lang' parameter")),
                )
            },
        };
        if !is_exhausted(rest) {
            return Err(CssParseError::UnexpectedToken);
        }
        Ok(XmlLang(Some(tag)))
    }
}

} // verus!
