//! Gradient paint servers: the spread method and the stops.

use vstd::prelude::*;

use crate::css::{
    css_next, exhausted, f32_is_finite, f32_is_non_negative, is_exhausted, keyword_spec,
    lemma_keyword_spec_matches, parse_keyword, value_of, CssErrorKind, CssNumber, CssParseError,
    CssTokenView, Parse, ONE_BITS,
};
use crate::strings::eq_ignore_ascii_case;
use crate::filter_func::{number_or_percentage, number_or_percentage_spec};
use crate::document::{
    acquire_outcome, node_id_spec, AcquireOutcome, AcquiredNodes, Document, Node, NodeId,
    NodeIdView, NodeKindView, NodeStack, Tree, MAX_REFERENCED_ELEMENTS,
};
use crate::error::AcquireError;
use crate::filter::{coord_units_at, coord_units_keywords, length_value, CoordUnits};
use crate::length::{percent, Both, Horizontal, Length, LengthUnit, Signed, Vertical};
use crate::strings::str_eq;

verus! {

/// How a gradient continues outside its vector.
#[derive(Debug, Clone, Copy, PartialEq, Eq, Structural)]
pub enum SpreadMethod {
    Pad,
    Reflect,
    Repeat,
}

/// The keywords of the spread methods, in the order of [`SpreadMethod`]'s variants.
pub open spec fn spread_method_keywords() -> Seq<Seq<char>> {
    seq!["pad"@, "reflect"@, "repeat"@]
}

/// The spread method at position `i` of [`spread_method_keywords`].
pub open spec fn spread_method_at(i: nat) -> SpreadMethod {
    if i == 0 {
        SpreadMethod::Pad
    } else if i == 1 {
        SpreadMethod::Reflect
    } else {
        SpreadMethod::Repeat
    }
}

impl Default for SpreadMethod {
    /// The spread method of a gradient that does not give one.
    fn default() -> (s: SpreadMethod)
        ensures
            s == SpreadMethod::Pad,
    {
        SpreadMethod::Pad
    }
}

/// The keyword that names each spread method.
pub open spec fn spread_method_name(m: SpreadMethod) -> Seq<char> {
    match m {
        SpreadMethod::Pad => "pad"@,
        SpreadMethod::Reflect => "reflect"@,
        SpreadMethod::Repeat => "repeat"@,
    }
}

/// A spread method is read from an identifier that is that method's own keyword, ignoring
/// ASCII case: whatever spread method parsing gives, the identifier read names it.
pub proof fn lemma_spread_method_is_named_by_its_keyword(input: Seq<char>)
    ensures
        <SpreadMethod as Parse>::parse_spec(input) matches Ok((m, rest)) ==> (css_next(input).0 matches Some(
            CssTokenView::Ident(id),
        ) && eq_ignore_ascii_case(id, spread_method_name(m)) && rest == css_next(input).1),
{
    lemma_keyword_spec_matches(input, spread_method_keywords());
    if let Ok((i, _)) = keyword_spec(input, spread_method_keywords()) {
        assert(spread_method_name(spread_method_at(i)) == spread_method_keywords()[i as int]);
    }
}

impl Parse for SpreadMethod {
    open spec fn parse_spec(input: Seq<char>) -> Result<(SpreadMethod, Seq<char>), CssErrorKind> {
        match keyword_spec(input, spread_method_keywords()) {
            Ok((i, rest)) => Ok((spread_method_at(i), rest)),
            Err(k) => Err(k),
        }
    }

    /// Parses a keyword, ignoring ASCII case.
    fn parse(input: &str) -> (r: Result<(SpreadMethod, &str), CssParseError>) {
        let keywords = ["pad", "reflect", "repeat"];
        proof {
            reveal_strlit("pad");
            reveal_strlit("reflect");
            reveal_strlit("repeat");
        }
        assert(keywords@.map_values(|k: &str| k@) =~= spread_method_keywords());
        match parse_keyword(input, &keywords) {
            Ok((i, rest)) => {
                let v = if i == 0 {
                    SpreadMethod::Pad
                } else if i == 1 {
                    SpreadMethod::Reflect
                } else {
                    SpreadMethod::Repeat
                };
                Ok((v, rest))
            },
            Err(e) => Err(e),
        }
    }
}

/// Node for the `<stop>` element: the offset of the stop along the gradient vector, a
/// number in `[0, 1]` given as the bits of an `f32`.
#[derive(Debug, Clone, Copy, PartialEq, Eq, Structural)]
pub struct Stop {
    pub offset: CssNumber,
}

impl Stop {
    /// A stop at offset 0.
    pub fn new() -> (s: Stop)
        ensures
            s.offset == CssNumber(0),
    {
        Stop { offset: CssNumber(0) }
    }
}

/// The number with bits `bits` clamped to `[0, 1]`; `-0` stays as it is.
pub open spec fn unit_clamp(bits: u32) -> u32 {
    if (bits >> 31u32) == 1u32 && bits != 0x8000_0000u32 {
        0
    } else if (bits >> 31u32) == 0u32 && bits > ONE_BITS {
        ONE_BITS
    } else {
        bits
    }
}

fn clamp_to_unit(bits: u32) -> (r: u32)
    ensures
        r == unit_clamp(bits),
{
    if (bits >> 31u32) == 1u32 && bits != 0x8000_0000u32 {
        0
    } else if (bits >> 31u32) == 0u32 && bits > ONE_BITS {
        ONE_BITS
    } else {
        bits
    }
}

/// The value of an `offset` attribute: one number or percentage (`1` for `100%`), alone,
/// clamped to `[0, 1]`; `None` if the value is anything else.
pub open spec fn stop_offset_spec(value: Seq<char>) -> Option<CssNumber> {
    match number_or_percentage_spec(value) {
        Some((v, rest)) => if exhausted(rest) {
            Some(CssNumber(unit_clamp(v)))
        } else {
            None
        },
        None => None,
    }
}

/// The offset of a stop after its attributes `attrs`, in order, starting from `offset`;
/// `None` at the first invalid `offset` attribute.
pub open spec fn stop_attributes(offset: CssNumber, attrs: Seq<(Seq<char>, Seq<char>)>) -> Option<CssNumber>
    decreases attrs.len(),
{
    if attrs.len() == 0 {
        Some(offset)
    } else if attrs[0].0 == "offset"@ {
        match stop_offset_spec(attrs[0].1) {
            Some(o) => stop_attributes(o, attrs.drop_first()),
            None => None,
        }
    } else {
        stop_attributes(offset, attrs.drop_first())
    }
}

/// A finite number clamped to `[0, 1]` is a valid offset.
pub proof fn lemma_clamped_offset_is_unit(bits: u32)
    requires
        f32_is_finite(bits),
    ensures
        is_unit_offset(unit_clamp(bits)),
{
    assert(bits >> 31u32 == 0u32 || bits >> 31u32 == 1u32) by (bit_vector);
    assert(f32_is_non_negative(0u32) && f32_is_non_negative(ONE_BITS)) by (bit_vector);
    assert(f32_is_finite(bits) && (bits >> 31u32) == 0u32 ==> f32_is_non_negative(bits)) by (bit_vector);
    assert(f32_is_finite(bits) && bits == 0x8000_0000u32 ==> f32_is_non_negative(bits)) by (bit_vector);
}

/// Every offset that the attributes of a stop give, starting from a valid one, is in
/// `[0, 1]`.
pub proof fn lemma_stop_offset_is_unit(offset: CssNumber, attrs: Seq<(Seq<char>, Seq<char>)>)
    requires
        is_unit_offset(offset.0),
        stop_attributes(offset, attrs) is Some,
    ensures
        is_unit_offset(stop_attributes(offset, attrs)->Some_0.0),
    decreases attrs.len(),
{
    if attrs.len() > 0 {
        if attrs[0].0 == "offset"@ {
            let (v, _) = number_or_percentage_spec(attrs[0].1)->Some_0;
            lemma_clamped_offset_is_unit(v);
            lemma_stop_offset_is_unit(CssNumber(unit_clamp(v)), attrs.drop_first());
        } else {
            lemma_stop_offset_is_unit(offset, attrs.drop_first());
        }
    }
}

impl Stop {
    /// Reads the `offset` attributes, in order: each is a number or a percentage, clamped
    /// to `[0, 1]`.  An invalid one is an error.
    pub fn set_attributes(&mut self, attrs: &Vec<(String, String)>) -> (r: Result<(), CssParseError>)
        ensures
            match stop_attributes(old(self).offset, attrs@.map_values(|a: (String, String)| (a.0@, a.1@))) {
                Some(o) => r is Ok && final(self).offset == o,
                None => r is Err,
            },
    {
        let ghost av = attrs@.map_values(|a: (String, String)| (a.0@, a.1@));
        let mut i: usize = 0;
        assert(av.skip(0) =~= av);
        while i < attrs.len()
            invariant
                i <= attrs@.len(),
                av == attrs@.map_values(|a: (String, String)| (a.0@, a.1@)),
                stop_attributes(old(self).offset, av) == stop_attributes(self.offset, av.skip(i as int)),
            decreases attrs@.len() - i,
        {
            assert(av.skip(i as int)[0] == av[i as int]);
            assert(av.skip(i as int).drop_first() =~= av.skip(i + 1));
            if str_eq(attrs[i].0.as_str(), "offset") {
                match number_or_percentage(attrs[i].1.as_str()) {
                    Some((v, rest)) => {
                        if !is_exhausted(rest) {
                            return Err(CssParseError::UnexpectedToken);
                        }
                        self.offset = CssNumber(clamp_to_unit(v));
                    },
                    None => return Err(CssParseError::UnexpectedToken),
                }
            }
            i = i + 1;
        }
        assert(av.skip(i as int).len() == 0);
        Ok(())
    }
}


/// The offset of the child `i` of a gradient if it is a `<stop>` element whose
/// attributes are valid; a stop in error is not used.
pub open spec fn child_stop_offset(t: Tree, i: int) -> Option<CssNumber> {
    match t.kind(i) {
        NodeKindView::Element { name, .. } => if name == "stop"@ {
            match t.attributes(i) {
                Some(attrs) => stop_attributes(CssNumber(0), attrs),
                None => None,
            }
        } else {
            None
        },
        _ => None,
    }
}

/// The offsets of the usable `<stop>` elements among the child `c` and the children
/// before it, in document order.
pub open spec fn stop_offsets_upto(t: Tree, c: Option<usize>) -> Seq<CssNumber>
    decreases (match c {
        Some(i) => i + 1,
        None => 0,
    }),
{
    match c {
        None => Seq::empty(),
        Some(i) => if i >= t.len() {
            Seq::empty()
        } else {
            let before = match t.prev_sibling(i as int) {
                Some(p) => if p < i {
                    stop_offsets_upto(t, Some(p))
                } else {
                    Seq::empty()
                },
                None => Seq::empty(),
            };
            match child_stop_offset(t, i as int) {
                Some(o) => before.push(o),
                None => before,
            }
        },
    }
}

/// Every offset that the stops of a gradient give is in `[0, 1]`.
pub proof fn lemma_stop_offsets_are_unit(t: Tree, c: Option<usize>)
    ensures
        forall|k: int| 0 <= k < stop_offsets_upto(t, c).len() ==> is_unit_offset(#[trigger] stop_offsets_upto(t, c)[k].0),
    decreases (match c {
        Some(i) => i + 1,
        None => 0,
    }),
{
    if let Some(i) = c {
        if i < t.len() {
            let before = match t.prev_sibling(i as int) {
                Some(p) => if p < i {
                    stop_offsets_upto(t, Some(p))
                } else {
                    Seq::empty()
                },
                None => Seq::empty(),
            };
            if let Some(p) = t.prev_sibling(i as int) {
                if p < i {
                    lemma_stop_offsets_are_unit(t, Some(p));
                }
            }
            if let Some(o) = child_stop_offset(t, i as int) {
                let attrs = t.attributes(i as int)->Some_0;
                assert(f32_is_non_negative(0u32)) by (bit_vector);
                lemma_stop_offset_is_unit(CssNumber(0), attrs);
                assert(stop_offsets_upto(t, c) == before.push(o));
                assert forall|k: int| 0 <= k < before.push(o).len() implies is_unit_offset(
                    #[trigger] before.push(o)[k].0,
                ) by {
                    if k < before.len() {
                        assert(before.push(o)[k] == before[k]);
                    }
                }
            }
        }
    }
}

/// The offsets of the `<stop>` children of the gradient element `node` that are not in
/// error, in document order.  The colors of the stops come from their style.
pub fn stop_offsets(t: &Tree, node: usize) -> (r: Vec<CssNumber>)
    requires
        t.wf(),
        node < t.len(),
    ensures
        r@ == stop_offsets_upto(*t, t.last_child(node as int)),
        forall|k: int| 0 <= k < r@.len() ==> is_unit_offset(#[trigger] r@[k].0),
{
    let mut offsets: Vec<CssNumber> = Vec::new();
    let mut c = t.last_child_of(node);
    assert(stop_offsets_upto(*t, c) + Seq::<CssNumber>::empty() =~= stop_offsets_upto(*t, c));
    while c.is_some()
        invariant
            t.wf(),
            c matches Some(i) ==> i < t.len(),
            stop_offsets_upto(*t, t.last_child(node as int)) == stop_offsets_upto(*t, c) + offsets@,
        decreases (match c {
            Some(i) => i + 1,
            None => 0,
        }),
    {
        let i = c.unwrap();
        let prev = t.prev_sibling_of(i);
        let ghost acc = offsets@;
        if t.is_element_named(i, "stop") {
            let attrs = t.element_attributes(i).unwrap();
            let mut stop = Stop::new();
            match stop.set_attributes(attrs) {
                Ok(()) => {
                    offsets.insert(0, stop.offset);
                    proof {
                        let b = stop_offsets_upto(*t, prev);
                        assert(b.push(stop.offset) + acc =~= b + offsets@);
                    }
                },
                Err(_) => {},
            }
        }
        c = prev;
    }
    proof {
        assert(Seq::<CssNumber>::empty() + offsets@ =~= offsets@);
        lemma_stop_offsets_are_unit(*t, t.last_child(node as int));
    }
    offsets
}

/// The bits of the `f32` numbers 0.5 and 1.
pub const HALF_BITS: u32 = 0x3f00_0000u32;


/// Parameters specific to each gradient type, before being resolved.  These are
/// composed together with those of fallback gradients (referenced with e.g.
/// `<linearGradient xlink:href="#fallback">`) to form the final, resolved parameters.
#[derive(Debug, PartialEq, Eq)]
pub enum UnresolvedVariant {
    Linear {
        x1: Option<Length<Horizontal>>,
        y1: Option<Length<Vertical>>,
        x2: Option<Length<Horizontal>>,
        y2: Option<Length<Vertical>>,
    },
    Radial {
        cx: Option<Length<Horizontal>>,
        cy: Option<Length<Vertical>>,
        r: Option<Length<Both>>,
        fx: Option<Length<Horizontal>>,
        fy: Option<Length<Vertical>>,
        fr: Option<Length<Both>>,
    },
}

/// Parameters specific to each gradient type, after resolving.
#[derive(Debug, PartialEq, Eq)]
pub enum ResolvedGradientVariant {
    Linear {
        x1: Length<Horizontal>,
        y1: Length<Vertical>,
        x2: Length<Horizontal>,
        y2: Length<Vertical>,
    },
    Radial {
        cx: Length<Horizontal>,
        cy: Length<Vertical>,
        r: Length<Both>,
        fx: Length<Horizontal>,
        fy: Length<Vertical>,
        fr: Length<Both>,
    },
}

impl ResolvedGradientVariant {
    /// These parameters, each one given.
    pub open spec fn as_unresolved(self) -> UnresolvedVariant {
        match self {
            ResolvedGradientVariant::Linear { x1, y1, x2, y2 } => UnresolvedVariant::Linear {
                x1: Some(x1),
                y1: Some(y1),
                x2: Some(x2),
                y2: Some(y2),
            },
            ResolvedGradientVariant::Radial { cx, cy, r, fx, fy, fr } => UnresolvedVariant::Radial {
                cx: Some(cx),
                cy: Some(cy),
                r: Some(r),
                fx: Some(fx),
                fy: Some(fy),
                fr: Some(fr),
            },
        }
    }
}

fn copy_length<N, V>(l: &crate::length::CssLength<N, V>) -> (r: crate::length::CssLength<N, V>)
    ensures
        r == *l,
{
    crate::length::CssLength::new(l.length, l.unit)
}

fn copy_opt<N, V>(l: &Option<crate::length::CssLength<N, V>>) -> (r: Option<crate::length::CssLength<N, V>>)
    ensures
        r == *l,
{
    match l {
        Some(l) => Some(copy_length(l)),
        None => None,
    }
}

/// `a`, or `b` where `a` is not given.
fn or_length<N, V>(a: &Option<crate::length::CssLength<N, V>>, b: &Option<crate::length::CssLength<N, V>>) -> (r: Option<crate::length::CssLength<N, V>>)
    ensures
        r == match *a {
            Some(x) => Some(x),
            None => *b,
        },
{
    match a {
        Some(x) => Some(copy_length(x)),
        None => copy_opt(b),
    }
}

/// `a`, or a percentage of `bits` where `a` is not given.
fn or_percent<N, V>(a: &Option<crate::length::CssLength<N, V>>, bits: u32) -> (r: Option<crate::length::CssLength<N, V>>)
    ensures
        r == match *a {
            Some(x) => Some(x),
            None => Some(percent::<N, V>(bits)),
        },
{
    match a {
        Some(x) => Some(copy_length(x)),
        None => Some(crate::length::CssLength::new(CssNumber(bits), LengthUnit::Percent)),
    }
}

pub open spec fn opt_or<T>(a: Option<T>, b: Option<T>) -> Option<T> {
    match a {
        Some(x) => Some(x),
        None => b,
    }
}

impl UnresolvedVariant {
    /// Whether every parameter is given.
    pub open spec fn is_resolved_spec(&self) -> bool {
        match self {
            UnresolvedVariant::Linear { x1, y1, x2, y2 } => x1 is Some && y1 is Some && x2 is Some
                && y2 is Some,
            UnresolvedVariant::Radial { cx, cy, r, fx, fy, fr } => cx is Some && cy is Some && r
                is Some && fx is Some && fy is Some && fr is Some,
        }
    }

    /// Each parameter not given here taken from `fallback`, when both are of the same
    /// type; otherwise nothing changes.
    pub open spec fn fallback_spec(self, fallback: UnresolvedVariant) -> UnresolvedVariant {
        match (self, fallback) {
            (
                UnresolvedVariant::Linear { x1, y1, x2, y2 },
                UnresolvedVariant::Linear { x1: fx1, y1: fy1, x2: fx2, y2: fy2 },
            ) => UnresolvedVariant::Linear {
                x1: opt_or(x1, fx1),
                y1: opt_or(y1, fy1),
                x2: opt_or(x2, fx2),
                y2: opt_or(y2, fy2),
            },
            (
                UnresolvedVariant::Radial { cx, cy, r, fx, fy, fr },
                UnresolvedVariant::Radial { cx: f_cx, cy: f_cy, r: f_r, fx: f_fx, fy: f_fy, fr: f_fr },
            ) => UnresolvedVariant::Radial {
                cx: opt_or(cx, f_cx),
                cy: opt_or(cy, f_cy),
                r: opt_or(r, f_r),
                fx: opt_or(fx, f_fx),
                fy: opt_or(fy, f_fy),
                fr: opt_or(fr, f_fr),
            },
            _ => self,
        }
    }

    /// Each parameter not given set to its default: a linear gradient goes from 0% to
    /// 100% horizontally; a radial one is centered at 50%, 50% with radius 50%, its focus
    /// is at the center, and the focal radius is 0%.
    ///
    /// <https://www.w3.org/TR/SVG/pservers.html#LinearGradients>
    /// <https://www.w3.org/TR/SVG/pservers.html#RadialGradients>
    pub open spec fn defaults_spec(self) -> UnresolvedVariant {
        match self {
            UnresolvedVariant::Linear { x1, y1, x2, y2 } => UnresolvedVariant::Linear {
                x1: opt_or(x1, Some(percent(0))),
                y1: opt_or(y1, Some(percent(0))),
                x2: opt_or(x2, Some(percent(ONE_BITS))),
                y2: opt_or(y2, Some(percent(0))),
            },
            UnresolvedVariant::Radial { cx, cy, r, fx, fy, fr } => {
                let cx = opt_or(cx, Some(percent(HALF_BITS)));
                let cy = opt_or(cy, Some(percent(HALF_BITS)));
                UnresolvedVariant::Radial {
                    cx,
                    cy,
                    r: opt_or(r, Some(percent(HALF_BITS))),
                    fx: opt_or(fx, cx),
                    fy: opt_or(fy, cy),
                    fr: opt_or(fr, Some(percent(0))),
                }
            },
        }
    }

    pub fn is_resolved(&self) -> (r: bool)
        ensures
            r == self.is_resolved_spec(),
    {
        match self {
            UnresolvedVariant::Linear { x1, y1, x2, y2 } => x1.is_some() && y1.is_some()
                && x2.is_some() && y2.is_some(),
            UnresolvedVariant::Radial { cx, cy, r, fx, fy, fr } => cx.is_some() && cy.is_some()
                && r.is_some() && fx.is_some() && fy.is_some() && fr.is_some(),
        }
    }

    pub fn resolve_from_fallback(&self, fallback: &UnresolvedVariant) -> (r: UnresolvedVariant)
        ensures
            r == self.fallback_spec(*fallback),
    {
        match (self, fallback) {
            (
                UnresolvedVariant::Linear { x1, y1, x2, y2 },
                UnresolvedVariant::Linear { x1: fx1, y1: fy1, x2: fx2, y2: fy2 },
            ) => UnresolvedVariant::Linear {
                x1: or_length(x1, fx1),
                y1: or_length(y1, fy1),
                x2: or_length(x2, fx2),
                y2: or_length(y2, fy2),
            },
            (
                UnresolvedVariant::Radial { cx, cy, r, fx, fy, fr },
                UnresolvedVariant::Radial { cx: f_cx, cy: f_cy, r: f_r, fx: f_fx, fy: f_fy, fr: f_fr },
            ) => UnresolvedVariant::Radial {
                cx: or_length(cx, f_cx),
                cy: or_length(cy, f_cy),
                r: or_length(r, f_r),
                fx: or_length(fx, f_fx),
                fy: or_length(fy, f_fy),
                fr: or_length(fr, f_fr),
            },
            _ => self.duplicate(),
        }
    }

    pub fn resolve_from_defaults(&self) -> (r: UnresolvedVariant)
        ensures
            r == self.defaults_spec(),
    {
        match self {
            UnresolvedVariant::Linear { x1, y1, x2, y2 } => UnresolvedVariant::Linear {
                x1: or_percent(x1, 0),
                y1: or_percent(y1, 0),
                x2: or_percent(x2, ONE_BITS),
                y2: or_percent(y2, 0),
            },
            UnresolvedVariant::Radial { cx, cy, r, fx, fy, fr } => {
                let cx = or_percent(cx, HALF_BITS);
                let cy = or_percent(cy, HALF_BITS);
                let r = or_percent(r, HALF_BITS);
                // fx and fy fall back to the presentational value of cx and cy
                let fx = or_length(fx, &cx);
                let fy = or_length(fy, &cy);
                let fr = or_percent(fr, 0);
                UnresolvedVariant::Radial { cx, cy, r, fx, fy, fr }
            },
        }
    }

    /// A copy of these parameters.
    pub fn duplicate(&self) -> (r: UnresolvedVariant)
        ensures
            r == *self,
    {
        match self {
            UnresolvedVariant::Linear { x1, y1, x2, y2 } => UnresolvedVariant::Linear {
                x1: copy_opt(x1),
                y1: copy_opt(y1),
                x2: copy_opt(x2),
                y2: copy_opt(y2),
            },
            UnresolvedVariant::Radial { cx, cy, r, fx, fy, fr } => UnresolvedVariant::Radial {
                cx: copy_opt(cx),
                cy: copy_opt(cy),
                r: copy_opt(r),
                fx: copy_opt(fx),
                fy: copy_opt(fy),
                fr: copy_opt(fr),
            },
        }
    }

    /// The parameters, once every one is given.
    pub fn into_resolved(self) -> (r: ResolvedGradientVariant)
        requires
            self.is_resolved_spec(),
        ensures
            r.as_unresolved() == self,
            match (self, r) {
                (
                    UnresolvedVariant::Linear { x1, y1, x2, y2 },
                    ResolvedGradientVariant::Linear { x1: a, y1: b, x2: c, y2: d },
                ) => x1 == Some(a) && y1 == Some(b) && x2 == Some(c) && y2 == Some(d),
                (
                    UnresolvedVariant::Radial { cx, cy, r, fx, fy, fr },
                    ResolvedGradientVariant::Radial { cx: a, cy: b, r: c, fx: d, fy: e, fr: f },
                ) => cx == Some(a) && cy == Some(b) && r == Some(c) && fx == Some(d) && fy == Some(e)
                    && fr == Some(f),
                _ => false,
            },
    {
        match self {
            UnresolvedVariant::Linear { x1, y1, x2, y2 } => ResolvedGradientVariant::Linear {
                x1: x1.unwrap(),
                y1: y1.unwrap(),
                x2: x2.unwrap(),
                y2: y2.unwrap(),
            },
            UnresolvedVariant::Radial { cx, cy, r, fx, fy, fr } => ResolvedGradientVariant::Radial {
                cx: cx.unwrap(),
                cy: cy.unwrap(),
                r: r.unwrap(),
                fx: fx.unwrap(),
                fy: fy.unwrap(),
                fr: fr.unwrap(),
            },
        }
    }
}

/// Filling in the defaults always gives parameters that are all given, and keeps every
/// parameter that was given.
pub proof fn lemma_defaults_resolve(v: UnresolvedVariant)
    ensures
        v.defaults_spec().is_resolved_spec(),
        v.is_resolved_spec() ==> v.defaults_spec() == v,
{
}

/// The defaults of the parameters that a gradient does not give: a linear gradient runs
/// from (0%, 0%) to (100%, 0%); a radial one is centered at (50%, 50%) with radius 50%,
/// its focus is its center and its focal radius is 0%.  A parameter that is given stays
/// as it is.
pub proof fn lemma_default_parameters(v: UnresolvedVariant)
    ensures
        match (v, v.defaults_spec()) {
            (
                UnresolvedVariant::Linear { x1, y1, x2, y2 },
                UnresolvedVariant::Linear { x1: a, y1: b, x2: c, y2: d },
            ) => {
                &&& a == (if x1 is Some { x1 } else { Some(percent(0u32)) })
                &&& b == (if y1 is Some { y1 } else { Some(percent(0u32)) })
                &&& c == (if x2 is Some { x2 } else { Some(percent(0x3f80_0000u32)) })
                &&& d == (if y2 is Some { y2 } else { Some(percent(0u32)) })
            },
            (
                UnresolvedVariant::Radial { cx, cy, r, fx, fy, fr },
                UnresolvedVariant::Radial { cx: a, cy: b, r: c, fx: d, fy: e, fr: g },
            ) => {
                &&& a == (if cx is Some { cx } else { Some(percent(0x3f00_0000u32)) })
                &&& b == (if cy is Some { cy } else { Some(percent(0x3f00_0000u32)) })
                &&& c == (if r is Some { r } else { Some(percent(0x3f00_0000u32)) })
                &&& d == (if fx is Some { fx } else { a })
                &&& e == (if fy is Some { fy } else { b })
                &&& g == (if fr is Some { fr } else { Some(percent(0u32)) })
            },
            _ => false,
        },
{
}

/// The defaults of a gradient's common parameters: coordinates relative to the bounding
/// box of the element, the identity transform, the `pad` spread method and no stops.
/// A parameter that is given stays as it is.
pub proof fn lemma_default_common_parameters(g: UnresolvedGradient)
    ensures
        g.defaults_spec().units == (if g.units is Some { g.units } else { Some(CoordUnits::ObjectBoundingBox) }),
        g.defaults_spec().transform == (if g.transform is Some {
            g.transform
        } else {
            Some(TransformSource::Identity)
        }),
        g.defaults_spec().spread == (if g.spread is Some { g.spread } else { Some(SpreadMethod::Pad) }),
        g.defaults_spec().stops == (if g.stops is Some { g.stops } else { Some(StopsSource::Empty) }),
        g.defaults_spec().variant == g.variant.defaults_spec(),
{
}

/// Taking parameters from a fallback keeps every parameter that was given, so parameters
/// that are all given stay as they are.
pub proof fn lemma_fallback_keeps_given(v: UnresolvedVariant, f: UnresolvedVariant)
    ensures
        v.is_resolved_spec() ==> v.fallback_spec(f) == v,
        v.is_resolved_spec() ==> v.fallback_spec(f).is_resolved_spec(),
{
}


/// Where the transform of a gradient comes from.
#[derive(Debug, Clone, Copy, PartialEq, Eq, Structural)]
pub enum TransformSource {
    /// No gradient in the chain gives a transform: the identity.
    Identity,
    /// The `gradientTransform` attribute of this gradient node.
    Attribute(Node),
}

/// Where the color stops of a gradient come from.
#[derive(Debug, Clone, Copy, PartialEq, Eq, Structural)]
pub enum StopsSource {
    /// No gradient in the chain has stops: there are none.
    Empty,
    /// The `<stop>` children of this gradient node.
    Children(Node),
}

/// The parameters of a gradient during resolution: a parameter that is `None` is not
/// specified yet.
#[derive(Debug, PartialEq, Eq)]
pub struct UnresolvedGradient {
    pub units: Option<CoordUnits>,
    pub transform: Option<TransformSource>,
    pub spread: Option<SpreadMethod>,
    pub stops: Option<StopsSource>,
    pub variant: UnresolvedVariant,
}

/// A gradient with every parameter resolved.
#[derive(Debug, PartialEq, Eq)]
pub struct ResolvedGradient {
    pub units: CoordUnits,
    pub transform: TransformSource,
    pub spread: SpreadMethod,
    pub stops: StopsSource,
    pub variant: ResolvedGradientVariant,
}

impl ResolvedGradient {
    /// These parameters, each one given.
    pub open spec fn as_unresolved(self) -> UnresolvedGradient {
        UnresolvedGradient {
            units: Some(self.units),
            transform: Some(self.transform),
            spread: Some(self.spread),
            stops: Some(self.stops),
            variant: self.variant.as_unresolved(),
        }
    }
}

impl UnresolvedGradient {
    pub open spec fn is_resolved_spec(&self) -> bool {
        self.units is Some && self.transform is Some && self.spread is Some && self.stops is Some
            && self.variant.is_resolved_spec()
    }

    pub open spec fn fallback_spec(self, f: UnresolvedGradient) -> UnresolvedGradient {
        UnresolvedGradient {
            units: opt_or(self.units, f.units),
            transform: opt_or(self.transform, f.transform),
            spread: opt_or(self.spread, f.spread),
            stops: opt_or(self.stops, f.stops),
            variant: self.variant.fallback_spec(f.variant),
        }
    }

    /// Unspecified units are the bounding box of the element; the transform is the
    /// identity, the spread method pads, and there are no stops.
    pub open spec fn defaults_spec(self) -> UnresolvedGradient {
        UnresolvedGradient {
            units: opt_or(self.units, Some(CoordUnits::ObjectBoundingBox)),
            transform: opt_or(self.transform, Some(TransformSource::Identity)),
            spread: opt_or(self.spread, Some(SpreadMethod::Pad)),
            stops: opt_or(self.stops, Some(StopsSource::Empty)),
            variant: self.variant.defaults_spec(),
        }
    }

    pub fn is_resolved(&self) -> (r: bool)
        ensures
            r == self.is_resolved_spec(),
    {
        self.units.is_some() && self.transform.is_some() && self.spread.is_some()
            && self.stops.is_some() && self.variant.is_resolved()
    }

    pub fn resolve_from_fallback(&self, f: &UnresolvedGradient) -> (r: UnresolvedGradient)
        ensures
            r == self.fallback_spec(*f),
    {
        UnresolvedGradient {
            units: match self.units {
                Some(u) => Some(u),
                None => f.units,
            },
            transform: match self.transform {
                Some(t) => Some(t),
                None => f.transform,
            },
            spread: match self.spread {
                Some(s) => Some(s),
                None => f.spread,
            },
            stops: match self.stops {
                Some(s) => Some(s),
                None => f.stops,
            },
            variant: self.variant.resolve_from_fallback(&f.variant),
        }
    }

    pub fn resolve_from_defaults(&self) -> (r: UnresolvedGradient)
        ensures
            r == self.defaults_spec(),
    {
        UnresolvedGradient {
            units: match self.units {
                Some(u) => Some(u),
                None => Some(CoordUnits::ObjectBoundingBox),
            },
            transform: match self.transform {
                Some(t) => Some(t),
                None => Some(TransformSource::Identity),
            },
            spread: match self.spread {
                Some(s) => Some(s),
                None => Some(SpreadMethod::Pad),
            },
            stops: match self.stops {
                Some(s) => Some(s),
                None => Some(StopsSource::Empty),
            },
            variant: self.variant.resolve_from_defaults(),
        }
    }

    pub fn into_resolved(self) -> (r: ResolvedGradient)
        requires
            self.is_resolved_spec(),
        ensures
            r.as_unresolved() == self,
            Some(r.units) == self.units,
            Some(r.transform) == self.transform,
            Some(r.spread) == self.spread,
            Some(r.stops) == self.stops,
    {
        ResolvedGradient {
            units: self.units.unwrap(),
            transform: self.transform.unwrap(),
            spread: self.spread.unwrap(),
            stops: self.stops.unwrap(),
            variant: self.variant.into_resolved(),
        }
    }
}

/// The gradient after the common attribute `name="value"` of the gradient `node`, and
/// the fallback reference; `None` if the value is invalid.  An `href` replaces the
/// reference; an `xlink:href` only sets it when there is none yet.
pub open spec fn common_attribute(
    g: UnresolvedGradient,
    fallback: Option<NodeIdView>,
    node: Node,
    name: Seq<char>,
    value: Seq<char>,
) -> Option<(UnresolvedGradient, Option<NodeIdView>)> {
    if name == "gradientUnits"@ {
        match keyword_spec(value, coord_units_keywords()) {
            Ok((i, _)) => Some((UnresolvedGradient { units: Some(coord_units_at(i)), ..g }, fallback)),
            Err(_) => None,
        }
    } else if name == "gradientTransform"@ {
        Some((UnresolvedGradient { transform: Some(TransformSource::Attribute(node)), ..g }, fallback))
    } else if name == "spreadMethod"@ {
        match keyword_spec(value, spread_method_keywords()) {
            Ok((i, _)) => Some((UnresolvedGradient { spread: Some(spread_method_at(i)), ..g }, fallback)),
            Err(_) => None,
        }
    } else if name == "href"@ || name == "xlink:href"@ {
        match node_id_spec(value) {
            None => None,
            Some(id) => Some(
                (g, if fallback is None || name != "xlink:href"@ {
                    Some(id)
                } else {
                    fallback
                }),
            ),
        }
    } else {
        Some((g, fallback))
    }
}

/// Reading an attribute common to both gradients sets exactly the parameter of that name:
/// `gradientUnits` and `spreadMethod` to the keyword read, `gradientTransform` to this
/// node's attribute, and `href` to the reference read, as `xlink:href` does unless a
/// reference was already read; the other parameters, the stops and the gradient-specific
/// parameters stay as they were, and the attribute is refused only when its value does not
/// give what that parameter is read from.
pub proof fn lemma_common_attribute_sets_its_parameter(
    g: UnresolvedGradient,
    fallback: Option<NodeIdView>,
    node: Node,
    name: Seq<char>,
    value: Seq<char>,
)
    ensures
        match common_attribute(g, fallback, node, name, value) {
            Some((h, fb)) => {
                &&& h.variant == g.variant && h.stops == g.stops
                &&& h.units == (if name == "gradientUnits"@ {
                    match keyword_spec(value, coord_units_keywords()) {
                        Ok((i, _)) => Some(coord_units_at(i)),
                        Err(_) => None,
                    }
                } else {
                    g.units
                })
                &&& h.transform == (if name == "gradientTransform"@ {
                    Some(TransformSource::Attribute(node))
                } else {
                    g.transform
                })
                &&& h.spread == (if name == "spreadMethod"@ { value_of::<SpreadMethod>(value) } else { g.spread })
                &&& fb == (if name == "href"@ || (name == "xlink:href"@ && fallback is None) {
                    node_id_spec(value)
                } else {
                    fallback
                })
                &&& name == "gradientUnits"@ ==> h.units is Some
                &&& name == "spreadMethod"@ ==> h.spread is Some
                &&& (name == "href"@ || name == "xlink:href"@) ==> node_id_spec(value) is Some
            },
            None => {
                ||| name == "gradientUnits"@ && keyword_spec(value, coord_units_keywords()) is Err
                ||| name == "spreadMethod"@ && value_of::<SpreadMethod>(value) is None
                ||| (name == "href"@ || name == "xlink:href"@) && node_id_spec(value) is None
            },
        },
{
    reveal_strlit("gradientUnits");
    reveal_strlit("gradientTransform");
    reveal_strlit("spreadMethod");
    reveal_strlit("href");
    reveal_strlit("xlink:href");
    assert("gradientUnits"@.len() == 13);
    assert("gradientTransform"@.len() == 17);
    assert("spreadMethod"@.len() == 12);
    assert("href"@.len() == 4);
    assert("xlink:href"@.len() == 10);
}

/// The common attributes applied in order, up to the first invalid one: the gradient,
/// the fallback reference, and whether every attribute was valid.
pub open spec fn common_attributes(
    g: UnresolvedGradient,
    fallback: Option<NodeIdView>,
    node: Node,
    attrs: Seq<(Seq<char>, Seq<char>)>,
) -> (UnresolvedGradient, Option<NodeIdView>, bool)
    decreases attrs.len(),
{
    if attrs.len() == 0 {
        (g, fallback, true)
    } else {
        match common_attribute(g, fallback, node, attrs[0].0, attrs[0].1) {
            Some((g2, f2)) => common_attributes(g2, f2, node, attrs.drop_first()),
            None => (g, fallback, false),
        }
    }
}

/// The parameters after the attribute `name="value"` of a linear or radial gradient, or
/// `None` if the value is invalid.
pub open spec fn variant_attribute(v: UnresolvedVariant, name: Seq<char>, value: Seq<char>) -> Option<UnresolvedVariant> {
    match v {
        UnresolvedVariant::Linear { x1, y1, x2, y2 } => if name == "x1"@ {
            match <Length<Horizontal> as Parse>::parse_spec(value) {
                Ok((l, _)) => Some(UnresolvedVariant::Linear { x1: Some(l), y1, x2, y2 }),
                Err(_) => None,
            }
        } else if name == "y1"@ {
            match <Length<Vertical> as Parse>::parse_spec(value) {
                Ok((l, _)) => Some(UnresolvedVariant::Linear { x1, y1: Some(l), x2, y2 }),
                Err(_) => None,
            }
        } else if name == "x2"@ {
            match <Length<Horizontal> as Parse>::parse_spec(value) {
                Ok((l, _)) => Some(UnresolvedVariant::Linear { x1, y1, x2: Some(l), y2 }),
                Err(_) => None,
            }
        } else if name == "y2"@ {
            match <Length<Vertical> as Parse>::parse_spec(value) {
                Ok((l, _)) => Some(UnresolvedVariant::Linear { x1, y1, x2, y2: Some(l) }),
                Err(_) => None,
            }
        } else {
            Some(v)
        },
        UnresolvedVariant::Radial { cx, cy, r, fx, fy, fr } => if name == "cx"@ {
            match <Length<Horizontal> as Parse>::parse_spec(value) {
                Ok((l, _)) => Some(UnresolvedVariant::Radial { cx: Some(l), cy, r, fx, fy, fr }),
                Err(_) => None,
            }
        } else if name == "cy"@ {
            match <Length<Vertical> as Parse>::parse_spec(value) {
                Ok((l, _)) => Some(UnresolvedVariant::Radial { cx, cy: Some(l), r, fx, fy, fr }),
                Err(_) => None,
            }
        } else if name == "r"@ {
            match <Length<Both> as Parse>::parse_spec(value) {
                Ok((l, _)) => Some(UnresolvedVariant::Radial { cx, cy, r: Some(l), fx, fy, fr }),
                Err(_) => None,
            }
        } else if name == "fx"@ {
            match <Length<Horizontal> as Parse>::parse_spec(value) {
                Ok((l, _)) => Some(UnresolvedVariant::Radial { cx, cy, r, fx: Some(l), fy, fr }),
                Err(_) => None,
            }
        } else if name == "fy"@ {
            match <Length<Vertical> as Parse>::parse_spec(value) {
                Ok((l, _)) => Some(UnresolvedVariant::Radial { cx, cy, r, fx, fy: Some(l), fr }),
                Err(_) => None,
            }
        } else if name == "fr"@ {
            match <Length<Both> as Parse>::parse_spec(value) {
                Ok((l, _)) => Some(UnresolvedVariant::Radial { cx, cy, r, fx, fy, fr: Some(l) }),
                Err(_) => None,
            }
        } else {
            Some(v)
        },
    }
}

/// Reading an attribute of a linear or radial gradient sets the one parameter of the
/// gradient that the attribute names, to the length read, and keeps every other
/// parameter; an attribute that names no parameter of that kind of gradient changes
/// nothing, and a value that is not a length is an error.
pub proof fn lemma_variant_attribute_sets_its_parameter(v: UnresolvedVariant, name: Seq<char>, value: Seq<char>)
    ensures
        match (v, variant_attribute(v, name, value)) {
            (
                UnresolvedVariant::Linear { x1, y1, x2, y2 },
                Some(UnresolvedVariant::Linear { x1: a, y1: b, x2: c, y2: d }),
            ) => {
                &&& a == (if name == "x1"@ { length_value::<Horizontal, Signed>(value) } else { x1 })
                &&& b == (if name == "y1"@ { length_value::<Vertical, Signed>(value) } else { y1 })
                &&& c == (if name == "x2"@ { length_value::<Horizontal, Signed>(value) } else { x2 })
                &&& d == (if name == "y2"@ { length_value::<Vertical, Signed>(value) } else { y2 })
            },
            (
                UnresolvedVariant::Radial { cx, cy, r, fx, fy, fr },
                Some(UnresolvedVariant::Radial { cx: a, cy: b, r: c, fx: d, fy: e, fr: g }),
            ) => {
                &&& a == (if name == "cx"@ { length_value::<Horizontal, Signed>(value) } else { cx })
                &&& b == (if name == "cy"@ { length_value::<Vertical, Signed>(value) } else { cy })
                &&& c == (if name == "r"@ { length_value::<Both, Signed>(value) } else { r })
                &&& d == (if name == "fx"@ { length_value::<Horizontal, Signed>(value) } else { fx })
                &&& e == (if name == "fy"@ { length_value::<Vertical, Signed>(value) } else { fy })
                &&& g == (if name == "fr"@ { length_value::<Both, Signed>(value) } else { fr })
            },
            (UnresolvedVariant::Linear { .. }, None) => {
                ||| (name == "x1"@ || name == "x2"@) && length_value::<Horizontal, Signed>(value) is None
                ||| (name == "y1"@ || name == "y2"@) && length_value::<Vertical, Signed>(value) is None
            },
            (UnresolvedVariant::Radial { .. }, None) => {
                ||| (name == "cx"@ || name == "fx"@) && length_value::<Horizontal, Signed>(value) is None
                ||| (name == "cy"@ || name == "fy"@) && length_value::<Vertical, Signed>(value) is None
                ||| (name == "r"@ || name == "fr"@) && length_value::<Both, Signed>(value) is None
            },
            _ => false,
        },
{
    reveal_strlit("x1");
    reveal_strlit("y1");
    reveal_strlit("x2");
    reveal_strlit("y2");
    reveal_strlit("cx");
    reveal_strlit("cy");
    reveal_strlit("r");
    reveal_strlit("fx");
    reveal_strlit("fy");
    reveal_strlit("fr");
    assert("x1"@.len() == 2 && "x1"@[0] == 'x' && "x1"@[1] == '1');
    assert("y1"@.len() == 2 && "y1"@[0] == 'y' && "y1"@[1] == '1');
    assert("x2"@.len() == 2 && "x2"@[0] == 'x' && "x2"@[1] == '2');
    assert("y2"@.len() == 2 && "y2"@[0] == 'y' && "y2"@[1] == '2');
    assert("cx"@.len() == 2 && "cx"@[0] == 'c' && "cx"@[1] == 'x');
    assert("cy"@.len() == 2 && "cy"@[0] == 'c' && "cy"@[1] == 'y');
    assert("r"@.len() == 1);
    assert("fx"@.len() == 2 && "fx"@[0] == 'f' && "fx"@[1] == 'x');
    assert("fy"@.len() == 2 && "fy"@[0] == 'f' && "fy"@[1] == 'y');
    assert("fr"@.len() == 2 && "fr"@[0] == 'f' && "fr"@[1] == 'r');
}

/// The gradient-specific attributes applied in order, up to the first invalid one.
pub open spec fn variant_attributes(v: UnresolvedVariant, attrs: Seq<(Seq<char>, Seq<char>)>) -> UnresolvedVariant
    decreases attrs.len(),
{
    if attrs.len() == 0 {
        v
    } else {
        match variant_attribute(v, attrs[0].0, attrs[0].1) {
            Some(v2) => variant_attributes(v2, attrs.drop_first()),
            None => v,
        }
    }
}

/// Whether `node` has a `<stop>` element child that is not in error.
pub open spec fn has_stop_child<S>(doc: Document<S>, node: Node) -> bool {
    match doc.tree_of(node.doc) {
        Some(t) => node.index < t.len() && stop_offsets_upto(t, t.last_child(node.index as int)).len() > 0,
        None => false,
    }
}

/// The parameters that the gradient element `node` specifies itself, and the gradient
/// it falls back on, or `None` if `node` is not a `linearGradient` or `radialGradient`
/// element.  The common attributes are read first; after an invalid one the
/// gradient-specific ones are not read.  The stops are this node's `<stop>` children, if
/// it has any that is not in error.
pub open spec fn gradient_of<S>(doc: Document<S>, node: Node) -> Option<(UnresolvedGradient, Option<NodeIdView>)> {
    match doc.node_kind(node) {
        Some(NodeKindView::Element { name, .. }) => if name == "linearGradient"@ || name
            == "radialGradient"@ {
            let attrs = doc.node_attributes(node).unwrap();
            let v0 = if name == "linearGradient"@ {
                UnresolvedVariant::Linear { x1: None, y1: None, x2: None, y2: None }
            } else {
                UnresolvedVariant::Radial { cx: None, cy: None, r: None, fx: None, fy: None, fr: None }
            };
            let g0 = UnresolvedGradient {
                units: None,
                transform: None,
                spread: None,
                stops: if has_stop_child(doc, node) {
                    Some(StopsSource::Children(node))
                } else {
                    None
                },
                variant: v0,
            };
            let (g1, fallback, ok) = common_attributes(g0, None, node, attrs);
            if ok {
                Some((UnresolvedGradient { variant: variant_attributes(g1.variant, attrs), ..g1 }, fallback))
            } else {
                Some((g1, fallback))
            }
        } else {
            None
        },
        _ => None,
    }
}

/// An optional node reference taken by its parts.
pub open spec fn opt_node_id_view(f: Option<NodeId>) -> Option<NodeIdView> {
    match f {
        Some(id) => Some(id.view()),
        None => None,
    }
}

/// Applies the common gradient attributes in order, up to the first invalid one, and
/// says whether every one was valid.
fn apply_common_attributes(
    g: &mut UnresolvedGradient,
    fallback: &mut Option<NodeId>,
    node: &Node,
    attrs: &Vec<(String, String)>,
) -> (ok: bool)
    ensures
        common_attributes(
            *old(g),
            opt_node_id_view(*old(fallback)),
            *node,
            attrs@.map_values(|a: (String, String)| (a.0@, a.1@)),
        ) == (*final(g), opt_node_id_view(*final(fallback)), ok),
{
    let ghost av = attrs@.map_values(|a: (String, String)| (a.0@, a.1@));
    let mut i: usize = 0;
    assert(av.skip(0) =~= av);
    while i < attrs.len()
        invariant
            i <= attrs@.len(),
            av == attrs@.map_values(|a: (String, String)| (a.0@, a.1@)),
            common_attributes(*old(g), opt_node_id_view(*old(fallback)), *node, av)
                == common_attributes(*g, opt_node_id_view(*fallback), *node, av.skip(i as int)),
        decreases attrs@.len() - i,
    {
        let ghost g_before = *g;
        let ghost f_before = opt_node_id_view(*fallback);
        assert(av.skip(i as int)[0] == av[i as int]);
        assert(av.skip(i as int).drop_first() =~= av.skip(i + 1));
        let name = attrs[i].0.as_str();
        let value = attrs[i].1.as_str();
        if str_eq(name, "gradientUnits") {
            match CoordUnits::parse(value) {
                Ok((u, _)) => g.units = Some(u),
                Err(_) => return false,
            }
        } else if str_eq(name, "gradientTransform") {
            g.transform = Some(TransformSource::Attribute(*node));
        } else if str_eq(name, "spreadMethod") {
            match SpreadMethod::parse(value) {
                Ok((m, _)) => g.spread = Some(m),
                Err(_) => return false,
            }
        } else if str_eq(name, "href") || str_eq(name, "xlink:href") {
            match NodeId::parse(value) {
                Ok(id) => {
                    if fallback.is_none() || !str_eq(name, "xlink:href") {
                        *fallback = Some(id);
                    }
                },
                Err(_) => return false,
            }
        }
        assert(common_attribute(g_before, f_before, *node, av[i as int].0, av[i as int].1) == Some(
            (*g, opt_node_id_view(*fallback)),
        ));
        i = i + 1;
    }
    assert(av.skip(i as int).len() == 0);
    true
}

/// The parameters after the attribute `name="value"` of a linear or radial gradient, or
/// `None` if the value is invalid.
fn set_variant_attribute(v: &UnresolvedVariant, name: &str, value: &str) -> (r: Option<UnresolvedVariant>)
    ensures
        r == variant_attribute(*v, name@, value@),
{
    match v {
        UnresolvedVariant::Linear { x1, y1, x2, y2 } => if str_eq(name, "x1") {
            match Length::<Horizontal>::parse(value) {
                Ok((l, _)) => Some(UnresolvedVariant::Linear { x1: Some(l), y1: copy_opt(y1), x2: copy_opt(x2), y2: copy_opt(y2) }),
                Err(_) => None,
            }
        } else if str_eq(name, "y1") {
            match Length::<Vertical>::parse(value) {
                Ok((l, _)) => Some(UnresolvedVariant::Linear { x1: copy_opt(x1), y1: Some(l), x2: copy_opt(x2), y2: copy_opt(y2) }),
                Err(_) => None,
            }
        } else if str_eq(name, "x2") {
            match Length::<Horizontal>::parse(value) {
                Ok((l, _)) => Some(UnresolvedVariant::Linear { x1: copy_opt(x1), y1: copy_opt(y1), x2: Some(l), y2: copy_opt(y2) }),
                Err(_) => None,
            }
        } else if str_eq(name, "y2") {
            match Length::<Vertical>::parse(value) {
                Ok((l, _)) => Some(UnresolvedVariant::Linear { x1: copy_opt(x1), y1: copy_opt(y1), x2: copy_opt(x2), y2: Some(l) }),
                Err(_) => None,
            }
        } else {
            Some(v.duplicate())
        },
        UnresolvedVariant::Radial { cx, cy, r, fx, fy, fr } => if str_eq(name, "cx") {
            match Length::<Horizontal>::parse(value) {
                Ok((l, _)) => Some(UnresolvedVariant::Radial { cx: Some(l), cy: copy_opt(cy), r: copy_opt(r), fx: copy_opt(fx), fy: copy_opt(fy), fr: copy_opt(fr) }),
                Err(_) => None,
            }
        } else if str_eq(name, "cy") {
            match Length::<Vertical>::parse(value) {
                Ok((l, _)) => Some(UnresolvedVariant::Radial { cx: copy_opt(cx), cy: Some(l), r: copy_opt(r), fx: copy_opt(fx), fy: copy_opt(fy), fr: copy_opt(fr) }),
                Err(_) => None,
            }
        } else if str_eq(name, "r") {
            match Length::<Both>::parse(value) {
                Ok((l, _)) => Some(UnresolvedVariant::Radial { cx: copy_opt(cx), cy: copy_opt(cy), r: Some(l), fx: copy_opt(fx), fy: copy_opt(fy), fr: copy_opt(fr) }),
                Err(_) => None,
            }
        } else if str_eq(name, "fx") {
            match Length::<Horizontal>::parse(value) {
                Ok((l, _)) => Some(UnresolvedVariant::Radial { cx: copy_opt(cx), cy: copy_opt(cy), r: copy_opt(r), fx: Some(l), fy: copy_opt(fy), fr: copy_opt(fr) }),
                Err(_) => None,
            }
        } else if str_eq(name, "fy") {
            match Length::<Vertical>::parse(value) {
                Ok((l, _)) => Some(UnresolvedVariant::Radial { cx: copy_opt(cx), cy: copy_opt(cy), r: copy_opt(r), fx: copy_opt(fx), fy: Some(l), fr: copy_opt(fr) }),
                Err(_) => None,
            }
        } else if str_eq(name, "fr") {
            match Length::<Both>::parse(value) {
                Ok((l, _)) => Some(UnresolvedVariant::Radial { cx: copy_opt(cx), cy: copy_opt(cy), r: copy_opt(r), fx: copy_opt(fx), fy: copy_opt(fy), fr: Some(l) }),
                Err(_) => None,
            }
        } else {
            Some(v.duplicate())
        },
    }
}

/// Applies the attributes of a linear or radial gradient in order, up to the first
/// invalid one.
fn apply_variant_attributes(v0: UnresolvedVariant, attrs: &Vec<(String, String)>) -> (r: UnresolvedVariant)
    ensures
        r == variant_attributes(v0, attrs@.map_values(|a: (String, String)| (a.0@, a.1@))),
{
    let ghost av = attrs@.map_values(|a: (String, String)| (a.0@, a.1@));
    let mut v = v0;
    let mut i: usize = 0;
    assert(av.skip(0) =~= av);
    while i < attrs.len()
        invariant
            i <= attrs@.len(),
            av == attrs@.map_values(|a: (String, String)| (a.0@, a.1@)),
            variant_attributes(v0, av) == variant_attributes(v, av.skip(i as int)),
        decreases attrs@.len() - i,
    {
        assert(av.skip(i as int)[0] == av[i as int]);
        assert(av.skip(i as int).drop_first() =~= av.skip(i + 1));
        match set_variant_attribute(&v, attrs[i].0.as_str(), attrs[i].1.as_str()) {
            Some(w) => v = w,
            None => return v,
        }
        i = i + 1;
    }
    assert(av.skip(i as int).len() == 0);
    v
}

/// The parameters that the gradient element `node` specifies itself, and the gradient
/// it falls back on, or `None` if `node` is not a `linearGradient` or `radialGradient`
/// element.
pub fn get_unresolved<S>(doc: &Document<S>, node: &Node) -> (r: Option<(UnresolvedGradient, Option<NodeId>)>)
    requires
        doc.wf(),
    ensures
        match gradient_of(*doc, *node) {
            None => r is None,
            Some((g, f)) => (r matches Some((g2, f2)) && g2 == g && opt_node_id_view(f2) == f),
        },
{
    proof {
        doc.lemma_node_kind_in_tree(*node);
    }
    let t = match doc.tree_of_doc(node.doc) {
        Some(t) => t,
        None => return None,
    };
    if node.index >= t.num_nodes() {
        return None;
    }
    let is_linear = t.is_element_named(node.index, "linearGradient");
    let is_radial = t.is_element_named(node.index, "radialGradient");
    if !is_linear && !is_radial {
        return None;
    }
    let attrs = match t.element_attributes(node.index) {
        Some(a) => a,
        None => return None,
    };
    let variant = if is_linear {
        UnresolvedVariant::Linear { x1: None, y1: None, x2: None, y2: None }
    } else {
        UnresolvedVariant::Radial { cx: None, cy: None, r: None, fx: None, fy: None, fr: None }
    };
    let stops = if stop_offsets(t, node.index).len() > 0 {
        Some(StopsSource::Children(*node))
    } else {
        None
    };
    let mut g = UnresolvedGradient { units: None, transform: None, spread: None, stops, variant };
    let mut fallback: Option<NodeId> = None;
    let ok = apply_common_attributes(&mut g, &mut fallback, node, attrs);
    if ok {
        let UnresolvedGradient { units, transform, spread, stops, variant } = g;
        let variant = apply_variant_attributes(variant, attrs);
        Some((UnresolvedGradient { units, transform, spread, stops, variant }, fallback))
    } else {
        Some((g, fallback))
    }
}

/// Why resolving a chain of gradients fails.
pub enum ChainError {
    MaxReferencesExceeded,
    LinkNotFound(NodeIdView),
    InvalidLinkType(NodeIdView),
    CircularReference(Node),
}

impl ChainError {
    /// Whether the error `e` reports this failure.
    pub open spec fn describes(self, e: AcquireError) -> bool {
        match (self, e) {
            (ChainError::MaxReferencesExceeded, AcquireError::MaxReferencesExceeded) => true,
            (ChainError::LinkNotFound(a), AcquireError::LinkNotFound(b)) => b.view() == a,
            (ChainError::InvalidLinkType(a), AcquireError::InvalidLinkType(b)) => b.view() == a,
            (ChainError::CircularReference(a), AcquireError::CircularReference(b)) => a == b,
            _ => false,
        }
    }
}

/// What resolving the gradient `g`, which falls back on the gradient named `fallback`,
/// gives in `doc`, with `count` nodes acquired by id so far, the nodes `stack` held, and
/// the gradients `visited` already read along the chain: the parameters, each one given,
/// or the failure; and the number of nodes acquired by id then.
///
/// A gradient with every parameter given is done; one with no fallback takes the
/// defaults.  Otherwise the fallback is acquired; it must not be one of the gradients
/// read already, and it must be a linear or radial gradient, whose parameters fill in
/// the ones not given yet.
pub open spec fn resolve_chain<S>(
    doc: Document<S>,
    count: nat,
    stack: Seq<Node>,
    visited: Seq<Node>,
    g: UnresolvedGradient,
    fallback: Option<NodeIdView>,
) -> (Result<UnresolvedGradient, ChainError>, nat)
    decreases MAX_REFERENCED_ELEMENTS + 1 - count,
{
    if g.is_resolved_spec() {
        (Ok(g), count)
    } else {
        match fallback {
            None => (Ok(g.defaults_spec()), count),
            Some(id) => if count + 1 > MAX_REFERENCED_ELEMENTS {
                (Err(ChainError::MaxReferencesExceeded), count + 1)
            } else {
                match acquire_outcome(doc, count + 1, stack, id) {
                    AcquireOutcome::MaxReferencesExceeded => (
                        Err(ChainError::MaxReferencesExceeded),
                        count + 1,
                    ),
                    AcquireOutcome::LinkNotFound => (Err(ChainError::LinkNotFound(id)), count + 1),
                    AcquireOutcome::InvalidLinkType => (
                        Err(ChainError::InvalidLinkType(id)),
                        count + 1,
                    ),
                    AcquireOutcome::CircularReference(n) => (
                        Err(ChainError::CircularReference(n)),
                        count + 1,
                    ),
                    AcquireOutcome::Acquired(n, _) => if visited.contains(n) {
                        (Err(ChainError::CircularReference(n)), count + 1)
                    } else {
                        match gradient_of(doc, n) {
                            None => (Err(ChainError::InvalidLinkType(id)), count + 1),
                            Some((fg, ff)) => resolve_chain(
                                doc,
                                count + 1,
                                stack,
                                visited.push(n),
                                g.fallback_spec(fg),
                                ff,
                            ),
                        }
                    },
                }
            },
        }
    }
}

/// Resolves the gradient `node`: the parameters that it does not give are taken from the
/// gradient that it references, and so on along the chain of references; those that no
/// gradient of the chain gives get their defaults.  Each referenced gradient is acquired
/// while it is read, and released after.
pub fn resolve<'i, S>(acquired_nodes: &mut AcquiredNodes<'i, S>, node: &Node) -> (r: Result<
    ResolvedGradient,
    AcquireError,
>)
    requires
        old(acquired_nodes).document().wf(),
        old(acquired_nodes).num_acquired() < usize::MAX,
        gradient_of(old(acquired_nodes).document(), *node) is Some,
    ensures
        final(acquired_nodes).document() == old(acquired_nodes).document(),
        final(acquired_nodes).stack() == old(acquired_nodes).stack(),
        ({
            let (g, f) = gradient_of(old(acquired_nodes).document(), *node).unwrap();
            let (res, count) = resolve_chain(
                old(acquired_nodes).document(),
                old(acquired_nodes).num_acquired(),
                old(acquired_nodes).stack(),
                Seq::empty(),
                g,
                f,
            );
            &&& final(acquired_nodes).num_acquired() == count
            &&& match res {
                Ok(rg) => (r matches Ok(x) && x.as_unresolved() == rg),
                Err(e) => (r matches Err(x) && e.describes(x)),
            }
        }),
{
    let doc = acquired_nodes.document_ref();
    let (mut gradient, mut fallback) = get_unresolved(doc, node).unwrap();
    let ghost g0 = gradient;
    let ghost f0 = opt_node_id_view(fallback);
    let mut visited = NodeStack::new();
    loop
        invariant
            *doc == old(acquired_nodes).document(),
            doc.wf(),
            gradient_of(*doc, *node) == Some((g0, f0)),
            acquired_nodes.document() == old(acquired_nodes).document(),
            acquired_nodes.stack() == old(acquired_nodes).stack(),
            acquired_nodes.num_acquired() < usize::MAX,
            resolve_chain(
                *doc,
                acquired_nodes.num_acquired() as nat,
                old(acquired_nodes).stack(),
                visited@,
                gradient,
                opt_node_id_view(fallback),
            ) == resolve_chain(
                *doc,
                old(acquired_nodes).num_acquired(),
                old(acquired_nodes).stack(),
                Seq::empty(),
                g0,
                f0,
            ),
        decreases usize::MAX - acquired_nodes.num_acquired(),
    {
        if gradient.is_resolved() {
            return Ok(gradient.into_resolved());
        }
        match fallback {
            None => {
                proof {
                    lemma_defaults_resolve(gradient.variant);
                }
                return Ok(gradient.resolve_from_defaults().into_resolved());
            },
            Some(id) => {
                let acquired = match acquired_nodes.acquire(&id) {
                    Ok(a) => a,
                    Err(e) => return Err(e),
                };
                let n = *acquired.get();
                if visited.contains(&n) {
                    acquired_nodes.release(acquired);
                    return Err(AcquireError::CircularReference(n));
                }
                match get_unresolved(doc, &n) {
                    None => {
                        acquired_nodes.release(acquired);
                        return Err(AcquireError::InvalidLinkType(id));
                    },
                    Some((fg, ff)) => {
                        gradient = gradient.resolve_from_fallback(&fg);
                        fallback = ff;
                        visited.push(&n);
                        acquired_nodes.release(acquired);
                    },
                }
            },
        }
    }
}

/// `b` where `a` is given, whatever `b` is otherwise.
pub open spec fn opt_kept<T>(a: Option<T>, b: Option<T>) -> bool {
    a is Some ==> b == a
}

impl UnresolvedVariant {
    /// Whether `other` is of the same type and keeps every parameter given here.
    pub open spec fn kept_in(self, other: UnresolvedVariant) -> bool {
        match (self, other) {
            (
                UnresolvedVariant::Linear { x1, y1, x2, y2 },
                UnresolvedVariant::Linear { x1: a, y1: b, x2: c, y2: d },
            ) => opt_kept(x1, a) && opt_kept(y1, b) && opt_kept(x2, c) && opt_kept(y2, d),
            (
                UnresolvedVariant::Radial { cx, cy, r, fx, fy, fr },
                UnresolvedVariant::Radial { cx: a, cy: b, r: c, fx: d, fy: e, fr: f },
            ) => opt_kept(cx, a) && opt_kept(cy, b) && opt_kept(r, c) && opt_kept(fx, d) && opt_kept(
                fy,
                e,
            ) && opt_kept(fr, f),
            _ => false,
        }
    }
}

impl UnresolvedGradient {
    /// Whether `other` keeps every parameter given here, and the gradient's type.
    pub open spec fn kept_in(self, other: UnresolvedGradient) -> bool {
        &&& opt_kept(self.units, other.units)
        &&& opt_kept(self.transform, other.transform)
        &&& opt_kept(self.spread, other.spread)
        &&& opt_kept(self.stops, other.stops)
        &&& self.variant.kept_in(other.variant)
    }
}

/// Filling in the defaults gives a gradient with every parameter given, which keeps
/// the parameters that were given.
pub proof fn lemma_gradient_defaults_resolve(g: UnresolvedGradient)
    ensures
        g.defaults_spec().is_resolved_spec(),
        g.kept_in(g.defaults_spec()),
        g.is_resolved_spec() ==> g.defaults_spec() == g,
{
    lemma_defaults_resolve(g.variant);
}

/// Resolving a gradient along its chain of references always gives parameters that
/// are all given, of the same type of gradient, and keeps each parameter that the
/// gradient gives itself: a referenced gradient only fills in what is missing.  A
/// gradient that gives every parameter is not resolved further, and acquires nothing.
pub proof fn lemma_resolution_keeps_own_parameters<S>(
    doc: Document<S>,
    count: nat,
    stack: Seq<Node>,
    visited: Seq<Node>,
    g: UnresolvedGradient,
    fallback: Option<NodeIdView>,
)
    ensures
        resolve_chain(doc, count, stack, visited, g, fallback).0 matches Ok(rg) ==> rg.is_resolved_spec()
            && g.kept_in(rg),
        g.is_resolved_spec() ==> resolve_chain(doc, count, stack, visited, g, fallback) == (
            Ok::<UnresolvedGradient, ChainError>(g),
            count,
        ),
    decreases MAX_REFERENCED_ELEMENTS + 1 - count,
{
    if g.is_resolved_spec() {
    } else {
        match fallback {
            None => lemma_gradient_defaults_resolve(g),
            Some(id) => if count + 1 <= MAX_REFERENCED_ELEMENTS {
                match acquire_outcome(doc, count + 1, stack, id) {
                    AcquireOutcome::Acquired(n, _) => if !visited.contains(n) {
                        match gradient_of(doc, n) {
                            Some((fg, ff)) => {
                                let g2 = g.fallback_spec(fg);
                                lemma_resolution_keeps_own_parameters(
                                    doc,
                                    count + 1,
                                    stack,
                                    visited.push(n),
                                    g2,
                                    ff,
                                );
                                assert(g.kept_in(g2));
                            },
                            None => {},
                        }
                    },
                    _ => {},
                }
            },
        }
    }
}

/// A color stop of a gradient: where it stands along the gradient vector, in `[0, 1]`,
/// as the bits of an `f32`, and its color, of type `C`.
#[derive(Debug, Clone, Copy, PartialEq, Eq)]
pub struct ColorStop<C> {
    pub offset: CssNumber,
    pub rgba: C,
}

/// The order of an offset in `[0, 1]`: that of the number, where `-0` is `0`.
pub open spec fn offset_key(bits: u32) -> int {
    if bits == 0x8000_0000u32 {
        0
    } else {
        bits as int
    }
}

/// Whether `bits` are those of a number in `[0, 1]`.
pub open spec fn is_unit_offset(bits: u32) -> bool {
    f32_is_non_negative(bits) && offset_key(bits) <= ONE_BITS
}

/// The offset of the last stop, or 0 when there is none.
pub open spec fn last_offset<C>(stops: Seq<ColorStop<C>>) -> CssNumber {
    if stops.len() == 0 {
        CssNumber(0)
    } else {
        stops.last().offset
    }
}

/// Whether the offsets of the stops are in `[0, 1]` and never decrease.
pub open spec fn stops_in_order<C>(stops: Seq<ColorStop<C>>) -> bool {
    &&& forall|i: int| 0 <= i < stops.len() ==> is_unit_offset((#[trigger] stops[i]).offset.0)
    &&& forall|i: int, j: int|
        0 <= i < j < stops.len() ==> offset_key(stops[i].offset.0) <= offset_key(stops[j].offset.0)
}

/// `stops` with a stop at `offset` of color `rgba` after them, its offset raised to that
/// of the last stop (or to 0) if it is smaller.
pub open spec fn with_stop<C>(stops: Seq<ColorStop<C>>, offset: CssNumber, rgba: C) -> Seq<ColorStop<C>> {
    stops.push(
        ColorStop {
            offset: if offset_key(offset.0) > offset_key(last_offset(stops).0) {
                offset
            } else {
                last_offset(stops)
            },
            rgba,
        },
    )
}

/// The stops that adding stops at `offsets`, of colors `colors`, one after the other,
/// gives.
pub open spec fn color_stops_spec<C>(offsets: Seq<CssNumber>, colors: Seq<C>) -> Seq<ColorStop<C>>
    decreases offsets.len(),
{
    if offsets.len() == 0 || colors.len() == 0 {
        Seq::empty()
    } else {
        with_stop(color_stops_spec(offsets.drop_last(), colors.drop_last()), offsets.last(), colors.last())
    }
}

/// Adds a color stop after the others.  A stop cannot come before the one before it: its
/// offset is raised to that of the last stop (or to 0) if it is smaller.
pub fn add_color_stop<C>(stops: &mut Vec<ColorStop<C>>, offset: CssNumber, rgba: C)
    requires
        is_unit_offset(offset.0),
    ensures
        final(stops)@ == with_stop(old(stops)@, offset, rgba),
        stops_in_order(old(stops)@) ==> stops_in_order(final(stops)@),
{
    let last_offset = if stops.len() > 0 {
        stops[stops.len() - 1].offset
    } else {
        CssNumber(0)
    };
    let key = |bits: u32| -> (k: u32)
        ensures
            k == offset_key(bits),
        {
            if bits == 0x8000_0000u32 {
                0
            } else {
                bits
            }
        };
    let offset = if key(offset.0) > key(last_offset.0) {
        offset
    } else {
        last_offset
    };
    let ghost before = stops@;
    stops.push(ColorStop { offset, rgba });
    proof {
        if stops_in_order(before) {
            assert(f32_is_non_negative(0u32)) by (bit_vector);
            if before.len() > 0 {
                assert(before[before.len() - 1] == before.last());
            }
            assert forall|i: int| 0 <= i < stops@.len() implies is_unit_offset((#[trigger] stops@[i]).offset.0) by {
                if i < before.len() {
                    assert(stops@[i] == before[i]);
                }
            }
            assert forall|i: int, j: int| 0 <= i < j < stops@.len() implies offset_key(stops@[i].offset.0)
                <= offset_key(stops@[j].offset.0) by {
                assert(stops@[i] == before[i]);
                if j < before.len() {
                    assert(stops@[j] == before[j]);
                } else if before.len() > 0 {
                    assert(before[before.len() - 1] == before.last());
                }
            }
        }
    }
}

/// The color stops of a gradient: a stop for each offset, with the color of the same
/// position in `colors`, added in order; the offsets never go backwards.
pub fn color_stops<C: Copy>(offsets: &Vec<CssNumber>, colors: &Vec<C>) -> (r: Vec<ColorStop<C>>)
    requires
        offsets@.len() == colors@.len(),
        forall|k: int| 0 <= k < offsets@.len() ==> is_unit_offset(#[trigger] offsets@[k].0),
    ensures
        r@ == color_stops_spec(offsets@, colors@),
        stops_in_order(r@),
{
    let mut stops: Vec<ColorStop<C>> = Vec::new();
    let mut i: usize = 0;
    while i < offsets.len()
        invariant
            i <= offsets@.len(),
            offsets@.len() == colors@.len(),
            forall|k: int| 0 <= k < offsets@.len() ==> is_unit_offset(#[trigger] offsets@[k].0),
            stops@ == color_stops_spec(offsets@.take(i as int), colors@.take(i as int)),
            stops_in_order(stops@),
        decreases offsets@.len() - i,
    {
        assert(offsets@.take(i + 1).drop_last() =~= offsets@.take(i as int));
        assert(colors@.take(i + 1).drop_last() =~= colors@.take(i as int));
        add_color_stop(&mut stops, offsets[i], colors[i]);
        i = i + 1;
    }
    assert(offsets@.take(i as int) =~= offsets@);
    assert(colors@.take(i as int) =~= colors@);
    stops
}

} // verus!
