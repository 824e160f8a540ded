//! The `filter` element.

use vstd::prelude::*;

use crate::css::{
    css_next, css_url, exhausted, expect_url, is_exhausted, is_suffix, keyword_spec,
    lemma_keyword_spec_matches, parse_keyword, CssErrorKind, CssNumber, CssParseError,
    CssTokenView, Parse,
};
use crate::strings::eq_ignore_ascii_case;
use crate::document::{
    acquire_outcome, element_name_of, node_id_spec, AcquireOutcome, AcquiredNode, AcquiredNodes,
    NodeId, NodeIdView,
};
use crate::filters::FilterResolveError;
use crate::filter_func::FilterFunction;
use crate::length::{
    percent, CssLength, Horizontal, Length, LengthUnit, Signed, ULength, Unsigned, Validate, Vertical,
};
use crate::strings::str_eq;

verus! {

/// Units for the coordinates of filters, masks, patterns and the like.
#[derive(Debug, Clone, Copy, PartialEq, Eq, Structural)]
pub enum CoordUnits {
    UserSpaceOnUse,
    ObjectBoundingBox,
}

/// The keywords of the coordinate units, in the order of [`CoordUnits`]'s variants.
pub open spec fn coord_units_keywords() -> Seq<Seq<char>> {
    seq!["userSpaceOnUse"@, "objectBoundingBox"@]
}

impl CoordUnits {
    /// Parses `userSpaceOnUse` or `objectBoundingBox`, ignoring ASCII case.
    pub fn parse(input: &str) -> (r: Result<(CoordUnits, &str), CssParseError>)
        ensures
            match keyword_spec(input@, coord_units_keywords()) {
                Ok((i, rest)) => (r matches Ok((u, t)) && u == coord_units_at(i) && t@ == rest),
                Err(k) => (r matches Err(e) && e.kind() == k),
            },
    {
        let keywords = ["userSpaceOnUse", "objectBoundingBox"];
        proof {
            reveal_strlit("userSpaceOnUse");
            reveal_strlit("objectBoundingBox");
        }
        assert(keywords@.map_values(|k: &str| k@) =~= coord_units_keywords());
        match parse_keyword(input, &keywords) {
            Ok((i, rest)) => {
                if i == 0 {
                    Ok((CoordUnits::UserSpaceOnUse, rest))
                } else {
                    Ok((CoordUnits::ObjectBoundingBox, rest))
                }
            },
            Err(e) => Err(e),
        }
    }
}

/// The bits of the `f32` numbers -0.1 and 1.2.
pub const MINUS_ONE_TENTH_BITS: u32 = 0xbdcc_cccdu32;

pub const SIX_FIFTHS_BITS: u32 = 0x3f99_999au32;

/// The <filter> node.
#[derive(Debug)]
pub struct Filter {
    pub x: Length<Horizontal>,
    pub y: Length<Vertical>,
    pub width: ULength<Horizontal>,
    pub height: ULength<Vertical>,
    pub filter_units: CoordUnits,
    pub primitive_units: CoordUnits,
}

/// A <filter> element definition in user-space coordinates; `R` is the type of
/// rectangles in user space.
#[derive(Debug)]
pub struct UserSpaceFilter<R> {
    pub rect: R,
    pub filter_units: CoordUnits,
    pub primitive_units: CoordUnits,
}

/// The units at position `i` of [`coord_units_keywords`].
pub open spec fn coord_units_at(i: nat) -> CoordUnits {
    if i == 0 {
        CoordUnits::UserSpaceOnUse
    } else {
        CoordUnits::ObjectBoundingBox
    }
}

/// The keyword that names each kind of coordinate units.
pub open spec fn coord_units_name(u: CoordUnits) -> Seq<char> {
    match u {
        CoordUnits::UserSpaceOnUse => "userSpaceOnUse"@,
        CoordUnits::ObjectBoundingBox => "objectBoundingBox"@,
    }
}

/// Coordinate units are read from an identifier that is their own keyword, ignoring ASCII
/// case: whatever units reading a keyword gives, the identifier read names them.
pub proof fn lemma_coord_units_are_named_by_their_keyword(input: Seq<char>)
    ensures
        keyword_spec(input, coord_units_keywords()) matches Ok((i, rest)) ==> (css_next(input).0 matches Some(
            CssTokenView::Ident(id),
        ) && eq_ignore_ascii_case(id, coord_units_name(coord_units_at(i))) && rest == css_next(input).1),
{
    lemma_keyword_spec_matches(input, coord_units_keywords());
}

/// The filter after the attribute `name="value"`, or `None` if the value is invalid.
pub open spec fn apply_filter_attribute(f: Filter, name: Seq<char>, value: Seq<char>) -> Option<Filter> {
    if name == "filterUnits"@ {
        match keyword_spec(value, coord_units_keywords()) {
            Ok((i, _)) => Some(Filter { filter_units: coord_units_at(i), ..f }),
            Err(_) => None,
        }
    } else if name == "primitiveUnits"@ {
        match keyword_spec(value, coord_units_keywords()) {
            Ok((i, _)) => Some(Filter { primitive_units: coord_units_at(i), ..f }),
            Err(_) => None,
        }
    } else if name == "x"@ {
        match <Length<Horizontal> as Parse>::parse_spec(value) {
            Ok((l, _)) => Some(Filter { x: l, ..f }),
            Err(_) => None,
        }
    } else if name == "y"@ {
        match <Length<Vertical> as Parse>::parse_spec(value) {
            Ok((l, _)) => Some(Filter { y: l, ..f }),
            Err(_) => None,
        }
    } else if name == "width"@ {
        match <ULength<Horizontal> as Parse>::parse_spec(value) {
            Ok((l, _)) => Some(Filter { width: l, ..f }),
            Err(_) => None,
        }
    } else if name == "height"@ {
        match <ULength<Vertical> as Parse>::parse_spec(value) {
            Ok((l, _)) => Some(Filter { height: l, ..f }),
            Err(_) => None,
        }
    } else {
        Some(f)
    }
}

/// The length read from an attribute value, if it is one.
pub open spec fn length_value<N, V: Validate>(value: Seq<char>) -> Option<CssLength<N, V>> {
    match <CssLength<N, V> as Parse>::parse_spec(value) {
        Ok((l, _)) => Some(l),
        Err(_) => None,
    }
}

/// Reading an attribute of a `<filter>` sets the one parameter that the attribute names,
/// to the value read, and keeps every other parameter; an attribute that names no
/// parameter changes nothing, and a value that cannot be read is an error.
pub proof fn lemma_filter_attribute_sets_its_parameter(f: Filter, name: Seq<char>, value: Seq<char>)
    ensures
        match apply_filter_attribute(f, name, value) {
            Some(g) => {
                &&& g.x == (if name == "x"@ { length_value::<Horizontal, Signed>(value).unwrap() } else { f.x })
                &&& g.y == (if name == "y"@ { length_value::<Vertical, Signed>(value).unwrap() } else { f.y })
                &&& g.width == (if name == "width"@ {
                    length_value::<Horizontal, Unsigned>(value).unwrap()
                } else {
                    f.width
                })
                &&& g.height == (if name == "height"@ {
                    length_value::<Vertical, Unsigned>(value).unwrap()
                } else {
                    f.height
                })
                &&& name != "filterUnits"@ ==> g.filter_units == f.filter_units
                &&& name != "primitiveUnits"@ ==> g.primitive_units == f.primitive_units
            },
            None => {
                ||| name == "x"@ && length_value::<Horizontal, Signed>(value) is None
                ||| name == "y"@ && length_value::<Vertical, Signed>(value) is None
                ||| name == "width"@ && length_value::<Horizontal, Unsigned>(value) is None
                ||| name == "height"@ && length_value::<Vertical, Unsigned>(value) is None
                ||| name == "filterUnits"@ || name == "primitiveUnits"@
            },
        },
        name == "x"@ ==> (apply_filter_attribute(f, name, value) is Some <==> length_value::<
            Horizontal,
            Signed,
        >(value) is Some),
        name == "y"@ ==> (apply_filter_attribute(f, name, value) is Some <==> length_value::<
            Vertical,
            Signed,
        >(value) is Some),
        name == "width"@ ==> (apply_filter_attribute(f, name, value) is Some <==> length_value::<
            Horizontal,
            Unsigned,
        >(value) is Some),
        name == "height"@ ==> (apply_filter_attribute(f, name, value) is Some <==> length_value::<
            Vertical,
            Unsigned,
        >(value) is Some),
{
    reveal_strlit("x");
    reveal_strlit("y");
    reveal_strlit("width");
    reveal_strlit("height");
    reveal_strlit("filterUnits");
    reveal_strlit("primitiveUnits");
    assert("x"@.len() == 1 && "x"@[0] == 'x');
    assert("y"@.len() == 1 && "y"@[0] == 'y');
    assert("width"@.len() == 5);
    assert("height"@.len() == 6);
    assert("filterUnits"@.len() == 11);
    assert("primitiveUnits"@.len() == 14);
}

/// The filter after the attributes `attrs`, in order, or `None` at the first invalid
/// value.
pub open spec fn apply_filter_attributes(f: Filter, attrs: Seq<(Seq<char>, Seq<char>)>) -> Option<Filter>
    decreases attrs.len(),
{
    if attrs.len() == 0 {
        Some(f)
    } else {
        match apply_filter_attribute(f, attrs[0].0, attrs[0].1) {
            Some(g) => apply_filter_attributes(g, attrs.drop_first()),
            None => None,
        }
    }
}

/// The filter region from -10% to 110% of the bounding box in both directions, in the
/// bounding box's units, with primitives in user space.
pub open spec fn default_filter() -> Filter {
    Filter {
        x: percent(MINUS_ONE_TENTH_BITS),
        y: percent(MINUS_ONE_TENTH_BITS),
        width: percent(SIX_FIFTHS_BITS),
        height: percent(SIX_FIFTHS_BITS),
        filter_units: CoordUnits::ObjectBoundingBox,
        primitive_units: CoordUnits::UserSpaceOnUse,
    }
}

impl Filter {
    /// A filter with the default region: from -10% to 110% of the bounding box in both
    /// directions, with the filter region in the bounding box's units and primitives in
    /// user space.
    pub fn new() -> (f: Filter)
        ensures
            f == default_filter(),
            f.x.length == CssNumber(MINUS_ONE_TENTH_BITS) && f.x.unit == LengthUnit::Percent,
            f.y.length == CssNumber(MINUS_ONE_TENTH_BITS) && f.y.unit == LengthUnit::Percent,
            f.width.length == CssNumber(SIX_FIFTHS_BITS) && f.width.unit == LengthUnit::Percent,
            f.height.length == CssNumber(SIX_FIFTHS_BITS) && f.height.unit == LengthUnit::Percent,
            f.filter_units == CoordUnits::ObjectBoundingBox,
            f.primitive_units == CoordUnits::UserSpaceOnUse,
    {
        Filter {
            x: Length::new(CssNumber(MINUS_ONE_TENTH_BITS), LengthUnit::Percent),
            y: Length::new(CssNumber(MINUS_ONE_TENTH_BITS), LengthUnit::Percent),
            width: ULength::new(CssNumber(SIX_FIFTHS_BITS), LengthUnit::Percent),
            height: ULength::new(CssNumber(SIX_FIFTHS_BITS), LengthUnit::Percent),
            filter_units: CoordUnits::ObjectBoundingBox,
            primitive_units: CoordUnits::UserSpaceOnUse,
        }
    }

    pub fn get_filter_units(&self) -> (u: CoordUnits)
        ensures
            u == self.filter_units,
    {
        self.filter_units
    }

    /// Sets the filter region and units from the element's attributes, in order; a value
    /// is read from the start of the attribute.  An invalid value is an error, and the
    /// attributes after it are not looked at.
    pub fn set_attributes(&mut self, attrs: &Vec<(String, String)>) -> (r: Result<(), CssParseError>)
        ensures
            match apply_filter_attributes(*old(self), attrs@.map_values(|a: (String, String)| (a.0@, a.1@))) {
                Some(f) => r is Ok && *final(self) == f,
                None => r is Err,
            },
    {
        let ghost av = attrs@.map_values(|a: (String, String)| (a.0@, a.1@));
        let mut i: usize = 0;
        assert(av.skip(0) =~= av);
        while i < attrs.len()
            invariant
                i <= attrs@.len(),
                av == attrs@.map_values(|a: (String, String)| (a.0@, a.1@)),
                apply_filter_attributes(*old(self), av) == apply_filter_attributes(*self, av.skip(i as int)),
            decreases attrs@.len() - i,
        {
            let ghost before = *self;
            assert(av.skip(i as int)[0] == av[i as int]);
            assert(av.skip(i as int).drop_first() =~= av.skip(i + 1));
            let name = attrs[i].0.as_str();
            let value = attrs[i].1.as_str();
            if str_eq(name, "filterUnits") {
                match CoordUnits::parse(value) {
                    Ok((u, _)) => self.filter_units = u,
                    Err(e) => return Err(e),
                }
            } else if str_eq(name, "primitiveUnits") {
                match CoordUnits::parse(value) {
                    Ok((u, _)) => self.primitive_units = u,
                    Err(e) => return Err(e),
                }
            } else if str_eq(name, "x") {
                match Length::<Horizontal>::parse(value) {
                    Ok((l, _)) => self.x = l,
                    Err(e) => return Err(e),
                }
            } else if str_eq(name, "y") {
                match Length::<Vertical>::parse(value) {
                    Ok((l, _)) => self.y = l,
                    Err(e) => return Err(e),
                }
            } else if str_eq(name, "width") {
                match ULength::<Horizontal>::parse(value) {
                    Ok((l, _)) => self.width = l,
                    Err(e) => return Err(e),
                }
            } else if str_eq(name, "height") {
                match ULength::<Vertical>::parse(value) {
                    Ok((l, _)) => self.height = l,
                    Err(e) => return Err(e),
                }
            }
            assert(apply_filter_attribute(before, av[i as int].0, av[i as int].1) == Some(*self));
            i = i + 1;
        }
        assert(av.skip(i as int).len() == 0);
        Ok(())
    }
}

/// One value of the `filter` property: a reference to a `<filter>` element, or a filter
/// function.
#[derive(Debug, PartialEq, Eq)]
pub enum FilterValue {
    Url(NodeId),
    Function(FilterFunction),
}

/// What a [`FilterValue`] is in specifications.
pub enum FilterValueView {
    Url(NodeIdView),
    Function(FilterFunction),
}

impl FilterValue {
    pub open spec fn view(&self) -> FilterValueView {
        match self {
            FilterValue::Url(id) => FilterValueView::Url(id.view()),
            FilterValue::Function(f) => FilterValueView::Function(*f),
        }
    }
}

/// The value of the `filter` property: one or more filter values.
#[derive(Debug, PartialEq, Eq)]
pub struct FilterValueList(pub Vec<FilterValue>);

impl FilterValueList {
    pub open spec fn view(&self) -> Seq<FilterValueView> {
        self.0@.map_values(|v: FilterValue| v.view())
    }

    pub fn is_empty(&self) -> (r: bool)
        ensures
            r == (self.view().len() == 0),
    {
        self.0.len() == 0
    }
}

/// One filter value at the start of `input`: a filter function, or else a URL, which
/// must name an element.
pub open spec fn filter_value_spec(input: Seq<char>) -> Result<(FilterValueView, Seq<char>), CssErrorKind> {
    match FilterFunction::parse_spec(input) {
        Ok((f, rest)) => Ok((FilterValueView::Function(f), rest)),
        Err(_) => match css_url(input).0 {
            Some(u) => match node_id_spec(u) {
                Some(id) => Ok((FilterValueView::Url(id), css_url(input).1)),
                None => Err(CssErrorKind::Custom),
            },
            None => Err(
                if exhausted(input) {
                    CssErrorKind::EndOfInput
                } else {
                    CssErrorKind::UnexpectedToken
                },
            ),
        },
    }
}

/// The filter values that make up all of `input`, separated by white space, or the
/// error at the first that is invalid.  (Each value takes up some of the input.)
pub open spec fn filter_values_spec(input: Seq<char>) -> Result<Seq<FilterValueView>, CssErrorKind>
    decreases input.len(),
{
    match filter_value_spec(input) {
        Err(k) => Err(k),
        Ok((v, rest)) => if exhausted(rest) {
            Ok(seq![v])
        } else if rest.len() < input.len() {
            match filter_values_spec(rest) {
                Ok(vs) => Ok(seq![v] + vs),
                Err(k) => Err(k),
            }
        } else {
            Err(CssErrorKind::UnexpectedToken)
        },
    }
}

/// `r` after the values `vs`.
pub open spec fn after_values(
    vs: Seq<FilterValueView>,
    r: Result<Seq<FilterValueView>, CssErrorKind>,
) -> Result<Seq<FilterValueView>, CssErrorKind> {
    match r {
        Ok(ws) => Ok(vs + ws),
        Err(k) => Err(k),
    }
}

/// Reads one filter value.
fn parse_filter_value(input: &str) -> (r: Result<(FilterValue, &str), CssParseError>)
    ensures
        match filter_value_spec(input@) {
            Ok((v, rest)) => (r matches Ok((w, t)) && w.view() == v && t@ == rest),
            Err(k) => (r matches Err(e) && e.kind() == k),
        },
        r matches Ok((_, t)) ==> is_suffix(t@, input@) && t@.len() < input@.len(),
{
    match FilterFunction::parse(input) {
        Ok((f, rest)) => return Ok((FilterValue::Function(f), rest)),
        Err(_) => {},
    }
    let (url, rest) = match expect_url(input) {
        Ok(p) => p,
        Err(e) => return Err(e),
    };
    match NodeId::parse(url.as_str()) {
        Ok(id) => Ok((FilterValue::Url(id), rest)),
        Err(e) => Err(CssParseError::Custom(e.to_value_error())),
    }
}

impl FilterValueList {
    /// Parses a whole string as one or more filter values separated by white space.
    pub fn parse_str(s: &str) -> (r: Result<FilterValueList, CssParseError>)
        ensures
            match filter_values_spec(s@) {
                Ok(vs) => (r matches Ok(l) && l.view() == vs),
                Err(k) => (r matches Err(e) && e.kind() == k),
            },
    {
        let mut values: Vec<FilterValue> = Vec::new();
        let mut rest = s;
        assert(Seq::<FilterValueView>::empty() + filter_values_spec(s@)->Ok_0 =~= filter_values_spec(
            s@,
        )->Ok_0);
        loop
            invariant
                filter_values_spec(s@) == after_values(
                    values@.map_values(|v: FilterValue| v.view()),
                    filter_values_spec(rest@),
                ),
            decreases rest@.len(),
        {
            let ghost before = values@.map_values(|v: FilterValue| v.view());
            let (v, after) = match parse_filter_value(rest) {
                Ok(p) => p,
                Err(e) => return Err(e),
            };
            values.push(v);
            assert(values@.map_values(|v: FilterValue| v.view()) =~= before.push(v.view()));
            if is_exhausted(after) {
                assert(before + seq![v.view()] =~= before.push(v.view()));
                return Ok(FilterValueList(values));
            }
            proof {
                let ws = filter_values_spec(after@);
                if ws is Ok {
                    assert(before + (seq![v.view()] + ws->Ok_0) =~= before.push(v.view())
                        + ws->Ok_0);
                }
            }
            rest = after;
        }
    }
}

/// Whether the element `n` of `doc` is a `<filter>` whose attributes are all valid.
pub open spec fn is_valid_filter_element<S>(doc: crate::document::Document<S>, n: crate::document::Node) -> bool {
    &&& element_name_of(doc, n) == Some("filter"@)
    &&& doc.node_attributes(n) matches Some(attrs)
    &&& apply_filter_attributes(default_filter(), attrs) is Some
}

/// Acquires the `<filter>` element that `node_id` references, so that its filter can be
/// extracted.  A reference that cannot be acquired, or to an element that is not a
/// `<filter>`, is an error; so is a `<filter>` with invalid attributes.  On an error
/// nothing is left acquired.
pub fn acquire_filter_node<'i, S>(acquired_nodes: &mut AcquiredNodes<'i, S>, node_id: &NodeId) -> (r: Result<
    AcquiredNode,
    FilterResolveError,
>)
    requires
        old(acquired_nodes).document().wf(),
        old(acquired_nodes).num_acquired() < usize::MAX,
    ensures
        final(acquired_nodes).document() == old(acquired_nodes).document(),
        final(acquired_nodes).num_acquired() == old(acquired_nodes).num_acquired() + 1,
        match acquire_outcome(
            old(acquired_nodes).document(),
            old(acquired_nodes).num_acquired() + 1,
            old(acquired_nodes).stack(),
            node_id.view(),
        ) {
            AcquireOutcome::Acquired(n, on_stack) => if element_name_of(
                old(acquired_nodes).document(),
                n,
            ) != Some("filter"@) {
                r == Err::<AcquiredNode, FilterResolveError>(
                    FilterResolveError::ReferenceToNonFilterElement,
                ) && final(acquired_nodes).stack() == old(acquired_nodes).stack()
            } else if !is_valid_filter_element(old(acquired_nodes).document(), n) {
                r == Err::<AcquiredNode, FilterResolveError>(FilterResolveError::ChildNodeInError)
                    && final(acquired_nodes).stack() == old(acquired_nodes).stack()
            } else {
                (r matches Ok(a) && a.node() == n && a.on_stack() == on_stack)
                    && final(acquired_nodes).stack() == if on_stack {
                    old(acquired_nodes).stack().push(n)
                } else {
                    old(acquired_nodes).stack()
                }
            },
            _ => r == Err::<AcquiredNode, FilterResolveError>(
                FilterResolveError::ReferenceToNonFilterElement,
            ) && final(acquired_nodes).stack() == old(acquired_nodes).stack(),
        },
{
    let ghost stack0 = acquired_nodes.stack();
    let acquired = match acquired_nodes.acquire(node_id) {
        Ok(a) => a,
        Err(_) => return Err(FilterResolveError::ReferenceToNonFilterElement),
    };
    let n = *acquired.get();
    let doc = acquired_nodes.document_ref();
    proof {
        doc.lemma_node_kind_in_tree(n);
    }
    let is_filter = match doc.element_name(&n) {
        Some(name) => str_eq(name.as_str(), "filter"),
        None => false,
    };
    if !is_filter {
        acquired_nodes.release(acquired);
        proof {
            assert(stack0.push(n).drop_last() =~= stack0);
        }
        return Err(FilterResolveError::ReferenceToNonFilterElement);
    }
    let valid = match doc.attributes_of(&n) {
        Some(attrs) => {
            let mut f = Filter::new();
            f.set_attributes(attrs).is_ok()
        },
        None => false,
    };
    if !valid {
        acquired_nodes.release(acquired);
        proof {
            assert(stack0.push(n).drop_last() =~= stack0);
        }
        return Err(FilterResolveError::ChildNodeInError);
    }
    Ok(acquired)
}

/// The value of the `filter` property, once read, holds at least one filter value.
pub proof fn lemma_filter_value_list_not_empty(input: Seq<char>)
    ensures
        filter_values_spec(input) matches Ok(vs) ==> vs.len() > 0,
{
}

} // verus!
