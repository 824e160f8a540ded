//! The transfer functions of the `feComponentTransfer` filter primitive.

use vstd::prelude::*;

use crate::css::{
    css_next, keyword_spec, lemma_keyword_spec_matches, number_list_spec, number_spec,
    parse_keyword, CssErrorKind, CssNumber, CssParseError, CssTokenView, NumberList,
    NumberListLength, Parse, ONE_BITS,
};
use crate::strings::eq_ignore_ascii_case;
use crate::document::{NodeKindView, Tree};
use crate::error::ValueErrorKind;
use crate::css::value_of;
use crate::filters::lighting::number_value;
use crate::filters::{standard_attributes, FilterResolveError, Input, InputView, Primitive};
use crate::strings::str_eq;

verus! {

/// Pixel components that can be influenced by `feComponentTransfer`.
#[derive(Debug, Clone, Copy, PartialEq, Eq, Structural)]
pub enum Channel {
    R,
    G,
    B,
    A,
}

/// Component transfer function types.
#[derive(Debug, Clone, Copy, PartialEq, Eq, Structural)]
pub enum FunctionType {
    Identity,
    Table,
    Discrete,
    Linear,
    Gamma,
}

/// The keywords of the function types, in the order of [`FunctionType`]'s variants.
pub open spec fn function_type_keywords() -> Seq<Seq<char>> {
    seq!["identity"@, "table"@, "discrete"@, "linear"@, "gamma"@]
}

/// The function type at position `i` of [`function_type_keywords`].
pub open spec fn function_type_at(i: nat) -> FunctionType {
    if i == 0 {
        FunctionType::Identity
    } else if i == 1 {
        FunctionType::Table
    } else if i == 2 {
        FunctionType::Discrete
    } else if i == 3 {
        FunctionType::Linear
    } else {
        FunctionType::Gamma
    }
}

/// The keyword that names each transfer function type.
pub open spec fn function_type_name(t: FunctionType) -> Seq<char> {
    match t {
        FunctionType::Identity => "identity"@,
        FunctionType::Table => "table"@,
        FunctionType::Discrete => "discrete"@,
        FunctionType::Linear => "linear"@,
        FunctionType::Gamma => "gamma"@,
    }
}

/// A transfer function type is read from an identifier that is that type's own keyword,
/// ignoring ASCII case: whatever type parsing gives, the identifier read names it.
pub proof fn lemma_function_type_is_named_by_its_keyword(input: Seq<char>)
    ensures
        <FunctionType as Parse>::parse_spec(input) matches Ok((t, rest)) ==> (css_next(input).0 matches Some(
            CssTokenView::Ident(id),
        ) && eq_ignore_ascii_case(id, function_type_name(t)) && rest == css_next(input).1),
{
    lemma_keyword_spec_matches(input, function_type_keywords());
    if let Ok((i, _)) = keyword_spec(input, function_type_keywords()) {
        assert(function_type_name(function_type_at(i)) == function_type_keywords()[i as int]);
    }
}

impl Parse for FunctionType {
    open spec fn parse_spec(input: Seq<char>) -> Result<(FunctionType, Seq<char>), CssErrorKind> {
        match keyword_spec(input, function_type_keywords()) {
            Ok((i, rest)) => Ok((function_type_at(i), rest)),
            Err(k) => Err(k),
        }
    }

    /// Parses a keyword, ignoring ASCII case.
    fn parse(input: &str) -> (r: Result<(FunctionType, &str), CssParseError>) {
        let keywords = ["identity", "table", "discrete", "linear", "gamma"];
        proof {
            reveal_strlit("identity");
            reveal_strlit("table");
            reveal_strlit("discrete");
            reveal_strlit("linear");
            reveal_strlit("gamma");
        }
        assert(keywords@.map_values(|k: &str| k@) =~= function_type_keywords());
        match parse_keyword(input, &keywords) {
            Ok((i, rest)) => {
                let v = if i == 0 {
                    FunctionType::Identity
                } else if i == 1 {
                    FunctionType::Table
                } else if i == 2 {
                    FunctionType::Discrete
                } else if i == 3 {
                    FunctionType::Linear
                } else {
                    FunctionType::Gamma
                };
                Ok((v, rest))
            },
            Err(e) => Err(e),
        }
    }
}

/// The most numbers that `tableValues` may hold.
pub const MAX_TABLE_VALUES: usize = 256;

/// A component transfer function: the attributes of a `feFuncR`, `feFuncG`, `feFuncB` or
/// `feFuncA` element.
#[derive(Debug, Clone, PartialEq, Eq)]
pub struct FeFunc {
    pub channel: Channel,
    pub function_type: FunctionType,
    pub table_values: Vec<CssNumber>,
    pub slope: CssNumber,
    pub intercept: CssNumber,
    pub amplitude: CssNumber,
    pub exponent: CssNumber,
    pub offset: CssNumber,
}

/// What a [`FeFunc`] is in specifications.
pub struct FeFuncView {
    pub channel: Channel,
    pub function_type: FunctionType,
    pub table_values: Seq<CssNumber>,
    pub slope: CssNumber,
    pub intercept: CssNumber,
    pub amplitude: CssNumber,
    pub exponent: CssNumber,
    pub offset: CssNumber,
}

impl FeFunc {
    pub open spec fn view(&self) -> FeFuncView {
        FeFuncView {
            channel: self.channel,
            function_type: self.function_type,
            table_values: self.table_values@,
            slope: self.slope,
            intercept: self.intercept,
            amplitude: self.amplitude,
            exponent: self.exponent,
            offset: self.offset,
        }
    }

    /// The identity function for `channel`, with the default parameters (slope,
    /// amplitude and exponent 1, intercept and offset 0, no table).
    pub fn default_for(channel: Channel) -> (f: FeFunc)
        ensures
            f.view() == default_fe_func(channel),
    {
        FeFunc {
            channel,
            function_type: FunctionType::Identity,
            table_values: Vec::new(),
            slope: CssNumber(ONE_BITS),
            intercept: CssNumber(0),
            amplitude: CssNumber(ONE_BITS),
            exponent: CssNumber(ONE_BITS),
            offset: CssNumber(0),
        }
    }
}

pub open spec fn default_fe_func(channel: Channel) -> FeFuncView {
    FeFuncView {
        channel,
        function_type: FunctionType::Identity,
        table_values: Seq::empty(),
        slope: CssNumber(ONE_BITS),
        intercept: CssNumber(0),
        amplitude: CssNumber(ONE_BITS),
        exponent: CssNumber(ONE_BITS),
        offset: CssNumber(0),
    }
}

/// The function after the attribute `name="value"`, or `None` if the value is invalid.
pub open spec fn apply_attribute(f: FeFuncView, name: Seq<char>, value: Seq<char>) -> Option<FeFuncView> {
    if name == "type"@ {
        match keyword_spec(value, function_type_keywords()) {
            Ok((i, _)) => Some(FeFuncView { function_type: function_type_at(i), ..f }),
            Err(_) => None,
        }
    } else if name == "tableValues"@ {
        match number_list_spec(value, NumberListLength::Unbounded) {
            Ok((v, _)) => if v.len() <= MAX_TABLE_VALUES {
                Some(FeFuncView { table_values: v, ..f })
            } else {
                None
            },
            Err(_) => None,
        }
    } else if name == "slope"@ || name == "intercept"@ || name == "amplitude"@ || name
        == "exponent"@ || name == "offset"@ {
        match number_spec(value) {
            Ok((n, _)) => Some(
                if name == "slope"@ {
                    FeFuncView { slope: n, ..f }
                } else if name == "intercept"@ {
                    FeFuncView { intercept: n, ..f }
                } else if name == "amplitude"@ {
                    FeFuncView { amplitude: n, ..f }
                } else if name == "exponent"@ {
                    FeFuncView { exponent: n, ..f }
                } else {
                    FeFuncView { offset: n, ..f }
                },
            ),
            Err(_) => None,
        }
    } else {
        Some(f)
    }
}

/// Reading an attribute of a transfer function sets exactly the parameter of that name to
/// the value read, and leaves the channel and every other parameter as they were; the
/// attribute is refused only when it names a parameter and its value does not start with
/// what that parameter is read from, or gives more table values than are kept.
pub proof fn lemma_func_attribute_sets_its_parameter(f: FeFuncView, name: Seq<char>, value: Seq<char>)
    ensures
        match apply_attribute(f, name, value) {
            Some(g) => {
                &&& g.channel == f.channel
                &&& Some(g.function_type) == (if name == "type"@ {
                    value_of::<FunctionType>(value)
                } else {
                    Some(f.function_type)
                })
                &&& Some(g.table_values) == (if name == "tableValues"@ {
                    match number_list_spec(value, NumberListLength::Unbounded) {
                        Ok((v, _)) => Some(v),
                        Err(_) => None,
                    }
                } else {
                    Some(f.table_values)
                })
                &&& g.table_values.len() <= MAX_TABLE_VALUES || g.table_values == f.table_values
                &&& Some(g.slope) == (if name == "slope"@ { number_value(value) } else { Some(f.slope) })
                &&& Some(g.intercept) == (if name == "intercept"@ {
                    number_value(value)
                } else {
                    Some(f.intercept)
                })
                &&& Some(g.amplitude) == (if name == "amplitude"@ {
                    number_value(value)
                } else {
                    Some(f.amplitude)
                })
                &&& Some(g.exponent) == (if name == "exponent"@ { number_value(value) } else { Some(f.exponent) })
                &&& Some(g.offset) == (if name == "offset"@ { number_value(value) } else { Some(f.offset) })
            },
            None => {
                ||| name == "type"@ && value_of::<FunctionType>(value) is None
                ||| name == "tableValues"@ && !(number_list_spec(value, NumberListLength::Unbounded) matches Ok(
                    (v, _),
                ) && v.len() <= MAX_TABLE_VALUES)
                ||| (name == "slope"@ || name == "intercept"@ || name == "amplitude"@ || name
                    == "exponent"@ || name == "offset"@) && number_value(value) is None
            },
        },
{
    reveal_strlit("type");
    reveal_strlit("tableValues");
    reveal_strlit("slope");
    reveal_strlit("intercept");
    reveal_strlit("amplitude");
    reveal_strlit("exponent");
    reveal_strlit("offset");
    assert("type"@.len() == 4);
    assert("tableValues"@.len() == 11);
    assert("slope"@.len() == 5);
    assert("intercept"@.len() == 9);
    assert("amplitude"@.len() == 9 && "amplitude"@[0] == 'a' && "intercept"@[0] == 'i');
    assert("exponent"@.len() == 8);
    assert("offset"@.len() == 6);
}

/// The function after the attributes `attrs`, in order, or `None` at the first invalid
/// value.
pub open spec fn apply_attributes(f: FeFuncView, attrs: Seq<(Seq<char>, Seq<char>)>) -> Option<FeFuncView>
    decreases attrs.len(),
{
    if attrs.len() == 0 {
        Some(f)
    } else {
        match apply_attribute(f, attrs[0].0, attrs[0].1) {
            Some(g) => apply_attributes(g, attrs.drop_first()),
            None => None,
        }
    }
}

/// A table or discrete function with an empty table is the identity function.
pub open spec fn normalize_fe_func(f: FeFuncView) -> FeFuncView {
    if (f.function_type == FunctionType::Table || f.function_type == FunctionType::Discrete)
        && f.table_values.len() == 0 {
        FeFuncView { function_type: FunctionType::Identity, ..f }
    } else {
        f
    }
}

impl FeFunc {
    /// Sets the function from the element's attributes, in order.  A table or discrete
    /// function with an empty table is the identity function.
    pub fn set_attributes(&mut self, attrs: &Vec<(String, String)>) -> (r: Result<(), CssParseError>)
        ensures
            match apply_attributes(old(self).view(), attrs@.map_values(|a: (String, String)| (a.0@, a.1@))) {
                Some(f) => r is Ok && final(self).view() == normalize_fe_func(f),
                None => r is Err,
            },
    {
        let ghost av = attrs@.map_values(|a: (String, String)| (a.0@, a.1@));
        let mut i: usize = 0;
        assert(av.skip(0) =~= av);
        while i < attrs.len()
            invariant
                i <= attrs@.len(),
                av == attrs@.map_values(|a: (String, String)| (a.0@, a.1@)),
                apply_attributes(old(self).view(), av) == apply_attributes(self.view(), av.skip(i as int)),
            decreases attrs@.len() - i,
        {
            let ghost before = self.view();
            assert(av.skip(i as int)[0] == av[i as int]);
            assert(av.skip(i as int).drop_first() =~= av.skip(i + 1));
            let name = attrs[i].0.as_str();
            let value = attrs[i].1.as_str();
            if str_eq(name, "type") {
                match FunctionType::parse(value) {
                    Ok((t, _)) => {
                        self.function_type = t;
                    },
                    Err(e) => return Err(e),
                }
            } else if str_eq(name, "tableValues") {
                match NumberList::parse(value, NumberListLength::Unbounded) {
                    Ok((l, _)) => {
                        if l.0.len() > MAX_TABLE_VALUES {
                            return Err(CssParseError::Custom(ValueErrorKind::value_error("too many table values")));
                        }
                        self.table_values = l.0;
                    },
                    Err(e) => return Err(e),
                }
            } else if str_eq(name, "slope") || str_eq(name, "intercept") || str_eq(name, "amplitude")
                || str_eq(name, "exponent") || str_eq(name, "offset") {
                match CssNumber::parse(value) {
                    Ok((n, _)) => {
                        if str_eq(name, "slope") {
                            self.slope = n;
                        } else if str_eq(name, "intercept") {
                            self.intercept = n;
                        } else if str_eq(name, "amplitude") {
                            self.amplitude = n;
                        } else if str_eq(name, "exponent") {
                            self.exponent = n;
                        } else {
                            self.offset = n;
                        }
                    },
                    Err(e) => return Err(e),
                }
            }
            proof {
                assert(apply_attribute(before, av[i as int].0, av[i as int].1) == Some(self.view()));
            }
            i = i + 1;
        }
        assert(av.skip(i as int).len() == 0);
        if (self.function_type == FunctionType::Table || self.function_type == FunctionType::Discrete)
            && self.table_values.len() == 0 {
            self.function_type = FunctionType::Identity;
        }
        Ok(())
    }
}

/// The transfer functions of the four channels.
#[derive(Debug, Clone, PartialEq, Eq)]
pub struct Functions {
    pub r: FeFunc,
    pub g: FeFunc,
    pub b: FeFunc,
    pub a: FeFunc,
}

/// The last of the children up to `c`, going backwards through the siblings, that is an
/// element named `name`.
pub open spec fn last_element_named(t: Tree, c: Option<usize>, name: Seq<char>) -> Option<usize>
    decreases (match c {
        Some(i) => i + 1,
        None => 0,
    }),
{
    match c {
        None => None,
        Some(i) => if i < t.len() && (t.kind(i as int) matches NodeKindView::Element { name: n, .. }
            && n == name) {
            Some(i)
        } else if i < t.len() && (t.prev_sibling(i as int) matches Some(p) && p < i) {
            last_element_named(t, t.prev_sibling(i as int), name)
        } else {
            None
        },
    }
}

/// The function of `channel` that the children of `node` define: that of the last child
/// element named `name`, the default one if there is none, or `None` if the attributes
/// of that child are invalid.
pub open spec fn function_for(t: Tree, node: usize, channel: Channel, name: Seq<char>) -> Option<FeFuncView> {
    match last_element_named(t, t.last_child(node as int), name) {
        None => Some(default_fe_func(channel)),
        Some(i) => match t.attributes(i as int) {
            Some(attrs) => match apply_attributes(default_fe_func(channel), attrs) {
                Some(f) => Some(normalize_fe_func(f)),
                None => None,
            },
            None => Some(default_fe_func(channel)),
        },
    }
}

pub(crate) fn find_last_element_named(t: &Tree, node: usize, name: &str) -> (r: Option<usize>)
    requires
        t.wf(),
        node < t.len(),
    ensures
        r == last_element_named(*t, t.last_child(node as int), name@),
        r matches Some(i) ==> i < t.len(),
{
    let mut c = t.last_child_of(node);
    while c.is_some()
        invariant
            t.wf(),
            c matches Some(i) ==> i < t.len(),
            last_element_named(*t, t.last_child(node as int), name@) == last_element_named(*t, c, name@),
        decreases (match c {
            Some(i) => i + 1,
            None => 0,
        }),
    {
        let i = c.unwrap();
        if t.is_element_named(i, name) {
            return Some(i);
        }
        c = t.prev_sibling_of(i);
    }
    None
}

fn function_of(t: &Tree, node: usize, channel: Channel, name: &str) -> (r: Option<FeFunc>)
    requires
        t.wf(),
        node < t.len(),
    ensures
        match function_for(*t, node, channel, name@) {
            Some(f) => (r matches Some(g) && g.view() == f),
            None => r is None,
        },
{
    let mut f = FeFunc::default_for(channel);
    match find_last_element_named(t, node, name) {
        None => Some(f),
        Some(i) => match t.element_attributes(i) {
            Some(attrs) => match f.set_attributes(attrs) {
                Ok(()) => Some(f),
                Err(_) => None,
            },
            None => Some(f),
        },
    }
}

/// Walks the children of a `feComponentTransfer` element to produce the functions of
/// the four channels: for each channel the last child `feFuncR`, `feFuncG`, `feFuncB`
/// or `feFuncA`, or the identity function when there is none.  A child with invalid
/// attributes is an error.
pub fn get_functions(t: &Tree, node: usize) -> (r: Result<Functions, FilterResolveError>)
    requires
        t.wf(),
        node < t.len(),
    ensures
        match (
            function_for(*t, node, Channel::R, "feFuncR"@),
            function_for(*t, node, Channel::G, "feFuncG"@),
            function_for(*t, node, Channel::B, "feFuncB"@),
            function_for(*t, node, Channel::A, "feFuncA"@),
        ) {
            (Some(fr), Some(fg), Some(fb), Some(fa)) => (r matches Ok(fs) && fs.r.view() == fr
                && fs.g.view() == fg && fs.b.view() == fb && fs.a.view() == fa),
            _ => r == Err::<Functions, FilterResolveError>(FilterResolveError::ChildNodeInError),
        },
{
    let r = function_of(t, node, Channel::R, "feFuncR");
    let g = function_of(t, node, Channel::G, "feFuncG");
    let b = function_of(t, node, Channel::B, "feFuncB");
    let a = function_of(t, node, Channel::A, "feFuncA");
    match (r, g, b, a) {
        (Some(r), Some(g), Some(b), Some(a)) => Ok(Functions { r, g, b, a }),
        _ => Err(FilterResolveError::ChildNodeInError),
    }
}

/// Parameters of the `feComponentTransfer` primitive, for rendering.
#[derive(Debug, PartialEq, Eq)]
pub struct ComponentTransfer {
    pub in1: Input,
    pub functions: Functions,
}

/// The `feComponentTransfer` filter primitive.
#[derive(Debug, PartialEq, Eq)]
pub struct FeComponentTransfer {
    pub base: Primitive,
    pub params: ComponentTransfer,
}

impl FeComponentTransfer {
    /// A transfer of an unspecified input with the identity function on every channel.
    pub fn new() -> (f: FeComponentTransfer)
        ensures
            f.params.in1 == Input::Unspecified,
            f.params.functions.r.view() == default_fe_func(Channel::R),
            f.params.functions.g.view() == default_fe_func(Channel::G),
            f.params.functions.b.view() == default_fe_func(Channel::B),
            f.params.functions.a.view() == default_fe_func(Channel::A),
            f.base.x is None && f.base.y is None && f.base.width is None && f.base.height is None
                && f.base.result is None,
    {
        FeComponentTransfer {
            base: Primitive::new(),
            params: ComponentTransfer {
                in1: Input::Unspecified,
                functions: Functions {
                    r: FeFunc::default_for(Channel::R),
                    g: FeFunc::default_for(Channel::G),
                    b: FeFunc::default_for(Channel::B),
                    a: FeFunc::default_for(Channel::A),
                },
            },
        }
    }

    /// Reads the standard attributes with one input.
    pub fn set_attributes(&mut self, attrs: &Vec<(String, String)>) -> (r: Result<(), CssParseError>)
        ensures
            ({
                let (p, a, _, ok) = standard_attributes(
                    old(self).base.view(),
                    InputView::Unspecified,
                    InputView::Unspecified,
                    attrs@.map_values(|a: (String, String)| (a.0@, a.1@)),
                );
                &&& final(self).base.view() == p
                &&& ok <==> r is Ok
                &&& !ok ==> final(self).params == old(self).params
                &&& ok ==> final(self).params.in1.view() == a
                &&& final(self).params.functions == old(self).params.functions
            }),
    {
        self.params.in1 = match self.base.parse_one_input(attrs) {
            Ok(i) => i,
            Err(e) => return Err(e),
        };
        Ok(())
    }

    /// The parameters for rendering: the input of the element, and the functions that its
    /// children `feFuncR`, `feFuncG`, `feFuncB` and `feFuncA` define (see
    /// [`get_functions`]).
    pub fn resolve(&self, t: &Tree, node: usize) -> (r: Result<ComponentTransfer, FilterResolveError>)
        requires
            t.wf(),
            node < t.len(),
        ensures
            match (
                function_for(*t, node, Channel::R, "feFuncR"@),
                function_for(*t, node, Channel::G, "feFuncG"@),
                function_for(*t, node, Channel::B, "feFuncB"@),
                function_for(*t, node, Channel::A, "feFuncA"@),
            ) {
                (Some(fr), Some(fg), Some(fb), Some(fa)) => (r matches Ok(c) && c.in1.view()
                    == self.params.in1.view() && c.functions.r.view() == fr && c.functions.g.view() == fg
                    && c.functions.b.view() == fb && c.functions.a.view() == fa),
                _ => r == Err::<ComponentTransfer, FilterResolveError>(
                    FilterResolveError::ChildNodeInError,
                ),
            },
    {
        match get_functions(t, node) {
            Ok(functions) => Ok(ComponentTransfer { in1: self.params.in1.duplicate(), functions }),
            Err(e) => Err(e),
        }
    }
}

} // verus!
