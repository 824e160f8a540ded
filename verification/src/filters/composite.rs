//! The `feComposite` filter primitive: its compositing operator and coefficients.

use vstd::prelude::*;

use crate::css::{
    css_next, keyword_spec, lemma_keyword_spec_matches, number_spec, parse_keyword, CssErrorKind,
    CssNumber, CssParseError, CssTokenView, Parse,
};
use crate::strings::eq_ignore_ascii_case;
use crate::filters::lighting::number_value;
use crate::filters::{standard_attributes, Input, InputView, Primitive};
use crate::strings::str_eq;

verus! {

/// Enumeration of the possible compositing operations.
#[derive(Debug, Clone, Copy, PartialEq, Eq, Hash, Structural)]
pub enum Operator {
    Over,
    In,
    Out,
    Atop,
    Xor,
    Arithmetic,
}

/// The keywords of the operators, in the order of [`Operator`]'s variants.
pub open spec fn operator_keywords() -> Seq<Seq<char>> {
    seq!["over"@, "in"@, "out"@, "atop"@, "xor"@, "arithmetic"@]
}

/// The operator at position `i` of [`operator_keywords`].
pub open spec fn operator_at(i: nat) -> Operator {
    if i == 0 {
        Operator::Over
    } else if i == 1 {
        Operator::In
    } else if i == 2 {
        Operator::Out
    } else if i == 3 {
        Operator::Atop
    } else if i == 4 {
        Operator::Xor
    } else {
        Operator::Arithmetic
    }
}

/// The keyword that names each compositing operator.
pub open spec fn operator_name(o: Operator) -> Seq<char> {
    match o {
        Operator::Over => "over"@,
        Operator::In => "in"@,
        Operator::Out => "out"@,
        Operator::Atop => "atop"@,
        Operator::Xor => "xor"@,
        Operator::Arithmetic => "arithmetic"@,
    }
}

/// A compositing operator is read from an identifier that is that operator's own keyword,
/// ignoring ASCII case: whatever operator parsing gives, the identifier read names it.
pub proof fn lemma_operator_is_named_by_its_keyword(input: Seq<char>)
    ensures
        <Operator as Parse>::parse_spec(input) matches Ok((o, rest)) ==> (css_next(input).0 matches Some(
            CssTokenView::Ident(id),
        ) && eq_ignore_ascii_case(id, operator_name(o)) && rest == css_next(input).1),
{
    lemma_keyword_spec_matches(input, operator_keywords());
    if let Ok((i, _)) = keyword_spec(input, operator_keywords()) {
        assert(operator_name(operator_at(i)) == operator_keywords()[i as int]);
    }
}

impl Default for Operator {
    fn default() -> (o: Operator)
        ensures
            o == Operator::Over,
    {
        Operator::Over
    }
}

impl Parse for Operator {
    open spec fn parse_spec(input: Seq<char>) -> Result<(Operator, Seq<char>), CssErrorKind> {
        match keyword_spec(input, operator_keywords()) {
            Ok((i, rest)) => Ok((operator_at(i), rest)),
            Err(k) => Err(k),
        }
    }

    /// Parses a keyword, ignoring ASCII case.
    fn parse(input: &str) -> (r: Result<(Operator, &str), CssParseError>) {
        let keywords = ["over", "in", "out", "atop", "xor", "arithmetic"];
        proof {
            reveal_strlit("over");
            reveal_strlit("in");
            reveal_strlit("out");
            reveal_strlit("atop");
            reveal_strlit("xor");
            reveal_strlit("arithmetic");
        }
        assert(keywords@.map_values(|k: &str| k@) =~= operator_keywords());
        match parse_keyword(input, &keywords) {
            Ok((i, rest)) => {
                let v = if i == 0 {
                    Operator::Over
                } else if i == 1 {
                    Operator::In
                } else if i == 2 {
                    Operator::Out
                } else if i == 3 {
                    Operator::Atop
                } else if i == 4 {
                    Operator::Xor
                } else {
                    Operator::Arithmetic
                };
                Ok((v, rest))
            },
            Err(e) => Err(e),
        }
    }
}

/// Parameters of the `feComposite` primitive, for rendering.
#[derive(Debug, PartialEq, Eq)]
pub struct Composite {
    pub in1: Input,
    pub in2: Input,
    pub operator: Operator,
    pub k1: CssNumber,
    pub k2: CssNumber,
    pub k3: CssNumber,
    pub k4: CssNumber,
}

/// The operator and the coefficients of a composite.
pub struct CompositeValues {
    pub operator: Operator,
    pub k1: CssNumber,
    pub k2: CssNumber,
    pub k3: CssNumber,
    pub k4: CssNumber,
}

impl Composite {
    pub open spec fn values(&self) -> CompositeValues {
        CompositeValues { operator: self.operator, k1: self.k1, k2: self.k2, k3: self.k3, k4: self.k4 }
    }
}

/// The `feComposite` filter primitive.
#[derive(Debug, PartialEq, Eq)]
pub struct FeComposite {
    pub base: Primitive,
    pub params: Composite,
}

/// The operator and coefficients after the attribute `name="value"`, or `None` if the
/// value is invalid.
pub open spec fn composite_attribute(v: CompositeValues, name: Seq<char>, value: Seq<char>) -> Option<CompositeValues> {
    if name == "operator"@ {
        match <Operator as Parse>::parse_spec(value) {
            Ok((o, _)) => Some(CompositeValues { operator: o, ..v }),
            Err(_) => None,
        }
    } else if name == "k1"@ {
        match number_spec(value) {
            Ok((n, _)) => Some(CompositeValues { k1: n, ..v }),
            Err(_) => None,
        }
    } else if name == "k2"@ {
        match number_spec(value) {
            Ok((n, _)) => Some(CompositeValues { k2: n, ..v }),
            Err(_) => None,
        }
    } else if name == "k3"@ {
        match number_spec(value) {
            Ok((n, _)) => Some(CompositeValues { k3: n, ..v }),
            Err(_) => None,
        }
    } else if name == "k4"@ {
        match number_spec(value) {
            Ok((n, _)) => Some(CompositeValues { k4: n, ..v }),
            Err(_) => None,
        }
    } else {
        Some(v)
    }
}

/// Reading an attribute of `feComposite` sets exactly the operator or coefficient of that
/// name to the value read, and leaves the others as they were; the attribute is refused
/// only when it is one of them and its value does not start with what that one is read
/// from.
pub proof fn lemma_composite_attribute_sets_its_parameter(v: CompositeValues, name: Seq<char>, value: Seq<char>)
    ensures
        match composite_attribute(v, name, value) {
            Some(m) => {
                &&& Some(m.operator) == (if name == "operator"@ {
                    match <Operator as Parse>::parse_spec(value) {
                        Ok((o, _)) => Some(o),
                        Err(_) => None,
                    }
                } else {
                    Some(v.operator)
                })
                &&& Some(m.k1) == (if name == "k1"@ { number_value(value) } else { Some(v.k1) })
                &&& Some(m.k2) == (if name == "k2"@ { number_value(value) } else { Some(v.k2) })
                &&& Some(m.k3) == (if name == "k3"@ { number_value(value) } else { Some(v.k3) })
                &&& Some(m.k4) == (if name == "k4"@ { number_value(value) } else { Some(v.k4) })
            },
            None => {
                ||| name == "operator"@ && <Operator as Parse>::parse_spec(value) is Err
                ||| (name == "k1"@ || name == "k2"@ || name == "k3"@ || name == "k4"@) && number_value(
                    value,
                ) is None
            },
        },
{
    reveal_strlit("operator");
    reveal_strlit("k1");
    reveal_strlit("k2");
    reveal_strlit("k3");
    reveal_strlit("k4");
    assert("operator"@.len() == 8);
    assert("k1"@.len() == 2 && "k1"@[1] == '1');
    assert("k2"@.len() == 2 && "k2"@[1] == '2');
    assert("k3"@.len() == 2 && "k3"@[1] == '3');
    assert("k4"@.len() == 2 && "k4"@[1] == '4');
}

/// The attributes applied in order, up to the first invalid one, and whether every one
/// was valid.
pub open spec fn composite_attributes(v: CompositeValues, attrs: Seq<(Seq<char>, Seq<char>)>) -> (
    CompositeValues,
    bool,
)
    decreases attrs.len(),
{
    if attrs.len() == 0 {
        (v, true)
    } else {
        match composite_attribute(v, attrs[0].0, attrs[0].1) {
            Some(w) => composite_attributes(w, attrs.drop_first()),
            None => (v, false),
        }
    }
}

impl FeComposite {
    /// The `over` operator, with coefficients 0, on unspecified inputs.
    pub fn new() -> (f: FeComposite)
        ensures
            f.params.in1 == Input::Unspecified && f.params.in2 == Input::Unspecified,
            f.params.operator == Operator::Over,
            f.params.k1 == CssNumber(0) && f.params.k2 == CssNumber(0) && f.params.k3 == CssNumber(0)
                && f.params.k4 == CssNumber(0),
            f.base.x is None && f.base.y is None && f.base.width is None && f.base.height is None
                && f.base.result is None,
    {
        FeComposite {
            base: Primitive::new(),
            params: Composite {
                in1: Input::Unspecified,
                in2: Input::Unspecified,
                operator: Operator::Over,
                k1: CssNumber(0),
                k2: CssNumber(0),
                k3: CssNumber(0),
                k4: CssNumber(0),
            },
        }
    }

    /// Reads the standard attributes with the two inputs, then the operator and the
    /// coefficients.
    pub fn set_attributes(&mut self, attrs: &Vec<(String, String)>) -> (r: Result<(), CssParseError>)
        ensures
            ({
                let av = attrs@.map_values(|a: (String, String)| (a.0@, a.1@));
                let (p, a, b, ok) = standard_attributes(
                    old(self).base.view(),
                    InputView::Unspecified,
                    InputView::Unspecified,
                    av,
                );
                let (v, rest_ok) = composite_attributes(old(self).params.values(), av);
                &&& final(self).base.view() == p
                &&& !ok ==> r is Err && final(self).params == old(self).params
                &&& ok ==> final(self).params.in1.view() == a && final(self).params.in2.view() == b
                    && final(self).params.values() == v && (r is Ok <==> rest_ok)
            }),
    {
        let ghost av = attrs@.map_values(|a: (String, String)| (a.0@, a.1@));
        let (in1, in2) = match self.base.parse_two_inputs(attrs) {
            Ok(p) => p,
            Err(e) => return Err(e),
        };
        self.params.in1 = in1;
        self.params.in2 = in2;
        let ghost sa = standard_attributes(
            old(self).base.view(),
            InputView::Unspecified,
            InputView::Unspecified,
            av,
        );
        let mut i: usize = 0;
        assert(av.skip(0) =~= av);
        while i < attrs.len()
            invariant
                sa == standard_attributes(
                    old(self).base.view(),
                    InputView::Unspecified,
                    InputView::Unspecified,
                    av,
                ),
                sa.3 && sa.0 == self.base.view() && self.params.in1.view() == sa.1
                    && self.params.in2.view() == sa.2,
                i <= attrs@.len(),
                av == attrs@.map_values(|a: (String, String)| (a.0@, a.1@)),
                composite_attributes(old(self).params.values(), av) == composite_attributes(
                    self.params.values(),
                    av.skip(i as int),
                ),
            decreases attrs@.len() - i,
        {
            let ghost before = self.params.values();
            assert(av.skip(i as int)[0] == av[i as int]);
            assert(av.skip(i as int).drop_first() =~= av.skip(i + 1));
            let name = attrs[i].0.as_str();
            let value = attrs[i].1.as_str();
            if str_eq(name, "operator") {
                match Operator::parse(value) {
                    Ok((o, _)) => self.params.operator = o,
                    Err(e) => return Err(e),
                }
            } else if str_eq(name, "k1") || str_eq(name, "k2") || str_eq(name, "k3") || str_eq(name, "k4") {
                match CssNumber::parse(value) {
                    Ok((n, _)) => {
                        if str_eq(name, "k1") {
                            self.params.k1 = n;
                        } else if str_eq(name, "k2") {
                            self.params.k2 = n;
                        } else if str_eq(name, "k3") {
                            self.params.k3 = n;
                        } else {
                            self.params.k4 = n;
                        }
                    },
                    Err(e) => return Err(e),
                }
            }
            assert(composite_attribute(before, av[i as int].0, av[i as int].1) == Some(self.params.values()));
            i = i + 1;
        }
        assert(av.skip(i as int).len() == 0);
        Ok(())
    }
}

} // verus!
