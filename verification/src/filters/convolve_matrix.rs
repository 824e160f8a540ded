//! The `feConvolveMatrix` filter primitive: its parameters, read from the element's
//! attributes.

use vstd::prelude::*;

use crate::filters::context::FilterError;

use crate::css::{
    css_next, exhausted, is_exhausted, keyword_spec, lemma_keyword_spec_matches, number_spec,
    optional_comma, parse_keyword, skip_optional_comma, CssErrorKind, CssNumber, CssParseError,
    CssTokenView, NonNegative, NumberOptionalNumber, Parse,
};
use crate::strings::eq_ignore_ascii_case;
use crate::error::ValueErrorKind;
use crate::css::value_of;
use crate::filters::lighting::number_value;
use crate::filters::{standard_attributes, Input, InputView, Primitive};
use crate::strings::{concat, decimal_string, str_eq};

verus! {

/// The most numbers that a kernel matrix is read with (a 20 by 20 kernel), to mitigate
/// malicious SVGs.
pub const MAX_KERNEL_NUMBERS: usize = 400;

/// How the input image is extended beyond its edges.
#[derive(Debug, Clone, Copy, PartialEq, Eq, Structural)]
pub enum EdgeMode {
    /// The nearest edge pixels are repeated.
    Duplicate,
    /// The image is taken from the opposite edge.
    Wrap,
    /// Pixels outside are transparent black (the keyword `none`).
    Zero,
}

/// The keywords of the edge modes, in the order of [`EdgeMode`]'s variants.
pub open spec fn edge_mode_keywords() -> Seq<Seq<char>> {
    seq!["duplicate"@, "wrap"@, "none"@]
}

/// The edge mode at position `i` of [`edge_mode_keywords`].
pub open spec fn edge_mode_at(i: nat) -> EdgeMode {
    if i == 0 {
        EdgeMode::Duplicate
    } else if i == 1 {
        EdgeMode::Wrap
    } else {
        EdgeMode::Zero
    }
}

/// The keyword that names each edge mode (`none` for [`EdgeMode::Zero`]).
pub open spec fn edge_mode_name(m: EdgeMode) -> Seq<char> {
    match m {
        EdgeMode::Duplicate => "duplicate"@,
        EdgeMode::Wrap => "wrap"@,
        EdgeMode::Zero => "none"@,
    }
}

/// An edge mode is read from an identifier that is that mode's own keyword, ignoring ASCII
/// case: whatever edge mode parsing gives, the identifier read names it.
pub proof fn lemma_edge_mode_is_named_by_its_keyword(input: Seq<char>)
    ensures
        <EdgeMode as Parse>::parse_spec(input) matches Ok((m, rest)) ==> (css_next(input).0 matches Some(
            CssTokenView::Ident(id),
        ) && eq_ignore_ascii_case(id, edge_mode_name(m)) && rest == css_next(input).1),
{
    lemma_keyword_spec_matches(input, edge_mode_keywords());
    if let Ok((i, _)) = keyword_spec(input, edge_mode_keywords()) {
        assert(edge_mode_name(edge_mode_at(i)) == edge_mode_keywords()[i as int]);
    }
}

impl Parse for EdgeMode {
    open spec fn parse_spec(input: Seq<char>) -> Result<(EdgeMode, Seq<char>), CssErrorKind> {
        match keyword_spec(input, edge_mode_keywords()) {
            Ok((i, rest)) => Ok((edge_mode_at(i), rest)),
            Err(k) => Err(k),
        }
    }

    /// Parses `duplicate`, `wrap` or `none`, ignoring ASCII case.
    fn parse(input: &str) -> (r: Result<(EdgeMode, &str), CssParseError>) {
        let keywords = ["duplicate", "wrap", "none"];
        proof {
            reveal_strlit("duplicate");
            reveal_strlit("wrap");
            reveal_strlit("none");
        }
        assert(keywords@.map_values(|k: &str| k@) =~= edge_mode_keywords());
        match parse_keyword(input, &keywords) {
            Ok((i, rest)) => {
                let m = if i == 0 {
                    EdgeMode::Duplicate
                } else if i == 1 {
                    EdgeMode::Wrap
                } else {
                    EdgeMode::Zero
                };
                Ok((m, rest))
            },
            Err(e) => Err(e),
        }
    }
}

/// The keywords of the booleans: `false`, then `true`.
pub open spec fn bool_keywords() -> Seq<Seq<char>> {
    seq!["false"@, "true"@]
}

impl Parse for bool {
    /// `false` or `true`, as for the `preserveAlpha` attribute.
    open spec fn parse_spec(input: Seq<char>) -> Result<(bool, Seq<char>), CssErrorKind> {
        match keyword_spec(input, bool_keywords()) {
            Ok((i, rest)) => Ok((i == 1, rest)),
            Err(k) => Err(k),
        }
    }

    /// Parses `false` or `true`, ignoring ASCII case.
    fn parse(input: &str) -> (r: Result<(bool, &str), CssParseError>) {
        let keywords = ["false", "true"];
        proof {
            reveal_strlit("false");
            reveal_strlit("true");
        }
        assert(keywords@.map_values(|k: &str| k@) =~= bool_keywords());
        match parse_keyword(input, &keywords) {
            Ok((i, rest)) => Ok((i == 1, rest)),
            Err(e) => Err(e),
        }
    }
}

/// A boolean is read from an identifier that is its own keyword, ignoring ASCII case:
/// `true` gives `true` and `false` gives `false`.
pub proof fn lemma_bool_is_named_by_its_keyword(input: Seq<char>)
    ensures
        <bool as Parse>::parse_spec(input) matches Ok((b, rest)) ==> (css_next(input).0 matches Some(
            CssTokenView::Ident(id),
        ) && eq_ignore_ascii_case(id, if b { "true"@ } else { "false"@ }) && rest == css_next(input).1),
{
    lemma_keyword_spec_matches(input, bool_keywords());
}

/// Parameters of the `feConvolveMatrix` primitive, for rendering.
#[derive(Debug, PartialEq, Eq)]
pub struct ConvolveMatrix {
    pub in1: Input,
    /// The number of columns and rows of the kernel.
    pub order: (u32, u32),
    /// The numbers of the kernel, row by row, as `kernelMatrix` gives them.
    pub kernel_matrix: Option<Vec<CssNumber>>,
    pub divisor: CssNumber,
    pub bias: CssNumber,
    pub target_x: Option<u32>,
    pub target_y: Option<u32>,
    pub edge_mode: EdgeMode,
    pub kernel_unit_length: Option<(CssNumber, CssNumber)>,
    pub preserve_alpha: bool,
}

/// What a [`ConvolveMatrix`] is in specifications.
pub struct ConvolveMatrixView {
    pub in1: InputView,
    pub order: (u32, u32),
    pub kernel_matrix: Option<Seq<CssNumber>>,
    pub divisor: CssNumber,
    pub bias: CssNumber,
    pub target_x: Option<u32>,
    pub target_y: Option<u32>,
    pub edge_mode: EdgeMode,
    pub kernel_unit_length: Option<(CssNumber, CssNumber)>,
    pub preserve_alpha: bool,
}

impl ConvolveMatrix {
    pub open spec fn view(&self) -> ConvolveMatrixView {
        ConvolveMatrixView {
            in1: self.in1.view(),
            order: self.order,
            kernel_matrix: match self.kernel_matrix {
                Some(v) => Some(v@),
                None => None,
            },
            divisor: self.divisor,
            bias: self.bias,
            target_x: self.target_x,
            target_y: self.target_y,
            edge_mode: self.edge_mode,
            kernel_unit_length: self.kernel_unit_length,
            preserve_alpha: self.preserve_alpha,
        }
    }

    /// A 3 by 3 kernel that is not given yet, a divisor and a bias of 0, the targets in the
    /// middle, edges duplicated, and alpha convolved too.
    pub fn default() -> (c: ConvolveMatrix)
        ensures
            c.view() == default_convolve_matrix(),
    {
        ConvolveMatrix {
            in1: Input::Unspecified,
            order: (3, 3),
            kernel_matrix: None,
            divisor: CssNumber(0),
            bias: CssNumber(0),
            target_x: None,
            target_y: None,
            edge_mode: EdgeMode::Duplicate,
            kernel_unit_length: None,
            preserve_alpha: false,
        }
    }
}

/// The parameters before any attribute is read.
pub open spec fn default_convolve_matrix() -> ConvolveMatrixView {
    ConvolveMatrixView {
        in1: InputView::Unspecified,
        order: (3, 3),
        kernel_matrix: None,
        divisor: CssNumber(0),
        bias: CssNumber(0),
        target_x: None,
        target_y: None,
        edge_mode: EdgeMode::Duplicate,
        kernel_unit_length: None,
        preserve_alpha: false,
    }
}

/// The parameters after the attribute `name="value"`, other than `kernelMatrix`, or
/// `None` if the value is invalid.
pub open spec fn convolve_attribute(p: ConvolveMatrixView, name: Seq<char>, value: Seq<char>) -> Option<
    ConvolveMatrixView,
> {
    if name == "order"@ {
        match <NumberOptionalNumber<u32> as Parse>::parse_spec(value) {
            Ok((NumberOptionalNumber(x, y), _)) => Some(ConvolveMatrixView { order: (x, y), ..p }),
            Err(_) => None,
        }
    } else if name == "divisor"@ {
        match number_spec(value) {
            Ok((n, _)) => Some(ConvolveMatrixView { divisor: n, ..p }),
            Err(_) => None,
        }
    } else if name == "bias"@ {
        match number_spec(value) {
            Ok((n, _)) => Some(ConvolveMatrixView { bias: n, ..p }),
            Err(_) => None,
        }
    } else if name == "targetX"@ {
        match <u32 as Parse>::parse_spec(value) {
            Ok((n, _)) => Some(ConvolveMatrixView { target_x: Some(n), ..p }),
            Err(_) => None,
        }
    } else if name == "targetY"@ {
        match <u32 as Parse>::parse_spec(value) {
            Ok((n, _)) => Some(ConvolveMatrixView { target_y: Some(n), ..p }),
            Err(_) => None,
        }
    } else if name == "edgeMode"@ {
        match <EdgeMode as Parse>::parse_spec(value) {
            Ok((m, _)) => Some(ConvolveMatrixView { edge_mode: m, ..p }),
            Err(_) => None,
        }
    } else if name == "kernelUnitLength"@ {
        match <NumberOptionalNumber<NonNegative> as Parse>::parse_spec(value) {
            Ok((NumberOptionalNumber(x, y), _)) => Some(
                ConvolveMatrixView { kernel_unit_length: Some((x.0, y.0)), ..p },
            ),
            Err(_) => None,
        }
    } else if name == "preserveAlpha"@ {
        match <bool as Parse>::parse_spec(value) {
            Ok((b, _)) => Some(ConvolveMatrixView { preserve_alpha: b, ..p }),
            Err(_) => None,
        }
    } else {
        Some(p)
    }
}

/// Reading an attribute of `feConvolveMatrix` sets exactly the parameter of that name to
/// the value read, and leaves the input, the kernel and every other parameter as they
/// were; the attribute is refused only when it names a parameter and its value does not
/// start with what that parameter is read from.
pub proof fn lemma_convolve_attribute_sets_its_parameter(p: ConvolveMatrixView, name: Seq<char>, value: Seq<char>)
    ensures
        match convolve_attribute(p, name, value) {
            Some(q) => {
                &&& q.in1 == p.in1 && q.kernel_matrix == p.kernel_matrix
                &&& Some(q.order) == (if name == "order"@ {
                    match value_of::<NumberOptionalNumber<u32>>(value) {
                        Some(NumberOptionalNumber(x, y)) => Some((x, y)),
                        None => None,
                    }
                } else {
                    Some(p.order)
                })
                &&& Some(q.divisor) == (if name == "divisor"@ { number_value(value) } else { Some(p.divisor) })
                &&& Some(q.bias) == (if name == "bias"@ { number_value(value) } else { Some(p.bias) })
                &&& q.target_x == (if name == "targetX"@ { value_of::<u32>(value) } else { p.target_x })
                &&& q.target_y == (if name == "targetY"@ { value_of::<u32>(value) } else { p.target_y })
                &&& Some(q.edge_mode) == (if name == "edgeMode"@ {
                    value_of::<EdgeMode>(value)
                } else {
                    Some(p.edge_mode)
                })
                &&& q.kernel_unit_length == (if name == "kernelUnitLength"@ {
                    match value_of::<NumberOptionalNumber<NonNegative>>(value) {
                        Some(NumberOptionalNumber(x, y)) => Some((x.0, y.0)),
                        None => None,
                    }
                } else {
                    p.kernel_unit_length
                })
                &&& Some(q.preserve_alpha) == (if name == "preserveAlpha"@ {
                    value_of::<bool>(value)
                } else {
                    Some(p.preserve_alpha)
                })
                &&& name == "targetX"@ ==> q.target_x is Some
                &&& name == "targetY"@ ==> q.target_y is Some
                &&& name == "kernelUnitLength"@ ==> q.kernel_unit_length is Some
            },
            None => {
                ||| name == "order"@ && value_of::<NumberOptionalNumber<u32>>(value) is None
                ||| (name == "divisor"@ || name == "bias"@) && number_value(value) is None
                ||| (name == "targetX"@ || name == "targetY"@) && value_of::<u32>(value) is None
                ||| name == "edgeMode"@ && value_of::<EdgeMode>(value) is None
                ||| name == "kernelUnitLength"@ && value_of::<NumberOptionalNumber<NonNegative>>(value) is None
                ||| name == "preserveAlpha"@ && value_of::<bool>(value) is None
            },
        },
{
    reveal_strlit("order");
    reveal_strlit("divisor");
    reveal_strlit("bias");
    reveal_strlit("targetX");
    reveal_strlit("targetY");
    reveal_strlit("edgeMode");
    reveal_strlit("kernelUnitLength");
    reveal_strlit("preserveAlpha");
    assert("order"@.len() == 5);
    assert("divisor"@.len() == 7 && "divisor"@[0] == 'd');
    assert("bias"@.len() == 4);
    assert("targetX"@.len() == 7 && "targetX"@[0] == 't' && "targetX"@[6] == 'X');
    assert("targetY"@.len() == 7 && "targetY"@[0] == 't' && "targetY"@[6] == 'Y');
    assert("edgeMode"@.len() == 8);
    assert("kernelUnitLength"@.len() == 16);
    assert("preserveAlpha"@.len() == 13);
}

/// The attributes other than `kernelMatrix` applied in order, up to the first invalid
/// one: the parameters, and whether every attribute was valid.
pub open spec fn convolve_attributes(p: ConvolveMatrixView, attrs: Seq<(Seq<char>, Seq<char>)>) -> (
    ConvolveMatrixView,
    bool,
)
    decreases attrs.len(),
{
    if attrs.len() == 0 {
        (p, true)
    } else {
        match convolve_attribute(p, attrs[0].0, attrs[0].1) {
            Some(q) => convolve_attributes(q, attrs.drop_first()),
            None => (p, false),
        }
    }
}

/// The numbers of a kernel matrix from `input` on, the `i`-th onwards: numbers separated
/// by white space or commas, up to the end of the input or [`MAX_KERNEL_NUMBERS`] of them.
pub open spec fn kernel_numbers_from(input: Seq<char>, i: nat) -> Result<Seq<CssNumber>, CssErrorKind>
    decreases MAX_KERNEL_NUMBERS - i,
{
    let s1 = if i != 0 {
        skip_optional_comma(input)
    } else {
        input
    };
    match number_spec(s1) {
        Err(k) => Err(k),
        Ok((x, s2)) => if exhausted(s2) || i + 1 >= MAX_KERNEL_NUMBERS {
            Ok(seq![x])
        } else {
            match kernel_numbers_from(s2, i + 1) {
                Ok(v) => Ok(seq![x] + v),
                Err(k) => Err(k),
            }
        },
    }
}

/// What the `kernelMatrix` attributes give, with `n` numbers expected.
pub enum KernelOutcome {
    /// The kernel: that of the last `kernelMatrix`, if there is one.
    Read(Option<Seq<CssNumber>>),
    /// A list of numbers that cannot be read, or that has the wrong length; the kernel
    /// read before it.
    Invalid(Option<Seq<CssNumber>>),
    /// A list cut at [`MAX_KERNEL_NUMBERS`] numbers where `n` is another number, which the
    /// kernel cannot be made from.
    TooLong,
}

/// The `kernelMatrix` attributes among `attrs`, in order, with `n` numbers expected and
/// the kernel `k` so far.
pub open spec fn kernel_attributes(n: nat, k: Option<Seq<CssNumber>>, attrs: Seq<(Seq<char>, Seq<char>)>) -> KernelOutcome
    decreases attrs.len(),
{
    if attrs.len() == 0 {
        KernelOutcome::Read(k)
    } else if attrs[0].0 == "kernelMatrix"@ {
        match kernel_numbers_from(attrs[0].1, 0) {
            Err(_) => KernelOutcome::Invalid(k),
            Ok(v) => if v.len() == n {
                kernel_attributes(n, Some(v), attrs.drop_first())
            } else if v.len() != MAX_KERNEL_NUMBERS {
                KernelOutcome::Invalid(k)
            } else {
                KernelOutcome::TooLong
            },
        }
    } else {
        kernel_attributes(n, k, attrs.drop_first())
    }
}

/// What reading the attributes of an `feConvolveMatrix` gives.
pub enum ConvolveOutcome {
    /// The parameters: the kernel is given and has the right number of numbers.
    Valid(ConvolveMatrixView),
    /// An invalid attribute; the parameters as far as they were read.
    Invalid(ConvolveMatrixView),
    /// A kernel that is cut at [`MAX_KERNEL_NUMBERS`] numbers, which the kernel cannot be
    /// made from.
    TooLong,
}

/// What the attributes `attrs` of an `feConvolveMatrix` whose parameters are `p` give, once
/// the input `in1` of the primitive was read: the other attributes in order, then the
/// kernel, which must be given.
pub open spec fn convolve_matrix_outcome(p: ConvolveMatrixView, in1: InputView, attrs: Seq<(Seq<char>, Seq<char>)>) -> ConvolveOutcome {
    let (q, ok) = convolve_attributes(ConvolveMatrixView { in1, ..p }, attrs);
    if !ok {
        ConvolveOutcome::Invalid(q)
    } else {
        match kernel_attributes((q.order.0 as nat) * (q.order.1 as nat), q.kernel_matrix, attrs) {
            KernelOutcome::Read(Some(k)) => ConvolveOutcome::Valid(ConvolveMatrixView { kernel_matrix: Some(k), ..q }),
            KernelOutcome::Read(None) => ConvolveOutcome::Invalid(ConvolveMatrixView { kernel_matrix: None, ..q }),
            KernelOutcome::Invalid(k) => ConvolveOutcome::Invalid(ConvolveMatrixView { kernel_matrix: k, ..q }),
            KernelOutcome::TooLong => ConvolveOutcome::TooLong,
        }
    }
}

/// Reads the numbers of a kernel matrix.
fn parse_kernel_numbers(input: &str) -> (r: Result<Vec<CssNumber>, CssParseError>)
    ensures
        match kernel_numbers_from(input@, 0) {
            Ok(v) => (r matches Ok(w) && w@ == v),
            Err(k) => (r matches Err(e) && e.kind() == k),
        },
{
    let mut v: Vec<CssNumber> = Vec::new();
    let mut cur = input;
    let mut i: usize = 0;
    while i < MAX_KERNEL_NUMBERS
        invariant
            i < MAX_KERNEL_NUMBERS,
            i == v@.len(),
            kernel_numbers_from(input@, 0) == match kernel_numbers_from(cur@, i as nat) {
                Ok(w) => Ok(v@ + w),
                Err(k) => Err(k),
            },
        decreases MAX_KERNEL_NUMBERS - i,
    {
        let s1 = if i != 0 {
            optional_comma(cur)
        } else {
            cur
        };
        let (x, s2) = match CssNumber::parse(s1) {
            Ok(p) => p,
            Err(e) => return Err(e),
        };
        let ghost before = v@;
        v.push(x);
        if is_exhausted(s2) || i + 1 >= MAX_KERNEL_NUMBERS {
            assert(before + seq![x] =~= v@);
            return Ok(v);
        }
        proof {
            assert forall|w: Seq<CssNumber>| #[trigger] (before + (seq![x] + w)) == v@ + w by {
                assert(before + (seq![x] + w) =~= v@ + w);
            }
        }
        cur = s2;
        i = i + 1;
    }
    // Not reached: the loop returns once it has read the last number it may read.
    Ok(v)
}

/// Why the attributes of an `feConvolveMatrix` cannot be read.
enum AttributesError {
    /// An invalid attribute.
    Invalid(CssParseError),
    /// A kernel cut at [`MAX_KERNEL_NUMBERS`] numbers where the order asks for another
    /// number of them.
    KernelTooLong,
}

/// The `feConvolveMatrix` filter primitive.
#[derive(Debug, PartialEq, Eq)]
pub struct FeConvolveMatrix {
    pub base: Primitive,
    pub params: ConvolveMatrix,
}

impl FeConvolveMatrix {
    /// The primitive before any attribute is read.
    pub fn new() -> (f: FeConvolveMatrix)
        ensures
            f.params.view() == default_convolve_matrix(),
            f.base.x is None && f.base.y is None && f.base.width is None && f.base.height is None
                && f.base.result is None,
    {
        FeConvolveMatrix { base: Primitive::new(), params: ConvolveMatrix::default() }
    }

    /// Reads the primitive's attributes: the standard ones, then the others in order, then
    /// `kernelMatrix`, which must be given and must have as many numbers as the order
    /// says.  A kernel cut at [`MAX_KERNEL_NUMBERS`] numbers, where the order asks for
    /// another number of them, is an error of its own.
    fn read_attributes(&mut self, attrs: &Vec<(String, String)>) -> (r: Result<(), AttributesError>)
        ensures
            ({
                let av = attrs@.map_values(|a: (String, String)| (a.0@, a.1@));
                let (p, in1, _, ok) = standard_attributes(
                    old(self).base.view(),
                    InputView::Unspecified,
                    InputView::Unspecified,
                    av,
                );
                &&& final(self).base.view() == p
                &&& !ok ==> (r matches Err(AttributesError::Invalid(_))) && final(self).params.view()
                    == old(self).params.view()
                &&& ok ==> match convolve_matrix_outcome(old(self).params.view(), in1, av) {
                    ConvolveOutcome::Valid(q) => r is Ok && final(self).params.view() == q,
                    ConvolveOutcome::Invalid(q) => (r matches Err(AttributesError::Invalid(_)))
                        && final(self).params.view() == q,
                    ConvolveOutcome::TooLong => r == Err::<(), AttributesError>(
                        AttributesError::KernelTooLong,
                    ),
                }
            }),
    {
        let ghost av = attrs@.map_values(|a: (String, String)| (a.0@, a.1@));
        self.params.in1 = match self.base.parse_one_input(attrs) {
            Ok(i) => i,
            Err(e) => return Err(AttributesError::Invalid(e)),
        };
        let ghost p0 = self.params.view();
        let ghost base1 = self.base;
        let ghost sa = standard_attributes(
            old(self).base.view(),
            InputView::Unspecified,
            InputView::Unspecified,
            av,
        );
        assert(sa.3 && sa.0 == base1.view() && p0 == (ConvolveMatrixView { in1: sa.1, ..old(self).params.view() }));
        let mut i: usize = 0;
        assert(av.skip(0) =~= av);
        while i < attrs.len()
            invariant
                self.base == base1,
                sa == standard_attributes(
                    old(self).base.view(),
                    InputView::Unspecified,
                    InputView::Unspecified,
                    av,
                ),
                sa.3 && sa.0 == base1.view() && p0 == (ConvolveMatrixView { in1: sa.1, ..old(self).params.view() }),
                i <= attrs@.len(),
                av == attrs@.map_values(|a: (String, String)| (a.0@, a.1@)),
                convolve_attributes(p0, av) == convolve_attributes(self.params.view(), av.skip(i as int)),
                self.params.view().kernel_matrix == p0.kernel_matrix,
            decreases attrs@.len() - i,
        {
            let ghost before = self.params.view();
            assert(av.skip(i as int)[0] == av[i as int]);
            assert(av.skip(i as int).drop_first() =~= av.skip(i + 1));
            let name = attrs[i].0.as_str();
            let value = attrs[i].1.as_str();
            if str_eq(name, "order") {
                match NumberOptionalNumber::<u32>::parse(value) {
                    Ok((NumberOptionalNumber(x, y), _)) => self.params.order = (x, y),
                    Err(e) => return Err(AttributesError::Invalid(e)),
                }
            } else if str_eq(name, "divisor") {
                match CssNumber::parse(value) {
                    Ok((n, _)) => self.params.divisor = n,
                    Err(e) => return Err(AttributesError::Invalid(e)),
                }
            } else if str_eq(name, "bias") {
                match CssNumber::parse(value) {
                    Ok((n, _)) => self.params.bias = n,
                    Err(e) => return Err(AttributesError::Invalid(e)),
                }
            } else if str_eq(name, "targetX") {
                match u32::parse(value) {
                    Ok((n, _)) => self.params.target_x = Some(n),
                    Err(e) => return Err(AttributesError::Invalid(e)),
                }
            } else if str_eq(name, "targetY") {
                match u32::parse(value) {
                    Ok((n, _)) => self.params.target_y = Some(n),
                    Err(e) => return Err(AttributesError::Invalid(e)),
                }
            } else if str_eq(name, "edgeMode") {
                match EdgeMode::parse(value) {
                    Ok((m, _)) => self.params.edge_mode = m,
                    Err(e) => return Err(AttributesError::Invalid(e)),
                }
            } else if str_eq(name, "kernelUnitLength") {
                match NumberOptionalNumber::<NonNegative>::parse(value) {
                    Ok((NumberOptionalNumber(x, y), _)) => self.params.kernel_unit_length = Some(
                        (x.0, y.0),
                    ),
                    Err(e) => return Err(AttributesError::Invalid(e)),
                }
            } else if str_eq(name, "preserveAlpha") {
                match bool::parse(value) {
                    Ok((b, _)) => self.params.preserve_alpha = b,
                    Err(e) => return Err(AttributesError::Invalid(e)),
                }
            }
            assert(convolve_attribute(before, av[i as int].0, av[i as int].1) == Some(self.params.view()));
            i = i + 1;
        }
        assert(av.skip(i as int).len() == 0);
        let ghost q = self.params.view();
        // Finally, parse the kernel matrix.
        let ox = self.params.order.0 as u64;
        let oy = self.params.order.1 as u64;
        assert(ox * oy <= u64::MAX) by (nonlinear_arith)
            requires
                ox <= u32::MAX,
                oy <= u32::MAX,
        ;
        let number_of_elements: u64 = ox * oy;
        let mut j: usize = 0;
        assert(av.skip(0) =~= av);
        while j < attrs.len()
            invariant
                self.base == base1,
                sa == standard_attributes(
                    old(self).base.view(),
                    InputView::Unspecified,
                    InputView::Unspecified,
                    av,
                ),
                sa.3 && sa.0 == base1.view() && p0 == (ConvolveMatrixView { in1: sa.1, ..old(self).params.view() }),
                convolve_attributes(p0, av) == (q, true),
                j <= attrs@.len(),
                av == attrs@.map_values(|a: (String, String)| (a.0@, a.1@)),
                number_of_elements == (q.order.0 as nat) * (q.order.1 as nat),
                self.params.view() == (ConvolveMatrixView { kernel_matrix: self.params.view().kernel_matrix, ..q }),
                kernel_attributes(number_of_elements as nat, q.kernel_matrix, av) == kernel_attributes(
                    number_of_elements as nat,
                    self.params.view().kernel_matrix,
                    av.skip(j as int),
                ),
            decreases attrs@.len() - j,
        {
            assert(av.skip(j as int)[0] == av[j as int]);
            assert(av.skip(j as int).drop_first() =~= av.skip(j + 1));
            if str_eq(attrs[j].0.as_str(), "kernelMatrix") {
                // #352: Parse as an unbounded list rather than exact length to prevent aborts due
                //       to huge allocation attempts by underlying Vec::with_capacity().
                // #691: Limit list to 400 (20x20) to mitigate malicious SVGs
                let v = match parse_kernel_numbers(attrs[j].1.as_str()) {
                    Ok(v) => v,
                    Err(e) => return Err(AttributesError::Invalid(e)),
                };
                // #691: Update check as v.len can be different than number of elements because
                //       of the above limit (and will = 400 if that happens)
                if (v.len() as u64) != number_of_elements && v.len() == MAX_KERNEL_NUMBERS {
                    return Err(AttributesError::KernelTooLong);
                }
                if (v.len() as u64) != number_of_elements {
                    let message = concat(
                        "incorrect number of elements: expected ",
                        decimal_string(number_of_elements).as_str(),
                    );
                    return Err(AttributesError::Invalid(CssParseError::Custom(ValueErrorKind::Value(message))));
                }
                self.params.kernel_matrix = Some(v);
            }
            j = j + 1;
        }
        assert(av.skip(j as int).len() == 0);
        // kernel_matrix must have been specified.
        if self.params.kernel_matrix.is_none() {
            return Err(
                AttributesError::Invalid(
                    CssParseError::Custom(ValueErrorKind::value_error("the value must be set")),
                ),
            );
        }
        Ok(())
    }

    /// Reads the primitive's attributes: the standard ones, then the others in order, then
    /// `kernelMatrix`, which must be given and must have as many numbers as the order
    /// says.  The kernel is read with at most [`MAX_KERNEL_NUMBERS`] numbers, and the
    /// kernel cannot be made from such a cut list when the order asks for another number:
    /// such attributes are left out.
    pub fn set_attributes(&mut self, attrs: &Vec<(String, String)>) -> (r: Result<(), CssParseError>)
        requires
            ({
                let av = attrs@.map_values(|a: (String, String)| (a.0@, a.1@));
                let (_, in1, _, ok) = standard_attributes(
                    old(self).base.view(),
                    InputView::Unspecified,
                    InputView::Unspecified,
                    av,
                );
                ok ==> !(convolve_matrix_outcome(old(self).params.view(), in1, av) is TooLong)
            }),
        ensures
            ({
                let av = attrs@.map_values(|a: (String, String)| (a.0@, a.1@));
                let (p, in1, _, ok) = standard_attributes(
                    old(self).base.view(),
                    InputView::Unspecified,
                    InputView::Unspecified,
                    av,
                );
                &&& final(self).base.view() == p
                &&& !ok ==> r is Err && final(self).params.view() == old(self).params.view()
                &&& ok ==> match convolve_matrix_outcome(old(self).params.view(), in1, av) {
                    ConvolveOutcome::Valid(q) => r is Ok && final(self).params.view() == q,
                    ConvolveOutcome::Invalid(q) => r is Err && final(self).params.view() == q,
                    ConvolveOutcome::TooLong => false,
                }
            }),
    {
        match self.read_attributes(attrs) {
            Ok(()) => Ok(()),
            Err(AttributesError::Invalid(e)) => Err(e),
            Err(AttributesError::KernelTooLong) => Err(CssParseError::UnexpectedToken),
        }
    }

    /// Reads the primitive's attributes as [`Self::set_attributes`] does, where they can be
    /// read: `None` for attributes whose kernel is cut at [`MAX_KERNEL_NUMBERS`] numbers
    /// where the order asks for another number of them.
    pub fn set_attributes_checked(&mut self, attrs: &Vec<(String, String)>) -> (r: Option<
        Result<(), CssParseError>,
    >)
        ensures
            ({
                let av = attrs@.map_values(|a: (String, String)| (a.0@, a.1@));
                let (p, in1, _, ok) = standard_attributes(
                    old(self).base.view(),
                    InputView::Unspecified,
                    InputView::Unspecified,
                    av,
                );
                &&& final(self).base.view() == p
                &&& !ok ==> (r matches Some(Err(_))) && final(self).params.view() == old(self).params.view()
                &&& ok ==> match convolve_matrix_outcome(old(self).params.view(), in1, av) {
                    ConvolveOutcome::Valid(q) => r == Some(Ok::<(), CssParseError>(())) && final(self).params.view() == q,
                    ConvolveOutcome::Invalid(q) => (r matches Some(Err(_))) && final(self).params.view() == q,
                    ConvolveOutcome::TooLong => r is None,
                }
            }),
    {
        match self.read_attributes(attrs) {
            Ok(()) => Some(Ok(())),
            Err(AttributesError::Invalid(e)) => Some(Err(e)),
            Err(AttributesError::KernelTooLong) => None,
        }
    }
}

/// The kernel element that is aligned with each pixel, from the parameters: the given
/// `targetX` and `targetY`, which must be less than the order in each direction, or else
/// the middle of the kernel (rounded down).
pub open spec fn kernel_target(c: ConvolveMatrixView) -> Result<(u32, u32), Seq<char>> {
    let tx = match c.target_x {
        Some(x) => if x >= c.order.0 {
            None
        } else {
            Some(x)
        },
        None => Some((c.order.0 / 2) as u32),
    };
    let ty = match c.target_y {
        Some(y) => if y >= c.order.1 {
            None
        } else {
            Some(y)
        },
        None => Some((c.order.1 / 2) as u32),
    };
    match (tx, ty) {
        (None, _) => Err("targetX must be less than orderX"@),
        (Some(_), None) => Err("targetY must be less than orderY"@),
        (Some(x), Some(y)) => Ok((x, y)),
    }
}

impl ConvolveMatrix {
    /// The target of the kernel, checked against its order as rendering needs it; a
    /// target outside the kernel is an invalid parameter.
    pub fn target(&self) -> (r: Result<(u32, u32), FilterError>)
        ensures
            match kernel_target(self.view()) {
                Ok(t) => r == Ok::<(u32, u32), FilterError>(t),
                Err(m) => (r matches Err(FilterError::InvalidParameter(s)) && s@ == m),
            },
    {
        let target_x = match self.target_x {
            Some(x) => {
                if x >= self.order.0 {
                    return Err(FilterError::InvalidParameter("targetX must be less than orderX".to_owned()));
                }
                x
            },
            None => self.order.0 / 2,
        };
        let target_y = match self.target_y {
            Some(y) => {
                if y >= self.order.1 {
                    return Err(FilterError::InvalidParameter("targetY must be less than orderY".to_owned()));
                }
                y
            },
            None => self.order.1 / 2,
        };
        Ok((target_x, target_y))
    }
}

} // verus!
