//! Bookkeeping of filter primitive results and the choice of each primitive's input.

use vstd::prelude::*;

use crate::css::CustomIdent;
use crate::filters::Input;
use crate::rect::IRect;
use crate::strings::str_eq;

verus! {

/// A filter primitive output.  `S` is the type of image surfaces.
#[derive(Debug)]
pub struct FilterOutput<S> {
    /// The surface after the filter primitive was applied.
    pub surface: S,
    /// The filter primitive subregion.
    pub bounds: IRect,
}

/// A filter primitive result.
#[derive(Debug)]
pub struct FilterResult<S> {
    /// The name of this result: the value of the `result` attribute.
    pub name: Option<CustomIdent>,
    /// The output.
    pub output: FilterOutput<S>,
}

/// An input to a filter primitive.
#[derive(Debug)]
pub enum FilterInput<S> {
    /// One of the standard inputs.
    StandardInput(S),
    /// Output of another filter primitive.
    PrimitiveOutput(FilterOutput<S>),
}

impl<S> FilterInput<S> {
    /// Retrieves the surface from `FilterInput`.
    pub fn surface(&self) -> (s: &S)
        ensures
            *s == match self {
                FilterInput::StandardInput(surface) => *surface,
                FilterInput::PrimitiveOutput(output) => output.surface,
            },
    {
        match self {
            FilterInput::StandardInput(surface) => surface,
            FilterInput::PrimitiveOutput(output) => &output.surface,
        }
    }
}

/// Errors when choosing the input of a filter primitive.
#[derive(Debug, Clone, PartialEq, Eq)]
pub enum FilterError {
    /// The input names a result that no earlier primitive produced.
    InvalidInput,
    /// A child element of the primitive has invalid attributes.
    ChildNodeInError,
    /// A parameter of the primitive has a value that cannot be used.
    InvalidParameter(String),
}

/// Where the input of a filter primitive comes from.
#[derive(Debug)]
pub enum RawInput<'a, S> {
    /// The output of an earlier primitive.
    PrimitiveOutput(&'a FilterOutput<S>),
    /// The graphic that the filter applies to.
    SourceGraphic,
    /// The alpha channel of the source graphic.
    SourceAlpha,
    /// A snapshot of the background.
    BackgroundImage,
    /// The alpha channel of the background snapshot.
    BackgroundAlpha,
    /// The paint of the `fill` property of the filtered element.
    FillPaint,
    /// The paint of the `stroke` property of the filtered element.
    StrokePaint,
}

/// The index of the output stored last under `name` among `names`, the most recent
/// registration winning.
pub open spec fn named_output(names: Seq<(Seq<char>, usize)>, name: Seq<char>) -> Option<usize>
    decreases names.len(),
{
    if names.len() == 0 {
        None
    } else if names.last().0 == name {
        Some(names.last().1)
    } else {
        named_output(names.drop_last(), name)
    }
}

/// The results of the filter primitives run so far.
pub struct FilterResults<S> {
    /// Every output stored, in order.
    outputs: Vec<FilterOutput<S>>,
    /// Names of outputs, in the order they were stored: (name, index in `outputs`).
    names: Vec<(String, usize)>,
    /// Index of the output of the last primitive.
    last_result: Option<usize>,
}

impl<S> FilterResults<S> {
    /// The outputs stored, in order.
    pub closed spec fn outputs(&self) -> Seq<FilterOutput<S>> {
        self.outputs@
    }

    /// The output of the last primitive, if any primitive ran.
    pub closed spec fn last(&self) -> Option<FilterOutput<S>> {
        match self.last_result {
            Some(i) => Some(self.outputs@[i as int]),
            None => None,
        }
    }

    /// The output of the latest primitive whose result is named `name`.
    pub closed spec fn named(&self, name: Seq<char>) -> Option<FilterOutput<S>> {
        match named_output(self.names@.map_values(|e: (String, usize)| (e.0@, e.1)), name) {
            Some(i) => Some(self.outputs@[i as int]),
            None => None,
        }
    }

    pub closed spec fn wf(&self) -> bool {
        &&& self.last_result matches Some(i) ==> i < self.outputs@.len()
        &&& forall|k: int| 0 <= k < self.names@.len() ==> (#[trigger] self.names@[k]).1 < self.outputs@.len()
    }

    pub fn new() -> (r: FilterResults<S>)
        ensures
            r.wf(),
            r.outputs() == Seq::<FilterOutput<S>>::empty(),
            r.last() is None,
            forall|name: Seq<char>| r.named(name) is None,
    {
        let r = FilterResults { outputs: Vec::new(), names: Vec::new(), last_result: None };
        assert(r.names@.map_values(|e: (String, usize)| (e.0@, e.1)) =~= Seq::empty());
        r
    }

    /// Stores a filter primitive result: it becomes the last result and, when it has a
    /// name, the result known by that name.
    pub fn store_result(&mut self, result: FilterResult<S>)
        requires
            old(self).wf(),
        ensures
            final(self).wf(),
            final(self).last() == Some(result.output),
            match result.name {
                Some(n) => final(self).named(n.0@) == Some(result.output) && forall|other: Seq<char>|
                    other != n.0@ ==> final(self).named(other) == old(self).named(other),
                None => forall|other: Seq<char>| final(self).named(other) == old(self).named(other),
            },
    {
        let i = self.outputs.len();
        let ghost old_names = self.names@.map_values(|e: (String, usize)| (e.0@, e.1));
        let ghost out = result.output;
        let ghost name = result.name;
        self.outputs.push(result.output);
        match result.name {
            Some(n) => {
                let ghost nv = n.0@;
                self.names.push((n.0, i));
                assert(self.names@.map_values(|e: (String, usize)| (e.0@, e.1)) =~= old_names.push(
                    (nv, i),
                ));
                assert forall|other: Seq<char>| other != nv implies self.named(other) == old(
                    self,
                ).named(other) by {
                    assert(old_names.push((nv, i)).drop_last() =~= old_names);
                    lemma_named_output_in(old_names, other);
                    if named_output(old_names, other) is Some {
                        let k = choose|k: int|
                            0 <= k < old_names.len() && (#[trigger] old_names[k]).1
                                == named_output(old_names, other).unwrap();
                        assert(old(self).names@[k].1 < old(self).outputs@.len());
                    }
                }
                assert(old_names.push((nv, i)).last() == (nv, i));
            },
            None => {
                assert forall|other: Seq<char>| self.named(other) == old(self).named(other) by {
                    lemma_named_output_in(old_names, other);
                    if named_output(old_names, other) is Some {
                        let k = choose|k: int|
                            0 <= k < old_names.len() && (#[trigger] old_names[k]).1
                                == named_output(old_names, other).unwrap();
                        assert(old(self).names@[k].1 < old(self).outputs@.len());
                    }
                }
            },
        }
        self.last_result = Some(i);
        proof {
            assert forall|k: int| 0 <= k < self.names@.len() implies (#[trigger] self.names@[k]).1
                < self.outputs@.len() by {
                if k < old(self).names@.len() {
                    assert(self.names@[k] == old(self).names@[k]);
                }
            }
        }
    }

    fn find_name(&self, name: &str) -> (r: Option<usize>)
        requires
            self.wf(),
        ensures
            r == named_output(self.names@.map_values(|e: (String, usize)| (e.0@, e.1)), name@),
            r matches Some(i) ==> i < self.outputs@.len(),
    {
        let ghost m = self.names@.map_values(|e: (String, usize)| (e.0@, e.1));
        let mut k = self.names.len();
        assert(m.take(k as int) =~= m);
        while k > 0
            invariant
                k <= self.names@.len(),
                m == self.names@.map_values(|e: (String, usize)| (e.0@, e.1)),
                named_output(m, name@) == named_output(m.take(k as int), name@),
                self.wf(),
            decreases k,
        {
            let ghost t = m.take(k as int);
            assert(t.last() == m[k - 1]);
            assert(t.drop_last() =~= m.take(k - 1));
            if str_eq(self.names[k - 1].0.as_str(), name) {
                return Some(self.names[k - 1].1);
            }
            k = k - 1;
        }
        None
    }

    /// Where the input of a primitive comes from, according to the SVG rules: with no
    /// input given, the last result, or the source graphic for the first primitive; a
    /// named input is the latest result of that name, and an error if there is none.
    pub fn get_input_raw(&self, in_: Option<&Input>) -> (r: Result<RawInput<'_, S>, FilterError>)
        requires
            self.wf(),
        ensures
            match in_ {
                None | Some(Input::Unspecified) => match self.last() {
                    Some(o) => r matches Ok(RawInput::PrimitiveOutput(p)) && *p == o,
                    None => r matches Ok(RawInput::SourceGraphic),
                },
                Some(Input::SourceGraphic) => r matches Ok(RawInput::SourceGraphic),
                Some(Input::SourceAlpha) => r matches Ok(RawInput::SourceAlpha),
                Some(Input::BackgroundImage) => r matches Ok(RawInput::BackgroundImage),
                Some(Input::BackgroundAlpha) => r matches Ok(RawInput::BackgroundAlpha),
                Some(Input::FillPaint) => r matches Ok(RawInput::FillPaint),
                Some(Input::StrokePaint) => r matches Ok(RawInput::StrokePaint),
                Some(Input::FilterOutput(name)) => match self.named(name.0@) {
                    Some(o) => r matches Ok(RawInput::PrimitiveOutput(p)) && *p == o,
                    None => r == Err::<RawInput<'_, S>, FilterError>(FilterError::InvalidInput),
                },
            },
    {
        match in_ {
            None | Some(Input::Unspecified) => match self.last_result {
                Some(i) => Ok(RawInput::PrimitiveOutput(&self.outputs[i])),
                None => Ok(RawInput::SourceGraphic),
            },
            Some(Input::SourceGraphic) => Ok(RawInput::SourceGraphic),
            Some(Input::SourceAlpha) => Ok(RawInput::SourceAlpha),
            Some(Input::BackgroundImage) => Ok(RawInput::BackgroundImage),
            Some(Input::BackgroundAlpha) => Ok(RawInput::BackgroundAlpha),
            Some(Input::FillPaint) => Ok(RawInput::FillPaint),
            Some(Input::StrokePaint) => Ok(RawInput::StrokePaint),
            Some(Input::FilterOutput(name)) => match self.find_name(name.0.as_str()) {
                Some(i) => Ok(RawInput::PrimitiveOutput(&self.outputs[i])),
                None => Err(FilterError::InvalidInput),
            },
        }
    }
}

/// The index found for a name is one that `names` registers.
proof fn lemma_named_output_in(names: Seq<(Seq<char>, usize)>, name: Seq<char>)
    ensures
        named_output(names, name) matches Some(j) ==> exists|k: int|
            0 <= k < names.len() && (#[trigger] names[k]).1 == j,
    decreases names.len(),
{
    if names.len() > 0 && names.last().0 != name {
        lemma_named_output_in(names.drop_last(), name);
        if named_output(names, name) is Some {
            let k = choose|k: int|
                0 <= k < names.drop_last().len() && (#[trigger] names.drop_last()[k]).1
                    == named_output(names, name).unwrap();
            assert(names[k] == names.drop_last()[k]);
        }
    } else if names.len() > 0 {
        assert(names[names.len() - 1] == names.last());
    }
}

/// A result stored under a name is what a later request for that name gets, until
/// another result is stored under the same name.
pub proof fn lemma_named_after_store(names: Seq<(Seq<char>, usize)>, name: Seq<char>, i: usize)
    ensures
        named_output(names.push((name, i)), name) == Some(i),
{
    assert(names.push((name, i)).last() == (name, i));
}

} // verus!
