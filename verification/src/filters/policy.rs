//! How rendering a filter proceeds, and what its errors do: the decisions between the
//! drawing steps, as a function from the state and what a step gave to the next state
//! and the next step.
//!
//! A filter element in error leaves its input as it is.  Primitives are resolved first:
//! an error of the drawing backend fails the rendering, any other error gives a
//! transparent image, and so does a filter region that cannot be set up.  Then each
//! primitive is rendered in turn: a backend error fails the rendering, any other error
//! skips that primitive, and the output of the last one is the result.

use vstd::prelude::*;

verus! {

/// What kind of error a step met.
#[derive(Debug, Clone, Copy, PartialEq, Eq, Structural)]
pub enum StepError {
    /// An error of the drawing backend.
    Backend,
    /// Any other error: an invalid input or parameter, a child in error, and so on.
    Other,
}

/// Where rendering a filter stands.
#[derive(Debug, Clone, Copy, PartialEq, Eq, Structural)]
pub enum FilterState {
    /// The filter element is to be checked.
    Start,
    /// The primitives are being resolved.
    Resolving,
    /// The filter region is being set up.
    SettingUp,
    /// The primitives are being rendered, one after the other.
    Rendering,
    /// Rendering is over.
    Finished,
}

/// What a step gave.
#[derive(Debug, Clone, Copy, PartialEq, Eq, Structural)]
pub enum FilterEvent {
    /// The filter element was checked: whether it is in error.
    Checked { in_error: bool },
    /// Every primitive was resolved, or the first error met resolving them.
    Resolved(Option<StepError>),
    /// The filter region was set up, or could not be.
    SetUp { ok: bool },
    /// A primitive was rendered, or the error it met.
    Rendered(Option<StepError>),
    /// No primitive is left to render.
    NoMorePrimitives,
}

/// The next step.
#[derive(Debug, Clone, Copy, PartialEq, Eq, Structural)]
pub enum FilterAction {
    /// Give the input of the filter back unchanged.
    ReturnSource,
    /// Resolve the primitives.
    ResolvePrimitives,
    /// Set up the filter region.
    SetUp,
    /// Render the next primitive.
    RenderNext,
    /// Store the output of the primitive just rendered, then render the next one.
    StoreAndRenderNext,
    /// Give the output of the last primitive.
    ReturnOutput,
    /// Give a transparent image of the input's size.
    ReturnTransparent,
    /// Fail with the backend error.
    Fail,
    /// Nothing: the event does not belong to this state.
    Ignore,
}

/// The next state and step after `event` in `state`.
pub open spec fn filter_step(state: FilterState, event: FilterEvent) -> (FilterState, FilterAction) {
    match (state, event) {
        (FilterState::Start, FilterEvent::Checked { in_error }) => if in_error {
            (FilterState::Finished, FilterAction::ReturnSource)
        } else {
            (FilterState::Resolving, FilterAction::ResolvePrimitives)
        },
        (FilterState::Resolving, FilterEvent::Resolved(e)) => match e {
            None => (FilterState::SettingUp, FilterAction::SetUp),
            Some(StepError::Backend) => (FilterState::Finished, FilterAction::Fail),
            Some(StepError::Other) => (FilterState::Finished, FilterAction::ReturnTransparent),
        },
        (FilterState::SettingUp, FilterEvent::SetUp { ok }) => if ok {
            (FilterState::Rendering, FilterAction::RenderNext)
        } else {
            (FilterState::Finished, FilterAction::ReturnTransparent)
        },
        (FilterState::Rendering, FilterEvent::Rendered(e)) => match e {
            None => (FilterState::Rendering, FilterAction::StoreAndRenderNext),
            Some(StepError::Backend) => (FilterState::Finished, FilterAction::Fail),
            Some(StepError::Other) => (FilterState::Rendering, FilterAction::RenderNext),
        },
        (FilterState::Rendering, FilterEvent::NoMorePrimitives) => (FilterState::Finished, FilterAction::ReturnOutput),
        _ => (state, FilterAction::Ignore),
    }
}

/// Decides the next state and step after `event` in `state`; see [`filter_step`].
pub fn next_step(state: FilterState, event: FilterEvent) -> (r: (FilterState, FilterAction))
    ensures
        r == filter_step(state, event),
{
    match (state, event) {
        (FilterState::Start, FilterEvent::Checked { in_error }) => if in_error {
            (FilterState::Finished, FilterAction::ReturnSource)
        } else {
            (FilterState::Resolving, FilterAction::ResolvePrimitives)
        },
        (FilterState::Resolving, FilterEvent::Resolved(e)) => match e {
            None => (FilterState::SettingUp, FilterAction::SetUp),
            Some(StepError::Backend) => (FilterState::Finished, FilterAction::Fail),
            Some(StepError::Other) => (FilterState::Finished, FilterAction::ReturnTransparent),
        },
        (FilterState::SettingUp, FilterEvent::SetUp { ok }) => if ok {
            (FilterState::Rendering, FilterAction::RenderNext)
        } else {
            (FilterState::Finished, FilterAction::ReturnTransparent)
        },
        (FilterState::Rendering, FilterEvent::Rendered(e)) => match e {
            None => (FilterState::Rendering, FilterAction::StoreAndRenderNext),
            Some(StepError::Backend) => (FilterState::Finished, FilterAction::Fail),
            Some(StepError::Other) => (FilterState::Rendering, FilterAction::RenderNext),
        },
        (FilterState::Rendering, FilterEvent::NoMorePrimitives) => (FilterState::Finished, FilterAction::ReturnOutput),
        _ => (state, FilterAction::Ignore),
    }
}

/// The state and the last step after the events `events`, in order, from `state`.
pub open spec fn run_steps(state: FilterState, events: Seq<FilterEvent>) -> (FilterState, FilterAction)
    decreases events.len(),
{
    if events.len() == 0 {
        (state, FilterAction::Ignore)
    } else if events.len() == 1 {
        filter_step(state, events[0])
    } else {
        run_steps(filter_step(state, events[0]).0, events.drop_first())
    }
}

/// Once rendering is over, nothing changes it: every event is ignored.
pub proof fn lemma_finished_is_final(events: Seq<FilterEvent>)
    ensures
        run_steps(FilterState::Finished, events).0 == FilterState::Finished,
        events.len() > 0 ==> run_steps(FilterState::Finished, events).1 == FilterAction::Ignore,
    decreases events.len(),
{
    if events.len() > 1 {
        lemma_finished_is_final(events.drop_first());
    }
}

/// A backend error, wherever a step meets it, fails the rendering and ends it.
pub proof fn lemma_backend_error_fails(state: FilterState)
    ensures
        state == FilterState::Resolving ==> filter_step(state, FilterEvent::Resolved(Some(StepError::Backend)))
            == (FilterState::Finished, FilterAction::Fail),
        state == FilterState::Rendering ==> filter_step(state, FilterEvent::Rendered(Some(StepError::Backend)))
            == (FilterState::Finished, FilterAction::Fail),
{
}

/// Any other error of a primitive only skips it: rendering goes on with the next one.
pub proof fn lemma_other_primitive_errors_are_skipped()
    ensures
        filter_step(FilterState::Rendering, FilterEvent::Rendered(Some(StepError::Other)))
            == (FilterState::Rendering, FilterAction::RenderNext),
{
}

/// A filter element in error gives its input back, whatever follows.
pub proof fn lemma_filter_in_error_returns_source(events: Seq<FilterEvent>)
    ensures
        run_steps(FilterState::Start, seq![FilterEvent::Checked { in_error: true }] + events).0
            == FilterState::Finished,
        filter_step(FilterState::Start, FilterEvent::Checked { in_error: true }).1
            == FilterAction::ReturnSource,
{
    let all = seq![FilterEvent::Checked { in_error: true }] + events;
    if events.len() > 0 {
        assert(all.drop_first() =~= events);
        lemma_finished_is_final(events);
    }
}

} // verus!
