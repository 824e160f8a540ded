use librsvg::filters::policy::{next_step, FilterAction, FilterEvent, FilterState, StepError};

/// The steps taken for the events, in order, from the start.
fn run(events: &[FilterEvent]) -> Vec<FilterAction> {
    let mut state = FilterState::Start;
    let mut actions = Vec::new();
    for e in events {
        let (s, a) = next_step(state, *e);
        state = s;
        actions.push(a);
    }
    actions
}

#[test]
fn filter_in_error_returns_its_input() {
    assert_eq!(
        run(&[FilterEvent::Checked { in_error: true }, FilterEvent::NoMorePrimitives]),
        vec![FilterAction::ReturnSource, FilterAction::Ignore]
    );
}

#[test]
fn resolution_errors() {
    assert_eq!(
        run(&[FilterEvent::Checked { in_error: false }, FilterEvent::Resolved(Some(StepError::Other))]),
        vec![FilterAction::ResolvePrimitives, FilterAction::ReturnTransparent]
    );
    assert_eq!(
        run(&[FilterEvent::Checked { in_error: false }, FilterEvent::Resolved(Some(StepError::Backend))]),
        vec![FilterAction::ResolvePrimitives, FilterAction::Fail]
    );
    assert_eq!(
        run(&[
            FilterEvent::Checked { in_error: false },
            FilterEvent::Resolved(None),
            FilterEvent::SetUp { ok: false },
        ]),
        vec![FilterAction::ResolvePrimitives, FilterAction::SetUp, FilterAction::ReturnTransparent]
    );
}

#[test]
fn primitives_render_in_turn_and_other_errors_are_skipped() {
    assert_eq!(
        run(&[
            FilterEvent::Checked { in_error: false },
            FilterEvent::Resolved(None),
            FilterEvent::SetUp { ok: true },
            FilterEvent::Rendered(None),
            FilterEvent::Rendered(Some(StepError::Other)),
            FilterEvent::Rendered(None),
            FilterEvent::NoMorePrimitives,
        ]),
        vec![
            FilterAction::ResolvePrimitives,
            FilterAction::SetUp,
            FilterAction::RenderNext,
            FilterAction::StoreAndRenderNext,
            FilterAction::RenderNext,
            FilterAction::StoreAndRenderNext,
            FilterAction::ReturnOutput,
        ]
    );
}

#[test]
fn backend_error_stops_rendering() {
    assert_eq!(
        run(&[
            FilterEvent::Checked { in_error: false },
            FilterEvent::Resolved(None),
            FilterEvent::SetUp { ok: true },
            FilterEvent::Rendered(Some(StepError::Backend)),
            FilterEvent::Rendered(None),
        ]),
        vec![
            FilterAction::ResolvePrimitives,
            FilterAction::SetUp,
            FilterAction::RenderNext,
            FilterAction::Fail,
            FilterAction::Ignore,
        ]
    );
}
