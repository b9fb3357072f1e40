//! The market lifecycle.

use vstd::prelude::*;

verus! {

/// The server-authoritative lifecycle state of a market.
#[derive(Clone, Copy, Debug, Eq, PartialEq, Structural)]
pub enum MarketState {
    Draft,
    Scheduled,
    Live,
    Closing,
    Closed,
    Resolving,
    Resolved,
    Paid,
    Voided,
}

/// An attempted lifecycle transition.
#[derive(Clone, Copy, Debug, Eq, PartialEq, Structural)]
pub enum MarketEvent {
    Approve,
    GoLive,
    EnterCloseWindow,
    Close,
    StartIntegritySweep,
    Resolve,
    Pay,
    VoidLowParticipation,
    VoidByAdmin,
}

/// A rejected lifecycle transition.
#[derive(Clone, Copy, Debug, Eq, PartialEq, Structural)]
pub enum TransitionError {
    Illegal { from: MarketState, event: MarketEvent },
}

/// How far along its life a market is.
pub open spec fn progress(state: MarketState) -> int {
    match state {
        MarketState::Draft => 0,
        MarketState::Scheduled => 1,
        MarketState::Live => 2,
        MarketState::Closing => 3,
        MarketState::Closed => 4,
        MarketState::Resolving => 5,
        MarketState::Resolved => 6,
        MarketState::Paid => 7,
        MarketState::Voided => 7,
    }
}

/// A market that nothing can move any more.
pub open spec fn is_final(state: MarketState) -> bool {
    state == MarketState::Paid || state == MarketState::Voided
}

/// Where `event` takes a market in `state`, if the edge is authorized.
pub open spec fn edge(state: MarketState, event: MarketEvent) -> Option<MarketState> {
    match event {
        MarketEvent::Approve => if state == MarketState::Draft {
            Some(MarketState::Scheduled)
        } else {
            None
        },
        MarketEvent::GoLive => if state == MarketState::Scheduled {
            Some(MarketState::Live)
        } else {
            None
        },
        MarketEvent::EnterCloseWindow => if state == MarketState::Live {
            Some(MarketState::Closing)
        } else {
            None
        },
        MarketEvent::Close => if state == MarketState::Closing {
            Some(MarketState::Closed)
        } else {
            None
        },
        MarketEvent::StartIntegritySweep => if state == MarketState::Closed {
            Some(MarketState::Resolving)
        } else {
            None
        },
        MarketEvent::Resolve => if state == MarketState::Closed || state == MarketState::Resolving {
            Some(MarketState::Resolved)
        } else {
            None
        },
        MarketEvent::Pay => if state == MarketState::Resolved {
            Some(MarketState::Paid)
        } else {
            None
        },
        MarketEvent::VoidLowParticipation => if state == MarketState::Closed || state
            == MarketState::Resolving {
            Some(MarketState::Voided)
        } else {
            None
        },
        MarketEvent::VoidByAdmin => if !is_final(state) {
            Some(MarketState::Voided)
        } else {
            None
        },
    }
}

/// Paid and voided markets are terminal.
pub proof fn law_final_states_are_terminal(state: MarketState, event: MarketEvent)
    requires
        is_final(state),
    ensures
        edge(state, event) is None,
{
}

/// Every authorized edge moves a market forward, so no market returns to a
/// state it has left.
pub proof fn law_edges_move_forward(state: MarketState, event: MarketEvent)
    ensures
        edge(state, event) matches Some(to) ==> progress(state) < progress(to),
{
}

/// An administrator can void every market that is not yet final.
pub proof fn law_admin_voids_every_open_market(state: MarketState)
    requires
        !is_final(state),
    ensures
        edge(state, MarketEvent::VoidByAdmin) == Some(MarketState::Voided),
{
}

/// Applies one market event, rejecting every edge not explicitly authorized.
///
/// # Errors
///
/// [`TransitionError::Illegal`] when the state/event pair is not a legal
/// lifecycle edge.
pub fn transition(state: MarketState, event: MarketEvent) -> (r: Result<
    MarketState,
    TransitionError,
>)
    ensures
        r == (match edge(state, event) {
            Some(to) => Ok::<MarketState, TransitionError>(to),
            None => Err(TransitionError::Illegal { from: state, event }),
        }),
        r is Err ==> r == Err::<MarketState, TransitionError>(
            TransitionError::Illegal { from: state, event },
        ),
        r == Ok::<MarketState, TransitionError>(MarketState::Scheduled) <==> state
            == MarketState::Draft && event == MarketEvent::Approve,
        r == Ok::<MarketState, TransitionError>(MarketState::Live) <==> state
            == MarketState::Scheduled && event == MarketEvent::GoLive,
        r == Ok::<MarketState, TransitionError>(MarketState::Closing) <==> state
            == MarketState::Live && event == MarketEvent::EnterCloseWindow,
        r == Ok::<MarketState, TransitionError>(MarketState::Closed) <==> state
            == MarketState::Closing && event == MarketEvent::Close,
        r == Ok::<MarketState, TransitionError>(MarketState::Resolving) <==> state
            == MarketState::Closed && event == MarketEvent::StartIntegritySweep,
        r == Ok::<MarketState, TransitionError>(MarketState::Resolved) <==> (state
            == MarketState::Closed || state == MarketState::Resolving) && event
            == MarketEvent::Resolve,
        r == Ok::<MarketState, TransitionError>(MarketState::Paid) <==> state
            == MarketState::Resolved && event == MarketEvent::Pay,
        r == Ok::<MarketState, TransitionError>(MarketState::Voided) <==> ((state
            == MarketState::Closed || state == MarketState::Resolving) && event
            == MarketEvent::VoidLowParticipation) || (state != MarketState::Paid && state
            != MarketState::Voided && event == MarketEvent::VoidByAdmin),
        r != Ok::<MarketState, TransitionError>(MarketState::Draft),
{
    match (state, event) {
        (MarketState::Draft, MarketEvent::Approve) => Ok(MarketState::Scheduled),
        (MarketState::Scheduled, MarketEvent::GoLive) => Ok(MarketState::Live),
        (MarketState::Live, MarketEvent::EnterCloseWindow) => Ok(MarketState::Closing),
        (MarketState::Closing, MarketEvent::Close) => Ok(MarketState::Closed),
        (MarketState::Closed, MarketEvent::StartIntegritySweep) => Ok(MarketState::Resolving),
        (MarketState::Closed | MarketState::Resolving, MarketEvent::Resolve) => Ok(
            MarketState::Resolved,
        ),
        (MarketState::Resolved, MarketEvent::Pay) => Ok(MarketState::Paid),
        (MarketState::Closed | MarketState::Resolving, MarketEvent::VoidLowParticipation) => Ok(
            MarketState::Voided,
        ),
        (MarketState::Paid | MarketState::Voided, MarketEvent::VoidByAdmin) => Err(
            TransitionError::Illegal { from: state, event },
        ),
        (_, MarketEvent::VoidByAdmin) => Ok(MarketState::Voided),
        _ => Err(TransitionError::Illegal { from: state, event }),
    }
}

/// The name of a state.
pub open spec fn state_text(state: MarketState) -> Seq<char> {
    match state {
        MarketState::Draft => "Draft"@,
        MarketState::Scheduled => "Scheduled"@,
        MarketState::Live => "Live"@,
        MarketState::Closing => "Closing"@,
        MarketState::Closed => "Closed"@,
        MarketState::Resolving => "Resolving"@,
        MarketState::Resolved => "Resolved"@,
        MarketState::Paid => "Paid"@,
        MarketState::Voided => "Voided"@,
    }
}

/// The name of a state.
pub fn state_name(state: MarketState) -> (r: &'static str)
    ensures
        r@ == state_text(state),
{
    match state {
        MarketState::Draft => "Draft",
        MarketState::Scheduled => "Scheduled",
        MarketState::Live => "Live",
        MarketState::Closing => "Closing",
        MarketState::Closed => "Closed",
        MarketState::Resolving => "Resolving",
        MarketState::Resolved => "Resolved",
        MarketState::Paid => "Paid",
        MarketState::Voided => "Voided",
    }
}

/// The whole lifecycle: which event takes a market into which state, and from
/// where. Nothing leads back to a draft.
pub proof fn law_every_edge(state: MarketState, event: MarketEvent)
    ensures
        edge(state, event) == Some(MarketState::Scheduled) <==> state == MarketState::Draft
            && event == MarketEvent::Approve,
        edge(state, event) == Some(MarketState::Live) <==> state == MarketState::Scheduled && event
            == MarketEvent::GoLive,
        edge(state, event) == Some(MarketState::Closing) <==> state == MarketState::Live && event
            == MarketEvent::EnterCloseWindow,
        edge(state, event) == Some(MarketState::Closed) <==> state == MarketState::Closing && event
            == MarketEvent::Close,
        edge(state, event) == Some(MarketState::Resolving) <==> state == MarketState::Closed
            && event == MarketEvent::StartIntegritySweep,
        edge(state, event) == Some(MarketState::Resolved) <==> (state == MarketState::Closed
            || state == MarketState::Resolving) && event == MarketEvent::Resolve,
        edge(state, event) == Some(MarketState::Paid) <==> state == MarketState::Resolved && event
            == MarketEvent::Pay,
        edge(state, event) == Some(MarketState::Voided) <==> ((state == MarketState::Closed || state
            == MarketState::Resolving) && event == MarketEvent::VoidLowParticipation) || (state
            != MarketState::Paid && state != MarketState::Voided && event
            == MarketEvent::VoidByAdmin),
        edge(state, event) != Some(MarketState::Draft),
{
}

/// The name of a state tells it.
pub proof fn law_names_tell_states_apart(a: MarketState, b: MarketState)
    ensures
        state_text(a) == state_text(b) ==> a == b,
{
    reveal_strlit("Draft");
    reveal_strlit("Scheduled");
    reveal_strlit("Live");
    reveal_strlit("Closing");
    reveal_strlit("Closed");
    reveal_strlit("Resolving");
    reveal_strlit("Resolved");
    reveal_strlit("Paid");
    reveal_strlit("Voided");
    let s = state_text(a);
    let t = state_text(b);
    if s == t {
        assert(s.len() == t.len() && s[0] == t[0] && s[s.len() - 1] == t[t.len() - 1]);
    }
}

} // verus!
