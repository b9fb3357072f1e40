use opinions::market::{transition, MarketEvent, MarketState, TransitionError};

const ALL_STATES: [MarketState; 9] = [
    MarketState::Draft,
    MarketState::Scheduled,
    MarketState::Live,
    MarketState::Closing,
    MarketState::Closed,
    MarketState::Resolving,
    MarketState::Resolved,
    MarketState::Paid,
    MarketState::Voided,
];

const ALL_EVENTS: [MarketEvent; 9] = [
    MarketEvent::Approve,
    MarketEvent::GoLive,
    MarketEvent::EnterCloseWindow,
    MarketEvent::Close,
    MarketEvent::StartIntegritySweep,
    MarketEvent::Resolve,
    MarketEvent::Pay,
    MarketEvent::VoidLowParticipation,
    MarketEvent::VoidByAdmin,
];

const LEGAL_EDGES: [(MarketState, MarketEvent, MarketState); 17] = [
    (
        MarketState::Draft,
        MarketEvent::Approve,
        MarketState::Scheduled,
    ),
    (
        MarketState::Scheduled,
        MarketEvent::GoLive,
        MarketState::Live,
    ),
    (
        MarketState::Live,
        MarketEvent::EnterCloseWindow,
        MarketState::Closing,
    ),
    (
        MarketState::Closing,
        MarketEvent::Close,
        MarketState::Closed,
    ),
    (
        MarketState::Closed,
        MarketEvent::StartIntegritySweep,
        MarketState::Resolving,
    ),
    (
        MarketState::Closed,
        MarketEvent::Resolve,
        MarketState::Resolved,
    ),
    (
        MarketState::Resolving,
        MarketEvent::Resolve,
        MarketState::Resolved,
    ),
    (MarketState::Resolved, MarketEvent::Pay, MarketState::Paid),
    (
        MarketState::Closed,
        MarketEvent::VoidLowParticipation,
        MarketState::Voided,
    ),
    (
        MarketState::Resolving,
        MarketEvent::VoidLowParticipation,
        MarketState::Voided,
    ),
    (
        MarketState::Draft,
        MarketEvent::VoidByAdmin,
        MarketState::Voided,
    ),
    (
        MarketState::Scheduled,
        MarketEvent::VoidByAdmin,
        MarketState::Voided,
    ),
    (
        MarketState::Live,
        MarketEvent::VoidByAdmin,
        MarketState::Voided,
    ),
    (
        MarketState::Closing,
        MarketEvent::VoidByAdmin,
        MarketState::Voided,
    ),
    (
        MarketState::Closed,
        MarketEvent::VoidByAdmin,
        MarketState::Voided,
    ),
    (
        MarketState::Resolving,
        MarketEvent::VoidByAdmin,
        MarketState::Voided,
    ),
    (
        MarketState::Resolved,
        MarketEvent::VoidByAdmin,
        MarketState::Voided,
    ),
];

#[test]
fn happy_path_without_sweep() {
    let path = [
        (MarketState::Draft, MarketEvent::Approve, MarketState::Scheduled),
        (MarketState::Scheduled, MarketEvent::GoLive, MarketState::Live),
        (MarketState::Live, MarketEvent::EnterCloseWindow, MarketState::Closing),
        (MarketState::Closing, MarketEvent::Close, MarketState::Closed),
        (MarketState::Closed, MarketEvent::Resolve, MarketState::Resolved),
        (MarketState::Resolved, MarketEvent::Pay, MarketState::Paid),
    ];

    for (from, event, to) in path {
        assert_eq!(
            transition(from, event),
            Ok(to),
            "{from:?} --{event:?}--> {to:?}"
        );
    }
}

#[test]
fn happy_path_with_integrity_sweep() {
    assert_eq!(
        transition(MarketState::Closed, MarketEvent::StartIntegritySweep),
        Ok(MarketState::Resolving)
    );
    assert_eq!(
        transition(MarketState::Resolving, MarketEvent::Resolve),
        Ok(MarketState::Resolved)
    );
}

#[test]
fn automatic_and_admin_void_paths_are_explicit() {
    assert_eq!(
        transition(MarketState::Closed, MarketEvent::VoidLowParticipation),
        Ok(MarketState::Voided)
    );
    assert_eq!(
        transition(MarketState::Live, MarketEvent::VoidByAdmin),
        Ok(MarketState::Voided)
    );
    assert_eq!(
        transition(MarketState::Resolved, MarketEvent::VoidByAdmin),
        Ok(MarketState::Voided)
    );
}

#[test]
fn paid_and_voided_are_terminal() {
    for state in [MarketState::Paid, MarketState::Voided] {
        for event in ALL_EVENTS {
            assert_eq!(
                transition(state, event),
                Err(TransitionError::Illegal { from: state, event })
            );
        }
    }
}

#[test]
fn every_state_event_pair_matches_the_legal_edge_table() {
    for state in ALL_STATES {
        for event in ALL_EVENTS {
            let expected = LEGAL_EDGES
                .iter()
                .find_map(|&(from, candidate, to)| {
                    (from == state && candidate == event).then_some(Ok(to))
                })
                .unwrap_or(Err(TransitionError::Illegal { from: state, event }));

            assert_eq!(transition(state, event), expected, "{state:?} --{event:?}");
        }
    }
}
