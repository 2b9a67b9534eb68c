use circuit_relay::copy::{
    CopyAction, CopyEnd, CopyEvent, CopyState, Limit, Side, MAX_CHUNK,
};

fn read(from: Side, len: usize) -> CopyEvent {
    CopyEvent::Read { from, len }
}

#[test]
fn bytes_are_sent_on_to_the_other_side() {
    let mut state = CopyState::new(100, 60, 1000);
    assert_eq!(
        state.on_event(read(Side::Source, 10), 1001),
        CopyAction::Forward { to: Side::Destination, len: 10 }
    );
    assert_eq!(
        state.on_event(read(Side::Destination, 5), 1002),
        CopyAction::Forward { to: Side::Source, len: 5 }
    );
    assert_eq!(state.relayed(), 15);
    assert_eq!(state.max_bytes(), 100);
    assert_eq!(state.ended(), None);
    assert_eq!(Side::Source.opposite(), Side::Destination);
    assert_eq!(Side::Destination.opposite(), Side::Source);
}

#[test]
fn the_limit_counts_both_directions_together() {
    let mut state = CopyState::new(100, 60, 0);
    state.on_event(read(Side::Source, 60), 1);
    assert_eq!(
        state.on_event(read(Side::Destination, 40), 2),
        CopyAction::Forward { to: Side::Source, len: 40 }
    );
    assert_eq!(state.relayed(), 100);
    assert_eq!(state.ended(), None);
    assert_eq!(
        state.on_event(read(Side::Source, 1), 3),
        CopyAction::Close(CopyEnd::LimitReached(Limit::Bytes))
    );
    assert_eq!(state.relayed(), 100);
}

#[test]
fn bytes_beyond_the_limit_close_the_circuit_after_those_within() {
    let mut state = CopyState::new(100, 60, 0);
    state.on_event(read(Side::Source, 70), 1);
    assert_eq!(
        state.on_event(read(Side::Source, 50), 2),
        CopyAction::ForwardAndClose {
            to: Side::Destination,
            len: 30,
            end: CopyEnd::LimitReached(Limit::Bytes)
        }
    );
    assert_eq!(state.relayed(), 100);
    assert_eq!(state.ended(), Some(CopyEnd::LimitReached(Limit::Bytes)));
}

#[test]
fn a_circuit_that_has_lasted_as_long_as_it_may_is_closed_at_once() {
    let mut state = CopyState::new(100, 60, 1000);
    assert_eq!(state.on_event(CopyEvent::Tick, 1059), CopyAction::Wait);
    assert!(!state.is_due(1059));
    assert!(state.is_due(1060));
    assert_eq!(
        state.on_event(read(Side::Source, 10), 1060),
        CopyAction::Close(CopyEnd::LimitReached(Limit::Duration))
    );
    assert_eq!(state.relayed(), 0);
    assert_eq!(state.ended(), Some(CopyEnd::LimitReached(Limit::Duration)));
}

#[test]
fn a_clock_that_runs_backwards_ends_nothing() {
    let mut state = CopyState::new(100, 60, 1000);
    assert!(!state.is_due(0));
    assert_eq!(
        state.on_event(read(Side::Source, 1), 999),
        CopyAction::Forward { to: Side::Destination, len: 1 }
    );
}

#[test]
fn a_circuit_that_is_over_stays_over() {
    let mut state = CopyState::new(100, 60, 0);
    assert_eq!(state.on_event(CopyEvent::Failed, 1), CopyAction::Close(CopyEnd::Failed));
    let after = state;
    for event in [
        CopyEvent::Tick,
        CopyEvent::Failed,
        read(Side::Source, 3),
        CopyEvent::Eof { from: Side::Destination },
    ] {
        assert_eq!(state.on_event(event, 500), CopyAction::Close(CopyEnd::Failed));
        assert_eq!(state, after);
    }
}

#[test]
fn one_side_that_is_done_is_half_closed_and_the_other_goes_on() {
    let mut state = CopyState::new(100, 60, 0);
    assert_eq!(
        state.on_event(CopyEvent::Eof { from: Side::Source }, 1),
        CopyAction::HalfClose { to: Side::Destination }
    );
    assert!(state.is_done(Side::Source));
    assert!(!state.is_done(Side::Destination));
    assert_eq!(state.on_event(CopyEvent::Eof { from: Side::Source }, 2), CopyAction::Wait);
    assert_eq!(
        state.on_event(read(Side::Destination, 8), 3),
        CopyAction::Forward { to: Side::Source, len: 8 }
    );
    assert_eq!(
        state.on_event(CopyEvent::Eof { from: Side::Destination }, 4),
        CopyAction::Close(CopyEnd::Finished)
    );
    assert_eq!(state.ended(), Some(CopyEnd::Finished));
    assert_eq!(state.relayed(), 8);
}

#[test]
fn bytes_from_a_side_that_is_done_are_a_failure() {
    let mut state = CopyState::new(100, 60, 0);
    state.on_event(CopyEvent::Eof { from: Side::Destination }, 1);
    assert_eq!(
        state.on_event(read(Side::Destination, 1), 2),
        CopyAction::Close(CopyEnd::Failed)
    );
    assert_eq!(state.relayed(), 0);
}

#[test]
fn a_chunk_is_bounded_by_its_size_and_by_what_is_left() {
    assert_eq!(MAX_CHUNK, 8192);
    let mut state = CopyState::new(10_000, 60, 0);
    assert_eq!(state.chunk_len(), 8192);
    state.on_event(read(Side::Source, 8192), 1);
    assert_eq!(state.chunk_len(), 1808);
    state.on_event(read(Side::Source, 1808), 1);
    assert_eq!(state.chunk_len(), 0);
}

#[test]
fn whatever_happens_no_more_is_carried_than_may_be() {
    let mut state = CopyState::new(1000, 60, 0);
    let mut forwarded: u64 = 0;
    let lens = [400usize, 0, 300, 299, 5, 1, 1000, 7];
    for (i, len) in lens.iter().enumerate() {
        let from = if i % 2 == 0 { Side::Source } else { Side::Destination };
        match state.on_event(read(from, *len), i as u64) {
            CopyAction::Forward { len, .. } => forwarded += len as u64,
            CopyAction::ForwardAndClose { len, .. } => forwarded += len as u64,
            _ => {}
        }
        assert!(state.relayed() <= 1000);
        assert_eq!(state.relayed(), forwarded);
    }
    assert_eq!(forwarded, 1000);
    assert_eq!(state.ended(), Some(CopyEnd::LimitReached(Limit::Bytes)));
}
