//! The accounting of one circuit while bytes flow through it.
//!
//! Whoever moves the bytes reads a chunk from one substream, reports it
//! here, and does what it is told: write the bytes to the other substream,
//! close one direction, or close the circuit. The decisions are made here, so
//! that no circuit carries more than it may or lasts longer than it may.

use vstd::prelude::*;

verus! {

/// The number of bytes to read from a substream at once, at most. One chunk
/// per direction is all that a circuit holds in memory.
pub const MAX_CHUNK: usize = 8192;

/// One end of a circuit.
#[derive(Debug, Clone, Copy, PartialEq, Eq, Structural)]
pub enum Side {
    /// The peer that asked for the circuit.
    Source,
    /// The peer that the circuit leads to.
    Destination,
}

/// Which limit a circuit has run into.
#[derive(Debug, Clone, Copy, PartialEq, Eq, Structural)]
pub enum Limit {
    /// The circuit has carried as many bytes as it may.
    Bytes,
    /// The circuit has lasted as long as it may.
    Duration,
}

/// Why a circuit is over.
#[derive(Debug, Clone, Copy, PartialEq, Eq, Structural)]
pub enum CopyEnd {
    /// Both peers have sent all they had.
    Finished,
    /// The circuit ran into a limit. This is no fault of either peer.
    LimitReached(Limit),
    /// Reading from or writing to a substream failed.
    Failed,
}

/// What happened on the substreams of a circuit.
#[derive(Debug, Clone, Copy, PartialEq, Eq, Structural)]
pub enum CopyEvent {
    /// So many bytes were read from the substream of the given side.
    Read { from: Side, len: usize },
    /// The substream of the given side has reached its end.
    Eof { from: Side },
    /// Reading from or writing to a substream failed.
    Failed,
    /// Time has passed.
    Tick,
}

/// What to do with the substreams of a circuit.
#[derive(Debug, Clone, Copy, PartialEq, Eq, Structural)]
pub enum CopyAction {
    /// Nothing for now.
    Wait,
    /// Write the first `len` bytes of what was read to the substream of
    /// `to`.
    Forward { to: Side, len: usize },
    /// Write the first `len` bytes of what was read to the substream of
    /// `to`, then close both substreams: the circuit is over.
    ForwardAndClose { to: Side, len: usize, end: CopyEnd },
    /// Tell `to` that nothing more will come, and keep relaying what `to`
    /// sends.
    HalfClose { to: Side },
    /// Close both substreams: the circuit is over.
    Close(CopyEnd),
}

impl Side {
    /// The other end of the circuit.
    pub open spec fn other(self) -> Side {
        match self {
            Side::Source => Side::Destination,
            Side::Destination => Side::Source,
        }
    }

    /// The other end of the circuit.
    pub fn opposite(self) -> (side: Side)
        ensures
            side == self.other(),
    {
        match self {
            Side::Source => Side::Destination,
            Side::Destination => Side::Source,
        }
    }
}

impl CopyAction {
    /// How many bytes the action sends on.
    pub open spec fn forwarded(self) -> nat {
        match self {
            CopyAction::Forward { len, .. } => len as nat,
            CopyAction::ForwardAndClose { len, .. } => len as nat,
            _ => 0,
        }
    }

    /// Whether the action ends the circuit.
    pub open spec fn closes(self) -> bool {
        self is Close || self is ForwardAndClose
    }
}

/// The account of one circuit, as a mathematical value.
pub struct CopyView {
    /// How many bytes the circuit may carry, both directions together.
    pub max_bytes: u64,
    /// How long the circuit may last, in seconds.
    pub max_duration: u64,
    /// When the circuit was opened, in seconds.
    pub opened_at: u64,
    /// How many bytes the circuit has carried so far.
    pub relayed: u64,
    /// Whether the source has sent all it had.
    pub source_done: bool,
    /// Whether the destination has sent all it had.
    pub destination_done: bool,
    /// Why the circuit is over, if it is.
    pub ended: Option<CopyEnd>,
}

impl CopyView {
    /// What holds of an account at all times: the circuit has carried no
    /// more than it may.
    pub open spec fn wf(self) -> bool {
        self.relayed <= self.max_bytes
    }

    /// Whether the circuit has lasted as long as it may at time `now`.
    pub open spec fn due(self, now: u64) -> bool {
        now >= self.opened_at && now - self.opened_at >= self.max_duration
    }

    /// Whether the given side has sent all it had.
    pub open spec fn done(self, side: Side) -> bool {
        match side {
            Side::Source => self.source_done,
            Side::Destination => self.destination_done,
        }
    }

    /// The account with the circuit over for the given reason.
    pub open spec fn end(self, end: CopyEnd) -> CopyView {
        CopyView { ended: Some(end), ..self }
    }

    /// What to do about `event` at time `now`, and the account afterwards.
    ///
    /// A circuit that is over stays over. One that has lasted as long as it
    /// may is closed, whatever the event is. A failure closes it. Of the
    /// bytes read, as many are sent on as the circuit may still carry; if
    /// that is not all of them, the circuit is closed after them. A side
    /// that has reached its end is half-closed toward the other, and when
    /// both have, the circuit is finished.
    pub open spec fn step(self, event: CopyEvent, now: u64) -> (CopyView, CopyAction) {
        if let Some(end) = self.ended {
            (self, CopyAction::Close(end))
        } else if self.due(now) {
            let end = CopyEnd::LimitReached(Limit::Duration);
            (self.end(end), CopyAction::Close(end))
        } else {
            match event {
                CopyEvent::Tick => (self, CopyAction::Wait),
                CopyEvent::Failed => (self.end(CopyEnd::Failed), CopyAction::Close(CopyEnd::Failed)),
                CopyEvent::Read { from, len } => {
                    let left = self.max_bytes - self.relayed;
                    if self.done(from) {
                        (self.end(CopyEnd::Failed), CopyAction::Close(CopyEnd::Failed))
                    } else if len <= left {
                        (
                            CopyView { relayed: (self.relayed + len) as u64, ..self },
                            CopyAction::Forward { to: from.other(), len },
                        )
                    } else {
                        let end = CopyEnd::LimitReached(Limit::Bytes);
                        (
                            CopyView { relayed: self.max_bytes, ended: Some(end), ..self },
                            if left == 0 {
                                CopyAction::Close(end)
                            } else {
                                CopyAction::ForwardAndClose {
                                    to: from.other(),
                                    len: left as usize,
                                    end,
                                }
                            },
                        )
                    }
                },
                CopyEvent::Eof { from } => {
                    if self.done(from) {
                        (self, CopyAction::Wait)
                    } else if self.done(from.other()) {
                        (
                            CopyView {
                                source_done: true,
                                destination_done: true,
                                ended: Some(CopyEnd::Finished),
                                ..self
                            },
                            CopyAction::Close(CopyEnd::Finished),
                        )
                    } else {
                        (
                            match from {
                                Side::Source => CopyView { source_done: true, ..self },
                                Side::Destination => CopyView { destination_done: true, ..self },
                            },
                            CopyAction::HalfClose { to: from.other() },
                        )
                    }
                },
            }
        }
    }
}

/// The account of one circuit.
#[derive(Debug, Clone, Copy, PartialEq, Eq, Structural)]
pub struct CopyState {
    max_bytes: u64,
    max_duration: u64,
    opened_at: u64,
    relayed: u64,
    source_done: bool,
    destination_done: bool,
    ended: Option<CopyEnd>,
}

impl View for CopyState {
    type V = CopyView;

    closed spec fn view(&self) -> CopyView {
        CopyView {
            max_bytes: self.max_bytes,
            max_duration: self.max_duration,
            opened_at: self.opened_at,
            relayed: self.relayed,
            source_done: self.source_done,
            destination_done: self.destination_done,
            ended: self.ended,
        }
    }
}

impl CopyState {
    #[verifier::type_invariant]
    spec fn inv(self) -> bool {
        self@.wf()
    }

    /// The account of a circuit that was opened at time `opened_at`, in
    /// seconds, may last `max_duration` seconds and carry `max_bytes` bytes,
    /// and has carried nothing yet.
    pub fn new(max_bytes: u64, max_duration: u64, opened_at: u64) -> (state: CopyState)
        ensures
            state@ == (CopyView {
                max_bytes,
                max_duration,
                opened_at,
                relayed: 0,
                source_done: false,
                destination_done: false,
                ended: None,
            }),
    {
        CopyState {
            max_bytes,
            max_duration,
            opened_at,
            relayed: 0,
            source_done: false,
            destination_done: false,
            ended: None,
        }
    }

    /// How many bytes the circuit has carried so far: never more than it
    /// may.
    pub fn relayed(&self) -> (relayed: u64)
        ensures
            relayed == self@.relayed,
            relayed <= self@.max_bytes,
    {
        proof {
            use_type_invariant(self);
        }
        self.relayed
    }

    /// How many bytes the circuit may carry, both directions together.
    pub fn max_bytes(&self) -> (max_bytes: u64)
        ensures
            max_bytes == self@.max_bytes,
    {
        self.max_bytes
    }

    /// Why the circuit is over, if it is.
    pub fn ended(&self) -> (ended: Option<CopyEnd>)
        ensures
            ended == self@.ended,
    {
        self.ended
    }

    /// Whether the given side has sent all it had.
    pub fn is_done(&self, side: Side) -> (done: bool)
        ensures
            done == self@.done(side),
    {
        match side {
            Side::Source => self.source_done,
            Side::Destination => self.destination_done,
        }
    }

    /// Whether the circuit has lasted as long as it may at time `now`, in
    /// seconds.
    pub fn is_due(&self, now: u64) -> (due: bool)
        ensures
            due == self@.due(now),
    {
        now >= self.opened_at && now - self.opened_at >= self.max_duration
    }

    /// How many bytes to read next from a substream, at most: one chunk, or
    /// what the circuit may still carry if that is less.
    pub fn chunk_len(&self) -> (len: usize)
        ensures
            len == if self@.max_bytes - self@.relayed < MAX_CHUNK {
                self@.max_bytes - self@.relayed
            } else {
                MAX_CHUNK as int
            },
    {
        proof {
            use_type_invariant(self);
        }
        let left = self.max_bytes - self.relayed;
        if left < MAX_CHUNK as u64 {
            left as usize
        } else {
            MAX_CHUNK
        }
    }

    /// Takes note of `event` at time `now`, in seconds, and says what to do
    /// about it.
    pub fn on_event(&mut self, event: CopyEvent, now: u64) -> (action: CopyAction)
        ensures
            (final(self)@, action) == old(self)@.step(event, now),
            final(self)@.wf(),
            final(self)@.relayed == old(self)@.relayed + action.forwarded(),
            old(self)@.due(now) ==> final(self)@.ended is Some && action is Close,
    {
        proof {
            use_type_invariant(&*self);
        }
        if let Some(end) = self.ended {
            return CopyAction::Close(end);
        }
        if self.is_due(now) {
            let end = CopyEnd::LimitReached(Limit::Duration);
            self.ended = Some(end);
            return CopyAction::Close(end);
        }
        match event {
            CopyEvent::Tick => CopyAction::Wait,
            CopyEvent::Failed => {
                self.ended = Some(CopyEnd::Failed);
                CopyAction::Close(CopyEnd::Failed)
            },
            CopyEvent::Read { from, len } => {
                let left = self.max_bytes - self.relayed;
                if self.is_done(from) {
                    self.ended = Some(CopyEnd::Failed);
                    CopyAction::Close(CopyEnd::Failed)
                } else if len as u64 <= left {
                    self.relayed = self.relayed + len as u64;
                    CopyAction::Forward { to: from.opposite(), len }
                } else {
                    let end = CopyEnd::LimitReached(Limit::Bytes);
                    self.relayed = self.max_bytes;
                    self.ended = Some(end);
                    if left == 0 {
                        CopyAction::Close(end)
                    } else {
                        CopyAction::ForwardAndClose { to: from.opposite(), len: left as usize, end }
                    }
                }
            },
            CopyEvent::Eof { from } => {
                if self.is_done(from) {
                    CopyAction::Wait
                } else if self.is_done(from.opposite()) {
                    self.source_done = true;
                    self.destination_done = true;
                    self.ended = Some(CopyEnd::Finished);
                    CopyAction::Close(CopyEnd::Finished)
                } else {
                    match from {
                        Side::Source => {
                            self.source_done = true;
                        },
                        Side::Destination => {
                            self.destination_done = true;
                        },
                    }
                    CopyAction::HalfClose { to: from.opposite() }
                }
            },
        }
    }
}

/// What happened on a circuit, and when.
pub struct TimedEvent {
    pub event: CopyEvent,
    /// In seconds.
    pub at: u64,
}

impl CopyView {
    /// The account after `events`, taken one after the other.
    pub open spec fn run(self, events: Seq<TimedEvent>) -> CopyView
        decreases events.len(),
    {
        if events.len() == 0 {
            self
        } else {
            self.step(events.first().event, events.first().at).0.run(events.drop_first())
        }
    }

    /// How many bytes are sent on in answer to `events`, taken one after the
    /// other.
    pub open spec fn forwarded_by(self, events: Seq<TimedEvent>) -> nat
        decreases events.len(),
    {
        if events.len() == 0 {
            0
        } else {
            let (next, action) = self.step(events.first().event, events.first().at);
            action.forwarded() + next.forwarded_by(events.drop_first())
        }
    }
}

/// Every step keeps the account: what is sent on is what the account grows
/// by, the account never shows more than the circuit may carry, and the
/// limits and the time of opening stay what they are.
pub proof fn lemma_step_keeps_account(state: CopyView, event: CopyEvent, now: u64)
    requires
        state.wf(),
    ensures
        ({
            let (next, action) = state.step(event, now);
            &&& next.wf()
            &&& next.relayed == state.relayed + action.forwarded()
            &&& next.max_bytes == state.max_bytes
            &&& next.max_duration == state.max_duration
            &&& next.opened_at == state.opened_at
            &&& action.closes() <==> next.ended is Some
        }),
{
}

/// A limit that is reached closes the circuit in the same step: once the
/// circuit has lasted as long as it may, whatever happens closes it and
/// nothing is sent on; bytes beyond what it may carry close it after those
/// that it may.
pub proof fn lemma_limit_closes_at_once(state: CopyView, event: CopyEvent, now: u64)
    requires
        state.wf(),
        state.ended is None,
    ensures
        ({
            let (next, action) = state.step(event, now);
            &&& state.due(now) ==> action == CopyAction::Close(
                CopyEnd::LimitReached(Limit::Duration),
            ) && next == state.end(CopyEnd::LimitReached(Limit::Duration))
            &&& !state.due(now) ==> (event matches CopyEvent::Read { from, len } && !state.done(
                from,
            ) && state.relayed + len > state.max_bytes) ==> {
                &&& action.closes()
                &&& action.forwarded() == state.max_bytes - state.relayed
                &&& next.ended == Some(CopyEnd::LimitReached(Limit::Bytes))
            }
        }),
{
}

/// A circuit that is over stays over: nothing is sent on any more, and the
/// account stays as it is.
pub proof fn lemma_over_stays_over(state: CopyView, event: CopyEvent, now: u64)
    requires
        state.ended is Some,
    ensures
        state.step(event, now) == (state, CopyAction::Close(state.ended.unwrap())),
{
}

/// Whatever happens on a circuit, and in whatever order, it carries no more
/// than it may: the bytes sent on in answer to `events` are what the account
/// grows by, and with what it showed before they do not exceed the limit.
pub proof fn lemma_run_within_bytes(state: CopyView, events: Seq<TimedEvent>)
    requires
        state.wf(),
    ensures
        state.run(events).wf(),
        state.run(events).relayed == state.relayed + state.forwarded_by(events),
        state.relayed + state.forwarded_by(events) <= state.max_bytes,
        state.run(events).max_bytes == state.max_bytes,
    decreases events.len(),
{
    if events.len() > 0 {
        let (next, action) = state.step(events.first().event, events.first().at);
        lemma_step_keeps_account(state, events.first().event, events.first().at);
        lemma_run_within_bytes(next, events.drop_first());
    }
}

/// Whatever happens on a circuit, nothing is sent on from the time at which
/// it has lasted as long as it may: if the first of `events` comes then or
/// later, the circuit is over after it and no byte follows, whenever the
/// other events come.
pub proof fn lemma_run_within_duration(state: CopyView, events: Seq<TimedEvent>)
    requires
        state.wf(),
        events.len() > 0,
        state.due(events.first().at),
    ensures
        state.run(events).ended is Some,
        state.forwarded_by(events) == 0,
        state.run(events).relayed == state.relayed,
    decreases events.len(),
{
    let (next, action) = state.step(events.first().event, events.first().at);
    lemma_ended_run(next, events.drop_first());
}

/// After a circuit is over, whatever happens changes nothing.
proof fn lemma_ended_run(state: CopyView, events: Seq<TimedEvent>)
    requires
        state.ended is Some,
    ensures
        state.run(events) == state,
        state.forwarded_by(events) == 0,
    decreases events.len(),
{
    if events.len() > 0 {
        lemma_ended_run(state, events.drop_first());
    }
}

} // verus!
