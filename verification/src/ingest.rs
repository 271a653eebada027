//! The ingestion loop as a state machine.
//!
//! Reading the source, parsing a payload and writing to a durable store are
//! the driver's work. The loop decides what the driver does next: it is fed
//! the outcome of each piece of work as an event and answers with an action.
//! Per raw unit the order is: read it; drop it unread unless the window
//! starts with it; parse it; stamp it with the instant of acceptance; append
//! it. Every failure on the way is fatal, and a halted loop stays halted.

use vstd::prelude::*;
use crate::clock::utc_now_millis;
use crate::downsample::{phase_after, Downsampler, WINDOW};
use crate::sample::Sample;
use crate::store::{appended, chronological, TelemetryStore};

verus! {

/// Why ingestion came to an end.
#[derive(Clone, Copy, Debug, PartialEq, Eq, Structural)]
pub enum Fault {
    /// The source failed or ended: a read error, a disconnect, a timeout.
    Source,
    /// The payload at an accepted slot could not be parsed.
    Malformed,
    /// The store refused the append.
    Storage,
    /// The driver reported an event that the loop was not waiting for.
    OutOfTurn,
    /// The ingestion context ended without reporting a fault.
    Crashed,
}

/// What the loop is waiting for.
#[derive(Clone, Copy, Debug, PartialEq, Eq, Structural)]
pub enum Stage {
    /// The next raw unit from the source.
    AwaitingUnit,
    /// The parse of the unit that was just accepted.
    AwaitingParse,
    /// The outcome of the append that was just ordered.
    AwaitingStore,
    /// Nothing any more.
    Halted(Fault),
}

/// The outcome of a piece of the driver's work.
#[derive(Clone, Copy, Debug, PartialEq, Eq, Structural)]
pub enum IngestEvent {
    /// A raw unit arrived. Its content stays with the driver.
    UnitRead,
    /// The source failed or ended.
    ReadFailed,
    /// The accepted unit parsed into this sample, whose timestamp is whatever
    /// the payload carried.
    Parsed(Sample),
    /// The accepted unit did not parse.
    ParseFailed,
    /// The sample was appended to the store.
    Stored,
    /// The store refused the sample.
    StoreFailed,
}

/// What the driver does next.
#[derive(Clone, Copy, Debug, PartialEq, Eq, Structural)]
pub enum IngestAction {
    /// Drop the unit at hand, if any, and read the next one.
    ReadNext,
    /// Parse the unit at hand.
    Parse,
    /// Append this sample to the store.
    Append(Sample),
    /// Stop, and report the fault to the supervisor.
    Halt(Fault),
}

/// The loop as contracts see it.
pub struct LoopState {
    /// The position of the downsampler in its window.
    pub phase: nat,
    pub stage: Stage,
}

/// The state in which a loop starts.
pub open spec fn initial() -> LoopState {
    LoopState { phase: 0, stage: Stage::AwaitingUnit }
}

/// The state and the action that follow from `event` in `state`, where `now`
/// is the instant at which the event is handled.
pub open spec fn transition(state: LoopState, event: IngestEvent, now: i64) -> (
    LoopState,
    IngestAction,
) {
    match state.stage {
        Stage::Halted(fault) => (state, IngestAction::Halt(fault)),
        Stage::AwaitingUnit => match event {
            IngestEvent::UnitRead => if state.phase == 0 {
                (
                    LoopState { phase: phase_after(state.phase, 1), stage: Stage::AwaitingParse },
                    IngestAction::Parse,
                )
            } else {
                (
                    LoopState { phase: phase_after(state.phase, 1), stage: Stage::AwaitingUnit },
                    IngestAction::ReadNext,
                )
            },
            IngestEvent::ReadFailed => halted(state, Fault::Source),
            _ => halted(state, Fault::OutOfTurn),
        },
        Stage::AwaitingParse => match event {
            IngestEvent::Parsed(sample) => (
                LoopState { phase: state.phase, stage: Stage::AwaitingStore },
                IngestAction::Append(sample.stamped(now)),
            ),
            IngestEvent::ParseFailed => halted(state, Fault::Malformed),
            _ => halted(state, Fault::OutOfTurn),
        },
        Stage::AwaitingStore => match event {
            IngestEvent::Stored => (
                LoopState { phase: state.phase, stage: Stage::AwaitingUnit },
                IngestAction::ReadNext,
            ),
            IngestEvent::StoreFailed => halted(state, Fault::Storage),
            _ => halted(state, Fault::OutOfTurn),
        },
    }
}

/// The loop brought to a halt by `fault`.
pub open spec fn halted(state: LoopState, fault: Fault) -> (LoopState, IngestAction) {
    (LoopState { phase: state.phase, stage: Stage::Halted(fault) }, IngestAction::Halt(fault))
}

/// The state after `events` have been handled in order, each at its instant.
pub open spec fn state_after(state: LoopState, events: Seq<(IngestEvent, i64)>) -> LoopState
    decreases events.len(),
{
    if events.len() == 0 {
        state
    } else {
        transition(state_after(state, events.drop_last()), events.last().0, events.last().1).0
    }
}

/// The state, the content of the store and the action that follow from
/// `event` where the store is at hand and holds `held`: an append that the
/// loop orders is carried out at once and counts as stored.
pub open spec fn fed(
    state: LoopState,
    held: Seq<Sample>,
    capacity: nat,
    event: IngestEvent,
    now: i64,
) -> (LoopState, Seq<Sample>, IngestAction) {
    let (next, action) = transition(state, event, now);
    match action {
        IngestAction::Append(sample) => {
            let (stored, then) = transition(next, IngestEvent::Stored, now);
            (stored, appended(held, capacity, sample), then)
        },
        _ => (next, held, action),
    }
}

/// The single writer's side of the pipeline.
pub struct IngestionLoop {
    downsampler: Downsampler,
    stage: Stage,
}

impl View for IngestionLoop {
    type V = LoopState;

    closed spec fn view(&self) -> LoopState {
        LoopState { phase: self.downsampler.phase(), stage: self.stage }
    }
}

impl IngestionLoop {
    /// A loop at the start of a window that awaits its first raw unit.
    pub fn new() -> (ingestion: Self)
        ensures
            ingestion@ == initial(),
    {
        IngestionLoop { downsampler: Downsampler::new(), stage: Stage::AwaitingUnit }
    }

    /// What the loop is waiting for.
    pub fn stage(&self) -> (stage: Stage)
        ensures
            stage == self@.stage,
    {
        self.stage
    }

    /// The fault that halted the loop, if it has halted.
    pub fn fault(&self) -> (fault: Option<Fault>)
        ensures
            fault == match self@.stage {
                Stage::Halted(fault) => Some(fault),
                _ => None,
            },
    {
        match self.stage {
            Stage::Halted(fault) => Some(fault),
            _ => None,
        }
    }

    /// The position of the downsampler in its window.
    pub fn position(&self) -> (position: u64)
        ensures
            position == self@.phase,
            position < WINDOW,
    {
        self.downsampler.position()
    }

    /// Handles `event` at the instant `now` and says what the driver does
    /// next.
    pub fn step(&mut self, event: IngestEvent, now: i64) -> (action: IngestAction)
        ensures
            (final(self)@, action) == transition(old(self)@, event, now),
    {
        match self.stage {
            Stage::Halted(fault) => IngestAction::Halt(fault),
            Stage::AwaitingUnit => match event {
                IngestEvent::UnitRead => {
                    if self.downsampler.offer() {
                        self.stage = Stage::AwaitingParse;
                        IngestAction::Parse
                    } else {
                        IngestAction::ReadNext
                    }
                },
                IngestEvent::ReadFailed => self.halt(Fault::Source),
                _ => self.halt(Fault::OutOfTurn),
            },
            Stage::AwaitingParse => match event {
                IngestEvent::Parsed(sample) => {
                    self.stage = Stage::AwaitingStore;
                    IngestAction::Append(sample.restamp(now))
                },
                IngestEvent::ParseFailed => self.halt(Fault::Malformed),
                _ => self.halt(Fault::OutOfTurn),
            },
            Stage::AwaitingStore => match event {
                IngestEvent::Stored => {
                    self.stage = Stage::AwaitingUnit;
                    IngestAction::ReadNext
                },
                IngestEvent::StoreFailed => self.halt(Fault::Storage),
                _ => self.halt(Fault::OutOfTurn),
            },
        }
    }

    /// Handles `event` at the present instant, read from the wall clock.
    ///
    /// Only a parsed sample is stamped, so the clock is read for that event
    /// alone; whatever it reads, the sample is stamped with it.
    pub fn step_now(&mut self, event: IngestEvent) -> (action: IngestAction)
        ensures
            event !is Parsed ==> (final(self)@, action) == transition(old(self)@, event, 0),
            event is Parsed ==> exists|now: i64|
                (final(self)@, action) == #[trigger] transition(old(self)@, event, now),
    {
        match event {
            IngestEvent::Parsed(_) => {
                let now: i64 = utc_now_millis();
                self.step(event, now)
            },
            _ => self.step(event, 0),
        }
    }

    /// Handles `event` at the instant `now` for a pipeline that writes to
    /// `store`: as `step`, but a sample that is due for the store is appended
    /// to it at once, and the driver is told to read on.
    pub fn feed(&mut self, store: &mut TelemetryStore, event: IngestEvent, now: i64) -> (action:
        IngestAction)
        requires
            old(store).wf(),
        ensures
            final(store).wf(),
            final(store).cap() == old(store).cap(),
            (final(self)@, final(store)@, action) == fed(
                old(self)@,
                old(store)@,
                old(store).cap(),
                event,
                now,
            ),
    {
        let action = self.step(event, now);
        match action {
            IngestAction::Append(sample) => {
                store.append(sample);
                self.step(IngestEvent::Stored, now)
            },
            _ => action,
        }
    }

    fn halt(&mut self, fault: Fault) -> (action: IngestAction)
        ensures
            (final(self)@, action) == halted(old(self)@, fault),
    {
        self.stage = Stage::Halted(fault);
        IngestAction::Halt(fault)
    }
}

/// Whether `event` reports a failure of the driver's work.
pub open spec fn is_failure(event: IngestEvent) -> bool {
    event is ReadFailed || event is ParseFailed || event is StoreFailed
}

/// A halted loop stays halted: whatever it is fed, it keeps its state and
/// names the same fault again.
pub proof fn lemma_halt_is_final(state: LoopState, fault: Fault, event: IngestEvent, now: i64)
    requires
        state.stage == Stage::Halted(fault),
    ensures
        transition(state, event, now) == (state, IngestAction::Halt(fault)),
{
}

/// However many events follow a halt, the loop is still halted by the fault
/// that came first.
pub proof fn lemma_halt_outlasts(state: LoopState, fault: Fault, events: Seq<(IngestEvent, i64)>)
    requires
        state.stage == Stage::Halted(fault),
    ensures
        state_after(state, events) == state,
    decreases events.len(),
{
    if events.len() > 0 {
        lemma_halt_outlasts(state, fault, events.drop_last());
    }
}

/// Every failure is fatal: a loop that is fed a failure halts at once, and so
/// does one that is fed an event it was not waiting for. No action but a halt
/// follows.
pub proof fn lemma_failure_halts(state: LoopState, event: IngestEvent, now: i64)
    requires
        is_failure(event),
    ensures
        transition(state, event, now).0.stage is Halted,
        transition(state, event, now).1 is Halt,
        transition(state, event, now).1 == IngestAction::Halt(
            transition(state, event, now).0.stage->Halted_0,
        ),
{
}

/// The action is a halt exactly where the loop is halted afterwards, and the
/// fault it names is the one the loop halted with.
pub proof fn lemma_halt_reported(state: LoopState, event: IngestEvent, now: i64)
    ensures
        transition(state, event, now).1 is Halt <==> transition(state, event, now).0.stage is Halted,
        transition(state, event, now).1 matches IngestAction::Halt(fault) ==> transition(
            state,
            event,
            now,
        ).0.stage == Stage::Halted(fault),
{
}

/// A unit is parsed only where the window starts with it: the loop orders a
/// parse exactly for a unit that arrives, in turn, at position 0. Any other
/// unit that arrives in turn is dropped unread. The position advances by one
/// per unit that arrives in turn and by nothing else.
pub proof fn lemma_parse_on_cadence(state: LoopState, event: IngestEvent, now: i64)
    ensures
        transition(state, event, now).1 is Parse <==> (state.stage is AwaitingUnit
            && event is UnitRead && state.phase == 0),
        state.stage is AwaitingUnit && event is UnitRead && state.phase != 0 ==> transition(
            state,
            event,
            now,
        ) == (
            LoopState { phase: phase_after(state.phase, 1), stage: Stage::AwaitingUnit },
            IngestAction::ReadNext,
        ),
        transition(state, event, now).0.phase == if state.stage is AwaitingUnit
            && event is UnitRead {
            phase_after(state.phase, 1)
        } else {
            state.phase
        },
{
}

/// What is appended is what was parsed, stamped with the instant of
/// acceptance: the loop orders an append only for a parse that it awaited,
/// the measurements are those of the payload, and the timestamp is `now`,
/// whatever the payload carried.
pub proof fn lemma_append_is_stamped(state: LoopState, event: IngestEvent, now: i64)
    ensures
        transition(state, event, now).1 matches IngestAction::Append(sample) ==> {
            &&& state.stage is AwaitingParse
            &&& event matches IngestEvent::Parsed(parsed)
            &&& sample == parsed.stamped(now)
            &&& sample.timestamp == now
            &&& sample.temperature_bits == parsed.temperature_bits
            &&& sample.humidity_bits == parsed.humidity_bits
            &&& sample.pressure_bits == parsed.pressure_bits
        },
{
}

/// With the store at hand, its content changes exactly where a parse that
/// the loop awaited comes in: the sample is appended, stamped with `now`, and
/// the loop goes on to await the next unit. No other event touches the store.
pub proof fn lemma_fed_on_parse(
    state: LoopState,
    held: Seq<Sample>,
    capacity: nat,
    event: IngestEvent,
    now: i64,
)
    ensures
        (state.stage is AwaitingParse && event matches IngestEvent::Parsed(parsed)) ==> fed(
            state,
            held,
            capacity,
            event,
            now,
        ) == (
            LoopState { phase: state.phase, stage: Stage::AwaitingUnit },
            appended(held, capacity, event->Parsed_0.stamped(now)),
            IngestAction::ReadNext,
        ),
        !(state.stage is AwaitingParse && event is Parsed) ==> fed(
            state,
            held,
            capacity,
            event,
            now,
        ).1 == held,
        !(fed(state, held, capacity, event, now).2 is Append),
{
}

/// As long as the clock does not run backwards, the store stays in capture
/// order: where `now` is no earlier than the most recent timestamp held,
/// whatever the loop appends leaves the timestamps non-decreasing.
pub proof fn lemma_fed_in_capture_order(
    state: LoopState,
    held: Seq<Sample>,
    capacity: nat,
    event: IngestEvent,
    now: i64,
)
    requires
        chronological(held),
        held.len() > 0 ==> held.last().timestamp <= now,
    ensures
        chronological(fed(state, held, capacity, event, now).1),
{
    if let IngestAction::Append(sample) = transition(state, event, now).1 {
        crate::store::lemma_append_keeps_order(held, capacity, sample);
    }
}

} // verus!
