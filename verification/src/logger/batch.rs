//! When the logger flushes, and when it gives up on a batch.

use super::config::LoggerConfig;
use super::counters::{counted_one, Counter, LoggerCounters};
use crate::common::LogEvent;
use vstd::prelude::*;

verus! {

/// What happens to the logger.
#[derive(Debug)]
pub enum LoggerInput {
    Event(LogEvent),
    /// The flush interval is over.
    Tick,
    /// No more events will come.
    Closed,
}

/// What the logger does about it.
#[derive(Debug)]
pub enum LoggerStep {
    Wait,
    /// The logger is disabled: the event is dropped.
    Drop,
    Flush(Vec<LogEvent>),
    /// Flush what is left, then stop.
    FlushAndStop(Vec<LogEvent>),
    Stop,
}

/// The events not yet flushed.
#[derive(Debug)]
pub struct LoggerBatch {
    enabled: bool,
    limit: usize,
    buffer: Vec<LogEvent>,
}

/// A step without its memory layout.
pub enum StepModel {
    Wait,
    Drop,
    Flush(Seq<LogEvent>),
    FlushAndStop(Seq<LogEvent>),
    Stop,
}

impl View for LoggerStep {
    type V = StepModel;

    open spec fn view(&self) -> StepModel {
        match *self {
            LoggerStep::Wait => StepModel::Wait,
            LoggerStep::Drop => StepModel::Drop,
            LoggerStep::Flush(b) => StepModel::Flush(b@),
            LoggerStep::FlushAndStop(b) => StepModel::FlushAndStop(b@),
            LoggerStep::Stop => StepModel::Stop,
        }
    }
}

/// The step and the events left in the buffer after it.
pub open spec fn logged(
    enabled: bool,
    limit: nat,
    buffer: Seq<LogEvent>,
    input: LoggerInput,
) -> (StepModel, Seq<LogEvent>) {
    match input {
        LoggerInput::Event(ev) => if !enabled {
            (StepModel::Drop, buffer)
        } else if buffer.len() + 1 >= limit {
            (StepModel::Flush(buffer.push(ev)), Seq::empty())
        } else {
            (StepModel::Wait, buffer.push(ev))
        },
        LoggerInput::Tick => if buffer.len() > 0 {
            (StepModel::Flush(buffer), Seq::empty())
        } else {
            (StepModel::Wait, buffer)
        },
        LoggerInput::Closed => if buffer.len() > 0 {
            (StepModel::FlushAndStop(buffer), Seq::empty())
        } else {
            (StepModel::Stop, buffer)
        },
    }
}

/// What is counted of an input: an event is received, or dropped where the logger is disabled.
pub open spec fn input_count(enabled: bool, input: LoggerInput) -> Option<Counter> {
    match input {
        LoggerInput::Event(_) => Some(
            if enabled {
                Counter::Received
            } else {
                Counter::Dropped
            },
        ),
        _ => None,
    }
}

/// What is counted of a batch once its write has succeeded or was given up. The loss of the last
/// batch is not counted.
pub open spec fn write_count(last: bool, ok: bool) -> Option<Counter> {
    if ok {
        Some(Counter::Flushed)
    } else if last {
        None
    } else {
        Some(Counter::FlushErrors)
    }
}

/// What is counted of a batch once its write has succeeded or was given up.
pub fn write_counted(last: bool, ok: bool) -> (r: Option<Counter>)
    ensures
        r == write_count(last, ok),
{
    if ok {
        Some(Counter::Flushed)
    } else if last {
        None
    } else {
        Some(Counter::FlushErrors)
    }
}

impl LoggerBatch {
    pub closed spec fn is_enabled(self) -> bool {
        self.enabled
    }

    pub closed spec fn size_limit(self) -> nat {
        self.limit as nat
    }

    pub closed spec fn pending(self) -> Seq<LogEvent> {
        self.buffer@
    }

    pub fn new(config: &LoggerConfig) -> (r: Self)
        ensures
            r.is_enabled() == config.enabled,
            r.size_limit() == config.max_batch_size,
            r.pending() == Seq::<LogEvent>::empty(),
    {
        LoggerBatch {
            enabled: config.enabled,
            limit: config.max_batch_size,
            buffer: Vec::new(),
        }
    }

    /// What is counted of an input.
    pub fn counted(&self, input: &LoggerInput) -> (r: Option<Counter>)
        ensures
            r == input_count(self.is_enabled(), *input),
    {
        match input {
            LoggerInput::Event(_) => if self.enabled {
                Some(Counter::Received)
            } else {
                Some(Counter::Dropped)
            },
            _ => None,
        }
    }

    fn take(&mut self) -> (r: Vec<LogEvent>)
        ensures
            r@ == old(self).pending(),
            final(self).pending() == Seq::<LogEvent>::empty(),
            final(self).is_enabled() == old(self).is_enabled(),
            final(self).size_limit() == old(self).size_limit(),
    {
        let mut batch: Vec<LogEvent> = Vec::new();
        std::mem::swap(&mut batch, &mut self.buffer);
        batch
    }

    /// Flushes on size, on the interval, and at the end.
    pub fn step(&mut self, input: LoggerInput) -> (r: LoggerStep)
        ensures
            final(self).is_enabled() == old(self).is_enabled(),
            final(self).size_limit() == old(self).size_limit(),
            (r@, final(self).pending()) == logged(
                old(self).is_enabled(),
                old(self).size_limit(),
                old(self).pending(),
                input,
            ),
    {
        match input {
            LoggerInput::Event(ev) => {
                if !self.enabled {
                    return LoggerStep::Drop;
                }
                self.buffer.push(ev);
                if self.buffer.len() >= self.limit {
                    LoggerStep::Flush(self.take())
                } else {
                    LoggerStep::Wait
                }
            },
            LoggerInput::Tick => {
                if self.buffer.len() > 0 {
                    LoggerStep::Flush(self.take())
                } else {
                    LoggerStep::Wait
                }
            },
            LoggerInput::Closed => {
                if self.buffer.len() > 0 {
                    LoggerStep::FlushAndStop(self.take())
                } else {
                    LoggerStep::Stop
                }
            },
        }
    }
}

/// What became of an event handed to the logger without waiting.
#[derive(Clone, Copy, Debug, PartialEq, Eq, Structural)]
pub enum SendOutcome {
    Sent,
    /// The channel is full: the event is gone.
    Full,
    /// The logger is gone.
    Closed,
}

/// What follows from handing over an event.
#[derive(Clone, Copy, Debug, PartialEq, Eq, Structural)]
pub struct SendEffect {
    /// The logger is still there.
    pub alive: bool,
    /// The event was dropped, and is counted as that.
    pub dropped: bool,
}

/// A full channel drops the event, and only a closed one means that the logger is gone.
pub fn send_effect(outcome: SendOutcome) -> (r: SendEffect)
    ensures
        r.alive == (outcome != SendOutcome::Closed),
        r.dropped == (outcome == SendOutcome::Full),
{
    match outcome {
        SendOutcome::Sent => SendEffect { alive: true, dropped: false },
        SendOutcome::Full => SendEffect { alive: true, dropped: true },
        SendOutcome::Closed => SendEffect { alive: false, dropped: false },
    }
}

/// Counts an event that was dropped; says whether the logger is still there. Which outcome counts
/// a drop, and that no other does, is what `send_effect` says.
pub fn after_send(outcome: SendOutcome, counters: &LoggerCounters) -> (alive: bool)
    ensures
        alive == (outcome != SendOutcome::Closed),
        outcome == SendOutcome::Full ==> counted_one(counters.events_dropped),
{
    let effect = send_effect(outcome);
    if effect.dropped {
        counters.inc_dropped();
    }
    effect.alive
}

/// What follows a failed write.
#[derive(Clone, Copy, Debug, PartialEq, Eq, Structural)]
pub enum FailureStep {
    RetryAfterMs(u64),
    GiveUp,
}

/// What follows the failed write number `attempt`, counted from zero.
pub open spec fn failure_step(config: LoggerConfig, attempt: u32) -> FailureStep {
    if attempt < config.retries() {
        FailureStep::RetryAfterMs(config.pause_ms())
    } else {
        FailureStep::GiveUp
    }
}

/// What follows the failed write number `attempt`, counted from zero.
pub fn after_failure(config: &LoggerConfig, attempt: u32) -> (r: FailureStep)
    ensures
        r == failure_step(*config, attempt),
{
    if attempt < config.send_retries() {
        FailureStep::RetryAfterMs(config.retry_backoff_ms())
    } else {
        FailureStep::GiveUp
    }
}

/// Where a run stands: the batches handed to the sink, the events not yet flushed, and what was
/// counted.
pub struct RunModel {
    pub batches: Seq<Seq<LogEvent>>,
    pub pending: Seq<LogEvent>,
    pub counts: Map<Counter, nat>,
}

/// Nothing counted.
pub open spec fn no_counts() -> Map<Counter, nat> {
    Map::new(|c: Counter| true, |c: Counter| 0)
}

/// One more on a counter, where one is named.
pub open spec fn counted_up(counts: Map<Counter, nat>, c: Option<Counter>) -> Map<Counter, nat> {
    match c {
        Some(c) => counts.insert(c, counts[c] + 1),
        None => counts,
    }
}

/// A run after one more input; `written` says whether the sink took the batch of that place.
pub open spec fn run_step(
    enabled: bool,
    limit: nat,
    written: spec_fn(nat) -> bool,
    run: RunModel,
    input: LoggerInput,
) -> RunModel {
    let (step, pending) = logged(enabled, limit, run.pending, input);
    let counts = counted_up(run.counts, input_count(enabled, input));
    match step {
        StepModel::Flush(b) => RunModel {
            batches: run.batches.push(b),
            pending,
            counts: counted_up(counts, write_count(false, written(run.batches.len()))),
        },
        StepModel::FlushAndStop(b) => RunModel {
            batches: run.batches.push(b),
            pending,
            counts: counted_up(counts, write_count(true, written(run.batches.len()))),
        },
        _ => RunModel { batches: run.batches, pending, counts },
    }
}

/// Where a run over these inputs stands.
pub open spec fn run_of(
    enabled: bool,
    limit: nat,
    written: spec_fn(nat) -> bool,
    inputs: Seq<LoggerInput>,
) -> RunModel
    decreases inputs.len(),
{
    if inputs.len() == 0 {
        RunModel { batches: Seq::empty(), pending: Seq::empty(), counts: no_counts() }
    } else {
        run_step(
            enabled,
            limit,
            written,
            run_of(enabled, limit, written, inputs.drop_last()),
            inputs.last(),
        )
    }
}

/// The events among the inputs.
pub open spec fn events_of(inputs: Seq<LoggerInput>) -> Seq<LogEvent>
    decreases inputs.len(),
{
    if inputs.len() == 0 {
        Seq::empty()
    } else {
        match inputs.last() {
            LoggerInput::Event(ev) => events_of(inputs.drop_last()).push(ev),
            _ => events_of(inputs.drop_last()),
        }
    }
}

/// An enabled logger loses and reorders nothing, whether the sink takes its batches or not: what
/// it handed to the sink, followed by what it still holds, is exactly the events that it was
/// given. Every batch has at least one event and at most as many as the limit, and fewer than
/// that are held.
pub proof fn law_nothing_lost(limit: nat, written: spec_fn(nat) -> bool, inputs: Seq<LoggerInput>)
    requires
        limit > 0,
    ensures
        ({
            let run = run_of(true, limit, written, inputs);
            &&& run.batches.flatten_alt() + run.pending == events_of(inputs)
            &&& forall|i: int|
                0 <= i < run.batches.len() ==> 1 <= (#[trigger] run.batches[i]).len() <= limit
            &&& run.pending.len() < limit
        }),
    decreases inputs.len(),
{
    let run = run_of(true, limit, written, inputs);
    if inputs.len() > 0 {
        law_nothing_lost(limit, written, inputs.drop_last());
        let before = run_of(true, limit, written, inputs.drop_last());
        if run.batches != before.batches {
            assert(run.batches.drop_last() =~= before.batches);
        }
        assert(run.batches.flatten_alt() + run.pending =~= events_of(inputs));
    } else {
        assert(run.batches.flatten_alt() + run.pending =~= events_of(inputs));
    }
}

/// After the channel is closed nothing is held back: the batches together are the events.
pub proof fn law_closed_flushes_all(
    limit: nat,
    written: spec_fn(nat) -> bool,
    inputs: Seq<LoggerInput>,
)
    requires
        limit > 0,
        inputs.len() > 0,
        inputs.last() is Closed,
    ensures
        run_of(true, limit, written, inputs).batches.flatten_alt() == events_of(inputs),
        run_of(true, limit, written, inputs).pending.len() == 0,
{
    law_nothing_lost(limit, written, inputs);
    let r = run_of(true, limit, written, inputs);
    assert(r.batches.flatten_alt() + r.pending =~= r.batches.flatten_alt());
}

/// An enabled logger counts every event as received and none as dropped. Where the sink takes
/// every batch, each is counted as flushed and none as an error.
pub proof fn law_counts_of_a_run(
    limit: nat,
    written: spec_fn(nat) -> bool,
    inputs: Seq<LoggerInput>,
)
    ensures
        ({
            let run = run_of(true, limit, written, inputs);
            &&& run.counts.dom() == no_counts().dom()
            &&& run.counts[Counter::Received] == events_of(inputs).len()
            &&& run.counts[Counter::Dropped] == 0
            &&& (forall|k: nat| #[trigger] written(k)) ==> run.counts[Counter::Flushed] == run.batches.len()
                && run.counts[Counter::FlushErrors] == 0
        }),
    decreases inputs.len(),
{
    if inputs.len() > 0 {
        law_counts_of_a_run(limit, written, inputs.drop_last());
        let run = run_of(true, limit, written, inputs);
        assert(run.counts.dom() =~= no_counts().dom());
    }
}

/// A disabled logger hands nothing to the sink and counts every event as dropped, and nothing
/// else.
pub proof fn law_disabled_drops_all(
    limit: nat,
    written: spec_fn(nat) -> bool,
    inputs: Seq<LoggerInput>,
)
    ensures
        ({
            let run = run_of(false, limit, written, inputs);
            &&& run.batches.len() == 0
            &&& run.pending.len() == 0
            &&& run.counts == no_counts().insert(Counter::Dropped, events_of(inputs).len())
        }),
    decreases inputs.len(),
{
    let run = run_of(false, limit, written, inputs);
    if inputs.len() > 0 {
        law_disabled_drops_all(limit, written, inputs.drop_last());
    }
    assert(run.counts =~= no_counts().insert(Counter::Dropped, events_of(inputs).len()));
}

/// A write is tried once and then retried as often as configured, and no more.
pub proof fn law_attempts_are_bounded(config: LoggerConfig, attempt: u32)
    ensures
        failure_step(config, attempt) == FailureStep::GiveUp <==> attempt >= config.retries(),
{
}

/// An enabled logger flushes as soon as the limit is reached and not before, and at the interval
/// and the end whatever it holds; a disabled one holds nothing back and drops every event.
pub proof fn law_flushes_come_when_due(limit: nat, buffer: Seq<LogEvent>, ev: LogEvent)
    ensures
        buffer.len() + 1 < limit ==> logged(true, limit, buffer, LoggerInput::Event(ev)) == (
            StepModel::Wait,
            buffer.push(ev),
        ),
        buffer.len() + 1 >= limit ==> logged(true, limit, buffer, LoggerInput::Event(ev)) == (
            StepModel::Flush(buffer.push(ev)),
            Seq::<LogEvent>::empty(),
        ),
        logged(false, limit, buffer, LoggerInput::Event(ev)).0 == StepModel::Drop,
        buffer.len() > 0 ==> logged(true, limit, buffer, LoggerInput::Tick) == (
            StepModel::Flush(buffer),
            Seq::<LogEvent>::empty(),
        ),
        buffer.len() == 0 ==> logged(true, limit, buffer, LoggerInput::Tick).0 == StepModel::Wait,
        buffer.len() > 0 ==> logged(true, limit, buffer, LoggerInput::Closed)
            == (StepModel::FlushAndStop(buffer), Seq::<LogEvent>::empty()),
        buffer.len() == 0 ==> logged(true, limit, buffer, LoggerInput::Closed).0
            == StepModel::Stop,
{
}

/// A failed write is tried again after the configured pause as often as configured: without a
/// database configuration three times, a fifth of a second apart.
pub proof fn law_failed_writes_are_retried(config: LoggerConfig, attempt: u32)
    ensures
        ({
            let (times, pause) = match config.clickhouse {
                Some(c) => (c.send_retries, c.retry_backoff_ms),
                None => (3u32, 200u64),
            };
            failure_step(config, attempt) == if attempt < times {
                FailureStep::RetryAfterMs(pause)
            } else {
                FailureStep::GiveUp
            }
        }),
{
}

/// An event is counted once: as received where the logger is enabled, else as dropped. A batch is
/// counted as flushed where its write succeeded and as an error where it was given up, unless it
/// was the last.
pub proof fn law_what_is_counted(enabled: bool, ev: LogEvent, last: bool, ok: bool)
    ensures
        input_count(true, LoggerInput::Event(ev)) == Some(Counter::Received),
        input_count(false, LoggerInput::Event(ev)) == Some(Counter::Dropped),
        input_count(enabled, LoggerInput::Tick) is None,
        input_count(enabled, LoggerInput::Closed) is None,
        write_count(last, true) == Some(Counter::Flushed),
        write_count(false, false) == Some(Counter::FlushErrors),
        write_count(true, false) is None,
{
}

} // verus!
