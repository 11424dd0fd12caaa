//! Streaming statistics: completion events, the per-window rolling counters,
//! the run-wide summary, and the aggregator state machine that consumes one
//! readiness outcome at a time.
//!
//! The aggregator is a pure transition system: the unverified shell owns the
//! channels and the timer, and hands each outcome (an event, a timer tick, a
//! shutdown notification, or channel closure) to [`Aggregator::step`], which
//! decides everything.

use vstd::prelude::*;
use vstd::multiset::Multiset;

use crate::hist::LatencyHistogram;
use crate::hist::hist_count;
use crate::hist::hist_max_value;

verus! {

/// Why a request failed: a connection or stream level fault, or a malformed
/// response payload.
#[derive(Clone, Copy, Debug, PartialEq, Eq)]
pub enum ErrorKind {
    Transport,
    Protocol,
}

/// One completion event emitted by a worker: either a successful pull with
/// the summed payload size and its latency, or a failure carrying the elapsed
/// time to the failure.
#[derive(Clone, Copy, Debug, PartialEq, Eq)]
pub struct Event {
    pub size: u64,
    pub latency_nanos: u64,
    pub error: Option<ErrorKind>,
}

impl Event {
    /// A failure event: no payload, only the elapsed time and the cause.
    pub fn error(latency_nanos: u64, err: ErrorKind) -> (e: Event)
        ensures
            e == (Event { size: 0, latency_nanos, error: Some(err) }),
    {
        Event { size: 0, latency_nanos, error: Some(err) }
    }

    /// A success event with the summed payload size and the observed latency.
    pub fn new(size: u64, latency_nanos: u64) -> (e: Event)
        ensures
            e == (Event { size, latency_nanos, error: None }),
    {
        Event { size, latency_nanos, error: None }
    }

    pub open spec fn is_success(self) -> bool {
        self.error is None
    }
}

/// Addition that stops at the largest representable value instead of wrapping.
pub open spec fn sat_add(a: u64, b: u64) -> u64 {
    if a + b > u64::MAX {
        u64::MAX
    } else {
        (a + b) as u64
    }
}

/// Rolling counters for the current window; reset to zero by every flush.
#[derive(Clone, Copy, Debug, PartialEq, Eq)]
pub struct Status {
    pub size: u64,
    pub latency: u64,
    pub err: u64,
    pub count: u64,
}

/// The rolling counters after absorbing one event: a success adds its size
/// and latency and counts one request; a failure only counts one error.
pub open spec fn status_after(s: Status, e: Event) -> Status {
    if e.is_success() {
        Status {
            size: sat_add(s.size, e.size),
            latency: sat_add(s.latency, e.latency_nanos),
            err: s.err,
            count: sat_add(s.count, 1),
        }
    } else {
        Status { size: s.size, latency: s.latency, err: sat_add(s.err, 1), count: s.count }
    }
}

pub open spec fn zero_status() -> Status {
    Status { size: 0, latency: 0, err: 0, count: 0 }
}

/// One line of periodic output, as plain integers; rendering is left to the
/// caller. `latency_nanos` is the window's summed latency divided by the
/// interval, mirroring the reported figure.
#[derive(Clone, Copy, Debug, PartialEq, Eq)]
pub struct FlushReport {
    pub throughput: u64,
    pub qps: u64,
    pub latency_nanos: u64,
    pub err_rate: u64,
}

/// The figures a flush derives from the window counters: each sum divided by
/// the interval length in seconds.
pub open spec fn report_of(s: Status, interval_secs: u64) -> FlushReport
    recommends
        interval_secs >= 1,
{
    FlushReport {
        throughput: (s.size as int / interval_secs as int) as u64,
        qps: (s.count as int / interval_secs as int) as u64,
        latency_nanos: (s.latency as int / interval_secs as int) as u64,
        err_rate: (s.err as int / interval_secs as int) as u64,
    }
}

impl Status {
    pub fn new() -> (s: Status)
        ensures
            s == zero_status(),
    {
        Status { size: 0, latency: 0, err: 0, count: 0 }
    }

    /// Absorb one completion event into the window counters.
    pub fn update(&mut self, event: Event)
        ensures
            *final(self) == status_after(*old(self), event),
    {
        match event.error {
            None => {
                self.size = self.size.saturating_add(event.size);
                self.latency = self.latency.saturating_add(event.latency_nanos);
                self.count = self.count.saturating_add(1);
            }
            Some(_) => {
                self.err = self.err.saturating_add(1);
            }
        }
    }

    /// Compute the window figures and reset every counter to zero.
    pub fn flash(&mut self, interval_secs: u64) -> (r: FlushReport)
        requires
            interval_secs >= 1,
        ensures
            r == report_of(*old(self), interval_secs),
            *final(self) == zero_status(),
    {
        let r = FlushReport {
            throughput: self.size / interval_secs,
            qps: self.count / interval_secs,
            latency_nanos: self.latency / interval_secs,
            err_rate: self.err / interval_secs,
        };
        self.size = 0;
        self.latency = 0;
        self.err = 0;
        self.count = 0;
        r
    }
}

/// The mathematical content of the run-wide summary: totals per cause and the
/// multiset of every success latency ever observed.
pub ghost struct SummaryModel {
    pub total_size: u64,
    pub transport_errors: u64,
    pub protocol_errors: u64,
    pub recorded: Multiset<u64>,
}

pub open spec fn empty_summary() -> SummaryModel {
    SummaryModel {
        total_size: 0,
        transport_errors: 0,
        protocol_errors: 0,
        recorded: Multiset::empty(),
    }
}

/// The summary after absorbing one event: a success adds its size and records
/// its latency; a failure increments the counter of its cause. Nothing is
/// ever removed.
pub open spec fn summary_after(m: SummaryModel, e: Event) -> SummaryModel {
    match e.error {
        None => SummaryModel {
            total_size: sat_add(m.total_size, e.size),
            recorded: m.recorded.insert(e.latency_nanos),
            ..m
        },
        Some(ErrorKind::Transport) => SummaryModel {
            transport_errors: sat_add(m.transport_errors, 1),
            ..m
        },
        Some(ErrorKind::Protocol) => SummaryModel {
            protocol_errors: sat_add(m.protocol_errors, 1),
            ..m
        },
    }
}

/// Run totals and the persistent latency histogram. A flush never touches
/// this; it only ever grows.
pub struct Summary {
    total_size: u64,
    transport_errors: u64,
    protocol_errors: u64,
    hist: LatencyHistogram,
    recorded: Ghost<Multiset<u64>>,
}

impl Summary {
    pub closed spec fn model(self) -> SummaryModel {
        SummaryModel {
            total_size: self.total_size,
            transport_errors: self.transport_errors,
            protocol_errors: self.protocol_errors,
            recorded: self.recorded@,
        }
    }

    /// The histogram tracks the full value range and holds one sample per
    /// latency in the model.
    pub closed spec fn wf(self) -> bool {
        &&& hist_max_value(self.hist) == u64::MAX
        &&& hist_count(self.hist) == self.recorded@.len()
    }

    pub fn new() -> (s: Summary)
        ensures
            s.wf(),
            s.model() == empty_summary(),
    {
        Summary {
            total_size: 0,
            transport_errors: 0,
            protocol_errors: 0,
            hist: LatencyHistogram::new_full_range(),
            recorded: Ghost(Multiset::empty()),
        }
    }

    /// Absorb one completion event into the run totals and the histogram.
    pub fn update(&mut self, event: Event)
        requires
            old(self).wf(),
        ensures
            final(self).wf(),
            final(self).model() == summary_after(old(self).model(), event),
    {
        match event.error {
            None => {
                self.total_size = self.total_size.saturating_add(event.size);
                self.hist.record(event.latency_nanos);
                proof {
                    self.recorded@ = self.recorded@.insert(event.latency_nanos);
                }
            }
            Some(ErrorKind::Transport) => {
                self.transport_errors = self.transport_errors.saturating_add(1);
            }
            Some(ErrorKind::Protocol) => {
                self.protocol_errors = self.protocol_errors.saturating_add(1);
            }
        }
    }

    pub fn total_size(&self) -> (n: u64)
        ensures
            n == self.model().total_size,
    {
        self.total_size
    }

    pub fn transport_errors(&self) -> (n: u64)
        ensures
            n == self.model().transport_errors,
    {
        self.transport_errors
    }

    pub fn protocol_errors(&self) -> (n: u64)
        ensures
            n == self.model().protocol_errors,
    {
        self.protocol_errors
    }

    /// How many latency samples the histogram holds.
    pub fn recorded_count(&self) -> (n: u64)
        requires
            self.wf(),
        ensures
            n as nat == vstd::math::min(self.model().recorded.len() as int, u64::MAX as int) as nat,
    {
        self.hist.sample_count()
    }

    /// The persistent histogram, for percentile queries at the reporting edge.
    pub fn histogram(&self) -> (h: &LatencyHistogram)
        requires
            self.wf(),
        ensures
            hist_count(*h) == self.model().recorded.len(),
    {
        &self.hist
    }
}

/// 1024 to the `k`-th power: the ladder of binary byte units.
pub open spec fn pow1024(k: nat) -> nat
    decreases k,
{
    if k == 0 {
        1
    } else {
        1024 * pow1024((k - 1) as nat)
    }
}

proof fn lemma_pow1024_pos(k: nat)
    ensures
        pow1024(k) >= 1,
    decreases k,
{
    if k > 0 {
        lemma_pow1024_pos((k - 1) as nat);
    }
}

/// Scale a byte figure into a human range by repeated division by 1024.
/// Returns the scaled value and the number of divisions taken: 0 for bytes,
/// 1 for KiB, and so on up to 6 for EiB.
pub fn scale_to_unit(n: u64) -> (r: (u64, u8))
    ensures
        r.1 <= 6,
        r.0 as nat == n as nat / pow1024(r.1 as nat),
        r.1 < 6 ==> r.0 < 1024,
        r.1 > 0 ==> r.0 >= 1,
{
    let mut value: u64 = n;
    let mut unit: u8 = 0;
    proof {
        assert(pow1024(0) == 1);
        assert(n as nat / 1 == n as nat) by {
            vstd::arithmetic::div_mod::lemma_div_basics(n as int);
        }
    }
    while value >= 1024 && unit < 6
        invariant
            unit <= 6,
            value as nat == n as nat / pow1024(unit as nat),
            unit > 0 ==> value >= 1,
        decreases 6 - unit,
    {
        proof {
            lemma_pow1024_pos(unit as nat);
            vstd::arithmetic::div_mod::lemma_div_denominator(
                n as int,
                pow1024(unit as nat) as int,
                1024,
            );
        }
        value = value / 1024;
        unit = unit + 1;
    }
    (value, unit)
}

/// One readiness outcome of the aggregator's wait set: a delivered event, a
/// timer tick, the one-shot shutdown notification, or closure of every event
/// channel.
#[derive(Clone, Copy, Debug, PartialEq, Eq)]
pub enum Input {
    Event(Event),
    Tick,
    Shutdown,
    Closed,
}

/// The run-total figures reported once, on termination.
#[derive(Clone, Copy, Debug, PartialEq, Eq)]
pub struct FinalReport {
    pub total_size: u64,
    pub transport_errors: u64,
    pub protocol_errors: u64,
}

/// What the loop around the aggregator must do after one step: keep going,
/// print a window line, or print the final summary and stop.
#[derive(Clone, Copy, Debug, PartialEq, Eq)]
pub enum Action {
    Continue,
    Flush(FlushReport),
    Terminate(FinalReport),
}

/// The mathematical content of the whole aggregator.
pub ghost struct AggModel {
    pub status: Status,
    pub summary: SummaryModel,
    pub terminated: bool,
}

pub open spec fn init_model() -> AggModel {
    AggModel { status: zero_status(), summary: empty_summary(), terminated: false }
}

/// The aggregator's transition function. Termination is terminal: a
/// terminated aggregator ignores every further input. Otherwise an event
/// feeds both the window counters and the run summary, a tick resets the
/// window and nothing else, and a shutdown notification (or closure of every
/// channel) terminates.
pub open spec fn step_model(m: AggModel, inp: Input) -> AggModel {
    if m.terminated {
        m
    } else {
        match inp {
            Input::Event(e) => AggModel {
                status: status_after(m.status, e),
                summary: summary_after(m.summary, e),
                terminated: false,
            },
            Input::Tick => AggModel { status: zero_status(), ..m },
            Input::Shutdown => AggModel { terminated: true, ..m },
            Input::Closed => AggModel { terminated: true, ..m },
        }
    }
}

pub open spec fn final_report_of(s: SummaryModel) -> FinalReport {
    FinalReport {
        total_size: s.total_size,
        transport_errors: s.transport_errors,
        protocol_errors: s.protocol_errors,
    }
}

/// The action each step hands back to the driving loop.
pub open spec fn step_action(m: AggModel, inp: Input, interval_secs: u64) -> Action {
    if m.terminated {
        Action::Continue
    } else {
        match inp {
            Input::Event(_) => Action::Continue,
            Input::Tick => Action::Flush(report_of(m.status, interval_secs)),
            Input::Shutdown => Action::Terminate(final_report_of(m.summary)),
            Input::Closed => Action::Terminate(final_report_of(m.summary)),
        }
    }
}

/// The model after a whole sequence of inputs.
pub open spec fn run_model(m: AggModel, inputs: Seq<Input>) -> AggModel
    decreases inputs.len(),
{
    if inputs.len() == 0 {
        m
    } else {
        run_model(step_model(m, inputs[0]), inputs.drop_first())
    }
}

/// The single consumer of completion events: rolling window counters, the
/// persistent summary, and the termination flag.
pub struct Aggregator {
    status: Status,
    summary: Summary,
    interval_secs: u64,
    terminated: bool,
}

impl Aggregator {
    pub closed spec fn model(self) -> AggModel {
        AggModel {
            status: self.status,
            summary: self.summary.model(),
            terminated: self.terminated,
        }
    }

    pub closed spec fn interval(self) -> u64 {
        self.interval_secs
    }

    pub closed spec fn wf(self) -> bool {
        &&& self.interval_secs >= 1
        &&& self.summary.wf()
    }

    pub fn new(interval_secs: u64) -> (a: Aggregator)
        requires
            interval_secs >= 1,
        ensures
            a.wf(),
            a.model() == init_model(),
            a.interval() == interval_secs,
    {
        Aggregator {
            status: Status::new(),
            summary: Summary::new(),
            interval_secs,
            terminated: false,
        }
    }

    /// Process exactly one readiness outcome and say what to do next. The
    /// driving loop re-checks all of its sources between any two calls, so a
    /// flooded event channel can delay a flush by at most one call.
    pub fn step(&mut self, inp: Input) -> (act: Action)
        requires
            old(self).wf(),
        ensures
            final(self).wf(),
            final(self).interval() == old(self).interval(),
            final(self).model() == step_model(old(self).model(), inp),
            act == step_action(old(self).model(), inp, old(self).interval()),
    {
        if self.terminated {
            return Action::Continue;
        }
        match inp {
            Input::Event(e) => {
                self.status.update(e);
                self.summary.update(e);
                Action::Continue
            }
            Input::Tick => {
                let r = self.status.flash(self.interval_secs);
                Action::Flush(r)
            }
            Input::Shutdown | Input::Closed => {
                self.terminated = true;
                Action::Terminate(FinalReport {
                    total_size: self.summary.total_size(),
                    transport_errors: self.summary.transport_errors(),
                    protocol_errors: self.summary.protocol_errors(),
                })
            }
        }
    }

    pub fn is_terminated(&self) -> (b: bool)
        ensures
            b == self.model().terminated,
    {
        self.terminated
    }

    /// The run summary, for percentile queries once the run is over.
    pub fn summary(&self) -> (s: &Summary)
        requires
            self.wf(),
        ensures
            s.wf(),
            s.model() == self.model().summary,
    {
        &self.summary
    }
}

/// Turns any number of external interrupt triggers into at most one delivered
/// notification: only the first trigger reports that a notification is owed.
pub struct ShutdownController {
    notified: bool,
}

impl ShutdownController {
    pub closed spec fn spec_notified(self) -> bool {
        self.notified
    }

    pub fn new() -> (c: ShutdownController)
        ensures
            !c.spec_notified(),
    {
        ShutdownController { notified: false }
    }

    /// Record one external trigger; true exactly on the first call.
    pub fn trigger(&mut self) -> (first: bool)
        ensures
            final(self).spec_notified(),
            first == !old(self).spec_notified(),
    {
        let first = !self.notified;
        self.notified = true;
        first
    }
}

} // verus!
