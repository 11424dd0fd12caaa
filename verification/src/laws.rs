//! The aggregator's guarantees, stated once over whole input sequences:
//! counters reflect every event, a flush never loses history, termination is
//! terminal and happens exactly once, and no flood of events can defer a
//! flush.

use vstd::prelude::*;
use vstd::multiset::Multiset;

use crate::stats::Action;
use crate::stats::AggModel;
use crate::stats::FlushReport;
use crate::stats::Input;
use crate::stats::report_of;
use crate::stats::run_model;
use crate::stats::status_after;
use crate::stats::step_action;
use crate::stats::step_model;
use crate::stats::summary_after;
use crate::stats::zero_status;

verus! {

/// Every element of the sequence is a delivered completion event.
pub open spec fn all_events(inputs: Seq<Input>) -> bool {
    forall|i: int| 0 <= i < inputs.len() ==> inputs[i] is Event
}

/// No element terminates the aggregator.
pub open spec fn no_termination_input(inputs: Seq<Input>) -> bool {
    forall|i: int|
        0 <= i < inputs.len() ==> !(inputs[i] is Shutdown) && !(inputs[i] is Closed)
}

/// Some element terminates the aggregator.
pub open spec fn has_termination_input(inputs: Seq<Input>) -> bool {
    exists|i: int| 0 <= i < inputs.len() && (inputs[i] is Shutdown || inputs[i] is Closed)
}

pub open spec fn num_successes(inputs: Seq<Input>) -> nat
    decreases inputs.len(),
{
    if inputs.len() == 0 {
        0
    } else {
        (match inputs[0] {
            Input::Event(e) => if e.is_success() {
                1nat
            } else {
                0nat
            },
            _ => 0nat,
        }) + num_successes(inputs.drop_first())
    }
}

pub open spec fn num_failures(inputs: Seq<Input>) -> nat
    decreases inputs.len(),
{
    if inputs.len() == 0 {
        0
    } else {
        (match inputs[0] {
            Input::Event(e) => if e.is_success() {
                0nat
            } else {
                1nat
            },
            _ => 0nat,
        }) + num_failures(inputs.drop_first())
    }
}

pub open spec fn sum_success_sizes(inputs: Seq<Input>) -> nat
    decreases inputs.len(),
{
    if inputs.len() == 0 {
        0
    } else {
        (match inputs[0] {
            Input::Event(e) => if e.is_success() {
                e.size as nat
            } else {
                0nat
            },
            _ => 0nat,
        }) + sum_success_sizes(inputs.drop_first())
    }
}

/// The multiset of latencies of every successful event in the sequence.
pub open spec fn success_latencies(inputs: Seq<Input>) -> Multiset<u64>
    decreases inputs.len(),
{
    if inputs.len() == 0 {
        Multiset::empty()
    } else {
        (match inputs[0] {
            Input::Event(e) => if e.is_success() {
                Multiset::empty().insert(e.latency_nanos)
            } else {
                Multiset::empty()
            },
            _ => Multiset::<u64>::empty(),
        }).add(success_latencies(inputs.drop_first()))
    }
}

/// Processing completion events never terminates the aggregator.
pub proof fn lemma_events_keep_live(m: AggModel, inputs: Seq<Input>)
    requires
        !m.terminated,
        all_events(inputs),
    ensures
        !run_model(m, inputs).terminated,
    decreases inputs.len(),
{
    if inputs.len() > 0 {
        assert(inputs[0] is Event);
        lemma_events_keep_live(step_model(m, inputs[0]), inputs.drop_first());
    }
}

/// For any sequence of successes and failures fed to a live aggregator, the
/// window counters afterwards hold exactly the number of successes as the
/// request count and exactly the number of failures as the error count, and
/// together they account for every processed event.
pub proof fn lemma_counters_reflect_events(m: AggModel, inputs: Seq<Input>)
    requires
        !m.terminated,
        all_events(inputs),
        m.status.count + num_successes(inputs) <= u64::MAX,
        m.status.err + num_failures(inputs) <= u64::MAX,
    ensures
        run_model(m, inputs).status.count == m.status.count + num_successes(inputs),
        run_model(m, inputs).status.err == m.status.err + num_failures(inputs),
        num_successes(inputs) + num_failures(inputs) == inputs.len(),
        !run_model(m, inputs).terminated,
    decreases inputs.len(),
{
    if inputs.len() > 0 {
        assert(inputs[0] is Event);
        let m2 = step_model(m, inputs[0]);
        assert(all_events(inputs.drop_first())) by {
            assert(forall|i: int|
                0 <= i < inputs.drop_first().len() ==> inputs.drop_first()[i] == inputs[i + 1]);
        }
        lemma_counters_reflect_events(m2, inputs.drop_first());
    }
}

/// A flush zeroes the rolling counters but never the history: the summary —
/// the latency multiset included — is exactly what it was, and a window that
/// saw no events reports zero throughput, zero requests and zero errors.
pub proof fn lemma_flush_resets_window_not_history(m: AggModel, interval_secs: u64)
    requires
        !m.terminated,
        interval_secs >= 1,
    ensures
        step_model(m, Input::Tick).status == zero_status(),
        step_model(m, Input::Tick).summary == m.summary,
        !step_model(m, Input::Tick).terminated,
        step_action(step_model(m, Input::Tick), Input::Tick, interval_secs) == Action::Flush(
            FlushReport { throughput: 0, qps: 0, latency_nanos: 0, err_rate: 0 },
        ),
{
    assert(0int / interval_secs as int == 0) by {
        vstd::arithmetic::div_mod::lemma_div_basics(interval_secs as int);
    }
}

/// How many of the steps over `inputs` report a termination to the loop.
pub open spec fn num_terminations(m: AggModel, inputs: Seq<Input>, interval_secs: u64) -> nat
    decreases inputs.len(),
{
    if inputs.len() == 0 {
        0
    } else {
        (if step_action(m, inputs[0], interval_secs) is Terminate {
            1nat
        } else {
            0nat
        }) + num_terminations(step_model(m, inputs[0]), inputs.drop_first(), interval_secs)
    }
}

/// Shutdown is idempotent: over any input sequence at most one step reports a
/// termination; an already terminated aggregator never reports another; and a
/// live aggregator that receives a shutdown (or sees its channels close)
/// reports exactly one.
pub proof fn lemma_shutdown_idempotent(m: AggModel, inputs: Seq<Input>, interval_secs: u64)
    ensures
        num_terminations(m, inputs, interval_secs) <= 1,
        m.terminated ==> num_terminations(m, inputs, interval_secs) == 0,
        !m.terminated && has_termination_input(inputs) ==> num_terminations(
            m,
            inputs,
            interval_secs,
        ) == 1,
    decreases inputs.len(),
{
    if inputs.len() > 0 {
        let m2 = step_model(m, inputs[0]);
        lemma_shutdown_idempotent(m2, inputs.drop_first(), interval_secs);
        if !m.terminated && has_termination_input(inputs) {
            if !(inputs[0] is Shutdown) && !(inputs[0] is Closed) {
                let i = choose|i: int|
                    0 <= i < inputs.len() && (inputs[i] is Shutdown || inputs[i] is Closed);
                assert(i >= 1);
                assert(inputs.drop_first()[i - 1] == inputs[i]);
                assert(has_termination_input(inputs.drop_first()));
            }
        }
    }
}

/// Fairness: flooding the aggregator with any number of events cannot defer
/// the periodic flush — the very next tick still produces one.
pub proof fn lemma_flush_not_deferred(m: AggModel, events: Seq<Input>, interval_secs: u64)
    requires
        !m.terminated,
        all_events(events),
    ensures
        step_action(run_model(m, events), Input::Tick, interval_secs) == Action::Flush(
            report_of(run_model(m, events).status, interval_secs),
        ),
{
    lemma_events_keep_live(m, events);
}

/// Run totals are independent of window boundaries: over any mix of events
/// and ticks, the summary ends up with the exact sum of every success size,
/// the exact count of every failure, and one recorded latency per success —
/// no flush ever removes or double-counts anything.
pub proof fn lemma_totals_independent_of_windows(m: AggModel, inputs: Seq<Input>)
    requires
        !m.terminated,
        no_termination_input(inputs),
        m.summary.total_size + sum_success_sizes(inputs) <= u64::MAX,
        m.summary.transport_errors + num_failures(inputs) <= u64::MAX,
        m.summary.protocol_errors + num_failures(inputs) <= u64::MAX,
    ensures
        run_model(m, inputs).summary.total_size == m.summary.total_size + sum_success_sizes(
            inputs,
        ),
        run_model(m, inputs).summary.transport_errors + run_model(
            m,
            inputs,
        ).summary.protocol_errors == m.summary.transport_errors + m.summary.protocol_errors
            + num_failures(inputs),
        run_model(m, inputs).summary.recorded == m.summary.recorded.add(
            success_latencies(inputs),
        ),
        !run_model(m, inputs).terminated,
    decreases inputs.len(),
{
    if inputs.len() == 0 {
        assert(m.summary.recorded.add(Multiset::empty()) =~= m.summary.recorded);
    } else {
        let m2 = step_model(m, inputs[0]);
        assert(no_termination_input(inputs.drop_first())) by {
            assert(forall|i: int|
                0 <= i < inputs.drop_first().len() ==> inputs.drop_first()[i] == inputs[i + 1]);
        }
        lemma_totals_independent_of_windows(m2, inputs.drop_first());
        assert(run_model(m, inputs) == run_model(m2, inputs.drop_first()));
        match inputs[0] {
            Input::Event(e) => {
                if e.is_success() {
                    assert(m2.summary.recorded == m.summary.recorded.insert(e.latency_nanos));
                    assert(m.summary.recorded.insert(e.latency_nanos).add(
                        success_latencies(inputs.drop_first()),
                    ) =~= m.summary.recorded.add(
                        Multiset::empty().insert(e.latency_nanos).add(
                            success_latencies(inputs.drop_first()),
                        ),
                    ));
                } else {
                    assert(m.summary.recorded.add(
                        Multiset::<u64>::empty().add(success_latencies(inputs.drop_first())),
                    ) =~= m.summary.recorded.add(success_latencies(inputs.drop_first())));
                }
            }
            _ => {
                assert(m2.summary == m.summary);
            }
        }
    }
}

} // verus!
