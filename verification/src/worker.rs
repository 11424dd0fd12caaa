//! The worker side of the benchmark: where request descriptors come from and
//! how one finished call becomes a completion event. Issuing the call and
//! draining its chunk stream are I/O and stay in the shell around the
//! library; the shell hands back the drained chunk sizes, or the failure, and
//! the measured elapsed time.

use vstd::prelude::*;

use crate::stats::ErrorKind;
use crate::stats::Event;

verus! {

/// A source of request descriptors for one worker: either one descriptor
/// repeated forever (steady-state benchmarking) or a finite list handed out
/// once, in order (bulk-pull workload).
pub enum RequestSource {
    Infinite { ticket: Vec<u8> },
    Finite { tickets: Vec<Vec<u8>>, next: usize },
}

impl RequestSource {
    pub open spec fn wf(self) -> bool {
        match self {
            RequestSource::Infinite { .. } => true,
            RequestSource::Finite { tickets, next } => next <= tickets.len(),
        }
    }

    /// How many descriptors this source will still hand out, if that number
    /// is finite.
    pub open spec fn remaining(self) -> Option<int> {
        match self {
            RequestSource::Infinite { .. } => None,
            RequestSource::Finite { tickets, next } => Some(tickets.len() - next),
        }
    }

    /// The next descriptor: an infinite source always answers with its one
    /// ticket; a finite source hands out each ticket once and is exhausted —
    /// forever — after the last.
    pub fn next(&mut self) -> (r: Option<Vec<u8>>)
        requires
            old(self).wf(),
        ensures
            final(self).wf(),
            (match *old(self) {
                RequestSource::Infinite { ticket } => *final(self) == *old(self) && (
                r matches Some(t) && t@ == ticket@),
                RequestSource::Finite { tickets, next } => if next < tickets.len() {
                    (r matches Some(t) && t@ == tickets[next as int]@) && *final(self)
                        == (RequestSource::Finite { tickets, next: (next + 1) as usize })
                } else {
                    r is None && *final(self) == *old(self)
                },
            }),
    {
        match self {
            RequestSource::Infinite { ticket } => {
                let t = ticket.clone();
                proof {
                    assert(t@ =~= ticket@);
                }
                Some(t)
            }
            RequestSource::Finite { tickets, next } => {
                if *next < tickets.len() {
                    let t = tickets[*next].clone();
                    proof {
                        assert(t@ =~= tickets@[*next as int]@);
                    }
                    *next = *next + 1;
                    Some(t)
                } else {
                    None
                }
            }
        }
    }
}

/// The byte length of a drained chunk stream: each chunk contributes its data
/// header length plus its data body length.
pub open spec fn total_chunk_size(chunks: Seq<(u64, u64)>) -> int
    decreases chunks.len(),
{
    if chunks.len() == 0 {
        0
    } else {
        total_chunk_size(chunks.drop_last()) + chunks.last().0 + chunks.last().1
    }
}

/// Sum the (header, body) byte lengths of a drained chunk stream, stopping at
/// the largest representable value instead of wrapping.
pub fn sum_chunk_sizes(chunks: &Vec<(u64, u64)>) -> (r: u64)
    ensures
        r as int == vstd::math::min(total_chunk_size(chunks@), u64::MAX as int),
{
    let mut acc: u64 = 0;
    let mut i: usize = 0;
    proof {
        assert(chunks@.take(0) =~= Seq::<(u64, u64)>::empty());
    }
    while i < chunks.len()
        invariant
            i <= chunks@.len(),
            acc as int == vstd::math::min(total_chunk_size(chunks@.take(i as int)), u64::MAX as int),
        decreases chunks@.len() - i,
    {
        let (h, b) = chunks[i];
        acc = acc.saturating_add(h).saturating_add(b);
        proof {
            assert(chunks@.take(i + 1).drop_last() =~= chunks@.take(i as int));
            assert(chunks@.take(i + 1).last() == chunks@[i as int]);
        }
        i = i + 1;
    }
    proof {
        assert(chunks@.take(chunks@.len() as int) =~= chunks@);
    }
    acc
}

/// How one issued request ended: a fully drained stream of chunks with their
/// (header, body) byte lengths, or a failure with its cause.
pub enum RequestOutcome {
    Chunks(Vec<(u64, u64)>),
    Failed(ErrorKind),
}

/// The completion event for one finished request: on success the summed
/// chunk sizes with the measured latency, on failure the cause with the
/// elapsed time to the failure. Exactly one event per completed request.
pub fn completion_event(outcome: &RequestOutcome, latency_nanos: u64) -> (e: Event)
    ensures
        (match *outcome {
            RequestOutcome::Chunks(chunks) => e == (Event {
                size: (vstd::math::min(total_chunk_size(chunks@), u64::MAX as int)) as u64,
                latency_nanos,
                error: None,
            }),
            RequestOutcome::Failed(k) => e == (Event { size: 0, latency_nanos, error: Some(k) }),
        }),
{
    match outcome {
        RequestOutcome::Chunks(chunks) => Event::new(sum_chunk_sizes(chunks), latency_nanos),
        RequestOutcome::Failed(k) => Event::error(latency_nanos, *k),
    }
}

} // verus!
