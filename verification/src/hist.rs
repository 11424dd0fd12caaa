//! Trusted boundary around `hdrhistogram`: the run-wide latency distribution.
//!
//! The histogram is opaque to the verifier; the wrappers below state only what
//! the crate's source and documentation plainly give: how many samples a
//! histogram holds and up to which value it can record without error.
//! Percentile queries return floating-point-derived figures and are left to
//! the unverified shell around the library, which reaches the histogram
//! through the `inner` field.

use vstd::prelude::*;

verus! {

/// A multiplicative-precision latency distribution accumulated over the whole
/// run. Holds an `hdrhistogram::Histogram` that the verifier never looks into.
#[verifier::external_body]
pub struct LatencyHistogram {
    pub inner: hdrhistogram::Histogram<u64>,
}

/// The number of samples ever recorded into this histogram.
pub uninterp spec fn hist_count(h: LatencyHistogram) -> nat;

/// The highest value this histogram was configured to track.
pub uninterp spec fn hist_max_value(h: LatencyHistogram) -> u64;

impl LatencyHistogram {
    /// Relies on hdrhistogram's `Histogram::new_with_max`: a histogram with
    /// the given highest trackable value and 3 significant digits starts
    /// empty; the constructor only fails for more than 5 significant digits.
    #[verifier::external_body]
    pub fn new_full_range() -> (h: LatencyHistogram)
        ensures
            hist_count(h) == 0,
            hist_max_value(h) == u64::MAX,
    {
        LatencyHistogram {
            inner: hdrhistogram::Histogram::<u64>::new_with_max(u64::MAX, 3).unwrap(),
        }
    }

    /// Relies on hdrhistogram's `Histogram::record`: recording fails only
    /// when the value exceeds the highest trackable value with auto-resize
    /// disabled, so a value within range always adds exactly one sample.
    #[verifier::external_body]
    pub fn record(&mut self, value: u64)
        requires
            value <= hist_max_value(*old(self)),
        ensures
            hist_count(*final(self)) == hist_count(*old(self)) + 1,
            hist_max_value(*final(self)) == hist_max_value(*old(self)),
    {
        let _ = self.inner.record(value);
    }

    /// Relies on hdrhistogram's `Histogram::len`: the total sample count,
    /// kept with a saturating counter.
    #[verifier::external_body]
    pub fn sample_count(&self) -> (n: u64)
        ensures
            n as nat == vstd::math::min(hist_count(*self) as int, u64::MAX as int) as nat,
    {
        self.inner.len()
    }
}

} // verus!
