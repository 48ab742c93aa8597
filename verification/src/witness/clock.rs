//! Product timestamps in the harness's shared monotonic epoch.
use crate::text::{decimal_text, glue4, text_bytes};
use crate::witness::error::{Error, ErrorView, Result};
use crate::text;
use vstd::prelude::*;

verus! {

/// `rustix::time::clock_gettime` on the monotonic clock: the current reading as
/// seconds and nanoseconds. Nothing is claimed of the reading.
#[verifier::external_body]
fn monotonic_reading() -> (reading: (i64, i64)) {
    let now = rustix::time::clock_gettime(rustix::time::ClockId::Monotonic);
    (now.tv_sec, now.tv_nsec)
}

/// Nanoseconds of a clock reading: negative parts count as zero, and the total
/// saturates.
pub open spec fn reading_ns(sec: i64, nsec: i64) -> int {
    let whole = if sec < 0 {
        0
    } else {
        sec as int
    };
    let part = if nsec < 0 {
        0
    } else {
        nsec as int
    };
    let total = whole * 1_000_000_000 + part;
    if total > u64::MAX {
        u64::MAX as int
    } else {
        total
    }
}

/// Convert a clock reading to nanoseconds.
pub fn nanoseconds(sec: i64, nsec: i64) -> (ns: u64)
    ensures
        ns == reading_ns(sec, nsec),
{
    let whole: u64 = if sec < 0 {
        0
    } else {
        sec as u64
    };
    let part: u64 = if nsec < 0 {
        0
    } else {
        nsec as u64
    };
    let total: u128 = whole as u128 * 1_000_000_000 + part as u128;
    if total > u64::MAX as u128 {
        u64::MAX
    } else {
        total as u64
    }
}

/// Whether the monotonic clock can have read so many nanoseconds.
pub closed spec fn clocked(ns: u64) -> bool {
    exists|reading: (i64, i64)| #[trigger]
        monotonic_reading.ensures((), reading) && ns == reading_ns(reading.0, reading.1)
}

/// Shared `CLOCK_MONOTONIC` epoch used for input-to-observation latency.
pub fn monotonic_ns() -> (ns: u64)
    ensures
        clocked(ns),
{
    let reading = monotonic_reading();
    assert(monotonic_reading.ensures((), reading));
    nanoseconds(reading.0, reading.1)
}

/// A timestamp in the harness's shared monotonic epoch.
#[derive(Clone, Copy, Debug, Eq, PartialEq, Structural)]
pub struct ProductInstant {
    ns: u64,
}

impl View for ProductInstant {
    type V = u64;

    closed spec fn view(&self) -> u64 {
        self.ns
    }
}

impl ProductInstant {
    /// Read the shared monotonic clock.
    pub fn now() -> (instant: Self)
        ensures
            clocked(instant@),
    {
        ProductInstant { ns: monotonic_ns() }
    }

    /// Restore an instant recorded earlier in the same epoch.
    pub fn recorded(ns: u64) -> (instant: Self)
        ensures
            instant@ == ns,
    {
        ProductInstant { ns }
    }

    /// Nanoseconds since the epoch.
    pub fn ns(self) -> (ns: u64)
        ensures
            ns == self@,
    {
        self.ns
    }
}

/// One product frame from event-loop entry through completed semantic work.
#[derive(Clone, Copy, Debug, Eq, PartialEq, Structural)]
pub struct FramePulse {
    begun: ProductInstant,
}

impl View for FramePulse {
    type V = u64;

    closed spec fn view(&self) -> u64 {
        self.begun@
    }
}

impl FramePulse {
    /// Open a frame now.
    pub fn begin() -> (pulse: Self)
        ensures
            clocked(pulse@),
    {
        FramePulse { begun: ProductInstant::now() }
    }

    /// Open a frame at a known instant.
    pub fn begun_at(begun: ProductInstant) -> (pulse: Self)
        ensures
            pulse@ == begun@,
    {
        FramePulse { begun }
    }

    /// Close the frame's product work now.
    pub fn observe(self) -> (observation: FrameObservation)
        ensures
            observation.begun_ns() == self@,
            clocked(observation.observed_ns()),
    {
        self.observe_at(ProductInstant::now())
    }

    /// Close the frame's product work at a known instant.
    pub fn observe_at(self, observed: ProductInstant) -> (observation: FrameObservation)
        ensures
            observation.begun_ns() == self@,
            observation.observed_ns() == observed@,
    {
        FrameObservation { begun_ns: self.begun.ns, observed_ns: observed.ns }
    }
}

/// Monotonic bounds around product work, excluding post-present telemetry.
#[derive(Clone, Copy, Debug, Eq, PartialEq, Structural)]
pub struct FrameObservation {
    begun_ns: u64,
    observed_ns: u64,
}

impl FrameObservation {
    /// When the frame began.
    pub closed spec fn begun_ns(self) -> u64 {
        self.begun_ns
    }

    /// When its product work completed.
    pub closed spec fn observed_ns(self) -> u64 {
        self.observed_ns
    }

    /// Both bounds: frame start, then completed product work.
    pub fn bounds(self) -> (bounds: (u64, u64))
        ensures
            bounds.0 == self.begun_ns(),
            bounds.1 == self.observed_ns(),
    {
        (self.begun_ns, self.observed_ns)
    }

    /// Bound product work by two instants, which must be in order.
    pub fn from_instants(begun: ProductInstant, observed: ProductInstant) -> (bounded: Result<Self>)
        ensures
            match bounded {
                Ok(observation) => begun@ <= observed@ && observation.begun_ns() == begun@
                    && observation.observed_ns() == observed@,
                Err(error) => observed@ < begun@ && error@ == (ErrorView::FrameJournal {
                    path: text::word("<product-clock>"),
                    detail: "observation "@ + text::decimal(observed@ as nat)
                        + " predates frame start "@ + text::decimal(begun@ as nat),
                }),
            },
    {
        if observed.ns < begun.ns {
            return Err(
                Error::FrameJournal {
                    path: text_bytes("<product-clock>"),
                    detail: glue4(
                        "observation ",
                        decimal_text(observed.ns as u128).as_str(),
                        " predates frame start ",
                        decimal_text(begun.ns as u128).as_str(),
                    ),
                },
            );
        }
        Ok(FrameObservation { begun_ns: begun.ns, observed_ns: observed.ns })
    }
}

/// A reading of the clock is its seconds and nanoseconds together, in nanoseconds, as long
/// as they can be counted.
pub proof fn law_readings_become_nanoseconds(sec: i64, nsec: i64, ns: u64)
    requires
        nanoseconds.ensures((sec, nsec), ns),
        0 <= sec,
        0 <= nsec,
    ensures
        sec * 1_000_000_000 + nsec <= u64::MAX ==> ns == sec * 1_000_000_000 + nsec,
        sec * 1_000_000_000 + nsec > u64::MAX ==> ns == u64::MAX,
{
}

/// An observation is bounded by the instants that it is given, and only where the work did
/// not end before the frame began.
pub proof fn law_observations_are_bounded_in_order(
    begun: ProductInstant,
    observed: ProductInstant,
    bounded: Result<FrameObservation>,
    pulse: FramePulse,
    seen: FrameObservation,
    bounds: (u64, u64),
)
    requires
        FrameObservation::from_instants.ensures((begun, observed), bounded),
        FramePulse::begun_at.ensures((begun,), pulse),
        FramePulse::observe_at.ensures((pulse, observed), seen),
        FrameObservation::bounds.ensures((seen,), bounds),
    ensures
        bounded is Ok <==> begun@ <= observed@,
        bounded matches Ok(observation) ==> observation.begun_ns() == begun@
            && observation.observed_ns() == observed@,
        bounds == (begun@, observed@),
{
}

} // verus!
