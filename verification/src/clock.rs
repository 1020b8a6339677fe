//! The clock that capture timestamps are read from.

use std::time::{Duration, Instant};
use vstd::prelude::*;
use crate::record::{RecordVec, RecordView};

verus! {

/// `Instant` of std: a reading of the monotonic clock, carried as it is.
#[verifier::external_type_specification]
#[verifier::external_body]
pub struct ExInstant(Instant);

/// `Instant::now` of std: a reading of the monotonic clock. Nothing is
/// claimed of the value.
pub assume_specification[ Instant::now ]() -> (now: Instant);

/// `Instant::elapsed` of std: the time that has passed since `start` was
/// read. Nothing is claimed of the value.
pub assume_specification[ Instant::elapsed ](start: &Instant) -> (passed: Duration);

/// `Duration::as_micros` of std: the whole microseconds in `passed`.
/// Nothing is claimed of the value.
pub assume_specification[ Duration::as_micros ](passed: &Duration) -> (micros: u128);

/// The timestamp that is stored for a reading of `micros` microseconds: the
/// reading itself while it fits in 64 bits, its low 64 bits beyond that.
pub open spec fn stamp_of(micros: u128) -> u64 {
    (micros as int % 0x1_0000_0000_0000_0000) as u64
}

/// Narrows a microsecond reading to the 64 bits of a stored timestamp.
pub fn stamp_from_micros(micros: u128) -> (stamp: u64)
    ensures
        stamp == stamp_of(micros),
{
    (micros % 0x1_0000_0000_0000_0000u128) as u64
}

/// A reading that fits in 64 bits is stored as it is, so that readings
/// which do not go down give timestamps which do not go down.
pub proof fn lemma_stamps_keep_order(earlier: u128, later: u128)
    requires
        earlier <= later <= u64::MAX,
    ensures
        stamp_of(earlier) == earlier,
        stamp_of(later) == later,
        stamp_of(earlier) <= stamp_of(later),
{
}

/// A monotonic clock started once, at the beginning of a run.
#[derive(Debug, Clone, Copy)]
pub struct Stopwatch {
    start: Instant,
}

impl Stopwatch {
    /// Starts the clock now.
    pub fn start() -> (clock: Self) {
        Stopwatch { start: Instant::now() }
    }

    /// The microseconds that have passed since the clock was started.
    pub fn elapsed_micros(&self) -> (micros: u128) {
        self.start.elapsed().as_micros()
    }

    /// Stamps `payload` with the time that has passed on this clock. The
    /// record holds the payload whatever the clock reads.
    pub fn capture(&self, payload: &[u8]) -> (record: RecordVec)
        ensures
            record@.data == payload@,
    {
        let micros: u128 = self.elapsed_micros();
        RecordVec::stamped(micros, payload)
    }
}

impl RecordVec {
    /// The record of a payload that arrived `micros` microseconds into the run.
    pub fn stamped(micros: u128, payload: &[u8]) -> (record: Self)
        ensures
            record@ == (RecordView { timestamp_micro: stamp_of(micros), data: payload@ }),
    {
        RecordVec::new(stamp_from_micros(micros), payload)
    }
}

} // verus!
