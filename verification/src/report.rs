//! What is said about a sample when it arrives, and what is kept of it.

use vstd::prelude::*;
use vstd::string::*;
use crate::buffers::RecorderView;
use crate::clock::{stamp_of, Stopwatch};
use crate::record::{RecordVec, RecordView};
use crate::text::text_view;

verus! {

/// The line that names the channel of a sample.
pub open spec fn key_line(key: Seq<char>) -> Seq<char> {
    "key_expr: "@ + key
}

/// The line that tells how decoding went: the decoded message where there
/// is one, a notice of failure where there is none.
pub open spec fn decode_line(decoded: Option<Seq<char>>) -> Seq<char> {
    match decoded {
        Some(message) => "Received data: "@ + message,
        None => "Failed to decode data"@,
    }
}

/// What becomes of one sample of the recording tool.
pub struct ObservationView {
    pub record: RecordView,
    pub lines: Seq<Seq<char>>,
}

/// What becomes of a sample that arrived on `key` after `micros`
/// microseconds with the bytes `payload`, and whose decoding gave
/// `decoded`: the record to keep and the two lines to print.
pub open spec fn observed(
    key: Seq<char>,
    payload: Seq<u8>,
    decoded: Option<Seq<char>>,
    micros: u128,
) -> ObservationView {
    ObservationView {
        record: RecordView { timestamp_micro: stamp_of(micros), data: payload },
        lines: seq![key_line(key), decode_line(decoded)],
    }
}

/// A payload is kept as it came whether or not it could be decoded: the
/// record of a sample is the same for every outcome of decoding, it holds
/// the payload, and so the buffers that take it in end up the same.
pub proof fn lemma_capture_ignores_decoding(
    state: RecorderView,
    channel: Seq<char>,
    key: Seq<char>,
    payload: Seq<u8>,
    decoded: Option<Seq<char>>,
    micros: u128,
)
    ensures
        observed(key, payload, decoded, micros).record == observed(key, payload, None, micros).record,
        observed(key, payload, decoded, micros).record.data == payload,
        state.appended(channel, observed(key, payload, decoded, micros).record) == state.appended(
            channel,
            observed(key, payload, None, micros).record,
        ),
{
}

/// The record to keep of one sample and the lines to print for it.
#[derive(Debug)]
pub struct Observation {
    pub record: RecordVec,
    pub lines: Vec<String>,
}

impl View for Observation {
    type V = ObservationView;

    open spec fn view(&self) -> ObservationView {
        ObservationView {
            record: self.record@,
            lines: Seq::new(self.lines@.len(), |i: int| self.lines@[i]@),
        }
    }
}

/// The line that names the channel `key_expr`.
pub fn key_notice(key_expr: &str) -> (line: String)
    ensures
        line@ == key_line(key_expr@),
{
    String::from_str("key_expr: ").concat(key_expr)
}

/// The line that tells how decoding went.
pub fn decode_notice(decoded: &Option<String>) -> (line: String)
    ensures
        line@ == decode_line(text_view(*decoded)),
{
    match decoded {
        Some(message) => String::from_str("Received data: ").concat(message.as_str()),
        None => String::from_str("Failed to decode data"),
    }
}

/// Handles a sample that arrived `micros` microseconds into the run.
pub fn observe_at(key_expr: &str, payload: &[u8], decoded: &Option<String>, micros: u128) -> (seen:
    Observation)
    ensures
        seen@ == observed(key_expr@, payload@, text_view(*decoded), micros),
{
    let mut lines: Vec<String> = Vec::new();
    lines.push(key_notice(key_expr));
    lines.push(decode_notice(decoded));
    let seen = Observation { record: RecordVec::stamped(micros, payload), lines };
    assert(seen@.lines =~= observed(key_expr@, payload@, text_view(*decoded), micros).lines);
    seen
}

/// Handles a sample that arrives now, by the reading of `clock`. Whatever
/// the clock reads and however decoding went, the record holds the
/// payload, and the lines are those of the channel and of the decoding.
pub fn observe(clock: &Stopwatch, key_expr: &str, payload: &[u8], decoded: &Option<String>) -> (seen:
    Observation)
    ensures
        seen@.record.data == payload@,
        seen@.lines == seq![key_line(key_expr@), decode_line(text_view(*decoded))],
{
    let micros: u128 = clock.elapsed_micros();
    observe_at(key_expr, payload, decoded, micros)
}

} // verus!
