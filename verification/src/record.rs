//! Capture records and the rows that are persisted from them.

use vstd::prelude::*;

verus! {

/// What a capture record or a row stands for: a timestamp in microseconds
/// and the bytes of one payload.
pub struct RecordView {
    pub timestamp_micro: u64,
    pub data: Seq<u8>,
}

/// One captured sample as it is held in memory: the microseconds that had
/// passed since the start of the run when it arrived, and its raw payload.
#[derive(Debug, PartialEq, Eq)]
pub struct RecordVec {
    pub timestamp_micro: u64,
    pub data: Vec<u8>,
}

/// One row of a channel's table: the same two fields, as they are written.
#[derive(Debug, PartialEq, Eq)]
pub struct Record {
    pub timestamp_micro: u64,
    pub data: Vec<u8>,
}

impl View for RecordVec {
    type V = RecordView;

    open spec fn view(&self) -> RecordView {
        RecordView { timestamp_micro: self.timestamp_micro, data: self.data@ }
    }
}

impl View for Record {
    type V = RecordView;

    open spec fn view(&self) -> RecordView {
        RecordView { timestamp_micro: self.timestamp_micro, data: self.data@ }
    }
}

/// The views of a sequence of capture records, in the same order.
pub open spec fn records_view(records: Seq<RecordVec>) -> Seq<RecordView> {
    Seq::new(records.len(), |i: int| records[i]@)
}

/// The views of a sequence of rows, in the same order.
pub open spec fn rows_view(rows: Seq<Record>) -> Seq<RecordView> {
    Seq::new(rows.len(), |i: int| rows[i]@)
}

/// Whether the timestamps of `records` never go down from one record to the next.
pub open spec fn timestamps_ascend(records: Seq<RecordView>) -> bool {
    forall|i: int, j: int|
        0 <= i <= j < records.len() ==> records[i].timestamp_micro <= records[j].timestamp_micro
}

impl Clone for RecordVec {
    fn clone(&self) -> (copy: Self)
        ensures
            copy@ == self@,
    {
        RecordVec { timestamp_micro: self.timestamp_micro, data: self.data.clone() }
    }
}

impl Clone for Record {
    fn clone(&self) -> (copy: Self)
        ensures
            copy@ == self@,
    {
        Record { timestamp_micro: self.timestamp_micro, data: self.data.clone() }
    }
}

impl RecordVec {
    /// A capture record with the given timestamp and a copy of `payload`.
    pub fn new(timestamp_micro: u64, payload: &[u8]) -> (record: Self)
        ensures
            record@ == (RecordView { timestamp_micro, data: payload@ }),
    {
        RecordVec { timestamp_micro, data: vstd::slice::slice_to_vec(payload) }
    }
}

impl Record {
    /// The row that persists `record`: same timestamp, same bytes.
    pub fn from(record: RecordVec) -> (row: Self)
        ensures
            row@ == record@,
    {
        Record { timestamp_micro: record.timestamp_micro, data: record.data }
    }
}

/// Turns the records of one channel into its rows, one row per record and
/// in the order of arrival.
pub fn rows_from(records: Vec<RecordVec>) -> (rows: Vec<Record>)
    ensures
        rows_view(rows@) == records_view(records@),
{
    let mut rows: Vec<Record> = Vec::new();
    for record in it: records
        invariant
            rows@.len() == it.index(),
            forall|k: int| 0 <= k < it.index() ==> (#[trigger] rows@[k])@ == it.seq()[k]@,
    {
        rows.push(Record::from(record));
    }
    rows
}

} // verus!
