//! The capture buffers as a mathematical model: which channels were
//! requested, what has arrived on each, and the tables that follow from it.

use vstd::prelude::*;
use crate::record::{timestamps_ascend, RecordView};

verus! {

/// What a table stands for: the channel's name and its rows in order.
pub struct TableView {
    pub name: Seq<char>,
    pub rows: Seq<RecordView>,
}

/// One sample as the buffers see it: the channel it was delivered to and
/// the record that was made of it.
pub struct Arrival {
    pub key: Seq<char>,
    pub record: RecordView,
}

/// The records among `arrivals` that were delivered to `key`, in the order
/// of arrival.
pub open spec fn arrivals_for(arrivals: Seq<Arrival>, key: Seq<char>) -> Seq<RecordView>
    decreases arrivals.len(),
{
    if arrivals.len() == 0 {
        Seq::empty()
    } else if arrivals.last().key == key {
        arrivals_for(arrivals.drop_last(), key).push(arrivals.last().record)
    } else {
        arrivals_for(arrivals.drop_last(), key)
    }
}

/// Whether the timestamps of `arrivals` never go down from one arrival to
/// the next, whatever the channels.
pub open spec fn arrivals_ascend(arrivals: Seq<Arrival>) -> bool {
    forall|i: int, j: int|
        0 <= i <= j < arrivals.len() ==> arrivals[i].record.timestamp_micro
            <= arrivals[j].record.timestamp_micro
}

/// The state of the buffers: the channels in the order in which they were
/// requested, and for each of them the records captured so far. A channel
/// that was requested twice has one buffer.
pub struct RecorderView {
    pub order: Seq<Seq<char>>,
    pub buffers: Map<Seq<char>, Seq<RecordView>>,
}

impl RecorderView {
    /// The buffers belong to exactly the requested channels.
    pub open spec fn wf(self) -> bool {
        forall|key: Seq<char>| self.buffers.dom().contains(key) <==> self.order.contains(key)
    }

    /// The state at startup: every requested channel with an empty buffer.
    pub open spec fn fresh(order: Seq<Seq<char>>) -> RecorderView {
        RecorderView {
            order,
            buffers: Map::new(|key: Seq<char>| order.contains(key), |key: Seq<char>| Seq::empty()),
        }
    }

    /// Whether `key` is one of the requested channels.
    pub open spec fn has_channel(self, key: Seq<char>) -> bool {
        self.order.contains(key)
    }

    /// The records captured so far on `key`.
    pub open spec fn buffer(self, key: Seq<char>) -> Seq<RecordView> {
        self.buffers[key]
    }

    /// The state after `record` arrived on `key`: the record stands at the
    /// end of that channel's buffer; a key that was not requested changes
    /// nothing.
    pub open spec fn appended(self, key: Seq<char>, record: RecordView) -> RecorderView {
        if self.has_channel(key) {
            RecorderView {
                order: self.order,
                buffers: self.buffers.insert(key, self.buffers[key].push(record)),
            }
        } else {
            self
        }
    }

    /// The state after all of `arrivals` came in, one after the other.
    pub open spec fn after(self, arrivals: Seq<Arrival>) -> RecorderView
        decreases arrivals.len(),
    {
        if arrivals.len() == 0 {
            self
        } else {
            self.after(arrivals.drop_last()).appended(arrivals.last().key, arrivals.last().record)
        }
    }

    /// The table of `key`: named after the channel, one row per record.
    pub open spec fn table(self, key: Seq<char>) -> TableView {
        TableView { name: key, rows: self.buffers[key] }
    }

    /// The tables of all requested channels, in the order of the request.
    pub open spec fn tables(self) -> Seq<TableView> {
        Seq::new(self.order.len(), |i: int| self.table(self.order[i]))
    }
}

/// The state at startup is well formed.
pub proof fn lemma_fresh_is_wf(order: Seq<Seq<char>>)
    ensures
        RecorderView::fresh(order).wf(),
{
}

/// A sample of a requested channel makes its table one row longer, and
/// the new row is the sample. The requested channels stay as they are.
pub proof fn lemma_append_adds_one_row(state: RecorderView, key: Seq<char>, record: RecordView)
    requires
        state.wf(),
        state.has_channel(key),
    ensures
        state.appended(key, record).wf(),
        state.appended(key, record).order == state.order,
        state.appended(key, record).table(key).rows == state.table(key).rows.push(record),
        state.appended(key, record).table(key).rows.len() == state.table(key).rows.len() + 1,
{
    let end = state.appended(key, record);
    assert forall|k: Seq<char>| end.buffers.dom().contains(k) <==> end.order.contains(k) by {
        assert(state.buffers.dom().contains(k) <==> state.order.contains(k));
    }
}

/// A sample of one channel leaves the buffer and the table of every other
/// channel as they were.
pub proof fn lemma_channels_do_not_mix(
    state: RecorderView,
    key: Seq<char>,
    record: RecordView,
    other: Seq<char>,
)
    requires
        other != key,
    ensures
        state.appended(key, record).order == state.order,
        state.appended(key, record).buffer(other) == state.buffer(other),
        state.appended(key, record).table(other) == state.table(other),
{
}

/// Arrivals change neither the requested channels nor their order, and the
/// buffer of a requested channel grows by exactly the records that were
/// delivered to it, in the order of arrival.
pub proof fn lemma_buffer_after(start: RecorderView, arrivals: Seq<Arrival>, key: Seq<char>)
    requires
        start.wf(),
        start.has_channel(key),
    ensures
        start.after(arrivals).wf(),
        start.after(arrivals).order == start.order,
        start.after(arrivals).buffer(key) == start.buffer(key) + arrivals_for(arrivals, key),
    decreases arrivals.len(),
{
    if arrivals.len() == 0 {
        assert(start.buffer(key) + arrivals_for(arrivals, key) =~= start.buffer(key));
    } else {
        let last = arrivals.last();
        lemma_buffer_after(start, arrivals.drop_last(), key);
        let middle = start.after(arrivals.drop_last());
        if middle.has_channel(last.key) {
            lemma_append_adds_one_row(middle, last.key, last.record);
            if last.key == key {
                assert(middle.buffer(key).push(last.record) =~= start.buffer(key) + arrivals_for(
                    arrivals,
                    key,
                ));
            }
        }
    }
}

/// A bound on the timestamps of all arrivals bounds those of each channel.
proof fn lemma_arrivals_for_bounded(arrivals: Seq<Arrival>, key: Seq<char>, bound: u64)
    requires
        forall|i: int| 0 <= i < arrivals.len() ==> (#[trigger] arrivals[i]).record.timestamp_micro
            <= bound,
    ensures
        forall|i: int|
            0 <= i < arrivals_for(arrivals, key).len() ==> (#[trigger] arrivals_for(
                arrivals,
                key,
            )[i]).timestamp_micro <= bound,
    decreases arrivals.len(),
{
    if arrivals.len() > 0 {
        let earlier = arrivals.drop_last();
        assert forall|i: int| 0 <= i < earlier.len() implies (#[trigger] earlier[i]).record.timestamp_micro
            <= bound by {
            assert(earlier[i] == arrivals[i]);
        }
        lemma_arrivals_for_bounded(earlier, key, bound);
        let kept = arrivals_for(arrivals, key);
        assert forall|i: int| 0 <= i < kept.len() implies (#[trigger] kept[i]).timestamp_micro
            <= bound by {
            if i < arrivals_for(earlier, key).len() {
                assert(kept[i] == arrivals_for(earlier, key)[i]);
            } else {
                assert(kept[i] == arrivals[arrivals.len() - 1].record);
            }
        }
    }
}

/// Timestamps that ascend over all arrivals ascend within each channel.
pub proof fn lemma_arrivals_for_ascend(arrivals: Seq<Arrival>, key: Seq<char>)
    requires
        arrivals_ascend(arrivals),
    ensures
        timestamps_ascend(arrivals_for(arrivals, key)),
    decreases arrivals.len(),
{
    if arrivals.len() > 0 {
        let earlier = arrivals.drop_last();
        let last = arrivals.last();
        assert forall|i: int| 0 <= i < earlier.len() implies (#[trigger] earlier[i]).record.timestamp_micro
            <= last.record.timestamp_micro by {
            assert(earlier[i] == arrivals[i]);
        }
        assert(arrivals_ascend(earlier)) by {
            assert forall|i: int, j: int| 0 <= i <= j < earlier.len() implies earlier[i].record.timestamp_micro
                <= earlier[j].record.timestamp_micro by {
                assert(earlier[i] == arrivals[i]);
                assert(earlier[j] == arrivals[j]);
            }
        }
        lemma_arrivals_for_ascend(earlier, key);
        lemma_arrivals_for_bounded(earlier, key, last.record.timestamp_micro);
    }
}

/// Where all arrivals go to one channel, the records of that channel are
/// the records of all arrivals.
pub proof fn lemma_arrivals_of_one_channel(arrivals: Seq<Arrival>, key: Seq<char>)
    requires
        forall|i: int| 0 <= i < arrivals.len() ==> (#[trigger] arrivals[i]).key == key,
    ensures
        arrivals_for(arrivals, key) == Seq::new(arrivals.len(), |i: int| arrivals[i].record),
    decreases arrivals.len(),
{
    if arrivals.len() > 0 {
        let earlier = arrivals.drop_last();
        assert forall|i: int| 0 <= i < earlier.len() implies (#[trigger] earlier[i]).key == key by {
            assert(earlier[i] == arrivals[i]);
        }
        lemma_arrivals_of_one_channel(earlier, key);
    }
    assert(arrivals_for(arrivals, key) =~= Seq::new(arrivals.len(), |i: int| arrivals[i].record));
}

/// Every sample is kept: after a run that began with empty buffers, the
/// table of a requested channel is named after it and holds one row for
/// each sample that was delivered to the channel, in the order of arrival
/// and with the timestamp and the bytes of the sample. Where the clock
/// never went back, the timestamps of the rows never go down.
pub proof fn lemma_table_holds_arrivals(
    order: Seq<Seq<char>>,
    arrivals: Seq<Arrival>,
    key: Seq<char>,
)
    requires
        order.contains(key),
    ensures
        RecorderView::fresh(order).after(arrivals).table(key).name == key,
        RecorderView::fresh(order).after(arrivals).table(key).rows == arrivals_for(arrivals, key),
        arrivals_ascend(arrivals) ==> timestamps_ascend(
            RecorderView::fresh(order).after(arrivals).table(key).rows,
        ),
{
    let start = RecorderView::fresh(order);
    lemma_buffer_after(start, arrivals, key);
    assert(start.buffer(key) + arrivals_for(arrivals, key) =~= arrivals_for(arrivals, key));
    if arrivals_ascend(arrivals) {
        lemma_arrivals_for_ascend(arrivals, key);
    }
}

/// Arrivals never change which channels are requested, nor their order.
pub proof fn lemma_order_after(start: RecorderView, arrivals: Seq<Arrival>)
    ensures
        start.after(arrivals).order == start.order,
    decreases arrivals.len(),
{
    if arrivals.len() > 0 {
        lemma_order_after(start, arrivals.drop_last());
    }
}

/// There is one table for each requested channel, in the order of the
/// request and named after the channel, and its rows are the samples of
/// that channel alone, however the samples of the channels were
/// interleaved. A channel on which nothing arrived has a table without rows.
pub proof fn lemma_tables_follow_request(order: Seq<Seq<char>>, arrivals: Seq<Arrival>)
    ensures
        RecorderView::fresh(order).after(arrivals).tables().len() == order.len(),
        forall|i: int|
            0 <= i < order.len() ==> {
                let table = #[trigger] RecorderView::fresh(order).after(arrivals).tables()[i];
                &&& table.name == order[i]
                &&& table.rows == arrivals_for(arrivals, order[i])
                &&& arrivals_for(arrivals, order[i]).len() == 0 ==> table.rows.len() == 0
            },
{
    let end = RecorderView::fresh(order).after(arrivals);
    lemma_order_after(RecorderView::fresh(order), arrivals);
    assert forall|i: int| 0 <= i < order.len() implies {
        let table = #[trigger] end.tables()[i];
        &&& table.name == order[i]
        &&& table.rows == arrivals_for(arrivals, order[i])
    } by {
        lemma_table_holds_arrivals(order, arrivals, order[i]);
    }
}

} // verus!
