//! The per-channel capture buffers and the tables that are made of them.

use vstd::prelude::*;
use crate::buffers::{RecorderView, TableView};
use crate::record::{records_view, rows_from, rows_view, Record, RecordVec, RecordView};
use crate::text::{names_view, same_text};

verus! {

/// How long samples are gathered before the tables are made, in milliseconds.
pub const CAPTURE_WINDOW_MILLIS: u64 = 2000;

/// The file that the tables are written to, relative to the working directory.
pub const OUTPUT_FILE: &'static str = "timestamped_data.h5";

/// Why a record was not taken into the buffers.
#[derive(Debug, PartialEq, Eq, Structural, Clone, Copy)]
pub enum CaptureError {
    /// The channel was not among those requested at startup.
    UnknownChannel,
}

/// The table of one channel, ready to be written.
#[derive(Debug, PartialEq, Eq)]
pub struct Table {
    pub name: String,
    pub rows: Vec<Record>,
}

impl View for Table {
    type V = TableView;

    open spec fn view(&self) -> TableView {
        TableView { name: self.name@, rows: rows_view(self.rows@) }
    }
}

/// The views of a sequence of tables, in the same order.
pub open spec fn tables_view(tables: Seq<Table>) -> Seq<TableView> {
    Seq::new(tables.len(), |i: int| tables[i]@)
}

/// The place at which `key` first stands in `order`, or the length of
/// `order` where it does not stand in it.
spec fn first_place(order: Seq<Seq<char>>, key: Seq<char>) -> int
    decreases order.len(),
{
    if order.len() == 0 {
        0
    } else if order[0] == key {
        0
    } else {
        1 + first_place(order.drop_first(), key)
    }
}

/// `first_place` is the least index at which `key` stands.
proof fn lemma_first_place(order: Seq<Seq<char>>, key: Seq<char>)
    ensures
        0 <= first_place(order, key) <= order.len(),
        forall|j: int| 0 <= j < first_place(order, key) ==> order[j] != key,
        first_place(order, key) < order.len() ==> order[first_place(order, key)] == key,
        order.contains(key) <==> first_place(order, key) < order.len(),
    decreases order.len(),
{
    if order.len() == 0 {
    } else if order[0] == key {
    } else {
        let rest = order.drop_first();
        lemma_first_place(rest, key);
        let p = first_place(rest, key);
        assert forall|j: int| 0 <= j < 1 + p implies order[j] != key by {
            if j > 0 {
                assert(rest[j - 1] == order[j]);
            }
        }
        if p < rest.len() {
            assert(rest[p] == order[p + 1]);
        }
        if order.contains(key) {
            let i = choose|i: int| 0 <= i < order.len() && order[i] == key;
            assert(rest[i - 1] == key);
        }
    }
}

#[derive(Debug)]
struct Channel {
    name: String,
    records: Vec<RecordVec>,
}

/// The capture buffers of a run: one per requested channel, filled in the
/// order of arrival and read when the tables are made.
#[derive(Debug)]
pub struct Recorder {
    channels: Vec<Channel>,
}

spec fn names_of(channels: Seq<Channel>) -> Seq<Seq<char>> {
    Seq::new(channels.len(), |i: int| channels[i].name@)
}

impl View for Recorder {
    type V = RecorderView;

    closed spec fn view(&self) -> RecorderView {
        let order = names_of(self.channels@);
        RecorderView {
            order,
            buffers: Map::new(
                |key: Seq<char>| order.contains(key),
                |key: Seq<char>| records_view(self.channels@[first_place(order, key)].records@),
            ),
        }
    }
}

impl Recorder {
    /// Buffers for the channels `key_exprs`, all empty.
    pub fn new(key_exprs: &[String]) -> (recorder: Self)
        ensures
            recorder@ == RecorderView::fresh(names_view(key_exprs@)),
            recorder@.wf(),
    {
        let mut channels: Vec<Channel> = Vec::new();
        let n: usize = key_exprs.len();
        let mut i: usize = 0;
        while i < n
            invariant
                i <= n,
                n == key_exprs@.len(),
                channels@.len() == i,
                forall|k: int| 0 <= k < i ==> (#[trigger] channels@[k]).name@ == key_exprs@[k]@,
                forall|k: int| 0 <= k < i ==> (#[trigger] channels@[k]).records@.len() == 0,
            decreases n - i,
        {
            channels.push(Channel { name: key_exprs[i].clone(), records: Vec::new() });
            i = i + 1;
        }
        let recorder = Recorder { channels };
        proof {
            let order = names_view(key_exprs@);
            assert(names_of(recorder.channels@) =~= order);
            assert forall|key: Seq<char>| order.contains(key) implies (#[trigger] recorder@.buffers[key])
                == Seq::<RecordView>::empty() by {
                lemma_first_place(order, key);
                assert(recorder@.buffers[key] =~= Seq::<RecordView>::empty());
            }
            assert(recorder@.buffers =~= RecorderView::fresh(order).buffers);
        }
        recorder
    }

    /// The buffers of every recorder belong to exactly its requested channels.
    pub proof fn lemma_view_is_wf(&self)
        ensures
            self@.wf(),
    {
    }

    /// The place of the buffer that belongs to `key`, if `key` was requested.
    fn find(&self, key: &str) -> (place: Option<usize>)
        ensures
            match place {
                Some(i) => self@.has_channel(key@) && i == first_place(self@.order, key@) && i
                    < self.channels@.len(),
                None => !self@.has_channel(key@),
            },
    {
        let n: usize = self.channels.len();
        let mut i: usize = 0;
        proof {
            lemma_first_place(self@.order, key@);
        }
        while i < n
            invariant
                i <= n,
                n == self.channels@.len(),
                self@.order == names_of(self.channels@),
                forall|k: int| 0 <= k < i ==> self@.order[k] != key@,
                0 <= first_place(self@.order, key@) <= n,
                forall|j: int| 0 <= j < first_place(self@.order, key@) ==> self@.order[j] != key@,
                first_place(self@.order, key@) < n ==> self@.order[first_place(self@.order, key@)]
                    == key@,
                self@.order.contains(key@) <==> first_place(self@.order, key@) < n,
            decreases n - i,
        {
            if same_text(self.channels[i].name.as_str(), key) {
                assert(self@.order[i as int] == key@);
                return Some(i);
            }
            i = i + 1;
        }
        None
    }

    /// Whether `key_expr` is one of the requested channels.
    pub fn has_channel(&self, key_expr: &str) -> (known: bool)
        ensures
            known == self@.has_channel(key_expr@),
    {
        self.find(key_expr).is_some()
    }

    /// Puts `record` at the end of the buffer of `key_expr`. A key that was
    /// not requested is refused and the buffers stay as they were.
    pub fn append(&mut self, key_expr: &str, record: RecordVec) -> (outcome: Result<
        (),
        CaptureError,
    >)
        ensures
            final(self)@ == old(self)@.appended(key_expr@, record@),
            final(self)@.wf(),
            outcome.is_ok() == old(self)@.has_channel(key_expr@),
            outcome.is_err() ==> outcome == Err::<(), CaptureError>(CaptureError::UnknownChannel),
    {
        match self.find(key_expr) {
            Some(i) => {
                self.channels[i].records.push(record);
                proof {
                    let order = old(self)@.order;
                    assert(names_of(self.channels@) =~= order);
                    lemma_first_place(order, key_expr@);
                    assert(self@.buffers =~= old(self)@.appended(key_expr@, record@).buffers) by {
                        assert forall|k: Seq<char>| order.contains(k) implies #[trigger] self@.buffers[k]
                            == old(self)@.appended(key_expr@, record@).buffers[k] by {
                            lemma_first_place(order, k);
                            if k == key_expr@ {
                                assert(self@.buffers[k] =~= old(self)@.buffers[k].push(record@));
                            } else {
                                assert(self@.buffers[k] =~= old(self)@.buffers[k]);
                            }
                        }
                    }
                }
                Ok(())
            },
            None => Err(CaptureError::UnknownChannel),
        }
    }

    /// The requested channels, in the order of the request.
    pub fn channel_names(&self) -> (names: Vec<String>)
        ensures
            names_view(names@) == self@.order,
    {
        let mut names: Vec<String> = Vec::new();
        let n: usize = self.channels.len();
        let mut i: usize = 0;
        while i < n
            invariant
                i <= n,
                n == self.channels@.len(),
                names@.len() == i,
                forall|k: int| 0 <= k < i ==> (#[trigger] names@[k])@ == self.channels@[k].name@,
            decreases n - i,
        {
            names.push(self.channels[i].name.clone());
            i = i + 1;
        }
        assert(names_view(names@) =~= self@.order);
        names
    }

    /// A copy of what has been captured on `key_expr` so far, in the order
    /// of arrival; `None` for a key that was not requested.
    pub fn snapshot(&self, key_expr: &str) -> (copy: Option<Vec<RecordVec>>)
        ensures
            copy.is_some() == self@.has_channel(key_expr@),
            copy.is_some() ==> records_view(copy.unwrap()@) == self@.buffer(key_expr@),
    {
        match self.find(key_expr) {
            Some(i) => {
                let records = self.channels[i].records.clone();
                assert(records_view(records@) =~= self@.buffer(key_expr@));
                Some(records)
            },
            None => None,
        }
    }

    /// The table of `key_expr`: its name is the channel's, its rows are the
    /// records captured so far. `None` for a key that was not requested.
    pub fn table(&self, key_expr: &str) -> (table: Option<Table>)
        ensures
            table.is_some() == self@.has_channel(key_expr@),
            table.is_some() ==> table.unwrap()@ == self@.table(key_expr@),
    {
        match self.snapshot(key_expr) {
            Some(records) => Some(Table { name: key_expr.to_owned(), rows: rows_from(records) }),
            None => None,
        }
    }

    /// The tables of all requested channels, in the order of the request.
    pub fn tables(&self) -> (tables: Vec<Table>)
        ensures
            tables_view(tables@) == self@.tables(),
    {
        let mut tables: Vec<Table> = Vec::new();
        let n: usize = self.channels.len();
        let mut i: usize = 0;
        while i < n
            invariant
                i <= n,
                n == self.channels@.len(),
                n == self@.order.len(),
                tables@.len() == i,
                forall|k: int| 0 <= k < i ==> (#[trigger] tables@[k])@ == self@.table(self@.order[k]),
            decreases n - i,
        {
            assert(self@.order[i as int] == self.channels@[i as int].name@);
            assert(self@.has_channel(self.channels@[i as int].name@));
            if let Some(table) = self.table(self.channels[i].name.as_str()) {
                tables.push(table);
            }
            i = i + 1;
        }
        assert(tables_view(tables@) =~= self@.tables());
        tables
    }
}

} // verus!
