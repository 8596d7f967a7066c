//! The datalog index: named entries with a declared type, each holding
//! marks in order of time.
//!
//! The index is what the writer keeps in memory. Every mark goes through it
//! before it is persisted, so it decides which marks are taken and under
//! which timestamp.

use vstd::prelude::*;
use crate::datalog_value::{
    datalog_decode, from_datalog, lemma_type_names_differ, stored_form, DataLogModel, DataLogValue,
};
use crate::error::EnokiError;
use crate::object::{chronological, StampedModel, TimestampedEnokiValue};
use crate::value::{EnokiTimeStamp, EnokiValue};

verus! {

/// A timestamped value of an entry.
#[derive(Clone, Debug, PartialEq)]
pub struct DatalogMarkResponse {
    pub timestamp: EnokiTimeStamp,
    pub value: DataLogValue,
}

/// The mathematical content of a mark.
pub struct MarkModel {
    pub timestamp: u64,
    pub value: DataLogModel,
}

impl View for DatalogMarkResponse {
    type V = MarkModel;

    open spec fn view(&self) -> MarkModel {
        MarkModel { timestamp: self.timestamp, value: self.value@ }
    }
}

/// An entry with everything recorded for it.
#[derive(Clone, Debug, PartialEq)]
pub struct DatalogEntryResponse {
    pub name: String,
    pub entry_type: String,
    pub metadata: Option<String>,
    /// A finished entry takes no further marks.
    pub finished: bool,
    pub marks: Vec<DatalogMarkResponse>,
}

/// The mathematical content of an entry.
pub struct EntryModel {
    pub name: Seq<char>,
    pub entry_type: Seq<char>,
    pub metadata: Option<Seq<char>>,
    pub finished: bool,
    pub marks: Seq<MarkModel>,
}

/// The contents of a vector of marks.
pub open spec fn marks_model(v: Seq<DatalogMarkResponse>) -> Seq<MarkModel> {
    Seq::new(v.len(), |i: int| v[i]@)
}

/// The content of an optional text.
pub open spec fn text_model(t: Option<String>) -> Option<Seq<char>> {
    match t {
        Some(s) => Some(s@),
        None => None,
    }
}

impl View for DatalogEntryResponse {
    type V = EntryModel;

    open spec fn view(&self) -> EntryModel {
        EntryModel {
            name: self.name@,
            entry_type: self.entry_type@,
            metadata: text_model(self.metadata),
            finished: self.finished,
            marks: marks_model(self.marks@),
        }
    }
}

impl EntryModel {
    /// Timestamps never go down from one mark to the next, and every mark
    /// has the declared type.
    pub open spec fn wf(self) -> bool {
        &&& forall|i: int, j: int|
            0 <= i <= j < self.marks.len() ==> self.marks[i].timestamp <= self.marks[j].timestamp
        &&& forall|i: int|
            0 <= i < self.marks.len() ==> (#[trigger] self.marks[i]).value.tag().name()
                == self.entry_type
    }

    /// The timestamp under which a mark offered at `timestamp` is stored:
    /// the offered one where it is not before the last mark, and else the
    /// next after the last mark's.
    pub open spec fn stored_time(self, timestamp: u64) -> u64 {
        if self.marks.len() == 0 || timestamp >= self.marks.last().timestamp {
            timestamp
        } else if self.marks.last().timestamp < u64::MAX {
            (self.marks.last().timestamp + 1) as u64
        } else {
            u64::MAX
        }
    }

    /// The entry with one more mark, stored under its time.
    pub open spec fn with_mark(self, value: DataLogModel, timestamp: u64) -> EntryModel {
        EntryModel {
            marks: self.marks.push(MarkModel { timestamp: self.stored_time(timestamp), value }),
            ..self
        }
    }
}

/// What is reported of an entry in a summary.
#[derive(Clone, Debug, PartialEq)]
pub struct EntrySummary {
    pub name: String,
    pub entry_type: String,
    pub mark_count: usize,
    /// The timestamp of the first mark.
    pub first: Option<EnokiTimeStamp>,
    /// The timestamp of the last mark.
    pub last: Option<EnokiTimeStamp>,
}

/// The mathematical content of the index.
pub struct DatalogModel {
    pub entries: Seq<EntryModel>,
}

impl DatalogModel {
    /// Every entry is well formed and no name occurs twice.
    pub open spec fn wf(self) -> bool {
        &&& forall|i: int| 0 <= i < self.entries.len() ==> (#[trigger] self.entries[i]).wf()
        &&& forall|i: int, j: int|
            0 <= i < j < self.entries.len() ==> self.entries[i].name != self.entries[j].name
    }

    /// Whether an entry has that name.
    pub open spec fn has(self, name: Seq<char>) -> bool {
        exists|i: int| 0 <= i < self.entries.len() && #[trigger] self.entries[i].name == name
    }

    /// The place of the entry of that name, where there is one.
    pub open spec fn index_of(self, name: Seq<char>) -> int {
        choose|i: int| 0 <= i < self.entries.len() && #[trigger] self.entries[i].name == name
    }

    /// The entry of that name, where there is one.
    pub open spec fn entry(self, name: Seq<char>) -> EntryModel {
        self.entries[self.index_of(name)]
    }

    /// The timestamp under which a mark offered at `timestamp` is stored
    /// under that name: the offered one for an entry that is not there yet.
    pub open spec fn stored_time(self, name: Seq<char>, timestamp: u64) -> u64 {
        if self.has(name) {
            self.entry(name).stored_time(timestamp)
        } else {
            timestamp
        }
    }

    /// Whether marks can be appended under that name.
    pub open spec fn open_for(self, name: Seq<char>) -> bool {
        self.has(name) && !self.entry(name).finished
    }

    /// Why a mark is refused, if it is.
    pub open spec fn append_error(self, name: Seq<char>, value: DataLogModel) -> Option<
        EnokiError,
    > {
        if !self.open_for(name) {
            Some(EnokiError::DLEntryNotFound)
        } else if value.tag().name() != self.entry(name).entry_type {
            Some(EnokiError::TypeMismatch)
        } else {
            None
        }
    }

    /// The index with a new, empty entry at the end.
    pub open spec fn started(
        self,
        name: Seq<char>,
        entry_type: Seq<char>,
        metadata: Option<Seq<char>>,
    ) -> DatalogModel {
        DatalogModel {
            entries: self.entries.push(
                EntryModel { name, entry_type, metadata, finished: false, marks: Seq::empty() },
            ),
        }
    }

    /// The index after a mark was taken under `name`.
    pub open spec fn appended(self, name: Seq<char>, value: DataLogModel, timestamp: u64) -> DatalogModel {
        DatalogModel {
            entries: self.entries.update(
                self.index_of(name),
                self.entry(name).with_mark(value, timestamp),
            ),
        }
    }

    /// The index after the entry of that name was finished.
    pub open spec fn finished(self, name: Seq<char>) -> DatalogModel {
        DatalogModel {
            entries: self.entries.update(
                self.index_of(name),
                EntryModel { finished: true, ..self.entry(name) },
            ),
        }
    }
}

/// The marks with a timestamp after `after` and not after `before`, in
/// their order, as timestamped values.
pub open spec fn window(marks: Seq<MarkModel>, after: u64, before: u64) -> Seq<StampedModel>
    decreases marks.len(),
{
    if marks.len() == 0 {
        Seq::empty()
    } else {
        let earlier = window(marks.drop_last(), after, before);
        let m = marks.last();
        if after < m.timestamp && m.timestamp <= before {
            earlier.push(StampedModel { value: datalog_decode(m.value), timestamp: m.timestamp })
        } else {
            earlier
        }
    }
}

/// Every mark as a timestamped value.
pub open spec fn stamped_marks(marks: Seq<MarkModel>) -> Seq<StampedModel> {
    Seq::new(
        marks.len(),
        |i: int| StampedModel { value: datalog_decode(marks[i].value), timestamp: marks[i].timestamp },
    )
}

/// A window of marks that are in order of time is in order of time, holds
/// only timestamps inside the window, and none after the last mark's.
pub proof fn lemma_window(marks: Seq<MarkModel>, after: u64, before: u64)
    requires
        forall|i: int, j: int|
            0 <= i <= j < marks.len() ==> marks[i].timestamp <= marks[j].timestamp,
    ensures
        chronological(window(marks, after, before)),
        window(marks, after, before).len() <= marks.len(),
        forall|k: int|
            0 <= k < window(marks, after, before).len() ==> {
                let t = (#[trigger] window(marks, after, before)[k]).timestamp;
                after < t && t <= before && t <= marks.last().timestamp
            },
    decreases marks.len(),
{
    if marks.len() > 0 {
        let shorter = marks.drop_last();
        lemma_window(shorter, after, before);
        let w = window(shorter, after, before);
        assert forall|k: int| 0 <= k < w.len() implies (#[trigger] w[k]).timestamp
            <= marks.last().timestamp by {
            if shorter.len() > 0 {
                assert(shorter.last() == marks[shorter.len() - 1]);
            }
        }
    }
}

/// In a well-formed index a name is found where it stands, and nowhere
/// else.
pub proof fn lemma_index_of_name(log: DatalogModel, i: int)
    requires
        log.wf(),
        0 <= i < log.entries.len(),
    ensures
        log.has(log.entries[i].name),
        log.index_of(log.entries[i].name) == i,
        log.entry(log.entries[i].name) == log.entries[i],
{
    let name = log.entries[i].name;
    let found = log.index_of(name);
    if found < i {
        assert(log.entries[found].name != log.entries[i].name);
    } else if i < found {
        assert(log.entries[i].name != log.entries[found].name);
    }
}

/// An entry with one more mark of its declared type is well formed.
pub proof fn lemma_with_mark(entry: EntryModel, value: DataLogModel, timestamp: u64)
    requires
        entry.wf(),
        value.tag().name() == entry.entry_type,
    ensures
        entry.with_mark(value, timestamp).wf(),
{
    let after = entry.with_mark(value, timestamp);
    assert forall|a: int, b: int| 0 <= a <= b < after.marks.len() implies after.marks[a].timestamp
        <= after.marks[b].timestamp by {
        if b < entry.marks.len() {
            assert(entry.marks[a].timestamp <= entry.marks[b].timestamp);
        } else if a < entry.marks.len() {
            assert(entry.marks[a].timestamp <= entry.marks[entry.marks.len() - 1].timestamp);
        }
    }
    assert forall|a: int| 0 <= a < after.marks.len() implies (#[trigger] after.marks[a]).value.tag().name()
        == after.entry_type by {
        if a < entry.marks.len() {
            assert(entry.marks[a].value.tag().name() == entry.entry_type);
        }
    }
}

/// Declaring a name that is not there gives a well-formed index with the
/// new, empty entry at the end, found under its name.
pub proof fn lemma_started(
    log: DatalogModel,
    name: Seq<char>,
    entry_type: Seq<char>,
    metadata: Option<Seq<char>>,
)
    requires
        log.wf(),
        !log.has(name),
    ensures
        log.started(name, entry_type, metadata).wf(),
        log.started(name, entry_type, metadata).has(name),
        log.started(name, entry_type, metadata).index_of(name) == log.entries.len(),
        log.started(name, entry_type, metadata).entry(name) == (EntryModel {
            name,
            entry_type,
            metadata,
            finished: false,
            marks: Seq::empty(),
        }),
{
    let after = log.started(name, entry_type, metadata);
    let n = log.entries.len() as int;
    assert forall|i: int| 0 <= i < after.entries.len() implies (#[trigger] after.entries[i]).wf() by {
        if i < n {
            assert(log.entries[i].wf());
        }
    }
    assert forall|i: int, j: int| 0 <= i < j < after.entries.len() implies after.entries[i].name
        != after.entries[j].name by {
        if j < n {
            assert(log.entries[i].name != log.entries[j].name);
        } else {
            assert(log.entries[i].name != name);
        }
    }
    lemma_index_of_name(after, n);
}

/// A mark that is taken gives a well-formed index in which the entry of
/// the name, at its old place, has the mark as its last.
pub proof fn lemma_appended(log: DatalogModel, name: Seq<char>, value: DataLogModel, timestamp: u64)
    requires
        log.wf(),
        log.append_error(name, value).is_none(),
    ensures
        log.appended(name, value, timestamp).wf(),
        log.appended(name, value, timestamp).has(name),
        log.appended(name, value, timestamp).index_of(name) == log.index_of(name),
        log.appended(name, value, timestamp).entry(name) == log.entry(name).with_mark(
            value,
            timestamp,
        ),
{
    let after = log.appended(name, value, timestamp);
    let at = log.index_of(name);
    assert(log.entries[at].wf());
    lemma_with_mark(log.entry(name), value, timestamp);
    assert forall|i: int| 0 <= i < after.entries.len() implies (#[trigger] after.entries[i]).wf() by {
        if i != at {
            assert(log.entries[i].wf());
        }
    }
    assert forall|i: int, j: int| 0 <= i < j < after.entries.len() implies after.entries[i].name
        != after.entries[j].name by {
        assert(log.entries[i].name != log.entries[j].name);
    }
    lemma_index_of_name(after, at);
}

/// Any two consecutive marks of an entry of a well-formed index are in
/// order of time and have the same type.
pub proof fn lemma_consecutive_marks(log: DatalogModel, e: int, k: int)
    requires
        log.wf(),
        0 <= e < log.entries.len(),
        0 <= k,
        k + 1 < log.entries[e].marks.len(),
    ensures
        log.entries[e].marks[k].timestamp <= log.entries[e].marks[k + 1].timestamp,
        log.entries[e].marks[k].value.tag() == log.entries[e].marks[k + 1].value.tag(),
{
    let entry = log.entries[e];
    assert(entry.wf());
    let a = entry.marks[k];
    let b = entry.marks[k + 1];
    assert(a.value.tag().name() == entry.entry_type);
    assert(b.value.tag().name() == entry.entry_type);
    lemma_type_names_differ(a.value.tag(), b.value.tag());
}

/// The contents of a vector of entries.
pub open spec fn entries_model(v: Seq<DatalogEntryResponse>) -> Seq<EntryModel> {
    Seq::new(v.len(), |i: int| v[i]@)
}

/// The index of a datalog.
#[derive(Clone, Debug)]
pub struct Datalog {
    entries: Vec<DatalogEntryResponse>,
}

impl View for Datalog {
    type V = DatalogModel;

    closed spec fn view(&self) -> DatalogModel {
        DatalogModel { entries: entries_model(self.entries@) }
    }
}

/// A copy of a vector of marks.
pub fn copy_marks(v: &Vec<DatalogMarkResponse>) -> (r: Vec<DatalogMarkResponse>)
    ensures
        marks_model(r@) == marks_model(v@),
{
    let mut r: Vec<DatalogMarkResponse> = Vec::new();
    let mut i: usize = 0;
    while i < v.len()
        invariant
            i <= v.len(),
            r.len() == i,
            forall|j: int| 0 <= j < i ==> r@[j]@ == v@[j]@,
        decreases v.len() - i,
    {
        r.push(DatalogMarkResponse { timestamp: v[i].timestamp, value: v[i].value.duplicate() });
        i += 1;
    }
    assert(marks_model(r@) =~= marks_model(v@));
    r
}

fn copy_text(t: &Option<String>) -> (r: Option<String>)
    ensures
        text_model(r) == text_model(*t),
{
    match t {
        Some(s) => Some(s.clone()),
        None => None,
    }
}

impl DatalogEntryResponse {
    /// A copy with the same content.
    pub fn duplicate(&self) -> (r: Self)
        ensures
            r@ == self@,
    {
        DatalogEntryResponse {
            name: self.name.clone(),
            entry_type: self.entry_type.clone(),
            metadata: copy_text(&self.metadata),
            finished: self.finished,
            marks: copy_marks(&self.marks),
        }
    }

    /// The marks with a timestamp after `after` and not after `before`.
    pub fn history(&self, after: EnokiTimeStamp, before: EnokiTimeStamp) -> (r: Vec<
        TimestampedEnokiValue,
    >)
        ensures
            crate::object::stamped_model(r@) == window(self@.marks, after, before),
    {
        let mut out: Vec<TimestampedEnokiValue> = Vec::new();
        let mut i: usize = 0;
        assert(self@.marks.take(0) =~= Seq::empty());
        assert(crate::object::stamped_model(out@) =~= Seq::empty());
        while i < self.marks.len()
            invariant
                i <= self.marks.len(),
                crate::object::stamped_model(out@) == window(
                    self@.marks.take(i as int),
                    after,
                    before,
                ),
            decreases self.marks.len() - i,
        {
            proof {
                let grown = self@.marks.take(i + 1);
                assert(grown.drop_last() =~= self@.marks.take(i as int));
                assert(grown.last() == self.marks@[i as int]@);
            }
            let t = self.marks[i].timestamp;
            if after < t && t <= before {
                let ghost before_push = crate::object::stamped_model(out@);
                let value = from_datalog(self.marks[i].value.duplicate());
                out.push(TimestampedEnokiValue::new(t, value));
                assert(crate::object::stamped_model(out@) =~= before_push.push(
                    StampedModel {
                        value: datalog_decode(self.marks@[i as int]@.value),
                        timestamp: t,
                    },
                ));
            }
            i += 1;
        }
        assert(self@.marks.take(self.marks.len() as int) =~= self@.marks);
        out
    }
}

impl Datalog {
    /// The invariant of the index.
    pub open spec fn wf(&self) -> bool {
        self@.wf()
    }

    /// An index without entries.
    pub fn new() -> (r: Self)
        ensures
            r.wf(),
            r@.entries.len() == 0,
    {
        Datalog { entries: Vec::new() }
    }

    fn find(&self, name: &str) -> (r: Option<usize>)
        requires
            self.wf(),
        ensures
            r.is_some() == self@.has(name@),
            r.is_some() ==> r.unwrap() as int == self@.index_of(name@) && r.unwrap()
                < self.entries.len(),
    {
        let wanted = String::from_str(name);
        let mut i: usize = 0;
        while i < self.entries.len()
            invariant
                i <= self.entries.len(),
                self.wf(),
                wanted@ == name@,
                forall|j: int| 0 <= j < i ==> self@.entries[j].name != name@,
            decreases self.entries.len() - i,
        {
            if self.entries[i].name == wanted {
                assert(self@.entries[i as int].name == name@);
                return Some(i);
            }
            i += 1;
        }
        None
    }

    /// Declares an entry. A name that was declared before, finished or
    /// not, is refused.
    pub fn start_entry(&mut self, name: &str, entry_type: &str, metadata: Option<&str>) -> (r:
        Result<(), EnokiError>)
        requires
            old(self).wf(),
        ensures
            final(self).wf(),
            old(self)@.has(name@) ==> r == Err::<(), EnokiError>(EnokiError::EntryAlreadyExists)
                && final(self)@ == old(self)@,
            !old(self)@.has(name@) ==> r.is_ok() && final(self)@ == old(self)@.started(
                name@,
                entry_type@,
                match metadata {
                    Some(m) => Some(m@),
                    None => None,
                },
            ),
    {
        if self.find(name).is_some() {
            return Err(EnokiError::EntryAlreadyExists);
        }
        let metadata = match metadata {
            Some(m) => Some(String::from_str(m)),
            None => None,
        };
        let entry = DatalogEntryResponse {
            name: String::from_str(name),
            entry_type: String::from_str(entry_type),
            metadata,
            finished: false,
            marks: Vec::new(),
        };
        assert(entry@.marks =~= Seq::empty());
        self.entries.push(entry);
        assert(self@.entries =~= old(self)@.entries.push(entry@));
        proof {
            lemma_started(old(self)@, name@, entry_type@, entry@.metadata);
        }
        Ok(())
    }

    /// Appends a mark at a given time. Where the time is before the last
    /// mark's, the mark is stored just after the last mark instead.
    pub fn append_to_entry_with_timestamp(
        &mut self,
        name: &str,
        value: DataLogValue,
        timestamp: EnokiTimeStamp,
    ) -> (r: Result<(), EnokiError>)
        requires
            old(self).wf(),
        ensures
            final(self).wf(),
            match old(self)@.append_error(name@, value@) {
                Some(e) => r == Err::<(), EnokiError>(e) && final(self)@ == old(self)@,
                None => r.is_ok() && final(self)@ == old(self)@.appended(name@, value@, timestamp),
            },
    {
        let i = match self.find(name) {
            Some(i) => i,
            None => {
                return Err(EnokiError::DLEntryNotFound);
            },
        };
        if self.entries[i].finished {
            return Err(EnokiError::DLEntryNotFound);
        }
        if !value.matches_type(&self.entries[i].entry_type) {
            return Err(EnokiError::TypeMismatch);
        }
        let mut entry = self.entries.remove(i);
        let ghost before = entry@;
        assert(before == old(self)@.entries[i as int]);
        assert(before.wf());
        let n = entry.marks.len();
        let stored = if n == 0 || timestamp >= entry.marks[n - 1].timestamp {
            timestamp
        } else if entry.marks[n - 1].timestamp < u64::MAX {
            entry.marks[n - 1].timestamp + 1
        } else {
            u64::MAX
        };
        assert(stored == before.stored_time(timestamp));
        entry.marks.push(DatalogMarkResponse { timestamp: stored, value });
        assert(entry@.marks =~= before.with_mark(value@, timestamp).marks);
        assert(entry@ == before.with_mark(value@, timestamp));
        self.entries.insert(i, entry);
        assert(self@.entries =~= old(self)@.appended(name@, value@, timestamp).entries);
        proof {
            lemma_appended(old(self)@, name@, value@, timestamp);
        }
        Ok(())
    }

    /// Appends a mark at the current time of the client clock.
    pub fn append_to_entry(&mut self, name: &str, value: DataLogValue) -> (r: Result<
        (),
        EnokiError,
    >)
        requires
            old(self).wf(),
        ensures
            final(self).wf(),
            match old(self)@.append_error(name@, value@) {
                Some(e) => r == Err::<(), EnokiError>(e) && final(self)@ == old(self)@,
                None => r.is_ok() && exists|t: u64|
                    final(self)@ == #[trigger] old(self)@.appended(name@, value@, t),
            },
    {
        let timestamp = crate::clock::now();
        self.append_to_entry_with_timestamp(name, value, timestamp)
    }

    /// Finishes an entry: it takes no further marks, and its name stays
    /// taken.
    pub fn finish_entry(&mut self, name: &str) -> (r: Result<(), EnokiError>)
        requires
            old(self).wf(),
        ensures
            final(self).wf(),
            !old(self)@.open_for(name@) ==> r == Err::<(), EnokiError>(EnokiError::DLEntryNotFound)
                && final(self)@ == old(self)@,
            old(self)@.open_for(name@) ==> r.is_ok() && final(self)@ == old(self)@.finished(name@),
    {
        let i = match self.find(name) {
            Some(i) => i,
            None => {
                return Err(EnokiError::DLEntryNotFound);
            },
        };
        if self.entries[i].finished {
            return Err(EnokiError::DLEntryNotFound);
        }
        let mut entry = self.entries.remove(i);
        let ghost before = entry@;
        assert(before == old(self)@.entries[i as int]);
        assert(before.wf());
        entry.finished = true;
        assert(entry@ == (EntryModel { finished: true, ..before }));
        assert(entry@.wf());
        self.entries.insert(i, entry);
        assert(self@.entries =~= old(self)@.finished(name@).entries);
        assert forall|a: int| 0 <= a < self@.entries.len() implies (#[trigger] self@.entries[a]).wf() by {
            if a != i {
                assert(old(self)@.entries[a].wf());
            }
        }
        assert forall|a: int, b: int| 0 <= a < b < self@.entries.len() implies self@.entries[a].name
            != self@.entries[b].name by {
            assert(old(self)@.entries[a].name != old(self)@.entries[b].name);
        }
        Ok(())
    }

    /// Takes back the last mark of an entry, as after a write that failed.
    /// Tells whether there was one.
    pub fn rewind_last_mark(&mut self, name: &str) -> (removed: bool)
        requires
            old(self).wf(),
        ensures
            final(self).wf(),
            removed == (old(self)@.has(name@) && old(self)@.entry(name@).marks.len() > 0),
            !removed ==> final(self)@ == old(self)@,
            removed ==> final(self)@.entries == old(self)@.entries.update(
                old(self)@.index_of(name@),
                EntryModel {
                    marks: old(self)@.entry(name@).marks.drop_last(),
                    ..old(self)@.entry(name@)
                },
            ),
    {
        let i = match self.find(name) {
            Some(i) => i,
            None => {
                return false;
            },
        };
        if self.entries[i].marks.len() == 0 {
            assert(old(self)@.entry(name@).marks.len() == 0);
            return false;
        }
        let mut entry = self.entries.remove(i);
        let ghost before = entry@;
        assert(before == old(self)@.entries[i as int]);
        assert(before.wf());
        entry.marks.pop();
        assert(entry@.marks =~= before.marks.drop_last());
        proof {
            let after = entry@;
            assert forall|a: int, b: int| 0 <= a <= b < after.marks.len() implies after.marks[a].timestamp
                <= after.marks[b].timestamp by {
                assert(before.marks[a].timestamp <= before.marks[b].timestamp);
            }
            assert forall|a: int| 0 <= a < after.marks.len() implies (#[trigger] after.marks[a]).value.tag().name()
                == after.entry_type by {
                assert(before.marks[a].value.tag().name() == before.entry_type);
            }
        }
        self.entries.insert(i, entry);
        assert(self@.entries =~= old(self)@.entries.update(
            i as int,
            EntryModel { marks: before.marks.drop_last(), ..before },
        ));
        assert forall|a: int| 0 <= a < self@.entries.len() implies (#[trigger] self@.entries[a]).wf() by {
            if a != i {
                assert(old(self)@.entries[a].wf());
            }
        }
        assert forall|a: int, b: int| 0 <= a < b < self@.entries.len() implies self@.entries[a].name
            != self@.entries[b].name by {
            assert(old(self)@.entries[a].name != old(self)@.entries[b].name);
        }
        true
    }

    /// Whether a mark offered at `timestamp` under that name would be
    /// stored under another time, because the entry's last mark is later.
    /// Such a mark is taken all the same; the caller may want to log it.
    pub fn is_clamped(&self, name: &str, timestamp: EnokiTimeStamp) -> (b: bool)
        requires
            self.wf(),
        ensures
            b == (self@.stored_time(name@, timestamp) != timestamp),
    {
        match self.find(name) {
            Some(i) => {
                let n = self.entries[i].marks.len();
                n > 0 && timestamp < self.entries[i].marks[n - 1].timestamp
            },
            None => false,
        }
    }

    /// The timestamp of the last mark of an entry; `None` where no entry
    /// has that name or the entry has no mark.
    pub fn last_timestamp_of(&self, name: &str) -> (r: Option<EnokiTimeStamp>)
        requires
            self.wf(),
        ensures
            r == (if self@.has(name@) && self@.entry(name@).marks.len() > 0 {
                Some(self@.entry(name@).marks.last().timestamp)
            } else {
                None
            }),
    {
        match self.find(name) {
            Some(i) => {
                let n = self.entries[i].marks.len();
                if n > 0 {
                    Some(self.entries[i].marks[n - 1].timestamp)
                } else {
                    None
                }
            },
            None => None,
        }
    }

    /// Whether an entry of that name was declared.
    pub fn has_entry(&self, name: &str) -> (b: bool)
        requires
            self.wf(),
        ensures
            b == self@.has(name@),
    {
        self.find(name).is_some()
    }

    /// The entry of that name.
    pub fn get_entry(&self, name: &str) -> (r: Option<DatalogEntryResponse>)
        requires
            self.wf(),
        ensures
            r.is_some() == self@.has(name@),
            r.is_some() ==> r.unwrap()@ == self@.entry(name@),
    {
        match self.find(name) {
            Some(i) => Some(self.entries[i].duplicate()),
            None => None,
        }
    }

    /// The marks of an entry with a timestamp after `after` and not after
    /// `before`, in order of time; `None` where no entry has that name.
    pub fn history_of(&self, name: &str, after: EnokiTimeStamp, before: EnokiTimeStamp) -> (r:
        Option<Vec<TimestampedEnokiValue>>)
        requires
            self.wf(),
        ensures
            r.is_some() == self@.has(name@),
            r.is_some() ==> crate::object::stamped_model(r.unwrap()@) == window(
                self@.entry(name@).marks,
                after,
                before,
            ),
            r.is_some() ==> chronological(crate::object::stamped_model(r.unwrap()@)),
    {
        match self.find(name) {
            Some(i) => {
                proof {
                    assert(self@.entries[i as int].wf());
                    lemma_window(self@.entries[i as int].marks, after, before);
                }
                Some(self.entries[i].history(after, before))
            },
            None => None,
        }
    }

    /// Every mark of an entry as a timestamped value, in order of time;
    /// `None` where no entry has that name.
    pub fn marks_of(&self, name: &str) -> (r: Option<Vec<TimestampedEnokiValue>>)
        requires
            self.wf(),
        ensures
            r.is_some() == self@.has(name@),
            r.is_some() ==> crate::object::stamped_model(r.unwrap()@) == stamped_marks(
                self@.entry(name@).marks,
            ),
            r.is_some() ==> chronological(crate::object::stamped_model(r.unwrap()@)),
    {
        match self.find(name) {
            Some(i) => {
                let marks = &self.entries[i].marks;
                let mut out: Vec<TimestampedEnokiValue> = Vec::new();
                let mut k: usize = 0;
                while k < marks.len()
                    invariant
                        k <= marks.len(),
                        out.len() == k,
                        forall|j: int|
                            0 <= j < k ==> out@[j]@ == (StampedModel {
                                value: datalog_decode(marks@[j]@.value),
                                timestamp: marks@[j].timestamp,
                            }),
                    decreases marks.len() - k,
                {
                    let value = from_datalog(marks[k].value.duplicate());
                    out.push(TimestampedEnokiValue::new(marks[k].timestamp, value));
                    k += 1;
                }
                proof {
                    let e = self@.entries[i as int];
                    assert(e.wf());
                    assert(crate::object::stamped_model(out@) =~= stamped_marks(e.marks));
                    let h = crate::object::stamped_model(out@);
                    assert forall|a: int, b: int| 0 <= a <= b < h.len() implies h[a].timestamp
                        <= h[b].timestamp by {
                        assert(e.marks[a].timestamp <= e.marks[b].timestamp);
                    }
                }
                Some(out)
            },
            None => None,
        }
    }

    /// The name, type, number of marks and first and last timestamp of an
    /// entry.
    pub fn summary_of(&self, name: &str) -> (r: Option<EntrySummary>)
        requires
            self.wf(),
        ensures
            r.is_some() == self@.has(name@),
            r.is_some() ==> summarises(r.unwrap(), self@.entry(name@)),
    {
        match self.find(name) {
            Some(i) => Some(summarise(&self.entries[i])),
            None => None,
        }
    }

    /// The summary of every entry, in the order in which they were
    /// declared.
    pub fn summary(&self) -> (r: Vec<EntrySummary>)
        ensures
            r.len() == self@.entries.len(),
            forall|i: int| 0 <= i < r.len() ==> summarises(#[trigger] r@[i], self@.entries[i]),
    {
        let mut out: Vec<EntrySummary> = Vec::new();
        let mut i: usize = 0;
        while i < self.entries.len()
            invariant
                i <= self.entries.len(),
                out.len() == i,
                forall|j: int| 0 <= j < i ==> summarises(#[trigger] out@[j], self@.entries[j]),
            decreases self.entries.len() - i,
        {
            out.push(summarise(&self.entries[i]));
            i += 1;
        }
        out
    }

    /// Every entry with its marks, in the order in which they were
    /// declared.
    pub fn get_all_entries(&self) -> (r: Vec<DatalogEntryResponse>)
        ensures
            entries_model(r@) == self@.entries,
    {
        let mut out: Vec<DatalogEntryResponse> = Vec::new();
        let mut i: usize = 0;
        while i < self.entries.len()
            invariant
                i <= self.entries.len(),
                out.len() == i,
                forall|j: int| 0 <= j < i ==> out@[j]@ == self.entries@[j]@,
            decreases self.entries.len() - i,
        {
            out.push(self.entries[i].duplicate());
            i += 1;
        }
        assert(entries_model(out@) =~= self@.entries);
        out
    }
}

/// Whether a summary reports an entry truly.
pub open spec fn summarises(s: EntrySummary, e: EntryModel) -> bool {
    &&& s.name@ == e.name
    &&& s.entry_type@ == e.entry_type
    &&& s.mark_count == e.marks.len()
    &&& s.first == (if e.marks.len() > 0 {
        Some(e.marks[0].timestamp)
    } else {
        None
    })
    &&& s.last == (if e.marks.len() > 0 {
        Some(e.marks.last().timestamp)
    } else {
        None
    })
}

fn summarise(entry: &DatalogEntryResponse) -> (s: EntrySummary)
    ensures
        summarises(s, entry@),
{
    let n = entry.marks.len();
    let (first, last) = if n > 0 {
        (Some(entry.marks[0].timestamp), Some(entry.marks[n - 1].timestamp))
    } else {
        (None, None)
    };
    EntrySummary {
        name: entry.name.clone(),
        entry_type: entry.entry_type.clone(),
        mark_count: n,
        first,
        last,
    }
}

/// Declares an entry in the datalog.
pub fn start_datalog_entry(
    datalog: &mut Datalog,
    name: &str,
    entry_type: &str,
    metadata: Option<&str>,
) -> (r: Result<(), EnokiError>)
    requires
        old(datalog).wf(),
    ensures
        final(datalog).wf(),
        old(datalog)@.has(name@) ==> r == Err::<(), EnokiError>(EnokiError::EntryAlreadyExists)
            && final(datalog)@ == old(datalog)@,
        !old(datalog)@.has(name@) ==> r.is_ok() && final(datalog)@ == old(datalog)@.started(
            name@,
            entry_type@,
            match metadata {
                Some(m) => Some(m@),
                None => None,
            },
        ),
{
    datalog.start_entry(name, entry_type, metadata)
}

/// Finishes an entry of the datalog.
pub fn end_datalog_entry(datalog: &mut Datalog, name: &str) -> (r: Result<(), EnokiError>)
    requires
        old(datalog).wf(),
    ensures
        final(datalog).wf(),
        !old(datalog)@.open_for(name@) ==> r == Err::<(), EnokiError>(EnokiError::DLEntryNotFound)
            && final(datalog)@ == old(datalog)@,
        old(datalog)@.open_for(name@) ==> r.is_ok() && final(datalog)@ == old(datalog)@.finished(
            name@,
        ),
{
    datalog.finish_entry(name)
}

/// Appends a value to an entry of the datalog at the current time of the
/// client clock.
pub fn log_datalog_value(datalog: &mut Datalog, name: &str, value: EnokiValue) -> (r: Result<
    (),
    EnokiError,
>)
    requires
        old(datalog).wf(),
    ensures
        final(datalog).wf(),
        match old(datalog)@.append_error(name@, crate::datalog_value::datalog_encode(value@)) {
            Some(e) => r == Err::<(), EnokiError>(e) && final(datalog)@ == old(datalog)@,
            None => r.is_ok() && exists|t: u64|
                final(datalog)@ == #[trigger] old(datalog)@.appended(
                    name@,
                    crate::datalog_value::datalog_encode(value@),
                    t,
                ),
        },
{
    datalog.append_to_entry(name, stored_form(value))
}

/// Appends a value to an entry of the datalog at a given time.
pub fn log_datalog_value_at(
    datalog: &mut Datalog,
    name: &str,
    value: EnokiValue,
    timestamp: EnokiTimeStamp,
) -> (r: Result<(), EnokiError>)
    requires
        old(datalog).wf(),
    ensures
        final(datalog).wf(),
        match old(datalog)@.append_error(name@, crate::datalog_value::datalog_encode(value@)) {
            Some(e) => r == Err::<(), EnokiError>(e) && final(datalog)@ == old(datalog)@,
            None => r.is_ok() && final(datalog)@ == old(datalog)@.appended(
                name@,
                crate::datalog_value::datalog_encode(value@),
                timestamp,
            ),
        },
{
    datalog.append_to_entry_with_timestamp(name, stored_form(value), timestamp)
}

} // verus!
