//! The query surface over the datalog: objects enriched with history, the
//! whole datalog as one object, and marks sent in by a front end.

use vstd::prelude::*;
use crate::datalog::{
    lemma_appended, lemma_index_of_name, lemma_started, lemma_window, stamped_marks, window,
    Datalog, DatalogModel, EntryModel, MarkModel,
};
use crate::datalog_value::{datalog_encode, stored_form};
use crate::error::EnokiError;
use crate::key::{join_segments, key_segments, EnokiKey};
use crate::object::{
    lemma_index_of_key, lemma_with_history_at, EnokiObject, FieldModel, ObjectModel,
    StampedModel, TimestampedEnokiValue,
};
use crate::value::EnokiTimeStamp;

verus! {

/// The name of the datalog entry that holds what a client received under a
/// key: the client's identity in front of the key.
pub open spec fn entry_name(identity: Seq<char>, key: Seq<Seq<char>>) -> Seq<char> {
    join_segments(seq![identity] + key)
}

/// The object after the history of each of `fields` was looked up in the
/// datalog, under the identity in front of the field's key, and recorded
/// for the field's key: the marks after `after` and not after `before`. A
/// field without a datalog entry stays as it is.
pub open spec fn populated(
    o: ObjectModel,
    fields: Seq<FieldModel>,
    identity: Seq<char>,
    after: u64,
    before: u64,
    log: DatalogModel,
) -> ObjectModel
    decreases fields.len(),
{
    if fields.len() == 0 {
        o
    } else {
        let earlier = populated(o, fields.drop_last(), identity, after, before, log);
        let f = fields.last();
        let name = entry_name(identity, f.key);
        if log.has(name) {
            earlier.with_history(f.key, window(log.entry(name).marks, after, before))
        } else {
            earlier
        }
    }
}

/// The state of the enrichment after the first `n` fields were looked up:
/// the keys stand as they stood, and each of those fields that has a
/// datalog entry has the window of its marks as its history.
proof fn lemma_populated_prefix(
    o: ObjectModel,
    identity: Seq<char>,
    after: u64,
    before: u64,
    log: DatalogModel,
    n: int,
)
    requires
        o.wf(),
        log.wf(),
        0 <= n <= o.fields.len(),
    ensures
        populated(o, o.fields.take(n), identity, after, before, log).wf(),
        populated(o, o.fields.take(n), identity, after, before, log).fields.len()
            == o.fields.len(),
        populated(o, o.fields.take(n), identity, after, before, log).timestamp == o.timestamp,
        forall|i: int|
            0 <= i < o.fields.len() ==> (#[trigger] populated(
                o,
                o.fields.take(n),
                identity,
                after,
                before,
                log,
            ).fields[i]).key == o.fields[i].key,
        forall|i: int|
            0 <= i < o.fields.len() ==> #[trigger] populated(
                o,
                o.fields.take(n),
                identity,
                after,
                before,
                log,
            ).history[i] == (if i < n && log.has(entry_name(identity, o.fields[i].key)) {
                Some(window(log.entry(entry_name(identity, o.fields[i].key)).marks, after, before))
            } else {
                o.history[i]
            }),
    decreases n,
{
    if n == 0 {
        assert(o.fields.take(0) =~= Seq::empty());
    } else {
        let shorter = o.fields.take(n - 1);
        assert(o.fields.take(n).drop_last() =~= shorter);
        assert(o.fields.take(n).last() == o.fields[n - 1]);
        lemma_populated_prefix(o, identity, after, before, log, n - 1);
        let earlier = populated(o, shorter, identity, after, before, log);
        let name = entry_name(identity, o.fields[n - 1].key);
        if log.has(name) {
            let h = window(log.entry(name).marks, after, before);
            assert(log.entries[log.index_of(name)].wf());
            lemma_window(log.entry(name).marks, after, before);
            assert(earlier.fields[n - 1].key == o.fields[n - 1].key);
            lemma_with_history_at(earlier, n - 1, h);
        }
    }
}

/// The history window: after the enrichment, a field whose key has a
/// datalog entry under the identity has as its history the marks of that
/// entry after `after` and not after `before`, in their order, and no
/// others; every key of the object is still there, and no key was added.
pub proof fn lemma_history_window(
    o: ObjectModel,
    identity: Seq<char>,
    after: u64,
    before: u64,
    log: DatalogModel,
    k: int,
)
    requires
        o.wf(),
        log.wf(),
        0 <= k < o.fields.len(),
        log.has(entry_name(identity, o.fields[k].key)),
    ensures
        populated(o, o.fields, identity, after, before, log).wf(),
        populated(o, o.fields, identity, after, before, log).fields.len() == o.fields.len(),
        populated(o, o.fields, identity, after, before, log).has(o.fields[k].key),
        populated(o, o.fields, identity, after, before, log).history_of(o.fields[k].key) == Some(
            window(log.entry(entry_name(identity, o.fields[k].key)).marks, after, before),
        ),
{
    lemma_populated_prefix(o, identity, after, before, log, o.fields.len() as int);
    assert(o.fields.take(o.fields.len() as int) =~= o.fields);
    let r = populated(o, o.fields, identity, after, before, log);
    assert(r.fields[k].key == o.fields[k].key);
    lemma_index_of_key(r, k);
}

/// The datalog entry name for a key received by the client `identity`.
pub fn entry_name_of(identity: &str, key: &EnokiKey) -> (name: String)
    ensures
        name@ == entry_name(identity@, key@),
{
    key.duplicate().prefix(String::from_str(identity)).to_path_string()
}

/// Enriches an object with the history that the datalog holds for each of
/// its fields.
pub fn populate_history(
    obj: EnokiObject,
    identity: &str,
    after: EnokiTimeStamp,
    before: EnokiTimeStamp,
    datalog: &Datalog,
) -> (r: EnokiObject)
    requires
        obj.wf(),
        datalog.wf(),
    ensures
        r.wf(),
        r@ == populated(obj@, obj@.fields, identity@, after, before, datalog@),
{
    let mut keys: Vec<EnokiKey> = Vec::new();
    let fields = obj.get_fields();
    let mut k: usize = 0;
    while k < fields.len()
        invariant
            k <= fields.len(),
            keys.len() == k,
            crate::object::fields_model(fields@) == obj@.fields,
            forall|j: int| 0 <= j < k ==> keys@[j]@ == obj@.fields[j].key,
        decreases fields.len() - k,
    {
        assert(crate::object::fields_model(fields@)[k as int] == fields@[k as int]@);
        keys.push(fields[k].get_key().duplicate());
        k += 1;
    }
    let mut out = obj;
    let mut i: usize = 0;
    while i < keys.len()
        invariant
            i <= keys.len(),
            keys.len() == obj@.fields.len(),
            forall|j: int| 0 <= j < keys.len() ==> keys@[j]@ == obj@.fields[j].key,
            datalog.wf(),
            out.wf(),
            out@ == populated(obj@, obj@.fields.take(i as int), identity@, after, before, datalog@),
        decreases keys.len() - i,
    {
        proof {
            let grown = obj@.fields.take(i + 1);
            assert(grown.drop_last() =~= obj@.fields.take(i as int));
            assert(grown.last().key == keys@[i as int]@);
        }
        let name = entry_name_of(identity, &keys[i]);
        match datalog.history_of(name.as_str(), after, before) {
            Some(history) => {
                out.set_history(&keys[i], history);
            },
            None => {},
        }
        i += 1;
    }
    assert(obj@.fields.take(keys.len() as int) =~= obj@.fields);
    out
}

/// The object that holds, for each of the first `n` entries of the
/// datalog, the entry's marks as the history of the key that the entry's
/// name spells.
pub open spec fn datalog_object(log: DatalogModel, n: int, timestamp: u64) -> ObjectModel
    decreases n,
{
    if n <= 0 {
        ObjectModel { fields: Seq::empty(), history: Seq::empty(), timestamp }
    } else {
        datalog_object(log, n - 1, timestamp).with_history(
            key_segments(log.entries[n - 1].name),
            stamped_marks(log.entries[n - 1].marks),
        )
    }
}

/// The whole datalog as one object stamped `now`: one field per entry that
/// holds marks, with all its marks as history.
pub fn retrieve_dl_daemon_data(datalog: &Datalog, now: EnokiTimeStamp) -> (r: EnokiObject)
    requires
        datalog.wf(),
    ensures
        r.wf(),
        r@ == datalog_object(datalog@, datalog@.entries.len() as int, now),
{
    let mut obj = EnokiObject::new(now);
    let entries = datalog.summary();
    let mut i: usize = 0;
    proof {
        assert(obj@.fields =~= Seq::empty());
        assert(obj@.history =~= Seq::empty());
    }
    while i < entries.len()
        invariant
            i <= entries.len(),
            entries.len() == datalog@.entries.len(),
            forall|j: int|
                0 <= j < entries.len() ==> crate::datalog::summarises(
                    #[trigger] entries@[j],
                    datalog@.entries[j],
                ),
            datalog.wf(),
            obj.wf(),
            obj@ == datalog_object(datalog@, i as int, now),
        decreases entries.len() - i,
    {
        assert(crate::datalog::summarises(entries@[i as int], datalog@.entries[i as int]));
        let name = entries[i].name.as_str();
        let key = EnokiKey::parse(name);
        proof {
            lemma_index_of_name(datalog@, i as int);
        }
        match datalog.marks_of(name) {
            Some(history) => {
                obj.set_history(&key, history);
            },
            None => {},
        }
        i += 1;
    }
    obj
}

/// The metadata of an entry that a front end's mark declared.
pub open spec fn frontend_metadata() -> Seq<char> {
    "{source:\"frontend\"}"@
}

/// Why a mark that is to be recorded is refused, if it is: only a mark for
/// an entry that is there already can be.
pub open spec fn record_error(log: DatalogModel, name: Seq<char>, value: StampedModel) -> Option<
    EnokiError,
> {
    if log.has(name) {
        log.append_error(name, datalog_encode(value.value))
    } else {
        None
    }
}

/// The datalog after a mark was recorded under `name`: an entry that is
/// not there yet is declared first, with the type of the value and the
/// metadata given. A mark that is refused changes nothing.
pub open spec fn with_recorded(
    log: DatalogModel,
    name: Seq<char>,
    value: StampedModel,
    metadata: Seq<char>,
) -> DatalogModel {
    let stored = datalog_encode(value.value);
    if log.has(name) {
        if log.append_error(name, stored).is_none() {
            log.appended(name, stored, value.timestamp)
        } else {
            log
        }
    } else {
        log.started(name, stored.tag().name(), Some(metadata)).appended(
            name,
            stored,
            value.timestamp,
        )
    }
}

/// A mark that was recorded is the last mark of its entry: it holds the
/// value in its datalog form, under the time at which the entry stores it.
pub proof fn lemma_recorded_is_last(
    log: DatalogModel,
    name: Seq<char>,
    value: StampedModel,
    metadata: Seq<char>,
)
    requires
        log.wf(),
        record_error(log, name, value).is_none(),
    ensures
        with_recorded(log, name, value, metadata).has(name),
        with_recorded(log, name, value, metadata).entry(name).marks.len() > 0,
        with_recorded(log, name, value, metadata).entry(name).marks.last().value == datalog_encode(
            value.value,
        ),
        log.has(name) ==> with_recorded(log, name, value, metadata).entry(name).marks
            == log.entry(name).marks.push(
            MarkModel {
                timestamp: log.entry(name).stored_time(value.timestamp),
                value: datalog_encode(value.value),
            },
        ),
        !log.has(name) ==> with_recorded(log, name, value, metadata).entry(name).marks == seq![
            MarkModel { timestamp: value.timestamp, value: datalog_encode(value.value) },
        ],
        with_recorded(log, name, value, metadata).entry(name).marks.last().timestamp
            == log.stored_time(name, value.timestamp),
{
    let stored = datalog_encode(value.value);
    if log.has(name) {
        lemma_appended(log, name, stored, value.timestamp);
    } else {
        let declared = log.started(name, stored.tag().name(), Some(metadata));
        lemma_started(log, name, stored.tag().name(), Some(metadata));
        lemma_appended(declared, name, stored, value.timestamp);
        assert(declared.entry(name).with_mark(stored, value.timestamp).marks =~= seq![
            MarkModel { timestamp: value.timestamp, value: stored },
        ]);
    }
}

/// Recording a mark, taken or refused, leaves the index well formed.
pub proof fn lemma_recorded_wf(
    log: DatalogModel,
    name: Seq<char>,
    value: StampedModel,
    metadata: Seq<char>,
)
    requires
        log.wf(),
    ensures
        with_recorded(log, name, value, metadata).wf(),
{
    let stored = datalog_encode(value.value);
    if log.has(name) {
        if log.append_error(name, stored).is_none() {
            lemma_appended(log, name, stored, value.timestamp);
        }
    } else {
        lemma_started(log, name, stored.tag().name(), Some(metadata));
        lemma_appended(
            log.started(name, stored.tag().name(), Some(metadata)),
            name,
            stored,
            value.timestamp,
        );
    }
}

/// First use: recording a mark under a name that is not there leaves every
/// entry as it was and adds one at the end, with the name, the datalog
/// type of the value, the metadata given, and the mark as its only one,
/// under the time offered.
pub proof fn lemma_first_use(
    log: DatalogModel,
    name: Seq<char>,
    value: StampedModel,
    metadata: Seq<char>,
)
    requires
        log.wf(),
        !log.has(name),
    ensures
        record_error(log, name, value).is_none(),
        with_recorded(log, name, value, metadata).entries == log.entries.push(
            EntryModel {
                name,
                entry_type: datalog_encode(value.value).tag().name(),
                metadata: Some(metadata),
                finished: false,
                marks: seq![
                    MarkModel { timestamp: value.timestamp, value: datalog_encode(value.value) },
                ],
            },
        ),
{
    let stored = datalog_encode(value.value);
    let declared = log.started(name, stored.tag().name(), Some(metadata));
    lemma_started(log, name, stored.tag().name(), Some(metadata));
    assert(declared.entry(name).with_mark(stored, value.timestamp).marks =~= seq![
        MarkModel { timestamp: value.timestamp, value: stored },
    ]);
    assert(with_recorded(log, name, value, metadata).entries =~= log.entries.push(
        EntryModel {
            name,
            entry_type: stored.tag().name(),
            metadata: Some(metadata),
            finished: false,
            marks: seq![MarkModel { timestamp: value.timestamp, value: stored }],
        },
    ));
}

/// Records a mark under `name`, declaring the entry on first use with the
/// type of the value. After that a value of another type, or a mark for a
/// finished entry, is refused and changes nothing.
pub fn record_mark(
    datalog: &mut Datalog,
    name: &str,
    value: TimestampedEnokiValue,
    metadata: &str,
) -> (r: Result<(), EnokiError>)
    requires
        old(datalog).wf(),
    ensures
        final(datalog).wf(),
        final(datalog)@ == with_recorded(old(datalog)@, name@, value@, metadata@),
        match record_error(old(datalog)@, name@, value@) {
            Some(e) => r == Err::<(), EnokiError>(e),
            None => r.is_ok(),
        },
{
    let timestamp = value.timestamp;
    let stored = stored_form(value.value);
    if datalog.has_entry(name) {
        datalog.append_to_entry_with_timestamp(name, stored, timestamp)
    } else {
        let entry_type = stored.get_data_type();
        let started = datalog.start_entry(name, entry_type.as_str(), Some(metadata));
        proof {
            lemma_started(old(datalog)@, name@, entry_type@, Some(metadata@));
        }
        match started {
            Ok(()) => datalog.append_to_entry_with_timestamp(name, stored, timestamp),
            Err(e) => Err(e),
        }
    }
}

/// Writes a mark that a front end sent in for `field`.
pub fn send_mark(datalog: &mut Datalog, field: &str, value: TimestampedEnokiValue) -> (r: Result<
    (),
    EnokiError,
>)
    requires
        old(datalog).wf(),
    ensures
        final(datalog).wf(),
        final(datalog)@ == with_recorded(old(datalog)@, field@, value@, frontend_metadata()),
        match record_error(old(datalog)@, field@, value@) {
            Some(e) => r == Err::<(), EnokiError>(e),
            None => r.is_ok(),
        },
{
    record_mark(datalog, field, value, "{source:\"frontend\"}")
}

} // verus!
