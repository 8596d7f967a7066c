//! Timestamped values, fields, and the object: a snapshot of fields with at
//! most one field per key and an optional history for each.

use vstd::prelude::*;
use crate::key::EnokiKey;
use crate::value::{EnokiTimeStamp, EnokiValue, ValueModel};

verus! {

/// A value and the time, in microseconds of the client clock, at which it held.
#[derive(Clone, Debug, PartialEq)]
pub struct TimestampedEnokiValue {
    pub value: EnokiValue,
    pub timestamp: EnokiTimeStamp,
}

/// The mathematical content of a [`TimestampedEnokiValue`].
pub struct StampedModel {
    pub value: ValueModel,
    pub timestamp: u64,
}

impl View for TimestampedEnokiValue {
    type V = StampedModel;

    open spec fn view(&self) -> StampedModel {
        StampedModel { value: self.value@, timestamp: self.timestamp }
    }
}

impl TimestampedEnokiValue {
    /// A value with its timestamp.
    pub fn new(timestamp: EnokiTimeStamp, value: EnokiValue) -> (r: Self)
        ensures
            r.timestamp == timestamp,
            r.value == value,
    {
        TimestampedEnokiValue { timestamp, value }
    }

    /// A copy with the same content.
    pub fn duplicate(&self) -> (r: Self)
        ensures
            r@ == self@,
    {
        TimestampedEnokiValue { timestamp: self.timestamp, value: self.value.duplicate() }
    }
}

/// The contents of a vector of timestamped values.
pub open spec fn stamped_model(v: Seq<TimestampedEnokiValue>) -> Seq<StampedModel> {
    Seq::new(v.len(), |i: int| v[i]@)
}

/// Timestamps never go down along the sequence.
pub open spec fn chronological(h: Seq<StampedModel>) -> bool {
    forall|i: int, j: int| 0 <= i <= j < h.len() ==> h[i].timestamp <= h[j].timestamp
}

/// A copy of a vector of timestamped values.
pub fn copy_stamped(v: &Vec<TimestampedEnokiValue>) -> (r: Vec<TimestampedEnokiValue>)
    ensures
        stamped_model(r@) == stamped_model(v@),
{
    let mut r: Vec<TimestampedEnokiValue> = Vec::new();
    let mut i: usize = 0;
    while i < v.len()
        invariant
            i <= v.len(),
            r.len() == i,
            forall|j: int| 0 <= j < i ==> r@[j]@ == v@[j]@,
        decreases v.len() - i,
    {
        r.push(v[i].duplicate());
        i += 1;
    }
    assert(stamped_model(r@) =~= stamped_model(v@));
    r
}

/// A key with the value it currently has.
#[derive(Clone, Debug, PartialEq)]
pub struct EnokiField {
    pub value: TimestampedEnokiValue,
    pub key: EnokiKey,
}

/// The mathematical content of an [`EnokiField`].
pub struct FieldModel {
    pub key: Seq<Seq<char>>,
    pub value: StampedModel,
}

impl View for EnokiField {
    type V = FieldModel;

    open spec fn view(&self) -> FieldModel {
        FieldModel { key: self.key@, value: self.value@ }
    }
}

impl EnokiField {
    /// A field.
    pub fn new(key: EnokiKey, value: TimestampedEnokiValue) -> (r: Self)
        ensures
            r.key == key,
            r.value == value,
    {
        Self { key, value }
    }

    /// The key of the field.
    pub fn get_key(&self) -> (k: &EnokiKey)
        ensures
            *k == self.key,
    {
        &self.key
    }

    /// The value of the field with its timestamp.
    pub fn get_value(&self) -> (v: &TimestampedEnokiValue)
        ensures
            *v == self.value,
    {
        &self.value
    }

    /// A copy of the value of the field with its timestamp.
    pub fn get_value_owned(&self) -> (v: TimestampedEnokiValue)
        ensures
            v@ == self.value@,
    {
        self.value.duplicate()
    }

    /// The timestamp.
    pub fn get_timestamp(&self) -> (t: u64)
        ensures
            t == self.value.timestamp,
    {
        self.value.timestamp
    }

    /// A copy with the same content.
    pub fn duplicate(&self) -> (r: Self)
        ensures
            r@ == self@,
    {
        Self { key: self.key.duplicate(), value: self.value.duplicate() }
    }
}

/// The mathematical content of an [`EnokiObject`].
pub struct ObjectModel {
    pub fields: Seq<FieldModel>,
    /// One slot per field, in the order of the fields.
    pub history: Seq<Option<Seq<StampedModel>>>,
    pub timestamp: u64,
}

impl ObjectModel {
    /// One history slot per field; no key twice; a recorded history is in
    /// order of time and, where it holds anything, ends with the field's
    /// current value.
    pub open spec fn wf(self) -> bool {
        &&& self.history.len() == self.fields.len()
        &&& forall|i: int, j: int|
            0 <= i < j < self.fields.len() ==> self.fields[i].key != self.fields[j].key
        &&& forall|i: int|
            0 <= i < self.fields.len() ==> match #[trigger] self.history[i] {
                Some(h) => chronological(h) && (h.len() > 0 ==> h.last() == self.fields[i].value),
                None => true,
            }
    }

    /// Whether a field has that key.
    pub open spec fn has(self, key: Seq<Seq<char>>) -> bool {
        exists|i: int| 0 <= i < self.fields.len() && #[trigger] self.fields[i].key == key
    }

    /// The place of the field with that key, where there is one.
    pub open spec fn index_of(self, key: Seq<Seq<char>>) -> int {
        choose|i: int| 0 <= i < self.fields.len() && #[trigger] self.fields[i].key == key
    }

    /// The field with that key.
    pub open spec fn field(self, key: Seq<Seq<char>>) -> Option<FieldModel> {
        if self.has(key) {
            Some(self.fields[self.index_of(key)])
        } else {
            None
        }
    }

    /// The history recorded for that key.
    pub open spec fn history_of(self, key: Seq<Seq<char>>) -> Option<Seq<StampedModel>> {
        if self.has(key) {
            self.history[self.index_of(key)]
        } else {
            None
        }
    }

    /// The object after `f` was put in, with `h` in its history slot: in the
    /// place of the field with the same key, or else at the end.
    pub open spec fn put(self, f: FieldModel, h: Option<Seq<StampedModel>>) -> ObjectModel {
        if self.has(f.key) {
            let i = self.index_of(f.key);
            ObjectModel {
                fields: self.fields.update(i, f),
                history: self.history.update(i, h),
                timestamp: self.timestamp,
            }
        } else {
            ObjectModel {
                fields: self.fields.push(f),
                history: self.history.push(h),
                timestamp: self.timestamp,
            }
        }
    }

    /// The object after the fields were put in one after the other, each
    /// without a history.
    pub open spec fn put_all(self, fields: Seq<FieldModel>) -> ObjectModel
        decreases fields.len(),
    {
        if fields.len() == 0 {
            self
        } else {
            self.put_all(fields.drop_last()).put(fields.last(), None)
        }
    }

    /// The object after a history was recorded for a key. A history that
    /// holds something also sets the key's current value to its last
    /// element; an empty one is recorded only for a key that is there.
    pub open spec fn with_history(self, key: Seq<Seq<char>>, h: Seq<StampedModel>) -> ObjectModel {
        if h.len() > 0 {
            self.put(FieldModel { key, value: h.last() }, Some(h))
        } else if self.has(key) {
            ObjectModel {
                fields: self.fields,
                history: self.history.update(self.index_of(key), Some(h)),
                timestamp: self.timestamp,
            }
        } else {
            self
        }
    }
}

/// What [`ObjectModel::put`] does, seen from the keys: the new field is the
/// field of its key, its history slot holds what was given, the field and
/// history of every other key stay as they were, and the object stays
/// well formed.
pub proof fn lemma_put(o: ObjectModel, f: FieldModel, h: Option<Seq<StampedModel>>)
    requires
        o.wf(),
        match h {
            Some(s) => chronological(s) && (s.len() > 0 ==> s.last() == f.value),
            None => true,
        },
    ensures
        o.put(f, h).wf(),
        o.put(f, h).has(f.key),
        o.put(f, h).field(f.key) == Some(f),
        o.put(f, h).history_of(f.key) == h,
        forall|k: Seq<Seq<char>>|
            k != f.key ==> o.put(f, h).has(k) == o.has(k) && o.put(f, h).field(k) == o.field(k)
                && o.put(f, h).history_of(k) == o.history_of(k),
{
    let n = o.put(f, h);
    let at: int = if o.has(f.key) {
        o.index_of(f.key)
    } else {
        o.fields.len() as int
    };
    assert(n.fields[at].key == f.key);
    assert(n.fields.len() == n.history.len());
    assert forall|i: int, j: int| 0 <= i < j < n.fields.len() implies n.fields[i].key
        != n.fields[j].key by {
        if o.has(f.key) {
            assert(o.fields[i].key != o.fields[j].key);
        } else if j < o.fields.len() {
            assert(o.fields[i].key != o.fields[j].key);
        } else {
            assert(o.fields[i].key != f.key);
        }
    }
    assert forall|i: int| 0 <= i < n.fields.len() implies match #[trigger] n.history[i] {
        Some(s) => chronological(s) && (s.len() > 0 ==> s.last() == n.fields[i].value),
        None => true,
    } by {
        if i != at {
            assert(n.history[i] == o.history[i]);
            assert(n.fields[i] == o.fields[i]);
        }
    }
    assert(n.has(f.key));
    assert(n.index_of(f.key) == at);
    assert forall|k: Seq<Seq<char>>| k != f.key implies n.has(k) == o.has(k) && n.field(k)
        == o.field(k) && n.history_of(k) == o.history_of(k) by {
        if o.has(k) {
            let i = o.index_of(k);
            assert(n.fields[i].key == k);
            assert(n.has(k));
            let j = n.index_of(k);
            assert(j != at);
            assert(o.fields[j].key == k);
            assert(i == j);
        } else if n.has(k) {
            let j = n.index_of(k);
            assert(j != at);
            assert(o.fields[j].key == k);
        }
    }
}

/// In a well-formed object a key is found where it stands, and nowhere
/// else.
pub proof fn lemma_index_of_key(o: ObjectModel, j: int)
    requires
        o.wf(),
        0 <= j < o.fields.len(),
    ensures
        o.has(o.fields[j].key),
        o.index_of(o.fields[j].key) == j,
        o.field(o.fields[j].key) == Some(o.fields[j]),
        o.history_of(o.fields[j].key) == o.history[j],
{
    let found = o.index_of(o.fields[j].key);
    if found < j {
        assert(o.fields[found].key != o.fields[j].key);
    } else if j < found {
        assert(o.fields[j].key != o.fields[found].key);
    }
}

/// Recording a history for the key of a field leaves the keys and their
/// order as they are, puts the history into the slot of that field, and
/// touches no other field and no other slot.
pub proof fn lemma_with_history_at(o: ObjectModel, j: int, h: Seq<StampedModel>)
    requires
        o.wf(),
        0 <= j < o.fields.len(),
        chronological(h),
    ensures
        o.with_history(o.fields[j].key, h).wf(),
        o.with_history(o.fields[j].key, h).fields.len() == o.fields.len(),
        forall|i: int|
            0 <= i < o.fields.len() ==> (#[trigger] o.with_history(o.fields[j].key, h).fields[i]).key
                == o.fields[i].key,
        forall|i: int|
            0 <= i < o.fields.len() && i != j ==> #[trigger] o.with_history(
                o.fields[j].key,
                h,
            ).fields[i] == o.fields[i],
        o.with_history(o.fields[j].key, h).history == o.history.update(j, Some(h)),
        o.with_history(o.fields[j].key, h).timestamp == o.timestamp,
{
    let key = o.fields[j].key;
    lemma_index_of_key(o, j);
    let r = o.with_history(key, h);
    if h.len() > 0 {
        lemma_put(o, FieldModel { key, value: h.last() }, Some(h));
    } else {
        assert forall|i: int| 0 <= i < r.fields.len() implies match #[trigger] r.history[i] {
            Some(s) => chronological(s) && (s.len() > 0 ==> s.last() == r.fields[i].value),
            None => true,
        } by {
            if i != j {
                assert(r.history[i] == o.history[i]);
            }
        }
        assert forall|a: int, b: int| 0 <= a < b < r.fields.len() implies r.fields[a].key
            != r.fields[b].key by {
            assert(o.fields[a].key != o.fields[b].key);
        }
    }
}

/// A snapshot of fields.
#[derive(Clone, Debug)]
pub struct EnokiObject {
    /// The fields, no key twice, in the order in which their keys came.
    fields: Vec<EnokiField>,
    /// The history recorded for each field, at the place of the field.
    history: Vec<Option<Vec<TimestampedEnokiValue>>>,
    timestamp: EnokiTimeStamp,
}

/// The contents of a vector of fields.
pub open spec fn fields_model(v: Seq<EnokiField>) -> Seq<FieldModel> {
    Seq::new(v.len(), |i: int| v[i]@)
}

/// The content of one history slot.
pub open spec fn slot_model(h: Option<Vec<TimestampedEnokiValue>>) -> Option<Seq<StampedModel>> {
    match h {
        Some(v) => Some(stamped_model(v@)),
        None => None,
    }
}

impl View for EnokiObject {
    type V = ObjectModel;

    closed spec fn view(&self) -> ObjectModel {
        ObjectModel {
            fields: fields_model(self.fields@),
            history: Seq::new(self.history@.len(), |i: int| slot_model(self.history@[i])),
            timestamp: self.timestamp,
        }
    }
}

impl EnokiObject {
    /// The invariant of the object.
    pub open spec fn wf(&self) -> bool {
        self@.wf()
    }

    /// An object without fields.
    pub fn new(timestamp: EnokiTimeStamp) -> (r: Self)
        ensures
            r.wf(),
            r@.fields.len() == 0,
            r@.history.len() == 0,
            r@.timestamp == timestamp,
    {
        Self { timestamp, fields: Vec::new(), history: Vec::new() }
    }

    /// An object with one field, stamped with the field's time.
    pub fn from_field(field: EnokiField) -> (r: Self)
        ensures
            r.wf(),
            r@ == (ObjectModel {
                fields: seq![field@],
                history: seq![None],
                timestamp: field.value.timestamp,
            }),
    {
        let timestamp = field.get_timestamp();
        let mut obj = Self::new(timestamp);
        let ghost before = obj@;
        assert(!before.has(field@.key));
        obj.add_field(field);
        assert(obj@.fields =~= seq![field@]);
        assert(obj@.history =~= seq![None]);
        obj
    }

    fn find(&self, key: &EnokiKey) -> (r: Option<usize>)
        requires
            self.wf(),
        ensures
            r.is_some() == self@.has(key@),
            r.is_some() ==> r.unwrap() as int == self@.index_of(key@) && r.unwrap()
                < self.fields.len(),
    {
        let mut i: usize = 0;
        while i < self.fields.len()
            invariant
                i <= self.fields.len(),
                self.wf(),
                forall|j: int| 0 <= j < i ==> self@.fields[j].key != key@,
            decreases self.fields.len() - i,
        {
            if self.fields[i].key.same_as(key) {
                assert(self@.fields[i as int].key == key@);
                return Some(i);
            }
            i += 1;
        }
        None
    }

    fn put(&mut self, entry: EnokiField, history: Option<Vec<TimestampedEnokiValue>>)
        requires
            old(self).wf(),
        ensures
            final(self)@ == old(self)@.put(entry@, slot_model(history)),
    {
        match self.find(&entry.key) {
            Some(i) => {
                self.fields.set(i, entry);
                self.history.set(i, history);
                assert(self@.fields =~= old(self)@.put(entry@, slot_model(history)).fields);
                assert(self@.history =~= old(self)@.put(entry@, slot_model(history)).history);
            },
            None => {
                self.fields.push(entry);
                self.history.push(history);
                assert(self@.fields =~= old(self)@.put(entry@, slot_model(history)).fields);
                assert(self@.history =~= old(self)@.put(entry@, slot_model(history)).history);
            },
        }
    }

    /// Puts the field in: in the place of the field with the same key, or
    /// else at the end. The key has no recorded history afterwards.
    pub fn add_field(&mut self, entry: EnokiField)
        requires
            old(self).wf(),
        ensures
            final(self).wf(),
            final(self)@ == old(self)@.put(entry@, None),
    {
        proof {
            lemma_put(self@, entry@, None);
        }
        self.put(entry, None);
    }

    /// Puts the field in together with its history.
    pub fn add_field_with_history(
        &mut self,
        entry: EnokiField,
        history: Vec<TimestampedEnokiValue>,
    )
        requires
            old(self).wf(),
            chronological(stamped_model(history@)),
            history@.len() > 0 ==> history@.last()@ == entry.value@,
        ensures
            final(self).wf(),
            final(self)@ == old(self)@.put(entry@, Some(stamped_model(history@))),
    {
        proof {
            lemma_put(self@, entry@, Some(stamped_model(history@)));
        }
        self.put(entry, Some(history));
    }

    /// Records a history for a key. A history that holds something also sets
    /// the key's current value to its last element, and makes the field
    /// where the key has none; an empty one is recorded only for a key that
    /// is there.
    pub fn set_history(&mut self, path: &EnokiKey, history: Vec<TimestampedEnokiValue>)
        requires
            old(self).wf(),
            chronological(stamped_model(history@)),
        ensures
            final(self).wf(),
            final(self)@ == old(self)@.with_history(path@, stamped_model(history@)),
    {
        if history.len() > 0 {
            let last = history[history.len() - 1].duplicate();
            let entry = EnokiField::new(path.duplicate(), last);
            self.add_field_with_history(entry, history);
        } else {
            match self.find(path) {
                Some(i) => {
                    self.history.set(i, Some(history));
                    assert(self@.history =~= old(self)@.with_history(
                        path@,
                        stamped_model(history@),
                    ).history);
                    assert(self@.fields =~= old(self)@.fields);
                },
                None => {},
            }
        }
    }

    /// The field with that key.
    pub fn get_field(&self, path: &EnokiKey) -> (r: Option<EnokiField>)
        requires
            self.wf(),
        ensures
            r.is_some() == self@.has(path@),
            r.is_some() ==> Some(r.unwrap()@) == self@.field(path@),
    {
        match self.find(path) {
            Some(i) => Some(self.fields[i].duplicate()),
            None => None,
        }
    }

    /// The field with that key and the history recorded for it, which is
    /// empty where none was recorded.
    pub fn get_field_with_history(&self, path: &EnokiKey) -> (r: Option<
        (EnokiField, Vec<TimestampedEnokiValue>),
    >)
        requires
            self.wf(),
        ensures
            r.is_some() == self@.has(path@),
            r.is_some() ==> Some(r.unwrap().0@) == self@.field(path@),
            r.is_some() ==> stamped_model(r.unwrap().1@) == match self@.history_of(path@) {
                Some(h) => h,
                None => Seq::empty(),
            },
    {
        match self.find(path) {
            Some(i) => {
                let entry = self.fields[i].duplicate();
                let history = match &self.history[i] {
                    Some(h) => copy_stamped(h),
                    None => {
                        let h: Vec<TimestampedEnokiValue> = Vec::new();
                        assert(stamped_model(h@) =~= Seq::empty());
                        h
                    },
                };
                Some((entry, history))
            },
            None => None,
        }
    }

    /// A copy in which no key has a recorded history.
    pub fn clone_without_history(&self) -> (r: Self)
        requires
            self.wf(),
        ensures
            r.wf(),
            r@.fields == self@.fields,
            r@.timestamp == self@.timestamp,
            r@.history == Seq::new(self@.fields.len(), |i: int| None::<Seq<StampedModel>>),
    {
        let mut fields: Vec<EnokiField> = Vec::new();
        let mut history: Vec<Option<Vec<TimestampedEnokiValue>>> = Vec::new();
        let mut i: usize = 0;
        while i < self.fields.len()
            invariant
                i <= self.fields.len(),
                fields.len() == i,
                history.len() == i,
                forall|j: int| 0 <= j < i ==> fields@[j]@ == self.fields@[j]@,
                forall|j: int| 0 <= j < i ==> history@[j].is_none(),
            decreases self.fields.len() - i,
        {
            fields.push(self.fields[i].duplicate());
            history.push(None);
            i += 1;
        }
        let r = Self { fields, history, timestamp: self.timestamp };
        assert(r@.fields =~= self@.fields);
        assert(r@.history =~= Seq::new(self@.fields.len(), |i: int| None::<Seq<StampedModel>>));
        r
    }

    /// A copy with the same content.
    pub fn duplicate(&self) -> (r: Self)
        requires
            self.wf(),
        ensures
            r.wf(),
            r@ == self@,
    {
        let mut fields: Vec<EnokiField> = Vec::new();
        let mut history: Vec<Option<Vec<TimestampedEnokiValue>>> = Vec::new();
        let mut i: usize = 0;
        while i < self.fields.len()
            invariant
                i <= self.fields.len(),
                self.fields.len() == self.history.len(),
                fields.len() == i,
                history.len() == i,
                forall|j: int| 0 <= j < i ==> fields@[j]@ == self.fields@[j]@,
                forall|j: int| 0 <= j < i ==> slot_model(history@[j]) == slot_model(self.history@[j]),
            decreases self.fields.len() - i,
        {
            fields.push(self.fields[i].duplicate());
            let slot = match &self.history[i] {
                Some(h) => Some(copy_stamped(h)),
                None => None,
            };
            history.push(slot);
            i += 1;
        }
        let r = Self { fields, history, timestamp: self.timestamp };
        assert(r@.fields =~= self@.fields);
        assert(r@.history =~= self@.history);
        r
    }

    /// The fields, in their order.
    pub fn get_fields(&self) -> (r: &Vec<EnokiField>)
        ensures
            fields_model(r@) == self@.fields,
    {
        &self.fields
    }

    /// The timestamp.
    pub fn get_timestamp(&self) -> (t: EnokiTimeStamp)
        ensures
            t == self@.timestamp,
    {
        self.timestamp
    }

    /// Whether a field has that key.
    pub fn has_field(&self, path: &EnokiKey) -> (b: bool)
        requires
            self.wf(),
        ensures
            b == self@.has(path@),
    {
        self.find(path).is_some()
    }

    /// Whether the object has no field.
    pub fn is_empty(&self) -> (b: bool)
        ensures
            b == (self@.fields.len() == 0),
    {
        self.fields.len() == 0
    }

    /// The number of fields.
    pub fn len(&self) -> (n: usize)
        ensures
            n == self@.fields.len(),
    {
        self.fields.len()
    }

    /// Puts in every field of `other`, in its order.
    pub fn update_fields(&mut self, other: &EnokiObject)
        requires
            old(self).wf(),
        ensures
            final(self).wf(),
            final(self)@ == old(self)@.put_all(other@.fields),
    {
        let mut i: usize = 0;
        while i < other.fields.len()
            invariant
                i <= other.fields.len(),
                self.wf(),
                self@ == old(self)@.put_all(other@.fields.take(i as int)),
            decreases other.fields.len() - i,
        {
            proof {
                let grown = other@.fields.take(i + 1);
                assert(grown.drop_last() =~= other@.fields.take(i as int));
                assert(grown.last() == other.fields@[i as int]@);
            }
            self.add_field(other.fields[i].duplicate());
            i += 1;
        }
        assert(other@.fields.take(other.fields.len() as int) =~= other@.fields);
    }

    /// Sets the timestamp of the object.
    pub fn set_timestamp(&mut self, timestamp: EnokiTimeStamp)
        ensures
            final(self)@ == (ObjectModel { timestamp, ..old(self)@ }),
    {
        self.timestamp = timestamp;
    }

    /// Takes over the timestamp of `other`.
    pub fn update_timestamp(&mut self, other: &EnokiObject)
        ensures
            final(self)@ == (ObjectModel { timestamp: other@.timestamp, ..old(self)@ }),
    {
        self.timestamp = other.get_timestamp();
    }

    /// Puts in every field of `other` and takes over its timestamp.
    pub fn update_all(&mut self, other: &EnokiObject)
        requires
            old(self).wf(),
        ensures
            final(self).wf(),
            final(self)@ == (ObjectModel {
                timestamp: other@.timestamp,
                ..old(self)@.put_all(other@.fields)
            }),
    {
        self.update_fields(other);
        self.update_timestamp(other);
    }
}

} // verus!
