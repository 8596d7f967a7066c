//! The decisions of a client engine.
//!
//! The engine's task performs the network work and hands each outcome to
//! the state kept here, which says what to do next: which requests to send
//! for a subscription command, how to publish the fields of an object,
//! where a received value goes. The state holds the subscriptions, the
//! declared publications and the projection: the latest object per
//! subscribed topic.

use vstd::prelude::*;
use crate::datalog::{lemma_appended, lemma_started, Datalog, DatalogModel, MarkModel};
use crate::datalog_value::datalog_encode;
use crate::error::EnokiError;
use crate::key::{join_segments, key_segments, EnokiKey};
use crate::nt_types::{
    datalog_type, datalog_type_name, next_state, wire_type, wire_type_of, ConnectionEvent,
    ConnectionState, NtType, SubscriptionPackage,
};
use crate::object::{
    lemma_put, EnokiField, EnokiObject, FieldModel, ObjectModel, StampedModel,
    TimestampedEnokiValue,
};
use crate::query::{
    entry_name, entry_name_of, lemma_recorded_is_last, lemma_recorded_wf, populate_history,
    populated, record_error, record_mark, with_recorded,
};
use crate::time_bridge::{nearest_u64, TimeBridge};
use crate::value::{strings_model, EnokiTimeStamp, ValueModel};
use crate::wire::{from_wire, to_wire, wire_decode, wire_encode, WireModel, WireValue};

verus! {

/// The metadata of an entry that a received value declared.
pub open spec fn client_metadata() -> Seq<char> {
    "{ source: \"Enoki Network Table Client\"}"@
}

/// The requests that a subscription command calls for.
#[derive(Clone, Copy, Debug, PartialEq, Eq, Structural)]
pub struct SubscriptionPlan {
    /// End the subscription that exists for the topic.
    pub unsubscribe_first: bool,
    /// Subscribe to the topic, with the command's options.
    pub subscribe: bool,
}

/// What to do for one field of an object that is to be published.
#[derive(Clone, Debug, PartialEq)]
pub enum PublishAction {
    /// Send the value, after declaring the topic where `declare` is set.
    Send { path: String, declare: bool, nt_type: NtType, value: WireValue },
    /// Send nothing: the topic was declared with another type.
    Refuse { path: String, declared: NtType },
}

/// The mathematical content of a [`PublishAction`].
pub enum ActionModel {
    Send { path: Seq<char>, declare: bool, nt_type: NtType, value: WireModel },
    Refuse { path: Seq<char>, declared: NtType },
}

impl View for PublishAction {
    type V = ActionModel;

    open spec fn view(&self) -> ActionModel {
        match self {
            PublishAction::Send { path, declare, nt_type, value } => ActionModel::Send {
                path: path@,
                declare: *declare,
                nt_type: *nt_type,
                value: value@,
            },
            PublishAction::Refuse { path, declared } => ActionModel::Refuse {
                path: path@,
                declared: *declared,
            },
        }
    }
}

/// The contents of a vector of actions.
pub open spec fn actions_model(v: Seq<PublishAction>) -> Seq<ActionModel> {
    Seq::new(v.len(), |i: int| v[i]@)
}

/// The mathematical content of an engine's state.
pub struct EngineModel {
    pub identity: Seq<char>,
    pub bridge: TimeBridge,
    pub connection: ConnectionState,
    /// The topics subscribed to.
    pub subs: Seq<Seq<char>>,
    /// The paths declared for publishing, each with its type.
    pub pub_paths: Seq<Seq<char>>,
    pub pub_types: Seq<NtType>,
    /// The topics of the projection, each with its latest object.
    pub topics: Seq<Seq<char>>,
    pub objects: Seq<ObjectModel>,
}

/// An object without fields.
pub open spec fn empty_object(timestamp: u64) -> ObjectModel {
    ObjectModel { fields: Seq::empty(), history: Seq::empty(), timestamp }
}

impl EngineModel {
    /// No topic, path or projection key occurs twice, every path has a
    /// type, every projection key a well-formed object, and every topic
    /// subscribed to an object in the projection.
    #[verifier::opaque]
    pub open spec fn wf(self) -> bool {
        &&& self.subs.no_duplicates()
        &&& forall|i: int| 0 <= i < self.subs.len() ==> self.topics.contains(#[trigger] self.subs[i])
        &&& self.pub_paths.no_duplicates()
        &&& self.pub_paths.len() == self.pub_types.len()
        &&& self.topics.no_duplicates()
        &&& self.topics.len() == self.objects.len()
        &&& forall|i: int| 0 <= i < self.objects.len() ==> (#[trigger] self.objects[i]).wf()
    }

    /// The latest object of a topic.
    pub open spec fn projection(self, topic: Seq<char>) -> Option<ObjectModel> {
        if self.topics.contains(topic) {
            Some(self.objects[self.topics.index_of(topic)])
        } else {
            None
        }
    }

    /// The type with which a path was declared.
    pub open spec fn declared(self, path: Seq<char>) -> Option<NtType> {
        if self.pub_paths.contains(path) {
            Some(self.pub_types[self.pub_paths.index_of(path)])
        } else {
            None
        }
    }

    /// The state without a subscription to `topic`.
    pub open spec fn without_sub(self, topic: Seq<char>) -> EngineModel {
        if self.subs.contains(topic) {
            EngineModel { subs: self.subs.remove(self.subs.index_of(topic)), ..self }
        } else {
            self
        }
    }

    /// The state with a subscription to `topic`, and an empty object for
    /// it in the projection.
    pub open spec fn with_sub(self, topic: Seq<char>, now: u64) -> EngineModel {
        let subs = if self.subs.contains(topic) {
            self.subs
        } else {
            self.subs.push(topic)
        };
        if self.topics.contains(topic) {
            EngineModel {
                subs,
                objects: self.objects.update(self.topics.index_of(topic), empty_object(now)),
                ..self
            }
        } else {
            EngineModel {
                subs,
                topics: self.topics.push(topic),
                objects: self.objects.push(empty_object(now)),
                ..self
            }
        }
    }

    /// What to do for a field that is to be published.
    pub open spec fn publish_action(self, f: FieldModel) -> ActionModel {
        let path = join_segments(f.key);
        let nt_type = wire_type_of(f.value.value.tag());
        match self.declared(path) {
            Some(declared) => if declared == nt_type {
                ActionModel::Send {
                    path,
                    declare: false,
                    nt_type,
                    value: wire_encode(f.value.value),
                }
            } else {
                ActionModel::Refuse { path, declared }
            },
            None => ActionModel::Send {
                path,
                declare: true,
                nt_type,
                value: wire_encode(f.value.value),
            },
        }
    }

    /// The state after a field was planned for publishing: its path is
    /// declared with the type of its value, unless it was declared.
    pub open spec fn after_publish(self, f: FieldModel) -> EngineModel {
        let path = join_segments(f.key);
        if self.pub_paths.contains(path) {
            self
        } else {
            EngineModel {
                pub_paths: self.pub_paths.push(path),
                pub_types: self.pub_types.push(wire_type_of(f.value.value.tag())),
                ..self
            }
        }
    }

    /// The state after the fields were planned one after the other.
    pub open spec fn after_publish_all(self, fields: Seq<FieldModel>) -> EngineModel
        decreases fields.len(),
    {
        if fields.len() == 0 {
            self
        } else {
            self.after_publish_all(fields.drop_last()).after_publish(fields.last())
        }
    }

    /// The actions for the fields, each decided in the state that the
    /// fields before it left.
    pub open spec fn publish_actions(self, fields: Seq<FieldModel>) -> Seq<ActionModel>
        decreases fields.len(),
    {
        if fields.len() == 0 {
            Seq::empty()
        } else {
            self.publish_actions(fields.drop_last()).push(
                self.after_publish_all(fields.drop_last()).publish_action(fields.last()),
            )
        }
    }

    /// The field that a received value offers: the key that the topic name
    /// spells, and the value at the client time of the server's timestamp.
    pub open spec fn received_field(self, topic_name: Seq<char>, server_time: u64, value: ValueModel) -> FieldModel {
        FieldModel {
            key: key_segments(topic_name),
            value: StampedModel {
                value,
                timestamp: nearest_u64(server_time + self.bridge.offset),
            },
        }
    }

    /// The state after a field was delivered to the object of a
    /// subscription. Without an object for the subscription nothing
    /// changes.
    pub open spec fn with_field(self, sub_topic: Seq<char>, f: FieldModel, now: u64) -> EngineModel {
        if self.topics.contains(sub_topic) {
            let i = self.topics.index_of(sub_topic);
            EngineModel {
                objects: self.objects.update(
                    i,
                    ObjectModel { timestamp: now, ..self.objects[i].put(f, None) },
                ),
                ..self
            }
        } else {
            self
        }
    }
}

/// What receiving a value does to the engine and the datalog, and the
/// error that the datalog answered, if it did. A value that decodes is
/// first offered to the datalog, under the client's identity in front of
/// the key, and then delivered to the projection, at the client time of
/// its server timestamp, whatever the datalog answered: a mark that is
/// refused is dropped, the value is not. A value that does not decode
/// changes nothing.
pub open spec fn received(
    engine: EngineModel,
    log: DatalogModel,
    sub_topic: Seq<char>,
    topic_name: Seq<char>,
    server_time: u64,
    nt_type: NtType,
    data: WireModel,
    now: u64,
) -> (EngineModel, DatalogModel, Option<EnokiError>) {
    match wire_decode(nt_type, data) {
        Err(e) => (engine, log, Some(EnokiError::TypeMismatch)),
        Ok(value) => {
            let f = engine.received_field(topic_name, server_time, value);
            let name = entry_name(engine.identity, f.key);
            (
                engine.with_field(sub_topic, f, now),
                with_recorded(log, name, f.value, client_metadata()),
                record_error(log, name, f.value),
            )
        },
    }
}

/// Last writer wins, and write before publish. A value that decodes is
/// afterwards the field of its key in the object of its subscription, at
/// the client time of its server timestamp, whatever was there before and
/// whatever the datalog answered. The datalog was offered the value in the
/// same step, before the projection changed: where it took the value, the
/// value is the last mark of the entry named by the identity and the key,
/// and where it took it at the offered time, that mark is the delivered
/// field. A value that does not decode changes neither.
pub proof fn lemma_received(
    engine: EngineModel,
    log: DatalogModel,
    sub_topic: Seq<char>,
    topic_name: Seq<char>,
    server_time: u64,
    nt_type: NtType,
    data: WireModel,
    now: u64,
)
    requires
        engine.wf(),
        log.wf(),
    ensures
        ({
            let (after, logged, error) = received(
                engine,
                log,
                sub_topic,
                topic_name,
                server_time,
                nt_type,
                data,
                now,
            );
            &&& after.wf()
            &&& wire_decode(nt_type, data).is_err() ==> after == engine && logged == log && error
                == Some(EnokiError::TypeMismatch)
            &&& wire_decode(nt_type, data).is_ok() ==> {
                let f = engine.received_field(
                    topic_name,
                    server_time,
                    wire_decode(nt_type, data).unwrap(),
                );
                let name = entry_name(engine.identity, f.key);
                &&& f.value.timestamp == nearest_u64(server_time + engine.bridge.offset)
                &&& engine.topics.contains(sub_topic) ==> {
                    &&& after.projection(sub_topic).is_some()
                    &&& after.projection(sub_topic).unwrap().field(f.key) == Some(f)
                    &&& after.projection(sub_topic).unwrap().timestamp == now
                }
                &&& !engine.topics.contains(sub_topic) ==> after == engine
                &&& error == record_error(log, name, f.value)
                &&& error.is_some() ==> logged == log
                &&& error.is_none() ==> {
                    &&& logged.has(name)
                    &&& logged.entry(name).marks.len() > 0
                    &&& logged.entry(name).marks.last() == (MarkModel {
                        timestamp: log.stored_time(name, f.value.timestamp),
                        value: datalog_encode(f.value.value),
                    })
                }
            }
        }),
{
    reveal(EngineModel::wf);
    let (after, logged, error) = received(
        engine,
        log,
        sub_topic,
        topic_name,
        server_time,
        nt_type,
        data,
        now,
    );
    if wire_decode(nt_type, data).is_ok() {
        let f = engine.received_field(topic_name, server_time, wire_decode(nt_type, data).unwrap());
        let name = entry_name(engine.identity, f.key);
        if record_error(log, name, f.value).is_none() {
            lemma_recorded_is_last(log, name, f.value, client_metadata());
        }
        if engine.topics.contains(sub_topic) {
            let i = engine.topics.index_of(sub_topic);
            assert(engine.objects[i].wf());
            lemma_put(engine.objects[i], f, None);
            let o = ObjectModel { timestamp: now, ..engine.objects[i].put(f, None) };
            assert(o.fields == engine.objects[i].put(f, None).fields);
            assert(o.has(f.key) == engine.objects[i].put(f, None).has(f.key));
            assert(o.index_of(f.key) == engine.objects[i].put(f, None).index_of(f.key));
            assert(o.wf());
            assert forall|k: int| 0 <= k < after.objects.len() implies (#[trigger] after.objects[k]).wf() by {
                if k != i {
                    assert(engine.objects[k].wf());
                }
            }
            assert(after.topics.contains(sub_topic));
        }
    }
}

/// Publish and echo: a value that arrives for a topic with an object in
/// the projection, and whose datalog entry is new or takes it at its own
/// time, is then polled as it was sent, at the client time of its server
/// time; and the datalog holds it as the last mark of the entry named by
/// the identity and the key, an entry of the datalog type of the value.
pub proof fn lemma_echo(
    engine: EngineModel,
    log: DatalogModel,
    sub_topic: Seq<char>,
    topic_name: Seq<char>,
    server_time: u64,
    nt_type: NtType,
    data: WireModel,
    now: u64,
)
    requires
        engine.wf(),
        log.wf(),
        engine.topics.contains(sub_topic),
        wire_decode(nt_type, data).is_ok(),
        ({
            let offered = engine.received_field(
                topic_name,
                server_time,
                wire_decode(nt_type, data).unwrap(),
            );
            let name = entry_name(engine.identity, offered.key);
            log.has(name) ==> log.append_error(name, datalog_encode(offered.value.value)).is_none()
                && (log.entry(name).marks.len() > 0 ==> log.entry(name).marks.last().timestamp
                <= offered.value.timestamp)
        }),
    ensures
        ({
            let (after, logged, error) = received(
                engine,
                log,
                sub_topic,
                topic_name,
                server_time,
                nt_type,
                data,
                now,
            );
            let offered = engine.received_field(
                topic_name,
                server_time,
                wire_decode(nt_type, data).unwrap(),
            );
            let name = entry_name(engine.identity, offered.key);
            &&& error.is_none()
            &&& offered.value.timestamp == nearest_u64(server_time + engine.bridge.offset)
            &&& after.projection(sub_topic).is_some()
            &&& after.projection(sub_topic).unwrap().field(offered.key) == Some(offered)
            &&& logged.has(name)
            &&& logged.entry(name).entry_type == datalog_encode(offered.value.value).tag().name()
            &&& logged.entry(name).marks.len() > 0
            &&& logged.entry(name).marks.last() == (MarkModel {
                timestamp: offered.value.timestamp,
                value: datalog_encode(offered.value.value),
            })
        }),
{
    let value = wire_decode(nt_type, data).unwrap();
    let offered = engine.received_field(topic_name, server_time, value);
    let name = entry_name(engine.identity, offered.key);
    let stored = datalog_encode(value);
    lemma_received(engine, log, sub_topic, topic_name, server_time, nt_type, data, now);
    lemma_recorded_is_last(log, name, offered.value, client_metadata());
    if log.has(name) {
        lemma_appended(log, name, stored, offered.value.timestamp);
    } else {
        lemma_started(log, name, stored.tag().name(), Some(client_metadata()));
        lemma_appended(
            log.started(name, stored.tag().name(), Some(client_metadata())),
            name,
            stored,
            offered.value.timestamp,
        );
    }
}

/// A value as it arrives for a subscription: the name of its topic, the
/// server's timestamp, the type of the topic and the value on the wire.
#[derive(Clone, Debug, PartialEq)]
pub struct InboundMessage {
    pub topic_name: String,
    pub timestamp: u64,
    /// The type of the topic, which the frame carries beside the value.
    pub nt_type: NtType,
    pub data: WireValue,
}

/// The mathematical content of an [`InboundMessage`].
pub struct MessageModel {
    pub topic_name: Seq<char>,
    pub timestamp: u64,
    pub nt_type: NtType,
    pub data: WireModel,
}

impl View for InboundMessage {
    type V = MessageModel;

    open spec fn view(&self) -> MessageModel {
        MessageModel {
            topic_name: self.topic_name@,
            timestamp: self.timestamp,
            nt_type: self.nt_type,
            data: self.data@,
        }
    }
}

/// The contents of a vector of messages.
pub open spec fn messages_model(v: Seq<InboundMessage>) -> Seq<MessageModel> {
    Seq::new(v.len(), |i: int| v[i]@)
}

/// What receiving messages one after the other, in their order, does to
/// the engine and the datalog, with the error of each message: that it did
/// not decode, or what the datalog answered to its mark.
pub open spec fn received_all(
    engine: EngineModel,
    log: DatalogModel,
    sub_topic: Seq<char>,
    messages: Seq<MessageModel>,
    now: u64,
) -> (EngineModel, DatalogModel, Seq<Option<EnokiError>>)
    decreases messages.len(),
{
    if messages.len() == 0 {
        (engine, log, Seq::empty())
    } else {
        let (e, l, errors) = received_all(engine, log, sub_topic, messages.drop_last(), now);
        let m = messages.last();
        let (e2, l2, error) = received(
            e,
            l,
            sub_topic,
            m.topic_name,
            m.timestamp,
            m.nt_type,
            m.data,
            now,
        );
        (e2, l2, errors.push(error))
    }
}

/// A topic that is subscribed to has an object in the projection: a poll
/// for it finds one, which is empty until a value has arrived.
pub proof fn lemma_subscribed_polls(engine: EngineModel, topic: Seq<char>)
    requires
        engine.wf(),
        engine.subs.contains(topic),
    ensures
        engine.projection(topic).is_some(),
        engine.projection(topic).unwrap().wf(),
{
    reveal(EngineModel::wf);
    let i = engine.subs.index_of(topic);
    assert(engine.topics.contains(engine.subs[i]));
    let k = engine.topics.index_of(topic);
    assert(engine.objects[k].wf());
}

/// Last writer wins over a tick: after the messages of a tick were taken
/// in, in their order, the engine and the datalog are well formed, the
/// subscriptions, topics and time bridge stand as they stood, and where
/// the last message decodes, its value is the field of its key in the
/// object of the subscription, at the client time of its server timestamp.
pub proof fn lemma_received_all(
    engine: EngineModel,
    log: DatalogModel,
    sub_topic: Seq<char>,
    messages: Seq<MessageModel>,
    now: u64,
)
    requires
        engine.wf(),
        log.wf(),
    ensures
        ({
            let (after, logged, errors) = received_all(engine, log, sub_topic, messages, now);
            &&& after.wf()
            &&& logged.wf()
            &&& errors.len() == messages.len()
            &&& after.identity == engine.identity
            &&& after.bridge == engine.bridge
            &&& after.subs == engine.subs
            &&& after.topics == engine.topics
            &&& messages.len() > 0 && engine.topics.contains(sub_topic) && wire_decode(
                messages.last().nt_type,
                messages.last().data,
            ).is_ok() ==> {
                let m = messages.last();
                let f = engine.received_field(
                    m.topic_name,
                    m.timestamp,
                    wire_decode(m.nt_type, m.data).unwrap(),
                );
                &&& f.value.timestamp == nearest_u64(m.timestamp + engine.bridge.offset)
                &&& after.projection(sub_topic).is_some()
                &&& after.projection(sub_topic).unwrap().field(f.key) == Some(f)
            }
        }),
    decreases messages.len(),
{
    if messages.len() > 0 {
        lemma_received_all(engine, log, sub_topic, messages.drop_last(), now);
        let (e, l, errors) = received_all(engine, log, sub_topic, messages.drop_last(), now);
        let m = messages.last();
        lemma_received(e, l, sub_topic, m.topic_name, m.timestamp, m.nt_type, m.data, now);
        if wire_decode(m.nt_type, m.data).is_ok() {
            let f = e.received_field(m.topic_name, m.timestamp, wire_decode(m.nt_type, m.data).unwrap());
            lemma_recorded_wf(l, entry_name(e.identity, f.key), f.value, client_metadata());
        }
    }
}

/// The state of one client engine.
#[derive(Debug)]
pub struct EngineState {
    identity: String,
    bridge: TimeBridge,
    connection: ConnectionState,
    /// The topics subscribed to, none twice, in the order of subscribing.
    subs: Vec<String>,
    /// The paths declared for publishing, none twice.
    pub_paths: Vec<String>,
    /// The type of each declared path, at the place of the path.
    pub_types: Vec<NtType>,
    /// The topics of the projection, none twice.
    topics: Vec<String>,
    /// The latest object of each topic, at the place of the topic.
    objects: Vec<EnokiObject>,
}

/// The contents of a vector of objects.
pub open spec fn objects_model(v: Seq<EnokiObject>) -> Seq<ObjectModel> {
    Seq::new(v.len(), |i: int| v[i]@)
}

impl View for EngineState {
    type V = EngineModel;

    closed spec fn view(&self) -> EngineModel {
        EngineModel {
            identity: self.identity@,
            bridge: self.bridge,
            connection: self.connection,
            subs: strings_model(self.subs@),
            pub_paths: strings_model(self.pub_paths@),
            pub_types: self.pub_types@,
            topics: strings_model(self.topics@),
            objects: objects_model(self.objects@),
        }
    }
}

/// The projection of a client as it goes out to readers: each topic with
/// its latest object, and the identity under which the client logs.
#[derive(Clone, Debug)]
pub struct Snapshot {
    identity: String,
    /// The topics, none twice.
    topics: Vec<String>,
    /// The latest object of each topic, at the place of the topic.
    objects: Vec<EnokiObject>,
}

/// The mathematical content of a [`Snapshot`].
pub struct SnapshotModel {
    pub identity: Seq<char>,
    pub topics: Seq<Seq<char>>,
    pub objects: Seq<ObjectModel>,
}

impl SnapshotModel {
    /// No topic twice, and every topic with a well-formed object.
    pub open spec fn wf(self) -> bool {
        &&& self.topics.no_duplicates()
        &&& self.topics.len() == self.objects.len()
        &&& forall|i: int| 0 <= i < self.objects.len() ==> (#[trigger] self.objects[i]).wf()
    }

    /// The latest object of a topic.
    pub open spec fn projection(self, topic: Seq<char>) -> Option<ObjectModel> {
        if self.topics.contains(topic) {
            Some(self.objects[self.topics.index_of(topic)])
        } else {
            None
        }
    }
}

impl View for Snapshot {
    type V = SnapshotModel;

    closed spec fn view(&self) -> SnapshotModel {
        SnapshotModel {
            identity: self.identity@,
            topics: strings_model(self.topics@),
            objects: objects_model(self.objects@),
        }
    }
}

/// The place of a name among names of which none occurs twice.
fn position(names: &Vec<String>, name: &str) -> (r: Option<usize>)
    requires
        strings_model(names@).no_duplicates(),
    ensures
        r.is_some() == strings_model(names@).contains(name@),
        r.is_some() ==> r.unwrap() < names.len() && r.unwrap() as int == strings_model(
            names@,
        ).index_of(name@),
{
    let wanted = String::from_str(name);
    let ghost m = strings_model(names@);
    let mut i: usize = 0;
    while i < names.len()
        invariant
            i <= names.len(),
            m == strings_model(names@),
            m.no_duplicates(),
            wanted@ == name@,
            forall|j: int| 0 <= j < i ==> m[j] != name@,
        decreases names.len() - i,
    {
        if names[i] == wanted {
            assert(m[i as int] == name@);
            assert(m.index_of(name@) == i) by {
                let k = m.index_of(name@);
                if k != i {
                    assert(m[k] != m[i as int]);
                }
            }
            return Some(i);
        }
        i += 1;
    }
    None
}

impl Snapshot {
    /// The invariant of the snapshot.
    pub open spec fn wf(&self) -> bool {
        self@.wf()
    }

    /// The snapshot of a client that has subscribed to nothing yet.
    pub fn new(identity: String) -> (r: Self)
        ensures
            r.wf(),
            r@ == (SnapshotModel {
                identity: identity@,
                topics: Seq::empty(),
                objects: Seq::empty(),
            }),
    {
        let r = Snapshot { identity, topics: Vec::new(), objects: Vec::new() };
        assert(r@.topics =~= Seq::empty());
        assert(r@.objects =~= Seq::empty());
        r
    }

    /// The latest object of a subscribed topic. It is empty until a value
    /// has arrived.
    pub fn poll(&self, topic: &str) -> (r: Result<EnokiObject, EnokiError>)
        requires
            self.wf(),
        ensures
            match self@.projection(topic@) {
                Some(o) => r.is_ok() && r.unwrap()@ == o && r.unwrap().wf(),
                None => r == Err::<EnokiObject, EnokiError>(EnokiError::NTTopicNotFound),
            },
    {
        match position(&self.topics, topic) {
            Some(i) => {
                assert(self@.objects[i as int].wf());
                Ok(self.objects[i].duplicate())
            },
            None => Err(EnokiError::NTTopicNotFound),
        }
    }

    /// The latest object of a subscribed topic, with the history of each
    /// of its fields out of the datalog: the marks after `after` and not
    /// after `now`.
    pub fn poll_with_history(
        &self,
        topic: &str,
        after: EnokiTimeStamp,
        now: EnokiTimeStamp,
        datalog: &Datalog,
    ) -> (r: Result<EnokiObject, EnokiError>)
        requires
            self.wf(),
            datalog.wf(),
        ensures
            match self@.projection(topic@) {
                Some(o) => r.is_ok() && r.unwrap().wf() && r.unwrap()@ == populated(
                    o,
                    o.fields,
                    self@.identity,
                    after,
                    now,
                    datalog@,
                ),
                None => r == Err::<EnokiObject, EnokiError>(EnokiError::NTTopicNotFound),
            },
    {
        match self.poll(topic) {
            Ok(object) => Ok(populate_history(object, self.identity.as_str(), after, now, datalog)),
            Err(e) => Err(e),
        }
    }

    /// The topics of the snapshot.
    pub fn topics(&self) -> (names: Vec<String>)
        ensures
            strings_model(names@) == self@.topics,
    {
        crate::value::copy_strings(&self.topics)
    }

    /// The number of topics.
    pub fn len(&self) -> (n: usize)
        ensures
            n == self@.topics.len(),
    {
        self.topics.len()
    }
}

impl EngineState {
    /// The invariant of the state.
    pub open spec fn wf(&self) -> bool {
        self@.wf()
    }

    /// The state of an engine that is dialing: nothing subscribed, nothing
    /// declared, an empty projection.
    pub fn new(identity: String) -> (r: Self)
        ensures
            r.wf(),
            r@ == (EngineModel {
                identity: identity@,
                bridge: TimeBridge { offset: 0, synced: false },
                connection: ConnectionState::Dialing,
                subs: Seq::empty(),
                pub_paths: Seq::empty(),
                pub_types: Seq::empty(),
                topics: Seq::empty(),
                objects: Seq::empty(),
            }),
    {
        let r = EngineState {
            identity,
            bridge: TimeBridge::new(),
            connection: ConnectionState::Dialing,
            subs: Vec::new(),
            pub_paths: Vec::new(),
            pub_types: Vec::new(),
            topics: Vec::new(),
            objects: Vec::new(),
        };
        proof {
            reveal(EngineModel::wf);
        }
        assert(r@.subs =~= Seq::empty());
        assert(r@.pub_paths =~= Seq::empty());
        assert(r@.pub_types =~= Seq::empty());
        assert(r@.topics =~= Seq::empty());
        assert(r@.objects =~= Seq::empty());
        r
    }

    /// Takes an event of the connection into the state.
    pub fn note_event(&mut self, event: ConnectionEvent)
        ensures
            final(self)@ == (EngineModel {
                connection: next_state(old(self)@.connection, event),
                ..old(self)@
            }),
            old(self).wf() ==> final(self).wf(),
    {
        proof {
            reveal(EngineModel::wf);
        }
        self.connection = self.connection.on(event);
    }

    /// Takes a round-trip probe into the time bridge.
    pub fn note_probe(&mut self, sent: u64, received: u64, server: u64)
        ensures
            final(self)@ == (EngineModel {
                bridge: old(self)@.bridge.after_probe(sent, received, server),
                ..old(self)@
            }),
            old(self).wf() ==> final(self).wf(),
    {
        proof {
            reveal(EngineModel::wf);
        }
        self.bridge.probe(sent, received, server);
    }

    /// The first half of a subscription command: says which requests to
    /// send, and forgets the subscription that is to be ended first.
    pub fn begin_subscription(&mut self, command: &SubscriptionPackage) -> (plan: SubscriptionPlan)
        requires
            old(self).wf(),
        ensures
            final(self).wf(),
            plan.unsubscribe_first == old(self)@.subs.contains(command.topic@),
            plan.subscribe == !command.unsubscribe,
            final(self)@ == old(self)@.without_sub(command.topic@),
    {
        proof {
            reveal(EngineModel::wf);
        }
        match position(&self.subs, command.topic.as_str()) {
            Some(i) => {
                self.subs.remove(i);
                assert(self@.subs =~= old(self)@.subs.remove(i as int));
                assert forall|a: int| 0 <= a < self@.subs.len() implies self@.topics.contains(
                    #[trigger] self@.subs[a],
                ) by {
                    let a0 = if a < i {
                        a
                    } else {
                        a + 1
                    };
                    assert(self@.subs[a] == old(self)@.subs[a0]);
                    assert(old(self)@.topics.contains(old(self)@.subs[a0]));
                }
                assert forall|a: int, b: int|
                    0 <= a < self@.subs.len() && 0 <= b < self@.subs.len() && a
                        != b implies self@.subs[a] != self@.subs[b] by {
                    let a0 = if a < i {
                        a
                    } else {
                        a + 1
                    };
                    let b0 = if b < i {
                        b
                    } else {
                        b + 1
                    };
                    assert(old(self)@.subs[a0] != old(self)@.subs[b0]);
                }
                SubscriptionPlan { unsubscribe_first: true, subscribe: !command.unsubscribe }
            },
            None => SubscriptionPlan { unsubscribe_first: false, subscribe: !command.unsubscribe },
        }
    }

    /// The second half of a subscription command, after the subscribe
    /// request was sent. A request that succeeded is recorded, and the
    /// topic gets an empty object in the projection; one that failed
    /// leaves the state as it is and is reported as a network error.
    pub fn finish_subscription(&mut self, topic: &str, succeeded: bool, now: EnokiTimeStamp) -> (r:
        Result<(), EnokiError>)
        requires
            old(self).wf(),
        ensures
            final(self).wf(),
            succeeded ==> r.is_ok() && final(self)@ == old(self)@.with_sub(topic@, now),
            !succeeded ==> r == Err::<(), EnokiError>(EnokiError::NetworkError) && final(self)@
                == old(self)@,
    {
        proof {
            reveal(EngineModel::wf);
        }
        if !succeeded {
            return Err(EnokiError::NetworkError);
        }
        if position(&self.subs, topic).is_none() {
            self.subs.push(String::from_str(topic));
            assert(self@.subs =~= old(self)@.subs.push(topic@));
        }
        let ghost subs = self@.subs;
        assert(subs.no_duplicates());
        let fresh = EnokiObject::new(now);
        assert(fresh@.fields =~= Seq::empty());
        assert(fresh@.history =~= Seq::empty());
        assert(fresh@ == empty_object(now));
        match position(&self.topics, topic) {
            Some(i) => {
                self.objects.set(i, fresh);
                assert(self@.objects =~= old(self)@.objects.update(i as int, empty_object(now)));
                assert forall|k: int| 0 <= k < self@.objects.len() implies (#[trigger] self@.objects[k]).wf() by {
                    if k != i {
                        assert(old(self)@.objects[k].wf());
                    }
                }
                assert(self@.topics[i as int] == topic@);
            },
            None => {
                self.topics.push(String::from_str(topic));
                self.objects.push(fresh);
                assert(self@.topics =~= old(self)@.topics.push(topic@));
                assert(self@.objects =~= old(self)@.objects.push(empty_object(now)));
                assert forall|k: int| 0 <= k < self@.objects.len() implies (#[trigger] self@.objects[k]).wf() by {
                    if k < old(self)@.objects.len() {
                        assert(old(self)@.objects[k].wf());
                    }
                }
                assert(self@.topics[old(self)@.topics.len() as int] == topic@);
                assert forall|a: int, b: int|
                    0 <= a < self@.topics.len() && 0 <= b < self@.topics.len() && a
                        != b implies self@.topics[a] != self@.topics[b] by {
                    let n = old(self)@.topics.len();
                    if a < n && b < n {
                        assert(old(self)@.topics[a] != old(self)@.topics[b]);
                    } else if a < n {
                        assert(old(self)@.topics[a] != topic@);
                    } else {
                        assert(old(self)@.topics[b] != topic@);
                    }
                }
            },
        }
        proof {
            assert(self@.topics.contains(topic@));
            assert forall|a: int| 0 <= a < subs.len() implies self@.topics.contains(
                #[trigger] subs[a],
            ) by {
                if a < old(self)@.subs.len() {
                    assert(subs[a] == old(self)@.subs[a]);
                    assert(old(self)@.topics.contains(old(self)@.subs[a]));
                    let k = old(self)@.topics.index_of(old(self)@.subs[a]);
                    assert(self@.topics[k] == subs[a]);
                } else {
                    assert(subs[a] == topic@);
                }
            }
        }
        Ok(())
    }

    fn plan_field(&mut self, field: &EnokiField) -> (action: PublishAction)
        requires
            old(self).wf(),
        ensures
            final(self).wf(),
            action@ == old(self)@.publish_action(field@),
            final(self)@ == old(self)@.after_publish(field@),
    {
        proof {
            reveal(EngineModel::wf);
        }
        let path = field.get_key().to_path_string();
        let nt_type = wire_type(&field.get_value().value);
        let value = to_wire(&field.get_value().value);
        match position(&self.pub_paths, path.as_str()) {
            Some(i) => {
                let declared = self.pub_types[i];
                if declared == nt_type {
                    PublishAction::Send { path, declare: false, nt_type, value }
                } else {
                    PublishAction::Refuse { path, declared }
                }
            },
            None => {
                self.pub_paths.push(path.clone());
                self.pub_types.push(nt_type);
                assert(self@.pub_paths =~= old(self)@.pub_paths.push(path@));
                PublishAction::Send { path, declare: true, nt_type, value }
            },
        }
    }

    /// Plans the publishing of an object: one action per field, in the
    /// order of the fields. A path that is not declared yet is declared
    /// with the type of its value; a value of another type than its path
    /// was declared with is refused.
    pub fn plan_publish(&mut self, object: &EnokiObject) -> (actions: Vec<PublishAction>)
        requires
            old(self).wf(),
        ensures
            final(self).wf(),
            final(self)@ == old(self)@.after_publish_all(object@.fields),
            actions_model(actions@) == old(self)@.publish_actions(object@.fields),
    {
        let fields = object.get_fields();
        let mut actions: Vec<PublishAction> = Vec::new();
        let mut i: usize = 0;
        proof {
            assert(object@.fields.take(0) =~= Seq::empty());
            assert(actions_model(actions@) =~= Seq::empty());
        }
        while i < fields.len()
            invariant
                i <= fields.len(),
                crate::object::fields_model(fields@) == object@.fields,
                self.wf(),
                self@ == old(self)@.after_publish_all(object@.fields.take(i as int)),
                actions_model(actions@) == old(self)@.publish_actions(
                    object@.fields.take(i as int),
                ),
            decreases fields.len() - i,
        {
            let ghost start = old(self)@;
            let ghost grown = object@.fields.take(i + 1);
            let ghost earlier = object@.fields.take(i as int);
            proof {
                assert(grown.drop_last() =~= earlier);
                assert(crate::object::fields_model(fields@)[i as int] == fields@[i as int]@);
                assert(grown.last() == fields@[i as int]@);
                assert(start.after_publish_all(grown) == start.after_publish_all(
                    earlier,
                ).after_publish(grown.last()));
                assert(start.publish_actions(grown) == start.publish_actions(earlier).push(
                    start.after_publish_all(earlier).publish_action(grown.last()),
                ));
            }
            let ghost before = actions_model(actions@);
            let action = self.plan_field(&fields[i]);
            actions.push(action);
            assert(actions_model(actions@) =~= before.push(action@));
            i += 1;
        }
        assert(object@.fields.take(fields.len() as int) =~= object@.fields);
        actions
    }

    /// Takes a received value in. It is offered to the datalog first,
    /// under the client's identity in front of its key, and then
    /// delivered to the object of the subscription, at the client time of
    /// its server timestamp; the object is stamped `now`. What the datalog
    /// answered is handed back: a mark that it refused is dropped, the
    /// value is delivered all the same. A value that does not decode is a
    /// type mismatch and changes nothing.
    pub fn receive(
        &mut self,
        datalog: &mut Datalog,
        sub_topic: &str,
        topic_name: &str,
        server_time: u64,
        nt_type: NtType,
        data: &WireValue,
        now: EnokiTimeStamp,
    ) -> (r: Result<(), EnokiError>)
        requires
            old(self).wf(),
            old(datalog).wf(),
        ensures
            final(self).wf(),
            final(datalog).wf(),
            ({
                let (after, logged, error) = received(
                    old(self)@,
                    old(datalog)@,
                    sub_topic@,
                    topic_name@,
                    server_time,
                    nt_type,
                    data@,
                    now,
                );
                &&& final(self)@ == after
                &&& final(datalog)@ == logged
                &&& match error {
                    Some(e) => r == Err::<(), EnokiError>(e),
                    None => r.is_ok(),
                }
            }),
    {
        proof {
            reveal(EngineModel::wf);
            lemma_received(
                self@,
                datalog@,
                sub_topic@,
                topic_name@,
                server_time,
                nt_type,
                data@,
                now,
            );
        }
        let value = match from_wire(nt_type, data) {
            Ok(value) => value,
            Err(e) => {
                return Err(EnokiError::TypeMismatch);
            },
        };
        let key = EnokiKey::parse(topic_name);
        let timestamp = self.bridge.to_client_time(server_time);
        let name = entry_name_of(self.identity.as_str(), &key);
        let stamped = TimestampedEnokiValue::new(timestamp, value);
        let logged = record_mark(
            datalog,
            name.as_str(),
            stamped.duplicate(),
            "{ source: \"Enoki Network Table Client\"}",
        );
        let field = EnokiField::new(key, stamped);
        match position(&self.topics, sub_topic) {
            Some(i) => {
                let mut object = self.objects.remove(i);
                assert(object@ == old(self)@.objects[i as int]);
                assert(old(self)@.objects[i as int].wf());
                object.add_field(field);
                object.set_timestamp(now);
                self.objects.insert(i, object);
                assert(self@.objects =~= old(self)@.with_field(sub_topic@, field@, now).objects);
            },
            None => {},
        }
        logged
    }

    /// Takes in the values that arrived for a subscription in a tick, in
    /// their order. Hands back, for each, the error that came of it, if
    /// one did: that it did not decode, or what the datalog answered to
    /// its mark.
    pub fn receive_all(
        &mut self,
        datalog: &mut Datalog,
        sub_topic: &str,
        messages: &Vec<InboundMessage>,
        now: EnokiTimeStamp,
    ) -> (errors: Vec<Option<EnokiError>>)
        requires
            old(self).wf(),
            old(datalog).wf(),
        ensures
            final(self).wf(),
            final(datalog).wf(),
            (final(self)@, final(datalog)@, errors@) == received_all(
                old(self)@,
                old(datalog)@,
                sub_topic@,
                messages_model(messages@),
                now,
            ),
    {
        let mut errors: Vec<Option<EnokiError>> = Vec::new();
        let mut i: usize = 0;
        let ghost all = messages_model(messages@);
        proof {
            assert(all.take(0) =~= Seq::empty());
        }
        while i < messages.len()
            invariant
                i <= messages.len(),
                all == messages_model(messages@),
                self.wf(),
                datalog.wf(),
                (self@, datalog@, errors@) == received_all(
                    old(self)@,
                    old(datalog)@,
                    sub_topic@,
                    all.take(i as int),
                    now,
                ),
            decreases messages.len() - i,
        {
            proof {
                let grown = all.take(i + 1);
                assert(grown.drop_last() =~= all.take(i as int));
                assert(grown.last() == messages@[i as int]@);
            }
            let message = &messages[i];
            let result = self.receive(
                datalog,
                sub_topic,
                message.topic_name.as_str(),
                message.timestamp,
                message.nt_type,
                &message.data,
                now,
            );
            let error = match result {
                Ok(()) => None,
                Err(e) => Some(e),
            };
            errors.push(error);
            i += 1;
        }
        assert(all.take(messages.len() as int) =~= all);
        errors
    }

    /// The latest object of a subscribed topic. It is empty until a value
    /// has arrived.
    pub fn poll(&self, topic: &str) -> (r: Result<EnokiObject, EnokiError>)
        requires
            self.wf(),
        ensures
            match self@.projection(topic@) {
                Some(o) => r.is_ok() && r.unwrap()@ == o && r.unwrap().wf(),
                None => r == Err::<EnokiObject, EnokiError>(EnokiError::NTTopicNotFound),
            },
    {
        proof {
            reveal(EngineModel::wf);
        }
        match position(&self.topics, topic) {
            Some(i) => {
                assert(self@.objects[i as int].wf());
                Ok(self.objects[i].duplicate())
            },
            None => Err(EnokiError::NTTopicNotFound),
        }
    }

    /// The latest object of a subscribed topic, with the history of each
    /// of its fields out of the datalog: the marks after `after` and not
    /// after `now`.
    pub fn poll_with_history(
        &self,
        topic: &str,
        after: EnokiTimeStamp,
        now: EnokiTimeStamp,
        datalog: &Datalog,
    ) -> (r: Result<EnokiObject, EnokiError>)
        requires
            self.wf(),
            datalog.wf(),
        ensures
            match self@.projection(topic@) {
                Some(o) => r.is_ok() && r.unwrap().wf() && r.unwrap()@ == populated(
                    o,
                    o.fields,
                    self@.identity,
                    after,
                    now,
                    datalog@,
                ),
                None => r == Err::<EnokiObject, EnokiError>(EnokiError::NTTopicNotFound),
            },
    {
        match self.poll(topic) {
            Ok(object) => Ok(populate_history(object, self.identity.as_str(), after, now, datalog)),
            Err(e) => Err(e),
        }
    }

    /// Prepares the state for a session that was opened again: the
    /// publications are forgotten, so that each is declared anew on its
    /// next send, and the time bridge starts over. Hands back the topics
    /// whose subscriptions are to be issued again.
    pub fn on_reconnect(&mut self) -> (topics: Vec<String>)
        requires
            old(self).wf(),
        ensures
            final(self).wf(),
            final(self)@ == (EngineModel {
                pub_paths: Seq::empty(),
                pub_types: Seq::empty(),
                bridge: TimeBridge { offset: 0, synced: false },
                ..old(self)@
            }),
            strings_model(topics@) == old(self)@.subs,
    {
        proof {
            reveal(EngineModel::wf);
        }
        self.pub_paths = Vec::new();
        self.pub_types = Vec::new();
        self.bridge.reset();
        assert(self@.pub_paths =~= Seq::empty());
        assert(self@.pub_types =~= Seq::empty());
        crate::value::copy_strings(&self.subs)
    }

    /// The whole projection as it goes out on the latest-value channel:
    /// each topic with a copy of its latest object.
    pub fn snapshot(&self) -> (r: Snapshot)
        requires
            self.wf(),
        ensures
            r.wf(),
            r@ == (SnapshotModel {
                identity: self@.identity,
                topics: self@.topics,
                objects: self@.objects,
            }),
    {
        proof {
            reveal(EngineModel::wf);
        }
        let mut objects: Vec<EnokiObject> = Vec::new();
        let mut i: usize = 0;
        while i < self.objects.len()
            invariant
                i <= self.objects.len(),
                forall|j: int| 0 <= j < self@.objects.len() ==> (#[trigger] self@.objects[j]).wf(),
                objects.len() == i,
                forall|j: int| 0 <= j < i ==> (#[trigger] objects@[j])@ == self.objects@[j]@,
            decreases self.objects.len() - i,
        {
            assert(self@.objects[i as int].wf());
            objects.push(self.objects[i].duplicate());
            i += 1;
        }
        assert(objects_model(objects@) =~= self@.objects);
        Snapshot {
            identity: self.identity.clone(),
            topics: crate::value::copy_strings(&self.topics),
            objects,
        }
    }

    /// The topics of the projection.
    pub fn topics(&self) -> (names: Vec<String>)
        ensures
            strings_model(names@) == self@.topics,
    {
        crate::value::copy_strings(&self.topics)
    }

    /// Where the connection stands.
    pub fn connection(&self) -> (c: ConnectionState)
        ensures
            c == self@.connection,
    {
        self.connection
    }

    /// The time bridge of the connection.
    pub fn bridge(&self) -> (b: TimeBridge)
        ensures
            b == self@.bridge,
    {
        self.bridge
    }
}

/// Declares the datalog entry of a topic that the server announced, under
/// the topic's name and with the datalog type of the topic's type.
pub fn on_announce(datalog: &mut Datalog, topic_name: &str, nt_type: &NtType) -> (r: Result<
    (),
    EnokiError,
>)
    requires
        old(datalog).wf(),
    ensures
        final(datalog).wf(),
        old(datalog)@.has(topic_name@) ==> r == Err::<(), EnokiError>(
            EnokiError::EntryAlreadyExists,
        ) && final(datalog)@ == old(datalog)@,
        !old(datalog)@.has(topic_name@) ==> r.is_ok() && final(datalog)@ == old(datalog)@.started(
            topic_name@,
            datalog_type_name(*nt_type),
            Some(client_metadata()),
        ),
{
    let entry_type = datalog_type(nt_type);
    datalog.start_entry(
        topic_name,
        entry_type.as_str(),
        Some("{ source: \"Enoki Network Table Client\"}"),
    )
}

/// Finishes the datalog entry of a topic that the server took back. An
/// announcement without a topic changes nothing and is no error.
pub fn on_un_announce(datalog: &mut Datalog, topic_name: Option<&str>) -> (r: Result<
    (),
    EnokiError,
>)
    requires
        old(datalog).wf(),
    ensures
        final(datalog).wf(),
        match topic_name {
            None => r.is_ok() && final(datalog)@ == old(datalog)@,
            Some(name) => if old(datalog)@.open_for(name@) {
                r.is_ok() && final(datalog)@ == old(datalog)@.finished(name@)
            } else {
                r == Err::<(), EnokiError>(EnokiError::DLEntryNotFound) && final(datalog)@ == old(datalog)@
            },
        },
{
    match topic_name {
        Some(name) => datalog.finish_entry(name),
        None => Ok(()),
    }
}

} // verus!
