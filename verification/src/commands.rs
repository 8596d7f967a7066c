//! The command surface: what a front end or a script asks of the clients
//! in the registry.
//!
//! A command that has something to send to a client's engine hands it
//! back, for the caller to put on the client's channel; a command that
//! reads takes the client's latest snapshot, which the caller has from the
//! client's handle.

use vstd::prelude::*;
use crate::datalog::Datalog;
use crate::engine::Snapshot;
use crate::error::EnokiError;
use crate::key::{key_segments, EnokiKey};
use crate::nt_types::{SubscriptionOptions, SubscriptionPackage};
use crate::object::{EnokiField, EnokiObject, ObjectModel, TimestampedEnokiValue};
use crate::query::populated;
use crate::registry::{ClientRegistry, NetworkTableClientId, StartOutcome};
use crate::value::EnokiTimeStamp;

verus! {

/// Starts a client for a server address under a name. A client that is
/// there under the same identity is replaced, so that one is there after
/// the call. Hands back the identity and what the start did.
pub fn start_network_table_client<H>(
    registry: &mut ClientRegistry<H>,
    ip: [u8; 4],
    port: u16,
    identity: String,
    handle: H,
) -> (r: (NetworkTableClientId, StartOutcome<H>))
    requires
        old(registry).wf(),
    ensures
        final(registry).wf(),
        r.0.ip == ip,
        r.0.port == port,
        r.0.identity@ == identity@,
        final(registry)@ == old(registry)@.started(r.0@, handle),
        old(registry)@.has(r.0@) ==> r.1 == StartOutcome::Replaced(
            old(registry)@.handles[old(registry)@.index_of_name(identity@)],
        ) && final(registry)@.has(r.0@),
        !old(registry)@.has(r.0@) && old(registry)@.name_in_use(identity@) ==> r.1
            == StartOutcome::Rejected(handle),
        !old(registry)@.name_in_use(identity@) ==> r.1 == StartOutcome::<H>::Started && final(registry)@.has(r.0@),
{
    let id = NetworkTableClientId::new(ip, port, identity);
    let outcome = registry.start(id.duplicate(), handle);
    (id, outcome)
}

/// The request to put on a client's channel for a subscription, or `None`
/// where no such client is there.
pub fn subscribe_to_topic<H>(
    registry: &ClientRegistry<H>,
    client_id: &NetworkTableClientId,
    topic: String,
    periodic: Option<u64>,
    all: Option<bool>,
    prefix: Option<bool>,
) -> (r: Option<SubscriptionPackage>)
    requires
        registry.wf(),
    ensures
        r.is_some() == registry@.has(client_id@),
        r.is_some() ==> r.unwrap() == (SubscriptionPackage {
            topic,
            unsubscribe: false,
            options: Some(SubscriptionOptions { all, prefix, periodic, topics_only: None }),
        }),
{
    if registry.contains(client_id) {
        Some(
            SubscriptionPackage::new(
                topic,
                SubscriptionOptions { all, prefix, periodic, topics_only: None },
            ),
        )
    } else {
        None
    }
}

/// The request to put on a client's channel to end a subscription, or
/// `None` where no such client is there.
pub fn unsubscribe_from_topic<H>(
    registry: &ClientRegistry<H>,
    client_id: &NetworkTableClientId,
    topic: String,
) -> (r: Option<SubscriptionPackage>)
    requires
        registry.wf(),
    ensures
        r.is_some() == registry@.has(client_id@),
        r.is_some() ==> r.unwrap() == (SubscriptionPackage {
            topic,
            unsubscribe: true,
            options: None,
        }),
{
    if registry.contains(client_id) {
        Some(SubscriptionPackage::unsub(topic))
    } else {
        None
    }
}

/// The object to put on a client's channel to publish a value under a
/// topic, or `None` where no such client is there.
pub fn set_topic_value<H>(
    registry: &ClientRegistry<H>,
    client_id: &NetworkTableClientId,
    topic: &str,
    value: TimestampedEnokiValue,
) -> (r: Option<EnokiObject>)
    requires
        registry.wf(),
    ensures
        r.is_some() == registry@.has(client_id@),
        r.is_some() ==> r.unwrap().wf() && r.unwrap()@ == (ObjectModel {
            fields: seq![crate::object::FieldModel { key: key_segments(topic@), value: value@ }],
            history: seq![None],
            timestamp: value.timestamp,
        }),
{
    if registry.contains(client_id) {
        Some(EnokiObject::from_field(EnokiField::new(EnokiKey::parse(topic), value)))
    } else {
        None
    }
}

/// Whether there is a client whose topic could be taken back. Nothing is
/// sent: a publication stays until its client stops.
pub fn unpublish_topic<H>(
    registry: &ClientRegistry<H>,
    client_id: &NetworkTableClientId,
    topic: &str,
) -> (found: bool)
    requires
        registry.wf(),
    ensures
        found == registry@.has(client_id@),
{
    registry.contains(client_id)
}

/// The latest object of a topic on a client, out of the client's latest
/// snapshot: a lost connection where no such client is there, a topic not
/// found where the client has no subscription to it.
pub fn get_subbed_data(client: Option<&Snapshot>, topic: &str) -> (r: Result<
    EnokiObject,
    EnokiError,
>)
    requires
        client.is_some() ==> client.unwrap().wf(),
    ensures
        match client {
            None => r == Err::<EnokiObject, EnokiError>(EnokiError::NTLostConnection),
            Some(snapshot) => match snapshot@.projection(topic@) {
                Some(o) => r.is_ok() && r.unwrap()@ == o && r.unwrap().wf(),
                None => r == Err::<EnokiObject, EnokiError>(EnokiError::NTTopicNotFound),
            },
        },
{
    match client {
        Some(snapshot) => snapshot.poll(topic),
        None => Err(EnokiError::NTLostConnection),
    }
}

/// The latest object of a topic on a client, with the history of each of
/// its fields out of the datalog: the marks after `after` and not after
/// `now`.
pub fn get_subbed_data_with_history(
    client: Option<&Snapshot>,
    topic: &str,
    after: EnokiTimeStamp,
    now: EnokiTimeStamp,
    datalog: &Datalog,
) -> (r: Result<EnokiObject, EnokiError>)
    requires
        client.is_some() ==> client.unwrap().wf(),
        datalog.wf(),
    ensures
        match client {
            None => r == Err::<EnokiObject, EnokiError>(EnokiError::NTLostConnection),
            Some(snapshot) => match snapshot@.projection(topic@) {
                Some(o) => r.is_ok() && r.unwrap().wf() && r.unwrap()@ == populated(
                    o,
                    o.fields,
                    snapshot@.identity,
                    after,
                    now,
                    datalog@,
                ),
                None => r == Err::<EnokiObject, EnokiError>(EnokiError::NTTopicNotFound),
            },
        },
{
    match client {
        Some(snapshot) => snapshot.poll_with_history(topic, after, now, datalog),
        None => Err(EnokiError::NTLostConnection),
    }
}

} // verus!
