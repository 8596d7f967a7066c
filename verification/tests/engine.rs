use enoki::clock::now;
use enoki::commands::{
    get_subbed_data, get_subbed_data_with_history, set_topic_value, start_network_table_client,
    subscribe_to_topic, unpublish_topic, unsubscribe_from_topic,
};
use enoki::datalog::Datalog;
use enoki::datalog_value::DataLogValue;
use enoki::engine::{
    on_announce, on_un_announce, EngineState, InboundMessage, PublishAction, Snapshot,
    SubscriptionPlan,
};
use enoki::error::EnokiError;
use enoki::key::EnokiKey;
use enoki::nt_types::{
    datalog_type, wire_type, ConnectionEvent, ConnectionState, NtType, SubscriptionOptions,
    SubscriptionPackage,
};
use enoki::object::{EnokiField, EnokiObject, TimestampedEnokiValue};
use enoki::paths::{datalog_file_name, datalog_relative_path, padded_decimal, LocalTime};
use enoki::registry::{
    get_connect_client_names, is_network_table_client_stopped, stop_network_table_client,
    ClientRegistry, NetworkTableClientId, StartOutcome,
};
use enoki::robot::{ip_from_team_number, DeviceTags, ResourceTags, TeamNumbers, TerminalId};
use enoki::text::decimal_string;
use enoki::time_bridge::{remaining_sleep, TimeBridge};
use enoki::value::EnokiValue;
use enoki::wire::{WireScalar, WireValue};

fn wire_int(v: i64) -> WireValue {
    WireValue::Scalar(WireScalar::Integer(v))
}

fn options() -> SubscriptionOptions {
    SubscriptionOptions { all: None, prefix: None, periodic: None, topics_only: None }
}

fn subscribed(identity: &str, topic: &str) -> EngineState {
    let mut engine = EngineState::new(identity.to_string());
    let plan = engine.begin_subscription(&SubscriptionPackage::new(topic.to_string(), options()));
    assert_eq!(plan, SubscriptionPlan { unsubscribe_first: false, subscribe: true });
    assert_eq!(engine.finish_subscription(topic, true, 1), Ok(()));
    engine
}

fn id(last: u8, port: u16, name: &str) -> NetworkTableClientId {
    NetworkTableClientId::new([127, 0, 0, last], port, name.to_string())
}

#[test]
fn publish_echo_roundtrip() {
    let mut dl = Datalog::new();
    let mut engine = subscribed("A", "/x");
    engine.note_probe(5000, 5000, 4000);
    assert_eq!(engine.bridge().offset, 1000);
    assert_eq!(engine.receive(&mut dl, "/x", "/x", 1000, NtType::Int, &wire_int(7), 50), Ok(()));
    let obj = engine.poll("/x").unwrap();
    assert_eq!(obj.get_timestamp(), 50);
    assert_eq!(
        obj.get_field(&EnokiKey::parse("/x")),
        Some(EnokiField::new(
            EnokiKey::parse("/x"),
            TimestampedEnokiValue::new(2000, EnokiValue::Int(7))
        ))
    );
    let entry = dl.get_entry("A//x").unwrap();
    assert_eq!(entry.entry_type, "int64");
    assert_eq!(entry.marks.len(), 1);
    assert_eq!(entry.marks[0].timestamp, 2000);
    assert_eq!(entry.marks[0].value, DataLogValue::Integer(7));
    assert_eq!(
        entry.metadata,
        Some("{ source: \"Enoki Network Table Client\"}".to_string())
    );
}

#[test]
fn poll_before_any_value_is_empty() {
    let engine = subscribed("A", "/x");
    let obj = engine.poll("/x").unwrap();
    assert!(obj.is_empty());
    assert_eq!(obj.get_timestamp(), 1);
    assert_eq!(engine.poll("/y").err(), Some(EnokiError::NTTopicNotFound));
    assert_eq!(engine.topics(), vec!["/x"]);
}

#[test]
fn last_writer_wins() {
    let mut dl = Datalog::new();
    let mut engine = subscribed("c", "t");
    for (t, v) in [(10u64, 1i64), (20, 2), (30, 3)] {
        assert_eq!(engine.receive(&mut dl, "t", "t", t, NtType::Int, &wire_int(v), t), Ok(()));
    }
    let obj = engine.poll("t").unwrap();
    assert_eq!(obj.len(), 1);
    assert_eq!(
        obj.get_field(&EnokiKey::parse("t")).unwrap().get_value(),
        &TimestampedEnokiValue::new(30, EnokiValue::Int(3))
    );
    assert_eq!(dl.get_entry("c/t").unwrap().marks.len(), 3);
}

#[test]
fn a_refused_mark_is_dropped_and_the_value_delivered() {
    let mut dl = Datalog::new();
    let mut engine = subscribed("c", "t");
    let key = EnokiKey::parse("t");
    assert_eq!(engine.receive(&mut dl, "t", "t", 10, NtType::Int, &wire_int(1), 10), Ok(()));
    let other_type = WireValue::Scalar(WireScalar::Boolean(true));
    assert_eq!(
        engine.receive(&mut dl, "t", "t", 20, NtType::Boolean, &other_type, 21),
        Err(EnokiError::TypeMismatch)
    );
    let obj = engine.poll("t").unwrap();
    assert_eq!(obj.get_timestamp(), 21);
    assert_eq!(
        obj.get_field(&key).unwrap().get_value(),
        &TimestampedEnokiValue::new(20, EnokiValue::Boolean(true))
    );
    assert_eq!(dl.get_entry("c/t").unwrap().marks.len(), 1);

    assert_eq!(
        engine.receive(&mut dl, "t", "t", 30, NtType::Int, &WireValue::Mapping, 30),
        Err(EnokiError::TypeMismatch)
    );
    let obj = engine.poll("t").unwrap();
    assert_eq!(obj.get_timestamp(), 21);
    assert_eq!(
        obj.get_field(&key).unwrap().get_value(),
        &TimestampedEnokiValue::new(20, EnokiValue::Boolean(true))
    );

    dl.finish_entry("c/t").unwrap();
    assert_eq!(
        engine.receive(&mut dl, "t", "t", 40, NtType::Int, &wire_int(4), 41),
        Err(EnokiError::DLEntryNotFound)
    );
    let obj = engine.poll("t").unwrap();
    assert_eq!(obj.get_timestamp(), 41);
    assert_eq!(
        obj.get_field(&key).unwrap().get_value(),
        &TimestampedEnokiValue::new(40, EnokiValue::Int(4))
    );
    assert_eq!(dl.get_entry("c/t").unwrap().marks.len(), 1);

    assert_eq!(engine.receive(&mut dl, "gone", "u", 40, NtType::Int, &wire_int(4), 40), Ok(()));
    assert_eq!(dl.get_entry("c/u").unwrap().marks.len(), 1);
    assert_eq!(engine.poll("gone").err(), Some(EnokiError::NTTopicNotFound));
}

#[test]
fn an_empty_array_is_polled_whatever_the_entry_holds() {
    let mut dl = Datalog::new();
    let mut engine = subscribed("c", "/a");
    let key = EnokiKey::parse("/a");
    let two = WireValue::Array(vec![WireScalar::Integer(1), WireScalar::Integer(2)]);
    let none = WireValue::Array(vec![]);
    assert_eq!(engine.receive(&mut dl, "/a", "/a", 10, NtType::IntArray, &two, 10), Ok(()));
    assert_eq!(dl.get_entry("c//a").unwrap().entry_type, "int64[]");
    assert_eq!(
        engine.receive(&mut dl, "/a", "/a", 20, NtType::IntArray, &none, 20),
        Err(EnokiError::TypeMismatch)
    );
    assert_eq!(
        engine.poll("/a").unwrap().get_field(&key).unwrap().get_value(),
        &TimestampedEnokiValue::new(20, EnokiValue::DoubleArray(vec![]))
    );
    assert_eq!(dl.get_entry("c//a").unwrap().marks.len(), 1);

    let mut engine = subscribed("d", "/a");
    assert_eq!(engine.receive(&mut dl, "/a", "/a", 1, NtType::IntArray, &none, 1), Ok(()));
    assert_eq!(dl.get_entry("d//a").unwrap().entry_type, "double[]");
    assert_eq!(
        engine.receive(&mut dl, "/a", "/a", 2, NtType::IntArray, &two, 2),
        Err(EnokiError::TypeMismatch)
    );
    assert_eq!(
        engine.poll("/a").unwrap().get_field(&key).unwrap().get_value(),
        &TimestampedEnokiValue::new(2, EnokiValue::IntArray(vec![1, 2]))
    );
}

#[test]
fn a_late_value_is_polled_at_its_own_time() {
    let mut dl = Datalog::new();
    let mut engine = subscribed("c", "t");
    assert_eq!(engine.receive(&mut dl, "t", "t", 100, NtType::Int, &wire_int(1), 100), Ok(()));
    assert!(dl.is_clamped("c/t", 50));
    assert!(!dl.is_clamped("c/t", 100));
    assert!(!dl.is_clamped("c/t", 101));
    assert!(!dl.is_clamped("c/new", 0));
    assert_eq!(dl.last_timestamp_of("c/t"), Some(100));
    assert_eq!(dl.last_timestamp_of("c/new"), None);
    assert_eq!(engine.receive(&mut dl, "t", "t", 50, NtType::Int, &wire_int(2), 100), Ok(()));
    assert_eq!(
        engine.poll("t").unwrap().get_field(&EnokiKey::parse("t")).unwrap().get_value(),
        &TimestampedEnokiValue::new(50, EnokiValue::Int(2))
    );
    let marks: Vec<u64> = dl.get_entry("c/t").unwrap().marks.iter().map(|m| m.timestamp).collect();
    assert_eq!(marks, vec![100, 101]);
}

#[test]
fn reconnect_preserves_subscriptions() {
    let mut dl = Datalog::new();
    let mut engine = subscribed("B", "/y");
    engine.note_event(ConnectionEvent::Opened);
    assert_eq!(engine.receive(&mut dl, "/y", "/y", 100, NtType::Int, &wire_int(1), 100), Ok(()));
    let published = EnokiObject::from_field(EnokiField::new(
        EnokiKey::parse("/out"),
        TimestampedEnokiValue::new(1, EnokiValue::Int(1)),
    ));
    assert_eq!(engine.plan_publish(&published).len(), 1);
    engine.note_probe(10, 20, 5);
    engine.note_event(ConnectionEvent::Lost);
    assert_eq!(engine.connection(), ConnectionState::Disconnected);
    let last_known = engine.poll("/y").unwrap();
    assert_eq!(
        last_known.get_field(&EnokiKey::parse("/y")).unwrap().get_value(),
        &TimestampedEnokiValue::new(100, EnokiValue::Int(1))
    );
    engine.note_event(ConnectionEvent::RetryDue);
    engine.note_event(ConnectionEvent::Opened);
    assert_eq!(engine.connection(), ConnectionState::Connected);
    assert_eq!(engine.on_reconnect(), vec!["/y"]);
    assert_eq!(engine.bridge(), TimeBridge { offset: 0, synced: false });
    match &engine.plan_publish(&published)[0] {
        PublishAction::Send { declare, .. } => assert!(*declare),
        PublishAction::Refuse { .. } => panic!("refused"),
    }
    assert_eq!(engine.receive(&mut dl, "/y", "/y", 100, NtType::Int, &wire_int(1), 300), Ok(()));
    assert_eq!(engine.receive(&mut dl, "/y", "/y", 250, NtType::Int, &wire_int(2), 300), Ok(()));
    assert_eq!(
        engine.poll("/y").unwrap().get_field(&EnokiKey::parse("/y")).unwrap().get_value(),
        &TimestampedEnokiValue::new(250, EnokiValue::Int(2))
    );
    let marks: Vec<u64> =
        dl.get_entry("B//y").unwrap().marks.iter().map(|m| m.timestamp).collect();
    assert_eq!(marks, vec![100, 100, 250]);
}

#[test]
fn subscription_commands() {
    let mut engine = subscribed("A", "t");
    let again = SubscriptionPackage::new("t".to_string(), options());
    assert_eq!(
        engine.begin_subscription(&again),
        SubscriptionPlan { unsubscribe_first: true, subscribe: true }
    );
    assert_eq!(engine.finish_subscription("t", false, 9), Err(EnokiError::NetworkError));
    assert_eq!(engine.on_reconnect(), Vec::<String>::new());
    assert_eq!(engine.finish_subscription("t", true, 9), Ok(()));
    assert_eq!(engine.on_reconnect(), vec!["t"]);
    assert_eq!(engine.poll("t").unwrap().get_timestamp(), 9);
    let end = SubscriptionPackage::unsub("t".to_string());
    assert!(end.unsubscribe && end.options.is_none());
    assert_eq!(
        engine.begin_subscription(&end),
        SubscriptionPlan { unsubscribe_first: true, subscribe: false }
    );
    assert_eq!(
        engine.begin_subscription(&end),
        SubscriptionPlan { unsubscribe_first: false, subscribe: false }
    );
    assert!(engine.poll("t").is_ok());
}

#[test]
fn publishing_declares_once_and_refuses_a_type_change() {
    let mut engine = EngineState::new("A".to_string());
    let mut obj = EnokiObject::new(0);
    obj.add_field(EnokiField::new(
        EnokiKey::parse("a/b"),
        TimestampedEnokiValue::new(1, EnokiValue::Int(5)),
    ));
    obj.add_field(EnokiField::new(
        EnokiKey::parse("c"),
        TimestampedEnokiValue::new(1, EnokiValue::Boolean(true)),
    ));
    assert_eq!(
        engine.plan_publish(&obj),
        vec![
            PublishAction::Send {
                path: "a/b".to_string(),
                declare: true,
                nt_type: NtType::Int,
                value: wire_int(5),
            },
            PublishAction::Send {
                path: "c".to_string(),
                declare: true,
                nt_type: NtType::Boolean,
                value: WireValue::Scalar(WireScalar::Boolean(true)),
            },
        ]
    );
    let mut second = EnokiObject::new(0);
    second.add_field(EnokiField::new(
        EnokiKey::parse("a:b"),
        TimestampedEnokiValue::new(2, EnokiValue::Int(6)),
    ));
    second.add_field(EnokiField::new(
        EnokiKey::parse("c"),
        TimestampedEnokiValue::new(2, EnokiValue::Int(1)),
    ));
    assert_eq!(
        engine.plan_publish(&second),
        vec![
            PublishAction::Send {
                path: "a/b".to_string(),
                declare: false,
                nt_type: NtType::Int,
                value: wire_int(6),
            },
            PublishAction::Refuse { path: "c".to_string(), declared: NtType::Boolean },
        ]
    );
}

#[test]
fn poll_with_history_reads_the_datalog() {
    let mut dl = Datalog::new();
    let mut engine = subscribed("id", "Z");
    for t in [100u64, 200, 300, 400] {
        assert_eq!(engine.receive(&mut dl, "Z", "Z", t, NtType::Int, &wire_int(t as i64), t), Ok(()));
    }
    let obj = engine.poll_with_history("Z", 200, 1000, &dl).unwrap();
    let (_, history) = obj.get_field_with_history(&EnokiKey::parse("Z")).unwrap();
    assert_eq!(
        history,
        vec![
            TimestampedEnokiValue::new(300, EnokiValue::Int(300)),
            TimestampedEnokiValue::new(400, EnokiValue::Int(400)),
        ]
    );
    assert_eq!(
        engine.poll_with_history("nope", 0, 1, &dl).err(),
        Some(EnokiError::NTTopicNotFound)
    );
}

#[test]
fn announcements_open_and_close_entries() {
    let mut dl = Datalog::new();
    assert_eq!(on_announce(&mut dl, "/a", &NtType::DoubleArray), Ok(()));
    assert_eq!(dl.get_entry("/a").unwrap().entry_type, "double[]");
    assert_eq!(on_announce(&mut dl, "/a", &NtType::Int), Err(EnokiError::EntryAlreadyExists));
    assert_eq!(on_un_announce(&mut dl, None), Ok(()));
    assert_eq!(on_un_announce(&mut dl, Some("/a")), Ok(()));
    assert!(dl.get_entry("/a").unwrap().finished);
    assert_eq!(on_un_announce(&mut dl, Some("/a")), Err(EnokiError::DLEntryNotFound));
    let names = [
        (NtType::Boolean, "boolean"),
        (NtType::Int, "int64"),
        (NtType::Float, "float"),
        (NtType::Double, "double"),
        (NtType::String, "string"),
        (NtType::BooleanArray, "boolean[]"),
        (NtType::IntArray, "int64[]"),
        (NtType::FloatArray, "float[]"),
        (NtType::StringArray, "string[]"),
        (NtType::ProtoBuf, "raw"),
        (NtType::Raw, "raw"),
        (NtType::Json, "raw"),
        (NtType::Rpc, "raw"),
        (NtType::MsgPack, "raw"),
    ];
    for (t, name) in names {
        assert_eq!(datalog_type(&t), name);
    }
    assert_eq!(wire_type(&EnokiValue::Protobuf(vec![])), NtType::ProtoBuf);
    assert_eq!(wire_type(&EnokiValue::ByteArray(vec![])), NtType::Raw);
    assert_eq!(wire_type(&EnokiValue::FloatArray(vec![])), NtType::FloatArray);
}

#[test]
fn connection_states() {
    let s = ConnectionState::Dialing;
    assert_eq!(s.on(ConnectionEvent::Opened), ConnectionState::Connected);
    assert_eq!(s.on(ConnectionEvent::OpenFailed), ConnectionState::Disconnected);
    assert_eq!(s.on(ConnectionEvent::Value), ConnectionState::Dialing);
    let s = ConnectionState::Connected;
    assert_eq!(s.on(ConnectionEvent::Announcement), ConnectionState::Announcing);
    assert_eq!(s.on(ConnectionEvent::Value), ConnectionState::Streaming);
    assert_eq!(ConnectionState::Streaming.on(ConnectionEvent::Lost), ConnectionState::Disconnected);
    assert_eq!(
        ConnectionState::Disconnected.on(ConnectionEvent::RetryDue),
        ConnectionState::Reconnecting
    );
    assert_eq!(ConnectionState::Reconnecting.on(ConnectionEvent::Stop), ConnectionState::Stopped);
    assert_eq!(ConnectionState::Stopped.on(ConnectionEvent::Opened), ConnectionState::Stopped);
    assert!(ConnectionState::Announcing.live());
    assert!(!ConnectionState::Reconnecting.live());
}

#[test]
fn time_bridge_formulas() {
    let mut bridge = TimeBridge::new();
    assert_eq!(bridge.to_client_time(1000), 1000);
    bridge.probe(10_000, 10_200, 4_000);
    assert_eq!(bridge, TimeBridge { offset: 6_100, synced: true });
    assert_eq!(bridge.to_client_time(1000), 7_100);
    assert_eq!(bridge.server_time_now(7_100), 1000);
    bridge.probe(20_000, 20_000, 12_900);
    assert_eq!(bridge.offset, 6_200);
    bridge.probe(30_000, 30_000, 24_805);
    assert_eq!(bridge.offset, 6_100);
    bridge.probe(30_000, 30_000, 30_000 - 6_091);
    assert_eq!(bridge.offset, 6_100);
    bridge.reset();
    assert_eq!(bridge, TimeBridge { offset: 0, synced: false });
    bridge.probe(0, 0, 500);
    assert_eq!(bridge.offset, -500);
    assert_eq!(bridge.to_client_time(100), 0);
    assert_eq!(bridge.to_client_time(600), 100);
    assert_eq!(bridge.server_time_now(u64::MAX), u64::MAX);
    bridge.reset();
    bridge.probe(0, u64::MAX, 0);
    assert_eq!(bridge.offset, i64::MAX);
    assert_eq!(remaining_sleep(0), 15_000);
    assert_eq!(remaining_sleep(4_000), 11_000);
    assert_eq!(remaining_sleep(15_000), 0);
    assert_eq!(remaining_sleep(u64::MAX), 0);
}

#[test]
fn starting_twice_leaves_one_client() {
    let mut registry: ClientRegistry<u32> = ClientRegistry::new();
    let (first, outcome) =
        start_network_table_client(&mut registry, [127, 0, 0, 1], 5810, "I".to_string(), 1);
    assert!(matches!(outcome, StartOutcome::Started));
    let (second, outcome) =
        start_network_table_client(&mut registry, [127, 0, 0, 1], 5810, "I".to_string(), 2);
    assert!(matches!(outcome, StartOutcome::Replaced(1)));
    assert!(first.same_as(&second));
    assert_eq!(registry.len(), 1);
    assert_eq!(registry.get(&first), Some(&2));
    assert_eq!(registry.list(), vec!["I"]);
    assert!(is_network_table_client_stopped(&registry, &first));
}

#[test]
fn a_stopped_name_is_free_at_once() {
    let mut registry: ClientRegistry<u32> = ClientRegistry::new();
    let a = id(1, 5810, "I");
    assert!(matches!(registry.start(a.duplicate(), 1), StartOutcome::Started));
    let elsewhere = id(2, 5810, "I");
    assert!(matches!(registry.start(elsewhere.duplicate(), 9), StartOutcome::Rejected(9)));
    assert!(!registry.contains(&elsewhere));
    assert_eq!(stop_network_table_client(&mut registry, &elsewhere), None);
    assert!(registry.contains(&a));
    assert_eq!(stop_network_table_client(&mut registry, &a), Some(1));
    assert!(!registry.contains(&a));
    assert!(!is_network_table_client_stopped(&registry, &a));
    assert_eq!(registry.stop(&a), None);
    assert!(matches!(registry.start(elsewhere.duplicate(), 9), StartOutcome::Started));
    assert!(registry.contains(&elsewhere));
    assert_eq!(registry.len(), 1);
}

#[test]
fn client_names() {
    let mut registry: ClientRegistry<u8> = ClientRegistry::new();
    registry.start(NetworkTableClientId::new([10, 0, 255, 2], 5810, "A".to_string()), 0);
    registry.start(NetworkTableClientId::new([192, 168, 1, 100], 65535, "b:c".to_string()), 0);
    assert_eq!(
        get_connect_client_names(&registry),
        vec!["10.0.255.2:5810:A", "192.168.1.100:65535:b:c"]
    );
    assert_eq!(id(1, 0, "").repr(), "127.0.0.1:0:");
    assert_eq!(decimal_string(0), "0");
    assert_eq!(decimal_string(u64::MAX), "18446744073709551615");
    assert_eq!(decimal_string(1000), "1000");
}

#[test]
fn commands_need_a_client() {
    let mut registry: ClientRegistry<EngineState> = ClientRegistry::new();
    let there = id(1, 5810, "A");
    let missing = id(1, 5810, "B");
    registry.start(there.duplicate(), subscribed("A", "/x"));
    assert_eq!(
        subscribe_to_topic(&registry, &there, "/t".to_string(), Some(7), Some(true), None),
        Some(SubscriptionPackage {
            topic: "/t".to_string(),
            unsubscribe: false,
            options: Some(SubscriptionOptions {
                all: Some(true),
                prefix: None,
                periodic: Some(7),
                topics_only: None,
            }),
        })
    );
    assert_eq!(subscribe_to_topic(&registry, &missing, "/t".to_string(), None, None, None), None);
    assert_eq!(
        unsubscribe_from_topic(&registry, &there, "/t".to_string()),
        Some(SubscriptionPackage::unsub("/t".to_string()))
    );
    assert_eq!(unsubscribe_from_topic(&registry, &missing, "/t".to_string()), None);
    assert!(unpublish_topic(&registry, &there, "/t"));
    assert!(!unpublish_topic(&registry, &missing, "/t"));
    let value = TimestampedEnokiValue::new(3, EnokiValue::Int(4));
    let obj = set_topic_value(&registry, &there, "/p:q", value.duplicate()).unwrap();
    assert_eq!(obj.get_timestamp(), 3);
    assert_eq!(
        obj.get_field(&EnokiKey::parse("/p/q")),
        Some(EnokiField::new(EnokiKey::parse("/p/q"), value.duplicate()))
    );
    assert!(set_topic_value(&registry, &missing, "/p", value).is_none());
    let latest = registry.get(&there).map(|engine| engine.snapshot());
    let nothing = registry.get(&missing).map(|engine| engine.snapshot());
    assert!(get_subbed_data(latest.as_ref(), "/x").unwrap().is_empty());
    assert_eq!(
        get_subbed_data(latest.as_ref(), "/nope").err(),
        Some(EnokiError::NTTopicNotFound)
    );
    assert_eq!(
        get_subbed_data(nothing.as_ref(), "/x").err(),
        Some(EnokiError::NTLostConnection)
    );
    let dl = Datalog::new();
    assert!(get_subbed_data_with_history(latest.as_ref(), "/x", 0, 10, &dl).is_ok());
    assert_eq!(
        get_subbed_data_with_history(latest.as_ref(), "/nope", 0, 10, &dl).err(),
        Some(EnokiError::NTTopicNotFound)
    );
    assert_eq!(
        get_subbed_data_with_history(nothing.as_ref(), "/x", 0, 10, &dl).err(),
        Some(EnokiError::NTLostConnection)
    );
}

#[test]
fn robot_helpers() {
    assert_eq!(TeamNumbers::Main { team_number: 3636 }.get_team_number(), 3636);
    assert_eq!(TeamNumbers::Alternate { priority: 1, team_number: 7 }.get_team_number(), 7);
    assert_eq!(TeamNumbers::Temporary { priority: 2, team_number: 254 }.get_team_number(), 254);
    assert_eq!(ip_from_team_number(7), Some([10, 0, 7, 2]));
    assert_eq!(ip_from_team_number(254), Some([10, 2, 54, 2]));
    assert_eq!(ip_from_team_number(3636), Some([10, 36, 36, 2]));
    assert_eq!(ip_from_team_number(25599), Some([10, 255, 99, 2]));
    assert_eq!(ip_from_team_number(25600), None);
    assert_eq!(DeviceTags::Os.code(), 17104896);
    assert_eq!(DeviceTags::from_code(219529216), Some(DeviceTags::ImageVersion));
    assert_eq!(DeviceTags::from_code(1), None);
    assert_eq!(ResourceTags::CpuLoad2.code(), 17141761);
    assert_eq!(TerminalId::new(3).slot(), Some(2));
    assert_eq!(TerminalId::new(0).slot(), None);
}

#[test]
fn the_clock_runs() {
    let first = now();
    assert!(first > 1_600_000_000_000_000);
    assert!(now() >= first);
}

#[test]
fn datalog_file_names() {
    let t = LocalTime { year: 2024, month: 3, day: 9, hour: 7, minute: 5, second: 0 };
    assert_eq!(datalog_file_name(&t), "2024-03-09_07-05-00.wpilog");
    assert_eq!(datalog_relative_path(&t), "Enoki/Datalogs/2024-03-09_07-05-00.wpilog");
    let t = LocalTime { year: 987, month: 12, day: 31, hour: 23, minute: 59, second: 59 };
    assert_eq!(datalog_file_name(&t), "0987-12-31_23-59-59.wpilog");
    assert_eq!(padded_decimal(5, 0), "5");
    assert_eq!(padded_decimal(123, 2), "123");
    assert_eq!(padded_decimal(0, 3), "000");
}

#[test]
fn a_tick_of_messages() {
    let mut dl = Datalog::new();
    let mut engine = subscribed("c", "/t");
    let message = |name: &str, timestamp: u64, data: WireValue| InboundMessage {
        topic_name: name.to_string(),
        timestamp,
        nt_type: NtType::Int,
        data,
    };
    let messages = vec![
        message("/t/a", 10, wire_int(1)),
        message("/t/b", 11, WireValue::Scalar(WireScalar::Nil)),
        message("/t/a", 12, WireValue::Scalar(WireScalar::Boolean(true))),
        message("/t/a", 5, wire_int(2)),
    ];
    assert_eq!(
        engine.receive_all(&mut dl, "/t", &messages, 77),
        vec![None, Some(EnokiError::TypeMismatch), Some(EnokiError::TypeMismatch), None]
    );
    let obj = engine.poll("/t").unwrap();
    assert_eq!(obj.get_timestamp(), 77);
    assert_eq!(obj.len(), 1);
    assert_eq!(
        obj.get_field(&EnokiKey::parse("/t/a")).unwrap().get_value(),
        &TimestampedEnokiValue::new(5, EnokiValue::Int(2))
    );
    let marks: Vec<u64> =
        dl.get_entry("c//t/a").unwrap().marks.iter().map(|m| m.timestamp).collect();
    assert_eq!(marks, vec![10, 11]);
    assert!(!dl.has_entry("c//t/b"));
    let snapshot = engine.snapshot();
    assert_eq!(snapshot.topics(), vec!["/t"]);
    assert_eq!(snapshot.len(), 1);
    assert_eq!(snapshot.poll("/t").unwrap().len(), 1);
    assert_eq!(snapshot.poll("/u").err(), Some(EnokiError::NTTopicNotFound));
    let history = snapshot.poll_with_history("/t", 0, 100, &dl).unwrap();
    let (_, marks) = history.get_field_with_history(&EnokiKey::parse("/t/a")).unwrap();
    assert_eq!(marks.len(), 2);
    assert!(Snapshot::new("c".to_string()).poll("/t").is_err());
}

#[test]
fn a_protobuf_topic_delivers_protobuf() {
    let mut dl = Datalog::new();
    let mut engine = subscribed("c", "/p");
    let bytes = WireValue::Scalar(WireScalar::Binary(vec![1, 2, 3]));
    assert_eq!(engine.receive(&mut dl, "/p", "/p", 5, NtType::ProtoBuf, &bytes, 5), Ok(()));
    assert_eq!(engine.receive(&mut dl, "/p", "/r", 6, NtType::Raw, &bytes, 6), Ok(()));
    let obj = engine.poll("/p").unwrap();
    assert_eq!(
        obj.get_field(&EnokiKey::parse("/p")).unwrap().get_value().value,
        EnokiValue::Protobuf(vec![1, 2, 3])
    );
    assert_eq!(
        obj.get_field(&EnokiKey::parse("/r")).unwrap().get_value().value,
        EnokiValue::ByteArray(vec![1, 2, 3])
    );
    assert_eq!(dl.get_entry("c//p").unwrap().entry_type, "raw");
    assert_eq!(dl.get_entry("c//p").unwrap().marks[0].value, DataLogValue::Raw(vec![1, 2, 3]));
}

#[test]
fn it_works() {
    let datalog = Datalog::new();
    let registry: ClientRegistry<EngineState> = ClientRegistry::new();
    let engine = EngineState::new("enoki".to_string());
    assert!(datalog.get_all_entries().is_empty());
    assert_eq!(registry.len(), 0);
    assert_eq!(engine.connection(), ConnectionState::Dialing);
    assert_eq!(engine.snapshot().len(), 0);
}
