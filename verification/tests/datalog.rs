use enoki::datalog::{
    end_datalog_entry, log_datalog_value, log_datalog_value_at, start_datalog_entry, Datalog,
    DatalogMarkResponse,
    EntrySummary,
};
use enoki::datalog_value::DataLogValue;
use enoki::error::{log_result, log_result_consume, EnokiError};
use enoki::key::EnokiKey;
use enoki::object::{EnokiField, EnokiObject, TimestampedEnokiValue};
use enoki::query::{
    entry_name_of, populate_history, record_mark, retrieve_dl_daemon_data, send_mark,
};
use enoki::value::EnokiValue;

fn stamped(t: u64, v: i64) -> TimestampedEnokiValue {
    TimestampedEnokiValue::new(t, EnokiValue::Int(v))
}

fn times(dl: &Datalog, name: &str) -> Vec<u64> {
    dl.get_entry(name).unwrap().marks.iter().map(|m| m.timestamp).collect()
}

#[test]
fn type_mismatch_rejection() {
    let mut dl = Datalog::new();
    assert_eq!(dl.start_entry("foo", "boolean", None), Ok(()));
    assert_eq!(dl.append_to_entry_with_timestamp("foo", DataLogValue::Boolean(true), 5), Ok(()));
    assert_eq!(dl.summary_of("foo").unwrap().mark_count, 1);
    assert_eq!(
        dl.append_to_entry_with_timestamp("foo", DataLogValue::Integer(1), 6),
        Err(EnokiError::TypeMismatch)
    );
    assert_eq!(dl.summary_of("foo").unwrap().mark_count, 1);
    assert_eq!(
        dl.get_entry("foo").unwrap().marks,
        vec![DatalogMarkResponse { timestamp: 5, value: DataLogValue::Boolean(true) }]
    );
}

#[test]
fn start_entry_refuses_a_name_twice() {
    let mut dl = Datalog::new();
    assert_eq!(start_datalog_entry(&mut dl, "a", "int64", Some("meta")), Ok(()));
    assert_eq!(
        start_datalog_entry(&mut dl, "a", "double", None),
        Err(EnokiError::EntryAlreadyExists)
    );
    let entry = dl.get_entry("a").unwrap();
    assert_eq!(entry.entry_type, "int64");
    assert_eq!(entry.metadata, Some("meta".to_string()));
    assert!(!entry.finished);
    assert_eq!(end_datalog_entry(&mut dl, "a"), Ok(()));
    assert!(dl.get_entry("a").unwrap().finished);
    assert_eq!(
        start_datalog_entry(&mut dl, "a", "int64", None),
        Err(EnokiError::EntryAlreadyExists)
    );
    assert_eq!(dl.get_all_entries().len(), 1);
}

#[test]
fn append_needs_an_open_entry() {
    let mut dl = Datalog::new();
    assert_eq!(
        log_datalog_value_at(&mut dl, "nope", EnokiValue::Int(1), 1),
        Err(EnokiError::DLEntryNotFound)
    );
    assert_eq!(
        log_datalog_value(&mut dl, "nope", EnokiValue::Int(1)),
        Err(EnokiError::DLEntryNotFound)
    );
    assert_eq!(dl.finish_entry("nope"), Err(EnokiError::DLEntryNotFound));
    dl.start_entry("e", "int64", None).unwrap();
    assert_eq!(log_datalog_value_at(&mut dl, "e", EnokiValue::Int(1), 1), Ok(()));
    assert_eq!(dl.finish_entry("e"), Ok(()));
    assert_eq!(dl.finish_entry("e"), Err(EnokiError::DLEntryNotFound));
    assert_eq!(
        log_datalog_value_at(&mut dl, "e", EnokiValue::Int(2), 2),
        Err(EnokiError::DLEntryNotFound)
    );
    assert_eq!(times(&dl, "e"), vec![1]);
    assert!(dl.has_entry("e"));
    assert!(!dl.has_entry("nope"));
}

#[test]
fn marks_stay_in_order_of_time() {
    let mut dl = Datalog::new();
    dl.start_entry("e", "int64", None).unwrap();
    for t in [100u64, 100, 50, 200, 10, u64::MAX, 3] {
        assert_eq!(dl.append_to_entry_with_timestamp("e", DataLogValue::Integer(1), t), Ok(()));
    }
    assert_eq!(times(&dl, "e"), vec![100, 100, 101, 200, 201, u64::MAX, u64::MAX]);
    let all = times(&dl, "e");
    assert!(all.windows(2).all(|w| w[0] <= w[1]));
    let entry = dl.get_entry("e").unwrap();
    assert!(entry.marks.iter().all(|m| m.value.get_data_type() == entry.entry_type));
}

#[test]
fn summary_reports_each_entry() {
    let mut dl = Datalog::new();
    dl.start_entry("a", "int64", None).unwrap();
    dl.start_entry("b", "string", None).unwrap();
    dl.append_to_entry_with_timestamp("a", DataLogValue::Integer(1), 7).unwrap();
    dl.append_to_entry_with_timestamp("a", DataLogValue::Integer(2), 9).unwrap();
    assert_eq!(
        dl.summary(),
        vec![
            EntrySummary {
                name: "a".to_string(),
                entry_type: "int64".to_string(),
                mark_count: 2,
                first: Some(7),
                last: Some(9),
            },
            EntrySummary {
                name: "b".to_string(),
                entry_type: "string".to_string(),
                mark_count: 0,
                first: None,
                last: None,
            },
        ]
    );
    assert_eq!(dl.summary_of("c"), None);
    assert!(dl.rewind_last_mark("a"));
    assert_eq!(times(&dl, "a"), vec![7]);
    assert!(!dl.rewind_last_mark("b"));
    assert!(!dl.rewind_last_mark("c"));
}

#[test]
fn history_window() {
    let mut dl = Datalog::new();
    dl.start_entry("id/Z", "int64", None).unwrap();
    for t in [100u64, 200, 300, 400] {
        dl.append_to_entry_with_timestamp("id/Z", DataLogValue::Integer(t as i64), t).unwrap();
    }
    assert_eq!(
        dl.history_of("id/Z", 200, 1000),
        Some(vec![stamped(300, 300), stamped(400, 400)])
    );
    assert_eq!(dl.history_of("id/Z", 200, 300), Some(vec![stamped(300, 300)]));
    assert_eq!(dl.history_of("id/Z", 400, 1000), Some(vec![]));
    assert_eq!(dl.history_of("Z", 0, 1000), None);
    assert_eq!(dl.marks_of("id/Z").unwrap().len(), 4);

    let mut obj = EnokiObject::new(500);
    obj.add_field(EnokiField::new(EnokiKey::parse("Z"), stamped(400, 400)));
    obj.add_field(EnokiField::new(EnokiKey::parse("other"), stamped(1, 1)));
    let with_history = populate_history(obj, "id", 200, 1000, &dl);
    let (field, history) = with_history.get_field_with_history(&EnokiKey::parse("Z")).unwrap();
    assert_eq!(history, vec![stamped(300, 300), stamped(400, 400)]);
    assert_eq!(field.get_value(), &stamped(400, 400));
    let (field, history) =
        with_history.get_field_with_history(&EnokiKey::parse("other")).unwrap();
    assert_eq!(history, vec![]);
    assert_eq!(field.get_value(), &stamped(1, 1));
    assert_eq!(with_history.len(), 2);
    assert_eq!(entry_name_of("id", &EnokiKey::parse("Z")), "id/Z");
    assert_eq!(entry_name_of("A", &EnokiKey::parse("/x")), "A//x");
}

#[test]
fn send_mark_declares_on_first_use() {
    let mut dl = Datalog::new();
    assert_eq!(send_mark(&mut dl, "ui/speed", stamped(10, 1)), Ok(()));
    let entry = dl.get_entry("ui/speed").unwrap();
    assert_eq!(entry.entry_type, "int64");
    assert_eq!(entry.metadata, Some("{source:\"frontend\"}".to_string()));
    assert_eq!(times(&dl, "ui/speed"), vec![10]);
    assert_eq!(send_mark(&mut dl, "ui/speed", stamped(20, 2)), Ok(()));
    assert_eq!(
        send_mark(&mut dl, "ui/speed", TimestampedEnokiValue::new(30, EnokiValue::Boolean(true))),
        Err(EnokiError::TypeMismatch)
    );
    assert_eq!(times(&dl, "ui/speed"), vec![10, 20]);
    assert_eq!(record_mark(&mut dl, "x", stamped(1, 1), "m"), Ok(()));
    assert_eq!(dl.get_entry("x").unwrap().metadata, Some("m".to_string()));
    dl.finish_entry("x").unwrap();
    assert_eq!(record_mark(&mut dl, "x", stamped(2, 1), "m"), Err(EnokiError::DLEntryNotFound));
}

#[test]
fn the_datalog_as_one_object() {
    let mut dl = Datalog::new();
    dl.start_entry("a/b", "int64", None).unwrap();
    dl.start_entry("empty", "int64", None).unwrap();
    dl.append_to_entry_with_timestamp("a/b", DataLogValue::Integer(1), 0).unwrap();
    dl.append_to_entry_with_timestamp("a/b", DataLogValue::Integer(2), 5).unwrap();
    let obj = retrieve_dl_daemon_data(&dl, 99);
    assert_eq!(obj.get_timestamp(), 99);
    assert_eq!(obj.len(), 1);
    let (field, history) = obj.get_field_with_history(&EnokiKey::parse("a:b")).unwrap();
    assert_eq!(field.get_value(), &stamped(5, 2));
    assert_eq!(history, vec![stamped(0, 1), stamped(5, 2)]);
}

#[test]
fn log_result_hands_the_result_back() {
    let ok: Result<u8, EnokiError> = Ok(3);
    let err: Result<u8, EnokiError> = Err(EnokiError::NoValidAddress);
    assert_eq!(log_result(ok), Ok(3));
    assert_eq!(log_result(err), Err(EnokiError::NoValidAddress));
    assert!(!log_result_consume(ok));
    assert!(log_result_consume(err));
    assert_eq!(EnokiError::DatalogIo.message(), "DataLog io error");
    assert_eq!(EnokiError::NoValidAddress.message(), "No valid address found");
    assert_eq!(EnokiError::NTTopicNotFound.message(), "NT Topic not found");
    assert_eq!(EnokiError::DLEntryNotFound.message(), "DL Entry not found");
}

#[test]
fn appending_now_uses_the_clock() {
    let mut dl = Datalog::new();
    dl.start_entry("e", "int64", None).unwrap();
    let before = enoki::clock::now();
    assert_eq!(log_datalog_value(&mut dl, "e", EnokiValue::Int(1)), Ok(()));
    assert_eq!(dl.append_to_entry("e", DataLogValue::Integer(2)), Ok(()));
    assert_eq!(
        dl.append_to_entry("e", DataLogValue::Boolean(true)),
        Err(EnokiError::TypeMismatch)
    );
    let stamps = times(&dl, "e");
    assert_eq!(stamps.len(), 2);
    assert!(before <= stamps[0] && stamps[0] <= stamps[1]);
}
