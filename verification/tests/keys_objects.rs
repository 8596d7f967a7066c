use enoki::key::EnokiKey;
use enoki::object::{EnokiField, EnokiObject, TimestampedEnokiValue};
use enoki::value::EnokiValue;

fn stamped(t: u64, v: i64) -> TimestampedEnokiValue {
    TimestampedEnokiValue::new(t, EnokiValue::Int(v))
}

fn field(key: &str, t: u64, v: i64) -> EnokiField {
    EnokiField::new(EnokiKey::parse(key), stamped(t, v))
}

fn segs(key: &EnokiKey) -> Vec<String> {
    key.segments()
}

#[test]
fn key_parsing() {
    let key = EnokiKey::from("a:b/c");
    assert_eq!(segs(&key), vec!["a", "b", "c"]);
    assert_eq!(String::from(&key), "a/b/c");
    assert_eq!(key.to_path_string(), "a/b/c");
    assert_eq!(key.segment_count(), 3);
    let key = EnokiKey::from("a:b/c".to_string());
    assert_eq!(String::from(key), "a/b/c");
    assert!(EnokiKey::parse("a:b/c").same_as(&EnokiKey::from("a/b:c")));
}

#[test]
fn key_keeps_an_empty_segment_only_in_front() {
    assert_eq!(segs(&EnokiKey::parse("/x")), vec!["", "x"]);
    assert_eq!(EnokiKey::parse("/x").to_path_string(), "/x");
    assert_eq!(segs(&EnokiKey::parse("a//b")), vec!["a", "b"]);
    assert_eq!(segs(&EnokiKey::parse("a/b/")), vec!["a", "b"]);
    assert_eq!(segs(&EnokiKey::parse("")), vec![""]);
    assert_eq!(segs(&EnokiKey::parse("/")), vec![""]);
    assert_eq!(segs(&EnokiKey::parse("//a::b")), vec!["", "a", "b"]);
    assert_eq!(segs(&EnokiKey::parse("abc")), vec!["abc"]);
    assert_eq!(segs(&EnokiKey::parse("\u{e9}/\u{fc}")), vec!["\u{e9}", "\u{fc}"]);
}

#[test]
fn key_prefix_and_suffix() {
    let key = EnokiKey::parse("/x").prefix("A".to_string());
    assert_eq!(segs(&key), vec!["A", "", "x"]);
    assert_eq!(key.to_path_string(), "A//x");
    let key = EnokiKey::parse("a").suffix("b".to_string());
    assert_eq!(key.to_path_string(), "a/b");
    assert!(key.same_as(&EnokiKey::parse("a:b")));
    assert!(!key.same_as(&EnokiKey::parse("a")));
    assert!(!key.same_as(&EnokiKey::parse("a/c")));
    assert!(key.duplicate().same_as(&key));
}

#[test]
fn object_holds_one_field_per_key() {
    let mut obj = EnokiObject::new(10);
    assert!(obj.is_empty());
    assert_eq!(obj.get_timestamp(), 10);
    obj.add_field(field("a", 1, 1));
    obj.add_field(field("b", 2, 2));
    obj.add_field(field("a", 3, 3));
    assert_eq!(obj.len(), 2);
    assert!(!obj.is_empty());
    assert!(obj.has_field(&EnokiKey::parse("a")));
    assert!(!obj.has_field(&EnokiKey::parse("c")));
    assert_eq!(obj.get_field(&EnokiKey::parse("a")), Some(field("a", 3, 3)));
    assert_eq!(obj.get_field(&EnokiKey::parse("b")), Some(field("b", 2, 2)));
    assert_eq!(obj.get_field(&EnokiKey::parse("c")), None);
    assert_eq!(obj.get_fields()[0], field("a", 3, 3));
    assert_eq!(obj.get_fields()[1], field("b", 2, 2));
}

#[test]
fn object_from_field() {
    let obj = EnokiObject::from_field(field("x/y", 77, 5));
    assert_eq!(obj.get_timestamp(), 77);
    assert_eq!(obj.len(), 1);
    assert_eq!(obj.get_field(&EnokiKey::parse("x/y")), Some(field("x/y", 77, 5)));
    let f = field("x/y", 77, 5);
    assert_eq!(f.get_timestamp(), 77);
    assert_eq!(f.get_value(), &stamped(77, 5));
    assert_eq!(f.get_value_owned(), stamped(77, 5));
    assert!(f.get_key().same_as(&EnokiKey::parse("x:y")));
}

#[test]
fn object_history() {
    let mut obj = EnokiObject::new(0);
    obj.add_field(field("a", 1, 1));
    let key = EnokiKey::parse("a");
    assert_eq!(obj.get_field_with_history(&key), Some((field("a", 1, 1), vec![])));
    obj.set_history(&key, vec![stamped(5, 50), stamped(6, 60)]);
    assert_eq!(
        obj.get_field_with_history(&key),
        Some((field("a", 6, 60), vec![stamped(5, 50), stamped(6, 60)]))
    );
    obj.set_history(&key, vec![]);
    assert_eq!(obj.get_field_with_history(&key), Some((field("a", 6, 60), vec![])));
    let other = EnokiKey::parse("b");
    obj.set_history(&other, vec![]);
    assert!(!obj.has_field(&other));
    obj.set_history(&other, vec![stamped(9, 90)]);
    assert_eq!(
        obj.get_field_with_history(&other),
        Some((field("b", 9, 90), vec![stamped(9, 90)]))
    );
    obj.add_field_with_history(field("c", 3, 30), vec![stamped(2, 20), stamped(3, 30)]);
    assert_eq!(
        obj.get_field_with_history(&EnokiKey::parse("c")),
        Some((field("c", 3, 30), vec![stamped(2, 20), stamped(3, 30)]))
    );
    obj.add_field(field("c", 4, 40));
    assert_eq!(
        obj.get_field_with_history(&EnokiKey::parse("c")),
        Some((field("c", 4, 40), vec![]))
    );
    let bare = obj.clone_without_history();
    assert_eq!(bare.len(), 3);
    assert_eq!(bare.get_field_with_history(&other), Some((field("b", 9, 90), vec![])));
    let copy = obj.duplicate();
    assert_eq!(
        copy.get_field_with_history(&other),
        Some((field("b", 9, 90), vec![stamped(9, 90)]))
    );
}

#[test]
fn object_update_all_is_last_writer_wins() {
    let mut obj = EnokiObject::new(1);
    obj.add_field(field("a", 1, 1));
    obj.add_field(field("b", 1, 2));
    let mut newer = EnokiObject::new(9);
    newer.add_field(field("b", 5, 20));
    newer.add_field(field("c", 6, 30));
    newer.add_field(field("b", 7, 21));
    obj.update_all(&newer);
    assert_eq!(obj.get_timestamp(), 9);
    assert_eq!(obj.len(), 3);
    assert_eq!(obj.get_field(&EnokiKey::parse("a")), Some(field("a", 1, 1)));
    assert_eq!(obj.get_field(&EnokiKey::parse("b")), Some(field("b", 7, 21)));
    assert_eq!(obj.get_field(&EnokiKey::parse("c")), Some(field("c", 6, 30)));
    let mut third = EnokiObject::new(3);
    third.update_fields(&obj);
    assert_eq!(third.get_timestamp(), 3);
    assert_eq!(third.len(), 3);
    third.update_timestamp(&obj);
    assert_eq!(third.get_timestamp(), 9);
    third.set_timestamp(11);
    assert_eq!(third.get_timestamp(), 11);
}

#[test]
fn key_text_and_segments_agree() {
    for text in ["a/b/c", "/x", "a", "", "/a/b", "x/y/z/w"] {
        let key = EnokiKey::parse(text);
        assert_eq!(key.to_path_string(), text);
        assert!(EnokiKey::parse(&key.to_path_string()).same_as(&key));
    }
    for text in ["a:b", "a//b", "a/", "//"] {
        let key = EnokiKey::parse(text);
        assert!(EnokiKey::parse(&key.to_path_string()).same_as(&key));
    }
}
