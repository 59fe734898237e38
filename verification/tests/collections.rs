use tracing_stackdriver::document::{DocValue, OutputDocument};
use tracing_stackdriver::field_map::FieldMap;
use tracing_stackdriver::value::FieldValue;

fn keys(map: &FieldMap) -> Vec<String> {
    (0..map.len()).map(|i| map.key_at(i).to_string()).collect()
}

fn uint(value: &FieldValue) -> u64 {
    match value {
        FieldValue::Uint(u) => *u,
        other => panic!("not an unsigned integer: {:?}", other),
    }
}

#[test]
fn field_map_starts_empty() {
    let map = FieldMap::new();
    assert_eq!(map.len(), 0);
    assert!(map.is_empty());
    assert!(map.get("a").is_none());
}

#[test]
fn field_map_orders_by_name() {
    let mut map = FieldMap::new();
    map.insert("m".to_string(), FieldValue::Uint(1));
    map.insert("z".to_string(), FieldValue::Uint(2));
    map.insert("a".to_string(), FieldValue::Uint(3));
    map.insert("B".to_string(), FieldValue::Uint(4));
    map.insert("mm".to_string(), FieldValue::Uint(5));
    assert_eq!(keys(&map), ["B", "a", "m", "mm", "z"]);
    assert_eq!(uint(map.value_at(0)), 4);
    assert_eq!(uint(map.value_at(4)), 2);
    assert!(!map.is_empty());
}

#[test]
fn field_map_insert_replaces() {
    let mut map = FieldMap::new();
    map.insert("a".to_string(), FieldValue::Uint(1));
    map.insert("b".to_string(), FieldValue::Uint(2));
    map.insert("a".to_string(), FieldValue::Uint(3));
    assert_eq!(keys(&map), ["a", "b"]);
    assert_eq!(uint(map.get("a").unwrap()), 3);
    assert_eq!(uint(map.get("b").unwrap()), 2);
    assert!(map.get("c").is_none());
    assert!(map.get("").is_none());
}

#[test]
fn field_map_remove() {
    let mut map = FieldMap::new();
    map.insert("a".to_string(), FieldValue::Uint(1));
    map.insert("b".to_string(), FieldValue::Uint(2));
    map.insert("c".to_string(), FieldValue::Uint(3));
    assert!(map.remove("x").is_none());
    assert_eq!(keys(&map), ["a", "b", "c"]);
    assert_eq!(uint(&map.remove("b").unwrap()), 2);
    assert_eq!(keys(&map), ["a", "c"]);
    assert!(map.remove("b").is_none());
    assert_eq!(uint(&map.remove("a").unwrap()), 1);
    assert_eq!(uint(&map.remove("c").unwrap()), 3);
    assert!(map.is_empty());
}

#[test]
fn field_map_clone_and_entries() {
    let mut map = FieldMap::new();
    map.insert("b".to_string(), FieldValue::Uint(2));
    map.insert("a".to_string(), FieldValue::Uint(1));
    let copy = map.clone();
    map.insert("c".to_string(), FieldValue::Uint(3));
    assert_eq!(keys(&copy), ["a", "b"]);
    let entries = copy.to_entries();
    assert_eq!(entries.len(), 2);
    assert_eq!(entries[0].0, "a");
    assert_eq!(uint(&entries[0].1), 1);
    assert_eq!(entries[1].0, "b");
    assert_eq!(uint(&entries[1].1), 2);
}

#[test]
fn document_keeps_order_of_first_put() {
    let mut document = OutputDocument::new();
    assert_eq!(document.len(), 0);
    document.put("z".to_string(), DocValue::Scalar(FieldValue::Uint(1)));
    document.put("a".to_string(), DocValue::Scalar(FieldValue::Uint(2)));
    document.put("z".to_string(), DocValue::Scalar(FieldValue::Uint(3)));
    assert_eq!(document.len(), 2);
    assert_eq!(document.key_at(0), "z");
    assert_eq!(document.key_at(1), "a");
    assert!(matches!(document.value_at(0), DocValue::Scalar(FieldValue::Uint(3))));
    assert!(matches!(document.get("a"), Some(DocValue::Scalar(FieldValue::Uint(2)))));
    assert!(document.get("b").is_none());
    assert_eq!(document.render().unwrap(), "{\"z\":3,\"a\":2}");
    assert_eq!(document.to_line().unwrap(), "{\"z\":3,\"a\":2}\n");
}

#[test]
fn empty_document_text() {
    let document = OutputDocument::new();
    assert_eq!(document.render().unwrap(), "{}");
    assert_eq!(document.to_line().unwrap(), "{}\n");
}

#[test]
fn nested_values_text() {
    let object = vec![
        ("k\"1".to_string(), FieldValue::Str("v".to_string())),
        ("k2".to_string(), FieldValue::Int(-2)),
    ];
    assert_eq!(
        tracing_stackdriver::document::render_object(&object).unwrap(),
        "{\"k\\\"1\":\"v\",\"k2\":-2}"
    );
    assert_eq!(tracing_stackdriver::document::render_object(&Vec::new()).unwrap(), "{}");
    let list = vec![vec![("a".to_string(), FieldValue::Bool(true))], Vec::new()];
    assert_eq!(tracing_stackdriver::document::render_list(&list).unwrap(), "[{\"a\":true},{}]");
    assert_eq!(tracing_stackdriver::document::render_list(&Vec::new()).unwrap(), "[]");
    assert_eq!(DocValue::List(list).render().unwrap(), "[{\"a\":true},{}]");
    assert_eq!(DocValue::Object(object).render().unwrap(), "{\"k\\\"1\":\"v\",\"k2\":-2}");
    assert_eq!(DocValue::Scalar(FieldValue::Bool(false)).render().unwrap(), "false");
}

#[test]
fn document_with_bad_number_fails() {
    let bad = FieldValue::from_f64_bits(2.0f64.to_bits(), "two");
    let mut document = OutputDocument::new();
    document.put("ok".to_string(), DocValue::Scalar(FieldValue::Uint(1)));
    document.put("nested".to_string(), DocValue::List(vec![vec![("x".to_string(), bad)]]));
    assert_eq!(document.render(), Err(tracing_stackdriver::error::FormatError::Serialization));
    assert_eq!(document.to_line(), Err(tracing_stackdriver::error::FormatError::Serialization));
}
