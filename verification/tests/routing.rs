use tracing_stackdriver::document::{DocValue, OutputDocument};
use tracing_stackdriver::field_map::FieldMap;
use tracing_stackdriver::router::{reserved, route_key, route_value, Destination, RoutedFields};
use tracing_stackdriver::value::FieldValue;
use tracing_stackdriver::visitor::EventFieldVisitor;

fn routed() -> RoutedFields {
    RoutedFields {
        top_level: OutputDocument::new(),
        http_request: FieldMap::new(),
        labels: FieldMap::new(),
    }
}

#[test]
fn http_request_fields() {
    assert_eq!(route_key("http_request.status"), (Destination::HttpRequest, "status".to_string()));
    assert_eq!(
        route_key("http_request.request_method"),
        (Destination::HttpRequest, "requestMethod".to_string())
    );
    assert_eq!(
        route_key("http_request.remote_ip"),
        (Destination::HttpRequest, "remoteIp".to_string())
    );
    assert_eq!(route_key("http_request."), (Destination::HttpRequest, String::new()));
    assert_eq!(
        route_key("http_request.a.b_c"),
        (Destination::HttpRequest, "aBC".to_string())
    );
}

#[test]
fn label_fields() {
    assert_eq!(route_key("labels.user_id"), (Destination::Labels, "userId".to_string()));
    assert_eq!(route_key("labels.region"), (Destination::Labels, "region".to_string()));
}

#[test]
fn insert_id_and_message() {
    assert_eq!(
        route_key("insert_id"),
        (Destination::InsertId, "logging.googleapis.com/insertId".to_string())
    );
    assert_eq!(route_key("message"), (Destination::Message, "message".to_string()));
}

#[test]
fn other_fields_go_to_the_top_level_in_camel_case() {
    assert_eq!(route_key("user_name"), (Destination::TopLevel, "userName".to_string()));
    assert_eq!(route_key("status"), (Destination::TopLevel, "status".to_string()));
    assert_eq!(route_key("foo-bar"), (Destination::TopLevel, "fooBar".to_string()));
    assert_eq!(route_key("FooBar"), (Destination::TopLevel, "fooBar".to_string()));
    assert_eq!(route_key("http_request"), (Destination::TopLevel, "httpRequest".to_string()));
    assert_eq!(route_key("labels"), (Destination::TopLevel, "labels".to_string()));
    assert_eq!(route_key("insert_id.x"), (Destination::TopLevel, "insertIdX".to_string()));
    assert_eq!(route_key("message.x"), (Destination::TopLevel, "messageX".to_string()));
    assert_eq!(route_key("Message"), (Destination::TopLevel, "message".to_string()));
    assert_eq!(route_key("foo.bar"), (Destination::TopLevel, "fooBar".to_string()));
    assert_eq!(route_key(""), (Destination::TopLevel, String::new()));
}

#[test]
fn camel_casing_a_camel_case_key_changes_nothing() {
    for key in ["fooBar", "status", "userName", "requestMethod", "a", "fooBarBaz", "foo1Bar", ""] {
        assert_eq!(route_key(key), (Destination::TopLevel, key.to_string()));
    }
    for key in ["foo_bar", "Foo Bar", "FOO_BAR", "foo-bar-baz", "foo1_bar", "x.y.z"] {
        let once = route_key(key).1;
        assert_eq!(route_key(&once).1, once);
    }
}

#[test]
fn labels_and_insert_id_become_strings() {
    assert!(matches!(
        route_value(Destination::Labels, &FieldValue::Uint(7)),
        FieldValue::Str(s) if s == "7"
    ));
    assert!(matches!(
        route_value(Destination::Labels, &FieldValue::Bool(true)),
        FieldValue::Str(s) if s == "true"
    ));
    assert!(matches!(
        route_value(Destination::Labels, &FieldValue::Str("x".to_string())),
        FieldValue::Str(s) if s == "x"
    ));
    assert!(matches!(
        route_value(Destination::InsertId, &FieldValue::Int(-9)),
        FieldValue::Str(s) if s == "-9"
    ));
    assert!(matches!(
        route_value(Destination::InsertId, &FieldValue::from_f64_bits(2.5f64.to_bits(), "2.5")),
        FieldValue::Str(s) if s == "2.5"
    ));
}

#[test]
fn other_values_stay_as_they_are() {
    assert!(matches!(route_value(Destination::HttpRequest, &FieldValue::Uint(503)), FieldValue::Uint(503)));
    assert!(matches!(route_value(Destination::Message, &FieldValue::Int(-1)), FieldValue::Int(-1)));
    assert!(matches!(route_value(Destination::TopLevel, &FieldValue::Bool(true)), FieldValue::Bool(true)));
    assert!(matches!(
        route_value(Destination::TopLevel, &FieldValue::Str("v".to_string())),
        FieldValue::Str(s) if s == "v"
    ));
}

#[test]
fn reserved_keys() {
    for key in [
        "severity",
        "time",
        "target",
        "httpRequest",
        "logging.googleapis.com/labels",
        "logging.googleapis.com/insertId",
        "logging.googleapis.com/sourceLocation",
        "span",
        "spans",
        "logging.googleapis.com/trace",
        "logging.googleapis.com/spanId",
        "logging.googleapis.com/trace_sampled",
    ] {
        assert!(reserved(key), "{}", key);
    }
    for key in ["message", "Severity", "times", "", "labels", "insertId", "trace"] {
        assert!(!reserved(key), "{}", key);
    }
}

#[test]
fn route_fills_the_three_places() {
    let mut visitor = EventFieldVisitor::new();
    visitor.record_u64("http_request.status", 200);
    visitor.record_str("http_request.request_method", "GET");
    visitor.record_u64("labels.shard", 3);
    visitor.record_u64("insert_id", 77);
    visitor.record_str("message", "hello");
    visitor.record_i64("retry_count", -1);
    let mut places = routed();
    places.route_fields(&visitor.fields);

    assert_eq!(places.http_request.len(), 2);
    assert_eq!(places.http_request.key_at(0), "requestMethod");
    assert_eq!(places.http_request.key_at(1), "status");
    assert!(matches!(places.http_request.value_at(1), FieldValue::Uint(200)));
    assert_eq!(places.labels.len(), 1);
    assert_eq!(places.labels.key_at(0), "shard");
    assert!(matches!(places.labels.value_at(0), FieldValue::Str(s) if s == "3"));
    assert_eq!(
        places.top_level.render().unwrap(),
        "{\"logging.googleapis.com/insertId\":\"77\",\"message\":\"hello\",\"retryCount\":-1}"
    );
}

#[test]
fn field_under_a_reserved_key_is_dropped() {
    let mut places = routed();
    places.route("time", &FieldValue::Str("noon".to_string()));
    places.route("Severity", &FieldValue::Str("x".to_string()));
    places.route("http_request", &FieldValue::Uint(1));
    places.route("span", &FieldValue::Uint(2));
    places.route("kept", &FieldValue::Uint(3));
    assert_eq!(places.top_level.render().unwrap(), "{\"kept\":3}");
}

#[test]
fn later_field_under_the_same_key_wins() {
    let mut visitor = EventFieldVisitor::new();
    visitor.record_u64("foo_bar", 2);
    visitor.record_u64("fooBar", 1);
    visitor.record_u64("http_request.a_b", 4);
    visitor.record_u64("http_request.aB", 3);
    let mut places = routed();
    places.route_fields(&visitor.fields);
    assert_eq!(places.top_level.render().unwrap(), "{\"fooBar\":2}");
    assert_eq!(places.http_request.len(), 1);
    assert!(matches!(places.http_request.value_at(0), FieldValue::Uint(4)));
    assert!(matches!(places.top_level.get("fooBar"), Some(DocValue::Scalar(FieldValue::Uint(2)))));
}
