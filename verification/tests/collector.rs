use tracing_stackdriver::value::FieldValue;
use tracing_stackdriver::visitor::EventFieldVisitor;

fn names(visitor: &EventFieldVisitor) -> Vec<String> {
    (0..visitor.fields.len()).map(|i| visitor.fields.key_at(i).to_string()).collect()
}

#[test]
fn new_visitor_is_empty() {
    assert!(EventFieldVisitor::new().fields.is_empty());
}

#[test]
fn records_each_kind() {
    let mut visitor = EventFieldVisitor::new();
    visitor.record_i64("i", -4);
    visitor.record_u64("u", 4);
    visitor.record_bool("b", true);
    visitor.record_str("s", "text");
    visitor.record_error("e", "file not found");
    visitor.record_debug("d", "Some(1)");
    visitor.record_f64("f", 0.25f64.to_bits(), "0.25");
    assert_eq!(names(&visitor), ["b", "d", "e", "f", "i", "s", "u"]);
    assert!(matches!(visitor.fields.get("i"), Some(FieldValue::Int(-4))));
    assert!(matches!(visitor.fields.get("u"), Some(FieldValue::Uint(4))));
    assert!(matches!(visitor.fields.get("b"), Some(FieldValue::Bool(true))));
    assert!(matches!(visitor.fields.get("s"), Some(FieldValue::Str(s)) if s == "text"));
    assert!(matches!(visitor.fields.get("e"), Some(FieldValue::Str(s)) if s == "file not found"));
    assert!(matches!(visitor.fields.get("d"), Some(FieldValue::Str(s)) if s == "Some(1)"));
    assert!(matches!(
        visitor.fields.get("f"),
        Some(FieldValue::Float(d)) if d.bits() == 0.25f64.to_bits() && d.text() == "0.25"
    ));
}

#[test]
fn non_finite_number_is_recorded_as_zero() {
    let mut visitor = EventFieldVisitor::new();
    visitor.record_f64("nan", f64::NAN.to_bits(), "NaN");
    visitor.record_f64("inf", f64::INFINITY.to_bits(), "inf");
    visitor.record_f64("neg", f64::NEG_INFINITY.to_bits(), "-inf");
    assert!(matches!(visitor.fields.get("nan"), Some(FieldValue::Int(0))));
    assert!(matches!(visitor.fields.get("inf"), Some(FieldValue::Int(0))));
    assert!(matches!(visitor.fields.get("neg"), Some(FieldValue::Int(0))));
}

#[test]
fn debug_drops_metadata() {
    let mut visitor = EventFieldVisitor::new();
    visitor.record_debug("log.target", "\"x\"");
    visitor.record_debug("log.module_path", "\"x\"");
    visitor.record_debug("event.name", "\"x\"");
    visitor.record_debug("log.", "1");
    visitor.record_debug("event.", "1");
    assert!(visitor.fields.is_empty());
    visitor.record_debug("log", "1");
    visitor.record_debug("event", "2");
    visitor.record_debug("logs.x", "3");
    visitor.record_debug("Log.x", "4");
    assert_eq!(names(&visitor), ["Log.x", "event", "log", "logs.x"]);
}

#[test]
fn metadata_names_are_kept_for_other_kinds() {
    let mut visitor = EventFieldVisitor::new();
    visitor.record_str("log.target", "x");
    visitor.record_u64("event.count", 1);
    assert_eq!(names(&visitor), ["event.count", "log.target"]);
}

#[test]
fn debug_message_is_stored_under_message() {
    let mut visitor = EventFieldVisitor::new();
    visitor.record_debug("message", "disk full");
    assert_eq!(names(&visitor), ["message"]);
    assert!(matches!(visitor.fields.get("message"), Some(FieldValue::Str(s)) if s == "disk full"));
}

#[test]
fn debug_message_in_any_case_is_stored_under_message() {
    for name in ["Message", "MESSAGE", "mEsSaGe"] {
        let mut visitor = EventFieldVisitor::new();
        visitor.record_debug(name, "m");
        assert_eq!(names(&visitor), ["message"]);
    }
    let mut visitor = EventFieldVisitor::new();
    visitor.record_debug("messages", "m");
    visitor.record_str("Message", "kept as it is");
    assert_eq!(names(&visitor), ["Message", "messages"]);
}

#[test]
fn recording_twice_keeps_the_last_value() {
    let mut visitor = EventFieldVisitor::new();
    visitor.record_u64("n", 1);
    visitor.record_str("n", "two");
    assert_eq!(names(&visitor), ["n"]);
    assert!(matches!(visitor.fields.get("n"), Some(FieldValue::Str(s)) if s == "two"));
}
