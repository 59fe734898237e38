use tracing_stackdriver::field_map::FieldMap;
use tracing_stackdriver::span::{FormatContext, ParentSpan, Span, SpanScope};
use tracing_stackdriver::trace::{ActiveTraceSpan, ParentTrace, TraceData};
use tracing_stackdriver::value::FieldValue;

fn parent(trace_id: &str, sampled: bool) -> Option<ParentTrace> {
    Some(ParentTrace { trace_id: trace_id.to_string(), sampled })
}

fn active(span_id: &str, remote: bool) -> Option<ActiveTraceSpan> {
    Some(ActiveTraceSpan { span_id: span_id.to_string(), remote })
}

fn named(name: &str) -> Span {
    Span { name: name.to_string(), fields: FieldMap::new(), trace: None }
}

fn scope(names: &[&str]) -> SpanScope {
    let (last, before) = names.split_last().unwrap();
    SpanScope { ancestors: before.iter().map(|n| named(n)).collect(), span: named(last) }
}

#[test]
fn trace_with_parent_and_own_span_id() {
    let data = TraceData { parent: parent("abc", true), span_id: Some("own".to_string()) };
    let fields = data.correlate("proj-1", &active("xyz", false));
    assert_eq!(fields.trace.as_deref(), Some("projects/proj-1/traces/abc"));
    assert_eq!(fields.span_id.as_deref(), Some("own"));
    assert!(fields.sampled);
}

#[test]
fn trace_with_parent_and_no_span_id_uses_the_active_span() {
    let data = TraceData { parent: parent("abc", false), span_id: None };
    let fields = data.correlate("proj-1", &active("xyz", false));
    assert_eq!(fields.trace.as_deref(), Some("projects/proj-1/traces/abc"));
    assert_eq!(fields.span_id.as_deref(), Some("xyz"));
    assert!(!fields.sampled);
}

#[test]
fn trace_without_parent_with_own_span_id() {
    let data = TraceData { parent: None, span_id: Some("own".to_string()) };
    let fields = data.correlate("p", &None);
    assert_eq!(fields.trace, None);
    assert_eq!(fields.span_id.as_deref(), Some("own"));
    assert!(!fields.sampled);
}

#[test]
fn trace_without_parent_and_without_span_id() {
    let data = TraceData { parent: None, span_id: None };
    let fields = data.correlate("p", &None);
    assert_eq!(fields.trace, None);
    assert_eq!(fields.span_id, None);
    assert!(!fields.sampled);
}

#[test]
fn remote_active_span_is_never_reported() {
    let data = TraceData { parent: parent("abc", true), span_id: None };
    let fields = data.correlate("p", &active("far", true));
    assert_eq!(fields.span_id, None);
    assert_eq!(fields.trace.as_deref(), Some("projects/p/traces/abc"));
    assert!(fields.sampled);
}

#[test]
fn own_span_id_wins_over_a_remote_active_span() {
    let data = TraceData { parent: None, span_id: Some("own".to_string()) };
    let fields = data.correlate("p", &active("far", true));
    assert_eq!(fields.span_id.as_deref(), Some("own"));
}

#[test]
fn resource_name_with_empty_parts() {
    let data = TraceData { parent: parent("", true), span_id: None };
    let fields = data.correlate("", &None);
    assert_eq!(fields.trace.as_deref(), Some("projects//traces/"));
}

#[test]
fn span_object_has_name_first() {
    let mut fields = FieldMap::new();
    fields.insert("zeta".to_string(), FieldValue::Uint(1));
    fields.insert("alpha".to_string(), FieldValue::Str("a".to_string()));
    let span = Span { name: "request".to_string(), fields, trace: None };
    let object = span.to_object();
    let keys: Vec<&str> = object.iter().map(|(k, _)| k.as_str()).collect();
    assert_eq!(keys, ["name", "alpha", "zeta"]);
    assert!(matches!(&object[0].1, FieldValue::Str(s) if s == "request"));
    assert!(matches!(&object[2].1, FieldValue::Uint(1)));
}

#[test]
fn span_field_called_name_gives_way() {
    let mut fields = FieldMap::new();
    fields.insert("name".to_string(), FieldValue::Str("impostor".to_string()));
    fields.insert("foo".to_string(), FieldValue::Str("bar".to_string()));
    let span = Span { name: "real".to_string(), fields, trace: None };
    let object = span.to_object();
    assert_eq!(object.len(), 2);
    assert_eq!(object[0].0, "name");
    assert!(matches!(&object[0].1, FieldValue::Str(s) if s == "real"));
    assert_eq!(object[1].0, "foo");
}

#[test]
fn scope_lists_outermost_first() {
    let objects = scope(&["server", "request", "query"]).to_objects();
    let names: Vec<String> = objects
        .iter()
        .map(|o| match &o[0].1 {
            FieldValue::Str(s) => s.clone(),
            other => panic!("{:?}", other),
        })
        .collect();
    assert_eq!(names, ["server", "request", "query"]);
    assert_eq!(scope(&["only"]).to_objects().len(), 1);
}

#[test]
fn resolved_parent_is_the_scope() {
    let context = FormatContext {
        parent: ParentSpan::Resolved(scope(&["a", "explicit"])),
        current: Some(scope(&["b", "ambient"])),
        active_trace_span: None,
    };
    assert_eq!(context.resolve().unwrap().span.name, "explicit");
}

#[test]
fn unresolved_parent_falls_back_to_current() {
    let context = FormatContext {
        parent: ParentSpan::Unresolved,
        current: Some(scope(&["b", "ambient"])),
        active_trace_span: None,
    };
    let resolved = context.resolve().unwrap();
    assert_eq!(resolved.span.name, "ambient");
    assert_eq!(resolved.ancestors.len(), 1);
}

#[test]
fn absent_parent_uses_current() {
    let context = FormatContext {
        parent: ParentSpan::Absent,
        current: Some(scope(&["ambient"])),
        active_trace_span: None,
    };
    assert_eq!(context.resolve().unwrap().span.name, "ambient");
}

#[test]
fn no_span_at_all() {
    for parent in [ParentSpan::Absent, ParentSpan::Unresolved] {
        let context = FormatContext { parent, current: None, active_trace_span: None };
        assert!(context.resolve().is_none());
    }
}
