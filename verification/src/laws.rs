//! What holds of every document that the formatter builds.

use vstd::prelude::*;
use crate::casing::camel_case;
use crate::document::{
    distinct_keys, extends, has_entry, holds, lemma_extends_holds, lemma_extends_twice,
    lemma_put_extends, lemma_put_holds, put, Json,
};
use crate::event_formatter::{
    head, source_location, with_object, with_scope, with_trace, Event, EventFormatter,
};
use crate::field_map::{lemma_put_entries, lemma_put_sorted, lookup, sorted, sorted_put};
use crate::router::{
    destination, emitted_key, emitted_value, is_reserved, lemma_key_shapes, route_all,
    route_one, Destination, Routed, HTTP_REQUEST_KEY, INSERT_ID_KEY, LABELS_KEY, MESSAGE_KEY,
    SEVERITY_KEY, SOURCE_LOCATION_KEY, SPANS_KEY, SPAN_ID_KEY, SPAN_KEY, TARGET_KEY, TIME_KEY,
    TRACE_KEY, TRACE_SAMPLED_KEY,
};
use crate::severity::LogSeverity;
use crate::span::{FormatContext, ParentSpan, SpanScope};
use crate::trace::{ActiveTraceSpan, TraceData};
use crate::value::Scalar;

verus! {

/// The keys that a field of the caller can be written under at the top
/// level: the key of the message, that of the insert identifier, and every
/// key that is not reserved.
pub open spec fn routable_keys() -> Set<Seq<char>> {
    Set::new(|k: Seq<char>| k == MESSAGE_KEY@ || k == INSERT_ID_KEY@ || !is_reserved(k))
}

/// The keys of the nested objects and of the source location.
pub open spec fn object_keys() -> Set<Seq<char>> {
    set![HTTP_REQUEST_KEY@, LABELS_KEY@, SOURCE_LOCATION_KEY@]
}

/// The keys of the span and of the list of spans.
pub open spec fn span_keys() -> Set<Seq<char>> {
    set![SPAN_KEY@, SPANS_KEY@]
}

/// The keys of the trace fields.
pub open spec fn trace_keys() -> Set<Seq<char>> {
    set![TRACE_KEY@, SPAN_ID_KEY@, TRACE_SAMPLED_KEY@]
}

/// Routing one field writes under a routable key only.
pub proof fn lemma_route_one_extends(routed: Routed, name: Seq<char>, value: Scalar)
    ensures
        extends(routed.top_level, route_one(routed, name, value).top_level, routable_keys()),
{
    let key = emitted_key(name);
    let written = Json::Scalar(emitted_value(name, value));
    match destination(name) {
        Destination::InsertId | Destination::Message => {
            lemma_put_extends(routed.top_level, key, written, routable_keys());
        },
        Destination::TopLevel => {
            if !is_reserved(key) {
                lemma_put_extends(routed.top_level, key, written, routable_keys());
            }
        },
        _ => {},
    }
}

/// Routing fields writes under routable keys only.
pub proof fn lemma_route_all_extends(routed: Routed, fields: Seq<(Seq<char>, Scalar)>)
    ensures
        extends(routed.top_level, route_all(routed, fields).top_level, routable_keys()),
    decreases fields.len(),
{
    if fields.len() > 0 {
        let before = route_all(routed, fields.drop_last());
        lemma_route_all_extends(routed, fields.drop_last());
        lemma_route_one_extends(before, fields.last().0, fields.last().1);
        lemma_extends_twice(
            routed.top_level,
            before.top_level,
            route_all(routed, fields).top_level,
            routable_keys(),
            routable_keys(),
        );
        assert(routable_keys().union(routable_keys()) =~= routable_keys());
    }
}

/// The nested objects and the source location are written under their own
/// keys only.
pub proof fn lemma_located_extends(formatter: EventFormatter, event: Event, time: Seq<char>)
    ensures
        extends(
            EventFormatter::routed(event, time).top_level,
            formatter.located(event, time),
            object_keys(),
        ),
{
    let keys = object_keys();
    let routed = EventFormatter::routed(event, time);
    let d0 = routed.top_level;
    let d1 = with_object(d0, HTTP_REQUEST_KEY@, routed.http_request);
    let d2 = with_object(d1, LABELS_KEY@, routed.labels);
    let d3 = formatter.located(event, time);
    assert(keys.union(keys) =~= keys);
    if routed.http_request.len() > 0 {
        lemma_put_extends(d0, HTTP_REQUEST_KEY@, Json::Object(routed.http_request), keys);
    }
    assert(extends(d0, d1, keys));
    if routed.labels.len() > 0 {
        lemma_put_extends(d1, LABELS_KEY@, Json::Object(routed.labels), keys);
    }
    lemma_extends_twice(d0, d1, d2, keys, keys);
    if formatter.include_source_location && event.file.is_some() {
        lemma_put_extends(
            d2,
            SOURCE_LOCATION_KEY@,
            Json::Object(source_location(event.file.unwrap()@, event.line)),
            keys,
        );
    }
    lemma_extends_twice(d0, d2, d3, keys, keys);
}

/// The span and the list of spans are written under their own keys only.
pub proof fn lemma_with_scope_extends(d: Seq<(Seq<char>, Json)>, scope: Option<SpanScope>)
    ensures
        extends(d, with_scope(d, scope), span_keys()),
{
    let keys = span_keys();
    assert(keys.union(keys) =~= keys);
    match scope {
        Some(scope) => {
            let s1 = put(d, SPAN_KEY@, Json::Object(scope.span.object()));
            lemma_put_extends(d, SPAN_KEY@, Json::Object(scope.span.object()), keys);
            lemma_put_extends(s1, SPANS_KEY@, Json::List(scope.objects()), keys);
            lemma_extends_twice(d, s1, with_scope(d, Some(scope)), keys, keys);
        },
        None => {},
    }
}

/// The trace fields are written under their own keys only.
pub proof fn lemma_with_trace_extends(
    d: Seq<(Seq<char>, Json)>,
    project_id: Seq<char>,
    data: TraceData,
    active: Option<ActiveTraceSpan>,
)
    ensures
        extends(d, with_trace(d, project_id, data, active), trace_keys()),
{
    let keys = trace_keys();
    assert(keys.union(keys) =~= keys);
    let d1 = match data.trace(project_id) {
        Some(name) => put(d, TRACE_KEY@, Json::Scalar(Scalar::Str(name))),
        None => d,
    };
    let d2 = match data.span_id(active) {
        Some(id) => put(d1, SPAN_ID_KEY@, Json::Scalar(Scalar::Str(id))),
        None => d1,
    };
    let d3 = with_trace(d, project_id, data, active);
    if let Some(name) = data.trace(project_id) {
        lemma_put_extends(d, TRACE_KEY@, Json::Scalar(Scalar::Str(name)), keys);
    }
    if let Some(id) = data.span_id(active) {
        lemma_put_extends(d1, SPAN_ID_KEY@, Json::Scalar(Scalar::Str(id)), keys);
    }
    lemma_extends_twice(d, d1, d2, keys, keys);
    if data.sampled() {
        lemma_put_extends(d2, TRACE_SAMPLED_KEY@, Json::Scalar(Scalar::Bool(true)), keys);
    }
    lemma_extends_twice(d, d2, d3, keys, keys);
}

/// How the document is made: from the head by routing, then by writing the
/// objects, the spans and the trace fields, each under its own keys.
pub proof fn lemma_document_extends(
    formatter: EventFormatter,
    context: FormatContext,
    event: Event,
    time: Seq<char>,
)
    ensures
        extends(
            head(event.severity(), time, event.target@),
            EventFormatter::routed(event, time).top_level,
            routable_keys(),
        ),
        extends(
            EventFormatter::routed(event, time).top_level,
            formatter.located(event, time),
            object_keys(),
        ),
        extends(
            formatter.located(event, time),
            formatter.untraced(context, event, time),
            span_keys(),
        ),
        extends(
            formatter.untraced(context, event, time),
            formatter.document(context, event, time),
            trace_keys(),
        ),
        extends(
            head(event.severity(), time, event.target@),
            formatter.document(context, event, time),
            routable_keys().union(object_keys()).union(span_keys()).union(trace_keys()),
        ),
        context.scope().is_none() ==> formatter.untraced(context, event, time) == formatter.located(
            event,
            time,
        ),
        formatter.cloud_trace_configuration.is_none() ==> formatter.document(context, event, time)
            == formatter.untraced(context, event, time),
{
    let h = head(event.severity(), time, event.target@);
    let routed = EventFormatter::routed(event, time);
    let d3 = formatter.located(event, time);
    let d4 = formatter.untraced(context, event, time);
    let d5 = formatter.document(context, event, time);
    lemma_route_all_extends(
        Routed { top_level: h, http_request: Seq::empty(), labels: Seq::empty() },
        event.routed_fields(),
    );
    lemma_located_extends(formatter, event, time);
    lemma_with_scope_extends(d3, context.scope());
    match formatter.trace_data(context) {
        Some(data) => {
            lemma_with_trace_extends(
                d4,
                formatter.cloud_trace_configuration.unwrap().project_id@,
                data,
                context.active_trace_span,
            );
        },
        None => {},
    }
    let k1 = routable_keys();
    let k2 = k1.union(object_keys());
    let k3 = k2.union(span_keys());
    lemma_extends_twice(h, routed.top_level, d3, k1, object_keys());
    lemma_extends_twice(h, d3, d4, k2, span_keys());
    lemma_extends_twice(h, d4, d5, k3, trace_keys());
}

/// No key occurs twice in a document.
pub proof fn lemma_document_keys_distinct(
    formatter: EventFormatter,
    context: FormatContext,
    event: Event,
    time: Seq<char>,
)
    ensures
        distinct_keys(formatter.document(context, event, time)),
{
    lemma_key_shapes();
    lemma_document_extends(formatter, context, event, time);
    let h = head(event.severity(), time, event.target@);
    assert(distinct_keys(h));
}

/// Every document begins with the severity, the time and the target, in
/// this order, whatever the fields of the event are called. The severity is
/// the one that the field `severity` of the event names where the event has
/// such a field, whatever its level; else the one that its level gives.
pub proof fn lemma_document_head(
    formatter: EventFormatter,
    context: FormatContext,
    event: Event,
    time: Seq<char>,
)
    ensures
        formatter.document(context, event, time).len() >= 3,
        formatter.document(context, event, time)[0] == (
            SEVERITY_KEY@,
            Json::Scalar(Scalar::Str(event.severity().name())),
        ),
        formatter.document(context, event, time)[1] == (TIME_KEY@, Json::Scalar(Scalar::Str(time))),
        formatter.document(context, event, time)[2] == (
            TARGET_KEY@,
            Json::Scalar(Scalar::Str(event.target@)),
        ),
        lookup(event.fields@, SEVERITY_KEY@).is_none() ==> event.severity() == LogSeverity::of_level(
            event.level,
        ),
        forall|text: Seq<char>|
            lookup(event.fields@, SEVERITY_KEY@) == Some(Scalar::Str(text)) ==> event.severity()
                == LogSeverity::parsed(text),
{
    lemma_key_shapes();
    lemma_document_extends(formatter, context, event, time);
    let h = head(event.severity(), time, event.target@);
    let d = formatter.document(context, event, time);
    let written = routable_keys().union(object_keys()).union(span_keys()).union(trace_keys());
    assert forall|i: int| 0 <= i < 3 implies d[i] == h[i] by {
        assert(is_reserved(h[i].0));
        assert(!written.contains(h[i].0));
    }
}

/// Without a project no trace field is written: the document has no entry
/// under the key of the trace, of the span identifier or of the sampling
/// flag, whatever the spans carry and whatever the fields are called.
pub proof fn lemma_no_project_no_trace(
    formatter: EventFormatter,
    context: FormatContext,
    event: Event,
    time: Seq<char>,
)
    requires
        formatter.cloud_trace_configuration.is_none(),
    ensures
        !has_entry(formatter.document(context, event, time), TRACE_KEY@),
        !has_entry(formatter.document(context, event, time), SPAN_ID_KEY@),
        !has_entry(formatter.document(context, event, time), TRACE_SAMPLED_KEY@),
{
    lemma_key_shapes();
    lemma_document_extends(formatter, context, event, time);
    let h = head(event.severity(), time, event.target@);
    let d = formatter.document(context, event, time);
    let d3 = formatter.located(event, time);
    let routed = EventFormatter::routed(event, time).top_level;
    assert forall|i: int| 0 <= i < d.len() implies !trace_keys().contains((#[trigger] d[i]).0) by {
        if !span_keys().contains(d[i].0) {
            assert(d[i] == d3[i]);
            if !object_keys().contains(d3[i].0) {
                assert(d3[i] == routed[i]);
                if !routable_keys().contains(routed[i].0) {
                    assert(routed[i] == h[i]);
                }
            }
        }
    }
    assert(trace_keys().contains(TRACE_KEY@));
    assert(trace_keys().contains(SPAN_ID_KEY@));
    assert(trace_keys().contains(TRACE_SAMPLED_KEY@));
}

/// An event outside every span has neither a span nor a list of spans in its
/// document.
pub proof fn lemma_no_scope_no_span(
    formatter: EventFormatter,
    context: FormatContext,
    event: Event,
    time: Seq<char>,
)
    requires
        context.scope().is_none(),
    ensures
        !has_entry(formatter.document(context, event, time), SPAN_KEY@),
        !has_entry(formatter.document(context, event, time), SPANS_KEY@),
{
    lemma_key_shapes();
    lemma_document_extends(formatter, context, event, time);
    let h = head(event.severity(), time, event.target@);
    let d = formatter.document(context, event, time);
    let d3 = formatter.located(event, time);
    let routed = EventFormatter::routed(event, time).top_level;
    assert forall|i: int| 0 <= i < d.len() implies !span_keys().contains((#[trigger] d[i]).0) by {
        if !trace_keys().contains(d[i].0) {
            assert(d[i] == d3[i]);
            if !object_keys().contains(d3[i].0) {
                assert(d3[i] == routed[i]);
                if !routable_keys().contains(routed[i].0) {
                    assert(routed[i] == h[i]);
                }
            }
        }
    }
    assert(span_keys().contains(SPAN_KEY@));
    assert(span_keys().contains(SPANS_KEY@));
}

/// An event in a scope has the span of the scope under `span` and the spans
/// of the scope, outermost first, under `spans`.
pub proof fn lemma_scope_entries(
    formatter: EventFormatter,
    context: FormatContext,
    event: Event,
    time: Seq<char>,
    scope: SpanScope,
)
    requires
        context.scope() == Some(scope),
    ensures
        holds(
            formatter.document(context, event, time),
            SPAN_KEY@,
            Json::Object(scope.span.object()),
        ),
        holds(formatter.document(context, event, time), SPANS_KEY@, Json::List(scope.objects())),
{
    lemma_key_shapes();
    lemma_document_extends(formatter, context, event, time);
    let d3 = formatter.located(event, time);
    let d4 = formatter.untraced(context, event, time);
    let d = formatter.document(context, event, time);
    let span = Json::Object(scope.span.object());
    let spans = Json::List(scope.objects());
    let s1 = put(d3, SPAN_KEY@, span);
    lemma_put_holds(d3, SPAN_KEY@, span);
    lemma_put_extends(s1, SPANS_KEY@, spans, set![SPANS_KEY@]);
    lemma_extends_holds(s1, d4, set![SPANS_KEY@], SPAN_KEY@, span);
    lemma_put_holds(s1, SPANS_KEY@, spans);
    lemma_extends_holds(d4, d, trace_keys(), SPAN_KEY@, span);
    lemma_extends_holds(d4, d, trace_keys(), SPANS_KEY@, spans);
}

/// An event whose explicit parent the registry does not hold is formatted
/// as if it named no parent: its span is the current span.
pub proof fn lemma_unresolved_parent(
    formatter: EventFormatter,
    context: FormatContext,
    event: Event,
    time: Seq<char>,
)
    requires
        context.parent is Unresolved,
    ensures
        formatter.document(context, event, time) == formatter.document(
            FormatContext { parent: ParentSpan::Absent, ..context },
            event,
            time,
        ),
        context.current matches Some(scope) ==> holds(
            formatter.document(context, event, time),
            SPAN_KEY@,
            Json::Object(scope.span.object()),
        ),
{
    if let Some(scope) = context.current {
        lemma_scope_entries(formatter, context, event, time, scope);
    }
}

/// Whether the field named `name` is written at the top level under `key`.
pub open spec fn writes(name: Seq<char>, key: Seq<char>) -> bool {
    match destination(name) {
        Destination::InsertId | Destination::Message => emitted_key(name) == key,
        Destination::TopLevel => emitted_key(name) == key && !is_reserved(key),
        _ => false,
    }
}

/// After routing, the top level has the value of the last field that was
/// written under a key.
pub proof fn lemma_route_all_last(
    routed: Routed,
    fields: Seq<(Seq<char>, Scalar)>,
    i: int,
    key: Seq<char>,
)
    requires
        0 <= i < fields.len(),
        writes(fields[i].0, key),
        forall|j: int| i < j < fields.len() ==> !writes(#[trigger] fields[j].0, key),
    ensures
        holds(
            route_all(routed, fields).top_level,
            key,
            Json::Scalar(emitted_value(fields[i].0, fields[i].1)),
        ),
    decreases fields.len(),
{
    let before = route_all(routed, fields.drop_last());
    let last = fields.last();
    let value = Json::Scalar(emitted_value(fields[i].0, fields[i].1));
    if i == fields.len() - 1 {
        lemma_put_holds(before.top_level, key, value);
    } else {
        assert forall|j: int| i < j < fields.drop_last().len() implies !writes(
            #[trigger] fields.drop_last()[j].0,
            key,
        ) by {
            assert(fields.drop_last()[j] == fields[j]);
        }
        assert(fields.drop_last()[i] == fields[i]);
        lemma_route_all_last(routed, fields.drop_last(), i, key);
        assert(!writes(fields[fields.len() - 1].0, key));
        let after = route_one(before, last.0, last.1).top_level;
        if after != before.top_level {
            let other = emitted_key(last.0);
            lemma_put_extends(
                before.top_level,
                other,
                Json::Scalar(emitted_value(last.0, last.1)),
                set![other],
            );
            lemma_extends_holds(before.top_level, after, set![other], key, value);
        }
    }
}

/// The document has the value of the last field of the event that was
/// written at the top level under a key.
pub proof fn lemma_last_writer(
    formatter: EventFormatter,
    context: FormatContext,
    event: Event,
    time: Seq<char>,
    i: int,
    key: Seq<char>,
)
    requires
        0 <= i < event.routed_fields().len(),
        writes(event.routed_fields()[i].0, key),
        forall|j: int|
            i < j < event.routed_fields().len() ==> !writes(
                #[trigger] event.routed_fields()[j].0,
                key,
            ),
    ensures
        holds(
            formatter.document(context, event, time),
            key,
            Json::Scalar(emitted_value(event.routed_fields()[i].0, event.routed_fields()[i].1)),
        ),
{
    lemma_key_shapes();
    lemma_document_extends(formatter, context, event, time);
    let fields = event.routed_fields();
    let value = Json::Scalar(emitted_value(fields[i].0, fields[i].1));
    let h = head(event.severity(), time, event.target@);
    let routed = EventFormatter::routed(event, time).top_level;
    let d3 = formatter.located(event, time);
    let d4 = formatter.untraced(context, event, time);
    let d = formatter.document(context, event, time);
    lemma_route_all_last(
        Routed { top_level: h, http_request: Seq::empty(), labels: Seq::empty() },
        fields,
        i,
        key,
    );
    lemma_extends_holds(routed, d3, object_keys(), key, value);
    lemma_extends_holds(d3, d4, span_keys(), key, value);
    lemma_extends_holds(d4, d, trace_keys(), key, value);
}

/// A field of the event whose name is neither `insert_id` nor `message` and
/// begins with neither `http_request.` nor `labels.` stands at the top level
/// of the document under its name in camel case, with its value unchanged,
/// provided that this key is not reserved and that no later field of the
/// event is written under it.
pub proof fn lemma_plain_field_in_document(
    formatter: EventFormatter,
    context: FormatContext,
    event: Event,
    time: Seq<char>,
    i: int,
)
    requires
        0 <= i < event.routed_fields().len(),
        destination(event.routed_fields()[i].0) == Destination::TopLevel,
        !is_reserved(camel_case(event.routed_fields()[i].0)),
        forall|j: int|
            i < j < event.routed_fields().len() ==> !writes(
                #[trigger] event.routed_fields()[j].0,
                camel_case(event.routed_fields()[i].0),
            ),
    ensures
        holds(
            formatter.document(context, event, time),
            camel_case(event.routed_fields()[i].0),
            Json::Scalar(event.routed_fields()[i].1),
        ),
{
    lemma_last_writer(formatter, context, event, time, i, camel_case(event.routed_fields()[i].0));
}


/// Whether every value of the object is a string.
pub open spec fn all_strings(o: Seq<(Seq<char>, Scalar)>) -> bool {
    forall|i: int| 0 <= i < o.len() ==> (#[trigger] o[i]).1 is Str
}

/// Routing keeps the two nested objects ordered by key, and the labels
/// strings.
pub proof fn lemma_route_all_nested(routed: Routed, fields: Seq<(Seq<char>, Scalar)>)
    requires
        sorted(routed.http_request),
        sorted(routed.labels),
        all_strings(routed.labels),
    ensures
        sorted(route_all(routed, fields).http_request),
        sorted(route_all(routed, fields).labels),
        all_strings(route_all(routed, fields).labels),
    decreases fields.len(),
{
    if fields.len() > 0 {
        let before = route_all(routed, fields.drop_last());
        let name = fields.last().0;
        let key = emitted_key(name);
        let written = emitted_value(name, fields.last().1);
        lemma_route_all_nested(routed, fields.drop_last());
        match destination(name) {
            Destination::HttpRequest => {
                lemma_put_sorted(before.http_request, key, written);
            },
            Destination::Labels => {
                lemma_put_sorted(before.labels, key, written);
                let after = sorted_put(before.labels, key, written);
                assert forall|i: int| 0 <= i < after.len() implies (#[trigger] after[i]).1 is Str by {
                    lemma_put_entries(before.labels, key, written, i);
                }
            },
            _ => {},
        }
    }
}

/// The members of the HTTP request object and the labels are ordered by key,
/// so that no key occurs twice among them, and every label is a string.
pub proof fn lemma_nested_objects(event: Event, time: Seq<char>)
    ensures
        sorted(EventFormatter::routed(event, time).http_request),
        sorted(EventFormatter::routed(event, time).labels),
        all_strings(EventFormatter::routed(event, time).labels),
{
    lemma_route_all_nested(
        Routed {
            top_level: head(event.severity(), time, event.target@),
            http_request: Seq::empty(),
            labels: Seq::empty(),
        },
        event.routed_fields(),
    );
}

/// The HTTP request, the labels and the source location stand in the
/// document exactly where there is something to write: a nested object that
/// is not empty, a source location that is wanted and whose file is known.
pub proof fn lemma_nested_entries(
    formatter: EventFormatter,
    context: FormatContext,
    event: Event,
    time: Seq<char>,
)
    ensures
        ({
            let object = EventFormatter::routed(event, time).http_request;
            let d = formatter.document(context, event, time);
            if object.len() > 0 {
                holds(d, HTTP_REQUEST_KEY@, Json::Object(object))
            } else {
                !has_entry(d, HTTP_REQUEST_KEY@)
            }
        }),
        ({
            let object = EventFormatter::routed(event, time).labels;
            let d = formatter.document(context, event, time);
            if object.len() > 0 {
                holds(d, LABELS_KEY@, Json::Object(object))
            } else {
                !has_entry(d, LABELS_KEY@)
            }
        }),
        ({
            let d = formatter.document(context, event, time);
            if formatter.include_source_location && event.file.is_some() {
                holds(
                    d,
                    SOURCE_LOCATION_KEY@,
                    Json::Object(source_location(event.file.unwrap()@, event.line)),
                )
            } else {
                !has_entry(d, SOURCE_LOCATION_KEY@)
            }
        }),
{
    lemma_key_shapes();
    lemma_document_extends(formatter, context, event, time);
    let h = head(event.severity(), time, event.target@);
    let routed = EventFormatter::routed(event, time);
    let d0 = routed.top_level;
    let d1 = with_object(d0, HTTP_REQUEST_KEY@, routed.http_request);
    let d2 = with_object(d1, LABELS_KEY@, routed.labels);
    let d3 = formatter.located(event, time);
    let d4 = formatter.untraced(context, event, time);
    let d = formatter.document(context, event, time);
    let location = Json::Object(source_location(event.file.unwrap()@, event.line));
    let located = formatter.include_source_location && event.file.is_some();
    let k1 = set![HTTP_REQUEST_KEY@];
    let k2 = set![LABELS_KEY@];
    let k3 = set![SOURCE_LOCATION_KEY@];

    // what each step writes
    if routed.http_request.len() > 0 {
        lemma_put_extends(d0, HTTP_REQUEST_KEY@, Json::Object(routed.http_request), k1);
        lemma_put_holds(d0, HTTP_REQUEST_KEY@, Json::Object(routed.http_request));
    }
    if routed.labels.len() > 0 {
        lemma_put_extends(d1, LABELS_KEY@, Json::Object(routed.labels), k2);
        lemma_put_holds(d1, LABELS_KEY@, Json::Object(routed.labels));
    }
    if located {
        lemma_put_extends(d2, SOURCE_LOCATION_KEY@, location, k3);
        lemma_put_holds(d2, SOURCE_LOCATION_KEY@, location);
    }
    // the HTTP request
    if routed.http_request.len() > 0 {
        let object = Json::Object(routed.http_request);
        if routed.labels.len() > 0 {
            lemma_extends_holds(d1, d2, k2, HTTP_REQUEST_KEY@, object);
        }
        if located {
            lemma_extends_holds(d2, d3, k3, HTTP_REQUEST_KEY@, object);
        }
        lemma_extends_holds(d3, d4, span_keys(), HTTP_REQUEST_KEY@, object);
        lemma_extends_holds(d4, d, trace_keys(), HTTP_REQUEST_KEY@, object);
    } else {
        assert forall|i: int| 0 <= i < d.len() implies (#[trigger] d[i]).0 != HTTP_REQUEST_KEY@ by {
            if !trace_keys().contains(d[i].0) && !span_keys().contains(d[i].0) {
                assert(d[i] == d4[i] && d4[i] == d3[i]);
                if d3[i].0 != SOURCE_LOCATION_KEY@ {
                    assert(d3[i] == d2[i]);
                    if d2[i].0 != LABELS_KEY@ {
                        assert(d2[i] == d1[i]);
                        if !routable_keys().contains(d0[i].0) {
                            assert(d0[i] == h[i]);
                        }
                    }
                }
            }
        }
    }
    // the labels
    if routed.labels.len() > 0 {
        let object = Json::Object(routed.labels);
        if located {
            lemma_extends_holds(d2, d3, k3, LABELS_KEY@, object);
        }
        lemma_extends_holds(d3, d4, span_keys(), LABELS_KEY@, object);
        lemma_extends_holds(d4, d, trace_keys(), LABELS_KEY@, object);
    } else {
        assert forall|i: int| 0 <= i < d.len() implies (#[trigger] d[i]).0 != LABELS_KEY@ by {
            if !trace_keys().contains(d[i].0) && !span_keys().contains(d[i].0) {
                assert(d[i] == d4[i] && d4[i] == d3[i]);
                if d3[i].0 != SOURCE_LOCATION_KEY@ {
                    assert(d3[i] == d2[i]);
                    assert(d2[i] == d1[i]);
                    if d1[i].0 != HTTP_REQUEST_KEY@ {
                        assert(d1[i] == d0[i]);
                        if !routable_keys().contains(d0[i].0) {
                            assert(d0[i] == h[i]);
                        }
                    }
                }
            }
        }
    }
    // the source location
    if located {
        lemma_extends_holds(d3, d4, span_keys(), SOURCE_LOCATION_KEY@, location);
        lemma_extends_holds(d4, d, trace_keys(), SOURCE_LOCATION_KEY@, location);
    } else {
        assert forall|i: int| 0 <= i < d.len() implies (#[trigger] d[i]).0
            != SOURCE_LOCATION_KEY@ by {
            if !trace_keys().contains(d[i].0) && !span_keys().contains(d[i].0) {
                assert(d[i] == d4[i] && d4[i] == d3[i]);
                assert(d3[i] == d2[i]);
                if d2[i].0 != LABELS_KEY@ {
                    assert(d2[i] == d1[i]);
                    if d1[i].0 != HTTP_REQUEST_KEY@ {
                        assert(d1[i] == d0[i]);
                        if !routable_keys().contains(d0[i].0) {
                            assert(d0[i] == h[i]);
                        }
                    }
                }
            }
        }
    }
}

} // verus!
