//! The formatter: from one event and its context to one line of JSON.

use vstd::prelude::*;
use crate::clock::{now_utc, rfc3339};
use crate::decimal::{decimal, u64_text};
use crate::document::{
    document_encodable, lemma_put_new, line_text, members_view, put, DocValue, Json,
    OutputDocument,
};
use crate::error::FormatError;
use crate::field_map::{lookup, sorted_remove, FieldMap};
use crate::router::{
    lemma_key_shapes, route_all, Routed, RoutedFields, HTTP_REQUEST_KEY, LABELS_KEY, SEVERITY_KEY,
    SOURCE_LOCATION_KEY, SPANS_KEY, SPAN_ID_KEY, SPAN_KEY, TARGET_KEY, TIME_KEY, TRACE_KEY,
    TRACE_SAMPLED_KEY,
};
use crate::severity::{Level, LogSeverity};
use crate::single_line::{lemma_one_line, no_newline};
use crate::span::{FormatContext, SpanScope};
use crate::trace::{ActiveTraceSpan, CloudTraceConfiguration, TraceData};
use crate::value::{FieldValue, Scalar};

verus! {

/// One log event, as the instrumentation hands it over.
#[derive(Debug)]
pub struct Event {
    /// The verbosity level.
    pub level: Level,
    /// The part of the program that the event comes from.
    pub target: String,
    /// The source file, where it is known.
    pub file: Option<String>,
    /// The line in the source file, where it is known.
    pub line: Option<u32>,
    /// The fields of the event, as an [`crate::visitor::EventFieldVisitor`]
    /// collected them.
    pub fields: FieldMap,
}

/// Formats events as Cloud Logging entries.
#[derive(Debug)]
pub struct EventFormatter {
    /// Whether an entry names the source file and line of its event.
    pub include_source_location: bool,
    /// Whether, and for which project, an entry is tied to its trace.
    pub cloud_trace_configuration: Option<CloudTraceConfiguration>,
}

impl Default for EventFormatter {
    fn default() -> (r: Self)
        ensures
            r.include_source_location,
            r.cloud_trace_configuration.is_none(),
    {
        Self { include_source_location: true, cloud_trace_configuration: None }
    }
}

/// The three entries that begin every document.
pub open spec fn head(severity: LogSeverity, time: Seq<char>, target: Seq<char>) -> Seq<
    (Seq<char>, Json),
> {
    seq![
        (SEVERITY_KEY@, Json::Scalar(Scalar::Str(severity.name()))),
        (TIME_KEY@, Json::Scalar(Scalar::Str(time))),
        (TARGET_KEY@, Json::Scalar(Scalar::Str(target))),
    ]
}

/// The source location as a JSON object: the file, and the line as the text
/// of its number where it is known.
pub open spec fn source_location(file: Seq<char>, line: Option<u32>) -> Seq<(Seq<char>, Scalar)> {
    match line {
        Some(n) => seq![
            ("file"@, Scalar::Str(file)),
            ("line"@, Scalar::Str(decimal(n as int))),
        ],
        None => seq![("file"@, Scalar::Str(file))],
    }
}

/// `d` with the object under `key`, unless the object is empty.
pub open spec fn with_object(
    d: Seq<(Seq<char>, Json)>,
    key: Seq<char>,
    object: Seq<(Seq<char>, Scalar)>,
) -> Seq<(Seq<char>, Json)> {
    if object.len() > 0 {
        put(d, key, Json::Object(object))
    } else {
        d
    }
}

/// `d` with the span of the event and the list of the spans that enclose
/// it, where the event has a scope.
pub open spec fn with_scope(d: Seq<(Seq<char>, Json)>, scope: Option<SpanScope>) -> Seq<
    (Seq<char>, Json),
> {
    match scope {
        Some(scope) => put(
            put(d, SPAN_KEY@, Json::Object(scope.span.object())),
            SPANS_KEY@,
            Json::List(scope.objects()),
        ),
        None => d,
    }
}

/// `d` with the trace fields that `data` gives: the resource name of the
/// trace and the span identifier where there is one, the sampling flag where
/// it is set.
pub open spec fn with_trace(
    d: Seq<(Seq<char>, Json)>,
    project_id: Seq<char>,
    data: TraceData,
    active: Option<ActiveTraceSpan>,
) -> Seq<(Seq<char>, Json)> {
    let d1 = match data.trace(project_id) {
        Some(name) => put(d, TRACE_KEY@, Json::Scalar(Scalar::Str(name))),
        None => d,
    };
    let d2 = match data.span_id(active) {
        Some(id) => put(d1, SPAN_ID_KEY@, Json::Scalar(Scalar::Str(id))),
        None => d1,
    };
    if data.sampled() {
        put(d2, TRACE_SAMPLED_KEY@, Json::Scalar(Scalar::Bool(true)))
    } else {
        d2
    }
}

impl Event {
    /// The severity of the event: what its field `severity` asks for, else
    /// what its level gives.
    pub open spec fn severity(self) -> LogSeverity {
        LogSeverity::resolved(self.level, lookup(self.fields@, SEVERITY_KEY@))
    }

    /// The fields that are routed: all but the field `severity`.
    pub open spec fn routed_fields(self) -> Seq<(Seq<char>, Scalar)> {
        sorted_remove(self.fields@, SEVERITY_KEY@)
    }
}

impl EventFormatter {
    /// The trace data that the formatter reads: that of the span of the
    /// event, where a project is configured.
    pub open spec fn trace_data(self, context: FormatContext) -> Option<TraceData> {
        match (self.cloud_trace_configuration, context.scope()) {
            (Some(_), Some(scope)) => scope.span.trace,
            _ => None,
        }
    }

    /// The top level of the document, and the two nested objects, once the
    /// fields of the event are routed.
    pub open spec fn routed(event: Event, time: Seq<char>) -> Routed {
        route_all(
            Routed {
                top_level: head(event.severity(), time, event.target@),
                http_request: Seq::empty(),
                labels: Seq::empty(),
            },
            event.routed_fields(),
        )
    }

    /// The document before the spans and the trace fields are written.
    pub open spec fn located(self, event: Event, time: Seq<char>) -> Seq<(Seq<char>, Json)> {
        let routed = EventFormatter::routed(event, time);
        let d1 = with_object(routed.top_level, HTTP_REQUEST_KEY@, routed.http_request);
        let d2 = with_object(d1, LABELS_KEY@, routed.labels);
        if self.include_source_location && event.file.is_some() {
            put(
                d2,
                SOURCE_LOCATION_KEY@,
                Json::Object(source_location(event.file.unwrap()@, event.line)),
            )
        } else {
            d2
        }
    }

    /// The document before the trace fields are written.
    pub open spec fn untraced(self, context: FormatContext, event: Event, time: Seq<char>) -> Seq<
        (Seq<char>, Json),
    > {
        with_scope(self.located(event, time), context.scope())
    }

    /// The document for `event` in `context` at the time whose text is
    /// `time`. Its entries, in their order: severity, time and target; the
    /// fields of the event as they are routed; the HTTP request and the
    /// labels, where they are not empty; the source location, where it is
    /// wanted and the file is known; the span and the spans; the trace
    /// fields.
    pub open spec fn document(self, context: FormatContext, event: Event, time: Seq<char>) -> Seq<
        (Seq<char>, Json),
    > {
        let d = self.untraced(context, event, time);
        match self.trace_data(context) {
            Some(data) => with_trace(
                d,
                self.cloud_trace_configuration.unwrap().project_id@,
                data,
                context.active_trace_span,
            ),
            None => d,
        }
    }

    /// A formatter with the given settings.
    pub fn new(
        include_source_location: bool,
        cloud_trace_configuration: Option<CloudTraceConfiguration>,
    ) -> (r: EventFormatter)
        ensures
            r.include_source_location == include_source_location,
            r.cloud_trace_configuration == cloud_trace_configuration,
    {
        EventFormatter { include_source_location, cloud_trace_configuration }
    }

    /// Builds the document for `event`, see [`EventFormatter::document`].
    pub fn assemble(&self, context: &FormatContext, event: &Event, time: &str) -> (r:
        OutputDocument)
        ensures
            r@ == self.document(*context, *event, time@),
    {
        let mut fields = event.fields.clone();
        let overriding = fields.remove(SEVERITY_KEY);
        let severity = LogSeverity::resolve(event.level, overriding.as_ref());

        let mut top_level = OutputDocument::new();
        let ghost d0 = top_level@;
        top_level.put(
            SEVERITY_KEY.to_owned(),
            DocValue::Scalar(FieldValue::Str(severity.as_str().to_owned())),
        );
        let ghost d1 = top_level@;
        top_level.put(TIME_KEY.to_owned(), DocValue::Scalar(FieldValue::Str(time.to_owned())));
        let ghost d2 = top_level@;
        top_level.put(
            TARGET_KEY.to_owned(),
            DocValue::Scalar(FieldValue::Str(event.target.clone())),
        );
        proof {
            lemma_key_shapes();
            lemma_put_new(d0, SEVERITY_KEY@, Json::Scalar(Scalar::Str(severity.name())));
            lemma_put_new(d1, TIME_KEY@, Json::Scalar(Scalar::Str(time@)));
            lemma_put_new(d2, TARGET_KEY@, Json::Scalar(Scalar::Str(event.target@)));
            assert(top_level@ =~= head(event.severity(), time@, event.target@));
        }

        let mut routed = RoutedFields {
            top_level,
            http_request: FieldMap::new(),
            labels: FieldMap::new(),
        };
        routed.route_fields(&fields);
        let RoutedFields { top_level, http_request, labels } = routed;
        let mut document = top_level;

        if !http_request.is_empty() {
            document.put(HTTP_REQUEST_KEY.to_owned(), DocValue::Object(http_request.to_entries()));
        }
        if !labels.is_empty() {
            document.put(LABELS_KEY.to_owned(), DocValue::Object(labels.to_entries()));
        }

        if self.include_source_location {
            if let Some(file) = &event.file {
                let mut location: Vec<(String, FieldValue)> = Vec::new();
                location.push(("file".to_owned(), FieldValue::Str(file.clone())));
                if let Some(line) = event.line {
                    location.push(("line".to_owned(), FieldValue::Str(u64_text(line as u64))));
                }
                proof {
                    assert(members_view(location@) =~= source_location(file@, event.line));
                }
                document.put(SOURCE_LOCATION_KEY.to_owned(), DocValue::Object(location));
            }
        }

        let scope = context.resolve();
        if let Some(scope) = scope {
            document.put(SPAN_KEY.to_owned(), DocValue::Object(scope.span.to_object()));
            document.put(SPANS_KEY.to_owned(), DocValue::List(scope.to_objects()));
        }

        if let (Some(scope), Some(config)) = (scope, &self.cloud_trace_configuration) {
            if let Some(data) = &scope.span.trace {
                let fields = data.correlate(config.project_id.as_str(), &context.active_trace_span);
                if let Some(name) = fields.trace {
                    document.put(TRACE_KEY.to_owned(), DocValue::Scalar(FieldValue::Str(name)));
                }
                if let Some(id) = fields.span_id {
                    document.put(SPAN_ID_KEY.to_owned(), DocValue::Scalar(FieldValue::Str(id)));
                }
                if fields.sampled {
                    document.put(
                        TRACE_SAMPLED_KEY.to_owned(),
                        DocValue::Scalar(FieldValue::Bool(true)),
                    );
                }
            }
        }
        document
    }

    /// The line for `event` at the time whose text is `time`: the text of
    /// its document and a newline, which is the only newline of the line. It
    /// fails with [`FormatError::Serialization`] exactly where a value of
    /// the document cannot be written as JSON.
    pub fn format_event_at(&self, context: &FormatContext, event: &Event, time: &str) -> (r: Result<
        String,
        FormatError,
    >)
        ensures
            document_encodable(self.document(*context, *event, time@)) ==> r is Ok && r->Ok_0@
                == line_text(self.document(*context, *event, time@)),
            !document_encodable(self.document(*context, *event, time@)) ==> r == Err::<
                String,
                FormatError,
            >(FormatError::Serialization),
            r matches Ok(line) ==> line@.len() > 0 && line@.last() == '\n' && no_newline(
                line@.drop_last(),
            ),
    {
        proof {
            let d = self.document(*context, *event, time@);
            if document_encodable(d) {
                lemma_one_line(d);
            }
        }
        self.assemble(context, event, time).to_line()
    }

    /// The line for `event` now. The clock gives the time and its text; the
    /// line is the one that [`EventFormatter::format_event_at`] gives for
    /// that text, so it is one line whatever the time. Where the time cannot
    /// be rendered the result is [`FormatError::Time`].
    pub fn format_event(&self, context: &FormatContext, event: &Event) -> (r: Result<
        String,
        FormatError,
    >)
        ensures
            r matches Ok(line) ==> exists|time: Seq<char>|
                document_encodable(#[trigger] self.document(*context, *event, time)) && line@
                    == line_text(self.document(*context, *event, time)),
            r matches Err(e) ==> e == FormatError::Time || (e == FormatError::Serialization
                && exists|time: Seq<char>|
                !document_encodable(#[trigger] self.document(*context, *event, time))),
            r matches Ok(line) ==> line@.len() > 0 && line@.last() == '\n' && no_newline(
                line@.drop_last(),
            ),
    {
        match rfc3339(now_utc()) {
            Ok(time) => {
                let r = self.format_event_at(context, event, time.as_str());
                proof {
                    let d = self.document(*context, *event, time@);
                    assert(document_encodable(d) || !document_encodable(d));
                }
                r
            },
            Err(_) => Err(FormatError::Time),
        }
    }
}

} // verus!
