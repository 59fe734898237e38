//! Correlation of a log entry with a distributed trace.

use vstd::prelude::*;

verus! {

/// Configuration of the fields that tie a log entry to Cloud Trace.
#[derive(Debug)]
pub struct CloudTraceConfiguration {
    /// The project that the traces belong to.
    pub project_id: String,
}

/// The trace context that a span inherited when it was created.
#[derive(Debug)]
pub struct ParentTrace {
    /// The identifier of the trace, as it is to be written.
    pub trace_id: String,
    /// Whether the trace is sampled.
    pub sampled: bool,
}

/// The trace data attached to a span.
#[derive(Debug)]
pub struct TraceData {
    /// The inherited trace context, if the span has an active parent.
    pub parent: Option<ParentTrace>,
    /// The span's own identifier; none while the span has not started.
    pub span_id: Option<String>,
}

/// The trace span that is active where the event is formatted.
#[derive(Debug)]
pub struct ActiveTraceSpan {
    /// The identifier of the span.
    pub span_id: String,
    /// Whether the span was propagated from another process.
    pub remote: bool,
}

/// The trace fields of one log entry.
#[derive(Debug)]
pub struct TraceFields {
    /// The resource name of the trace.
    pub trace: Option<String>,
    /// The identifier of the span that the entry belongs to.
    pub span_id: Option<String>,
    /// Whether the trace is sampled.
    pub sampled: bool,
}

/// The characters of an optional string.
pub open spec fn text_of(s: Option<String>) -> Option<Seq<char>> {
    match s {
        Some(s) => Some(s@),
        None => None,
    }
}

/// The resource name of a trace: `projects/<project>/traces/<trace>`.
pub open spec fn trace_name(project_id: Seq<char>, trace_id: Seq<char>) -> Seq<char> {
    "projects/"@ + project_id + "/traces/"@ + trace_id
}

impl TraceData {
    /// The resource name of the trace: present where the span inherited a
    /// trace context, made of that context's trace identifier.
    pub open spec fn trace(self, project_id: Seq<char>) -> Option<Seq<char>> {
        match self.parent {
            Some(parent) => Some(trace_name(project_id, parent.trace_id@)),
            None => None,
        }
    }

    /// Whether the inherited trace context says that the trace is sampled.
    pub open spec fn sampled(self) -> bool {
        self.parent matches Some(parent) && parent.sampled
    }

    /// The span identifier of the entry: the span's own where it has one;
    /// else that of the active trace span, unless that span is remote.
    pub open spec fn span_id(self, active: Option<ActiveTraceSpan>) -> Option<Seq<char>> {
        match self.span_id {
            Some(id) => Some(id@),
            None => match active {
                Some(span) => if span.remote {
                    None
                } else {
                    Some(span.span_id@)
                },
                None => None,
            },
        }
    }

    /// The trace fields of an entry in the span that holds this data.
    pub fn correlate(&self, project_id: &str, active: &Option<ActiveTraceSpan>) -> (r: TraceFields)
        ensures
            text_of(r.trace) == self.trace(project_id@),
            text_of(r.span_id) == self.span_id(*active),
            r.sampled == self.sampled(),
    {
        let (trace, sampled) = match &self.parent {
            Some(parent) => {
                let mut name = "projects/".to_owned();
                name.append(project_id);
                name.append("/traces/");
                name.append(parent.trace_id.as_str());
                (Some(name), parent.sampled)
            },
            None => (None, false),
        };
        let span_id = match &self.span_id {
            Some(id) => Some(id.clone()),
            None => match active {
                Some(span) => if span.remote {
                    None
                } else {
                    Some(span.span_id.clone())
                },
                None => None,
            },
        };
        TraceFields { trace, span_id, sampled }
    }
}

} // verus!
