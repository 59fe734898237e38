//! Spans, and which span an event belongs to.

use vstd::prelude::*;
use crate::document::{members_view, objects_view};
use crate::field_map::{
    lemma_removed_key_gone, lemma_remove_sorted, sorted, sorted_remove, FieldMap,
};
use crate::text::lemma_lex_irreflexive;
use crate::trace::{ActiveTraceSpan, TraceData};
use crate::value::{FieldValue, Scalar};

verus! {

/// A named scope of execution that encloses events.
#[derive(Debug)]
pub struct Span {
    /// The name of the span.
    pub name: String,
    /// The fields that the caller gave the span.
    pub fields: FieldMap,
    /// The trace data attached to the span, if any.
    pub trace: Option<TraceData>,
}

/// A span together with the spans that enclose it.
#[derive(Debug)]
pub struct SpanScope {
    /// The enclosing spans, outermost first.
    pub ancestors: Vec<Span>,
    /// The span itself.
    pub span: Span,
}

/// The explicit parent of an event, as far as the registry knows it.
#[derive(Debug)]
pub enum ParentSpan {
    /// The event names no parent.
    Absent,
    /// The event names a parent that the registry does not hold.
    Unresolved,
    /// The parent that the event names.
    Resolved(SpanScope),
}

/// What the registry and the tracer know where an event is formatted.
#[derive(Debug)]
pub struct FormatContext {
    /// The explicit parent of the event.
    pub parent: ParentSpan,
    /// The span that is current, if any.
    pub current: Option<SpanScope>,
    /// The trace span that is active, if any.
    pub active_trace_span: Option<ActiveTraceSpan>,
}

impl Span {
    /// The span as a JSON object: its name under `name`, then its fields in
    /// their order. A field called `name` gives way to the name.
    pub open spec fn object(self) -> Seq<(Seq<char>, Scalar)> {
        seq![("name"@, Scalar::Str(self.name@))] + sorted_remove(self.fields@, "name"@)
    }

    /// See [`Span::object`].
    pub fn to_object(&self) -> (r: Vec<(String, FieldValue)>)
        ensures
            members_view(r@) == self.object(),
    {
        let mut fields = self.fields.clone();
        let _ = fields.remove("name");
        let mut rest = fields.to_entries();
        let mut object: Vec<(String, FieldValue)> = Vec::new();
        object.push(("name".to_owned(), FieldValue::Str(self.name.clone())));
        let ghost first = object@;
        let ghost others = rest@;
        object.append(&mut rest);
        proof {
            assert(object@ == first + others);
            assert(members_view(object@) =~= self.object());
        }
        object
    }
}

impl SpanScope {
    /// The scope as a list of JSON objects: the enclosing spans, outermost
    /// first, then the span itself.
    pub open spec fn objects(self) -> Seq<Seq<(Seq<char>, Scalar)>> {
        Seq::new(
            self.ancestors@.len() + 1,
            |i: int|
                if i < self.ancestors@.len() {
                    self.ancestors@[i].object()
                } else {
                    self.span.object()
                },
        )
    }

    /// See [`SpanScope::objects`].
    pub fn to_objects(&self) -> (r: Vec<Vec<(String, FieldValue)>>)
        ensures
            objects_view(r@) == self.objects(),
    {
        let mut objects: Vec<Vec<(String, FieldValue)>> = Vec::new();
        let mut i: usize = 0;
        while i < self.ancestors.len()
            invariant
                i <= self.ancestors@.len(),
                objects@.len() == i,
                forall|j: int|
                    0 <= j < i ==> members_view((#[trigger] objects@[j])@) == self.ancestors@[j].object(),
            decreases self.ancestors@.len() - i,
        {
            objects.push(self.ancestors[i].to_object());
            i += 1;
        }
        objects.push(self.span.to_object());
        proof {
            assert(objects_view(objects@) =~= self.objects());
        }
        objects
    }
}

impl FormatContext {
    /// The scope of the event: that of its explicit parent where the
    /// registry holds it, else that of the current span.
    pub open spec fn scope(self) -> Option<SpanScope> {
        match self.parent {
            ParentSpan::Resolved(scope) => Some(scope),
            _ => self.current,
        }
    }

    /// See [`FormatContext::scope`].
    pub fn resolve(&self) -> (r: Option<&SpanScope>)
        ensures
            match r {
                Some(scope) => self.scope() == Some(*scope),
                None => self.scope().is_none(),
            },
    {
        match &self.parent {
            ParentSpan::Resolved(scope) => Some(scope),
            _ => self.current.as_ref(),
        }
    }
}

/// The object of a span begins with the name of the span, and no key occurs
/// twice in it.
pub proof fn lemma_span_object(span: Span)
    requires
        sorted(span.fields@),
    ensures
        span.object().len() >= 1,
        span.object()[0] == ("name"@, Scalar::Str(span.name@)),
        forall|i: int, j: int|
            0 <= i < j < span.object().len() ==> (#[trigger] span.object()[i]).0 != (
            #[trigger] span.object()[j]).0,
{
    let rest = sorted_remove(span.fields@, "name"@);
    let object = span.object();
    lemma_removed_key_gone(span.fields@, "name"@);
    lemma_remove_sorted(span.fields@, "name"@);
    assert forall|i: int, j: int| 0 <= i < j < object.len() implies (#[trigger] object[i]).0 != (
    #[trigger] object[j]).0 by {
        assert(object[j] == rest[j - 1]);
        if i > 0 {
            assert(object[i] == rest[i - 1]);
            lemma_lex_irreflexive(rest[i - 1].0);
        }
    }
}

/// An explicit parent that the registry does not hold gives the event the
/// scope of the current span, as an absent parent does.
pub proof fn lemma_unresolved_parent_falls_back(context: FormatContext)
    requires
        context.parent is Unresolved || context.parent is Absent,
    ensures
        context.scope() == context.current,
{
}

} // verus!
