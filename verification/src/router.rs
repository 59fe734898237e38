//! Decides where each collected field goes in the output document.

use vstd::prelude::*;
use crate::casing::{camel_case, camel_cased};
use crate::document::{put, DocValue, Json, OutputDocument};
use crate::field_map::{sorted_put, FieldMap};
use crate::text::{char_count, has_prefix, same_text, text_after};
use crate::value::{stringified, FieldValue, Scalar};

verus! {

/// The key of the severity.
pub const SEVERITY_KEY: &'static str = "severity";

/// The key of the timestamp.
pub const TIME_KEY: &'static str = "time";

/// The key of the target.
pub const TARGET_KEY: &'static str = "target";

/// The key of the message.
pub const MESSAGE_KEY: &'static str = "message";

/// The key of the object that describes an HTTP request.
pub const HTTP_REQUEST_KEY: &'static str = "httpRequest";

/// The key of the labels.
pub const LABELS_KEY: &'static str = "logging.googleapis.com/labels";

/// The key of the insert identifier.
pub const INSERT_ID_KEY: &'static str = "logging.googleapis.com/insertId";

/// The key of the source location.
pub const SOURCE_LOCATION_KEY: &'static str = "logging.googleapis.com/sourceLocation";

/// The key of the span that the event belongs to.
pub const SPAN_KEY: &'static str = "span";

/// The key of the list of spans that enclose the event.
pub const SPANS_KEY: &'static str = "spans";

/// The key of the resource name of the trace.
pub const TRACE_KEY: &'static str = "logging.googleapis.com/trace";

/// The key of the span identifier.
pub const SPAN_ID_KEY: &'static str = "logging.googleapis.com/spanId";

/// The key of the sampling flag.
pub const TRACE_SAMPLED_KEY: &'static str = "logging.googleapis.com/trace_sampled";

/// The prefix of the fields that describe an HTTP request.
pub const HTTP_REQUEST_PREFIX: &'static str = "http_request.";

/// The prefix of the fields that are labels.
pub const LABELS_PREFIX: &'static str = "labels.";

/// The name of the field that holds the insert identifier.
pub const INSERT_ID_FIELD: &'static str = "insert_id";

/// The lengths of the keys that the formatter writes, and the characters
/// that tell apart those of equal length. Any two of the keys differ.
pub proof fn lemma_key_shapes()
    ensures
        SEVERITY_KEY@.len() == 8,
        TIME_KEY@.len() == 4,
        TARGET_KEY@.len() == 6,
        MESSAGE_KEY@.len() == 7,
        HTTP_REQUEST_KEY@.len() == 11,
        SPAN_KEY@.len() == 4,
        SPANS_KEY@.len() == 5,
        LABELS_KEY@.len() == 29,
        INSERT_ID_KEY@.len() == 31,
        SOURCE_LOCATION_KEY@.len() == 37,
        TRACE_KEY@.len() == 28,
        SPAN_ID_KEY@.len() == 29,
        TRACE_SAMPLED_KEY@.len() == 36,
        TIME_KEY@[0] == 't',
        SPAN_KEY@[0] == 's',
        LABELS_KEY@[23] == 'l',
        SPAN_ID_KEY@[23] == 's',
{
    reveal_strlit("severity");
    reveal_strlit("time");
    reveal_strlit("target");
    reveal_strlit("message");
    reveal_strlit("httpRequest");
    reveal_strlit("span");
    reveal_strlit("spans");
    reveal_strlit("logging.googleapis.com/labels");
    reveal_strlit("logging.googleapis.com/insertId");
    reveal_strlit("logging.googleapis.com/sourceLocation");
    reveal_strlit("logging.googleapis.com/trace");
    reveal_strlit("logging.googleapis.com/spanId");
    reveal_strlit("logging.googleapis.com/trace_sampled");
}

/// Whether `key` is one of the keys that the formatter writes itself. No
/// field of the caller is written under such a key.
pub open spec fn is_reserved(key: Seq<char>) -> bool {
    ||| key == SEVERITY_KEY@
    ||| key == TIME_KEY@
    ||| key == TARGET_KEY@
    ||| key == HTTP_REQUEST_KEY@
    ||| key == LABELS_KEY@
    ||| key == INSERT_ID_KEY@
    ||| key == SOURCE_LOCATION_KEY@
    ||| key == SPAN_KEY@
    ||| key == SPANS_KEY@
    ||| key == TRACE_KEY@
    ||| key == SPAN_ID_KEY@
    ||| key == TRACE_SAMPLED_KEY@
}

/// See [`is_reserved`].
pub fn reserved(key: &str) -> (r: bool)
    ensures
        r == is_reserved(key@),
{
    same_text(key, SEVERITY_KEY) || same_text(key, TIME_KEY) || same_text(key, TARGET_KEY)
        || same_text(key, HTTP_REQUEST_KEY) || same_text(key, LABELS_KEY) || same_text(
        key,
        INSERT_ID_KEY,
    ) || same_text(key, SOURCE_LOCATION_KEY) || same_text(key, SPAN_KEY) || same_text(
        key,
        SPANS_KEY,
    ) || same_text(key, TRACE_KEY) || same_text(key, SPAN_ID_KEY) || same_text(
        key,
        TRACE_SAMPLED_KEY,
    )
}

/// Where a field goes.
#[derive(Clone, Copy, Debug, PartialEq, Eq, Structural)]
pub enum Destination {
    /// Into the object that describes an HTTP request.
    HttpRequest,
    /// Into the labels.
    Labels,
    /// Under the key of the insert identifier.
    InsertId,
    /// Under the key of the message.
    Message,
    /// To the top level of the document, under its own name in camel case.
    TopLevel,
}

/// Where the field named `name` goes: by its prefix up to the first point,
/// or by its whole name.
pub open spec fn destination(name: Seq<char>) -> Destination {
    if HTTP_REQUEST_PREFIX@.is_prefix_of(name) {
        Destination::HttpRequest
    } else if LABELS_PREFIX@.is_prefix_of(name) {
        Destination::Labels
    } else if name == INSERT_ID_FIELD@ {
        Destination::InsertId
    } else if name == MESSAGE_KEY@ {
        Destination::Message
    } else {
        Destination::TopLevel
    }
}

/// The key under which the field named `name` is written at its
/// destination.
pub open spec fn emitted_key(name: Seq<char>) -> Seq<char> {
    match destination(name) {
        Destination::HttpRequest => camel_case(name.skip(HTTP_REQUEST_PREFIX@.len() as int)),
        Destination::Labels => camel_case(name.skip(LABELS_PREFIX@.len() as int)),
        Destination::InsertId => INSERT_ID_KEY@,
        Destination::Message => MESSAGE_KEY@,
        Destination::TopLevel => camel_case(name),
    }
}

/// The value that is written for the field named `name`: a label and the
/// insert identifier as a string, every other value as it is.
pub open spec fn emitted_value(name: Seq<char>, value: Scalar) -> Scalar {
    match destination(name) {
        Destination::Labels | Destination::InsertId => Scalar::Str(stringified(value)),
        _ => value,
    }
}

/// The destination of the field named `name` and the key that it gets there.
pub fn route_key(name: &str) -> (r: (Destination, String))
    ensures
        r.0 == destination(name@),
        r.1@ == emitted_key(name@),
{
    if has_prefix(name, HTTP_REQUEST_PREFIX) {
        let rest = text_after(name, char_count(HTTP_REQUEST_PREFIX));
        (Destination::HttpRequest, camel_cased(rest.as_str()))
    } else if has_prefix(name, LABELS_PREFIX) {
        let rest = text_after(name, char_count(LABELS_PREFIX));
        (Destination::Labels, camel_cased(rest.as_str()))
    } else if same_text(name, INSERT_ID_FIELD) {
        (Destination::InsertId, INSERT_ID_KEY.to_owned())
    } else if same_text(name, MESSAGE_KEY) {
        (Destination::Message, MESSAGE_KEY.to_owned())
    } else {
        (Destination::TopLevel, camel_cased(name))
    }
}

/// The value that is written for a field, see [`emitted_value`].
pub fn route_value(destination: Destination, value: &FieldValue) -> (r: FieldValue)
    ensures
        r@ == match destination {
            Destination::Labels | Destination::InsertId => Scalar::Str(stringified(value@)),
            _ => value@,
        },
{
    match destination {
        Destination::Labels | Destination::InsertId => FieldValue::Str(value.stringify()),
        _ => value.clone(),
    }
}

/// The three places that routed fields go to, as sequences.
pub struct Routed {
    /// The top level of the document.
    pub top_level: Seq<(Seq<char>, Json)>,
    /// The members of the HTTP request object, ordered by key.
    pub http_request: Seq<(Seq<char>, Scalar)>,
    /// The labels, ordered by key.
    pub labels: Seq<(Seq<char>, Scalar)>,
}

/// `routed` after the field `name` with the value `value` has been routed.
/// A value that arrives under a key that is taken replaces the value there.
/// A field that would be written at the top level under a reserved key is
/// dropped.
pub open spec fn route_one(routed: Routed, name: Seq<char>, value: Scalar) -> Routed {
    let key = emitted_key(name);
    let written = emitted_value(name, value);
    match destination(name) {
        Destination::HttpRequest => Routed {
            http_request: sorted_put(routed.http_request, key, written),
            ..routed
        },
        Destination::Labels => Routed { labels: sorted_put(routed.labels, key, written), ..routed },
        Destination::InsertId | Destination::Message => Routed {
            top_level: put(routed.top_level, key, Json::Scalar(written)),
            ..routed
        },
        Destination::TopLevel => if is_reserved(key) {
            routed
        } else {
            Routed { top_level: put(routed.top_level, key, Json::Scalar(written)), ..routed }
        },
    }
}

/// `routed` after the fields have been routed one after the other.
pub open spec fn route_all(routed: Routed, fields: Seq<(Seq<char>, Scalar)>) -> Routed
    decreases fields.len(),
{
    if fields.len() == 0 {
        routed
    } else {
        route_one(route_all(routed, fields.drop_last()), fields.last().0, fields.last().1)
    }
}

/// The document under construction and the two nested objects that the
/// fields of the caller fill.
#[derive(Debug)]
pub struct RoutedFields {
    /// The document.
    pub top_level: OutputDocument,
    /// The members of the HTTP request object.
    pub http_request: FieldMap,
    /// The labels.
    pub labels: FieldMap,
}

impl View for RoutedFields {
    type V = Routed;

    open spec fn view(&self) -> Routed {
        Routed {
            top_level: self.top_level@,
            http_request: self.http_request@,
            labels: self.labels@,
        }
    }
}

impl RoutedFields {
    /// Routes one field, see [`route_one`].
    pub fn route(&mut self, name: &str, value: &FieldValue)
        ensures
            final(self)@ == route_one(old(self)@, name@, value@),
    {
        let (destination, key) = route_key(name);
        let written = route_value(destination, value);
        match destination {
            Destination::HttpRequest => {
                self.http_request.insert(key, written);
            },
            Destination::Labels => {
                self.labels.insert(key, written);
            },
            Destination::InsertId | Destination::Message => {
                self.top_level.put(key, DocValue::Scalar(written));
            },
            Destination::TopLevel => {
                if !reserved(key.as_str()) {
                    self.top_level.put(key, DocValue::Scalar(written));
                }
            },
        }
    }

    /// Routes the fields in their order, see [`route_all`].
    pub fn route_fields(&mut self, fields: &FieldMap)
        ensures
            final(self)@ == route_all(old(self)@, fields@),
    {
        let n = fields.len();
        let mut i: usize = 0;
        while i < n
            invariant
                i <= n,
                n == fields@.len(),
                self@ == route_all(old(self)@, fields@.take(i as int)),
            decreases n - i,
        {
            self.route(fields.key_at(i), fields.value_at(i));
            proof {
                assert(fields@.take(i + 1).drop_last() =~= fields@.take(i as int));
            }
            i += 1;
        }
        proof {
            assert(fields@.take(n as int) =~= fields@);
        }
    }
}

/// A field whose name is neither `insert_id` nor `message` and begins with
/// neither `http_request.` nor `labels.` goes to the top level, under its
/// name in camel case and with its value unchanged.
pub proof fn lemma_plain_field(name: Seq<char>, value: Scalar)
    requires
        !HTTP_REQUEST_PREFIX@.is_prefix_of(name),
        !LABELS_PREFIX@.is_prefix_of(name),
        name != INSERT_ID_FIELD@,
        name != MESSAGE_KEY@,
    ensures
        destination(name) == Destination::TopLevel,
        emitted_key(name) == camel_case(name),
        emitted_value(name, value) == value,
{
}

/// A plain field whose name camel-casing leaves unchanged is written under
/// its name as it is.
pub proof fn lemma_camel_name_kept(name: Seq<char>)
    requires
        destination(name) == Destination::TopLevel,
        camel_case(name) == name,
    ensures
        emitted_key(name) == name,
{
}

} // verus!
