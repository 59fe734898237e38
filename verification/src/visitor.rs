//! Collects the fields of one event.

use vstd::prelude::*;
use crate::field_map::{sorted_put, FieldMap};
use crate::router::MESSAGE_KEY;
use crate::text::{eq_ignore_ascii_case, has_prefix, lowered};
use crate::value::{float_value, FieldValue, Scalar};

verus! {

/// Whether a field carries metadata of a log record that was bridged from
/// another logging framework: its name begins with `log.` or `event.`.
pub open spec fn is_metadata(name: Seq<char>) -> bool {
    "log."@.is_prefix_of(name) || "event."@.is_prefix_of(name)
}

/// The name under which a value given by its debug text is stored: `message`
/// for the message, however its name is capitalised; else the name of the
/// field.
pub open spec fn stored_name(name: Seq<char>) -> Seq<char> {
    if lowered(name) == lowered(MESSAGE_KEY@) {
        MESSAGE_KEY@
    } else {
        name
    }
}

/// Receives the fields of an event one by one and keeps them ordered by
/// name. A field that is recorded twice keeps its last value.
#[derive(Debug)]
pub struct EventFieldVisitor {
    /// The fields recorded so far.
    pub fields: FieldMap,
}

impl EventFieldVisitor {
    /// A visitor that has recorded nothing.
    pub fn new() -> (r: EventFieldVisitor)
        ensures
            r.fields@ == Seq::<(Seq<char>, Scalar)>::empty(),
    {
        EventFieldVisitor { fields: FieldMap::new() }
    }

    /// Records a double, given by its bits and its decimal text. A double
    /// that is not finite is recorded as the integer zero.
    pub fn record_f64(&mut self, name: &str, bits: u64, text: &str)
        ensures
            final(self).fields@ == sorted_put(old(self).fields@, name@, float_value(bits, text@)),
    {
        self.fields.insert(name.to_owned(), FieldValue::from_f64_bits(bits, text));
    }

    /// Records a signed integer.
    pub fn record_i64(&mut self, name: &str, value: i64)
        ensures
            final(self).fields@ == sorted_put(old(self).fields@, name@, Scalar::Int(value)),
    {
        self.fields.insert(name.to_owned(), FieldValue::Int(value));
    }

    /// Records an unsigned integer.
    pub fn record_u64(&mut self, name: &str, value: u64)
        ensures
            final(self).fields@ == sorted_put(old(self).fields@, name@, Scalar::Uint(value)),
    {
        self.fields.insert(name.to_owned(), FieldValue::Uint(value));
    }

    /// Records a boolean.
    pub fn record_bool(&mut self, name: &str, value: bool)
        ensures
            final(self).fields@ == sorted_put(old(self).fields@, name@, Scalar::Bool(value)),
    {
        self.fields.insert(name.to_owned(), FieldValue::Bool(value));
    }

    /// Records a string.
    pub fn record_str(&mut self, name: &str, value: &str)
        ensures
            final(self).fields@ == sorted_put(old(self).fields@, name@, Scalar::Str(value@)),
    {
        self.fields.insert(name.to_owned(), FieldValue::Str(value.to_owned()));
    }

    /// Records an error, given by its display text.
    pub fn record_error(&mut self, name: &str, rendered: &str)
        ensures
            final(self).fields@ == sorted_put(old(self).fields@, name@, Scalar::Str(rendered@)),
    {
        self.fields.insert(name.to_owned(), FieldValue::Str(rendered.to_owned()));
    }

    /// Records a value given by its debug text. Metadata fields are dropped.
    /// The message is stored as a string under `message`, every other field
    /// as a string under its name.
    pub fn record_debug(&mut self, name: &str, rendered: &str)
        ensures
            is_metadata(name@) ==> final(self).fields@ == old(self).fields@,
            !is_metadata(name@) ==> final(self).fields@ == sorted_put(
                old(self).fields@,
                stored_name(name@),
                Scalar::Str(rendered@),
            ),
    {
        if has_prefix(name, "log.") {
        } else if has_prefix(name, "event.") {
        } else if eq_ignore_ascii_case(name, MESSAGE_KEY) {
            self.fields.insert(MESSAGE_KEY.to_owned(), FieldValue::Str(rendered.to_owned()));
        } else {
            self.fields.insert(name.to_owned(), FieldValue::Str(rendered.to_owned()));
        }
    }
}

} // verus!
