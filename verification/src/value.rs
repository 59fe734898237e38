//! The values that a field of an event or of a span can hold.

use vstd::prelude::*;
use crate::decimal::{decimal, i64_text, u64_text};
use crate::error::FormatError;
use crate::json::{is_json_number, json_number, json_string, quoted};

verus! {

/// A finite floating-point number: the bits of its IEEE 754 double, and its
/// decimal text, which only the caller can render. No value of this type is
/// an infinity or a NaN.
#[derive(Debug)]
pub struct Double {
    bits: u64,
    text: String,
}

/// One field value: a number, a boolean or a string.
#[derive(Debug)]
pub enum FieldValue {
    /// A signed integer.
    Int(i64),
    /// An unsigned integer.
    Uint(u64),
    /// A finite floating-point number.
    Float(Double),
    /// A boolean.
    Bool(bool),
    /// A string. Rendered errors and debug output are strings too.
    Str(String),
}

/// What a [`FieldValue`] holds, with texts as character sequences.
pub enum Scalar {
    Int(i64),
    Uint(u64),
    Float { bits: u64, text: Seq<char> },
    Bool(bool),
    Str(Seq<char>),
}

impl View for Double {
    type V = (u64, Seq<char>);

    closed spec fn view(&self) -> (u64, Seq<char>) {
        (self.bits, self.text@)
    }
}

impl View for FieldValue {
    type V = Scalar;

    open spec fn view(&self) -> Scalar {
        match self {
            FieldValue::Int(i) => Scalar::Int(*i),
            FieldValue::Uint(u) => Scalar::Uint(*u),
            FieldValue::Float(d) => Scalar::Float { bits: d@.0, text: d@.1 },
            FieldValue::Bool(b) => Scalar::Bool(*b),
            FieldValue::Str(s) => Scalar::Str(s@),
        }
    }
}

/// Whether the double with these bits is finite: its eleven exponent bits are
/// not all set. Infinities and NaNs are the doubles whose exponent bits are.
pub open spec fn finite_bits(bits: u64) -> bool {
    (bits >> 52) & 0x7ff != 0x7ff
}

/// The value that stands for the double with the given bits and decimal
/// text: the double itself where it is finite, else the integer zero.
pub open spec fn float_value(bits: u64, text: Seq<char>) -> Scalar {
    if finite_bits(bits) {
        Scalar::Float { bits, text }
    } else {
        Scalar::Int(0)
    }
}

/// The JSON text of a scalar. The text of a floating-point number is the one
/// it was given.
pub open spec fn scalar_text(v: Scalar) -> Seq<char> {
    match v {
        Scalar::Int(i) => decimal(i as int),
        Scalar::Uint(u) => decimal(u as int),
        Scalar::Float { bits, text } => text,
        Scalar::Bool(b) => if b {
            "true"@
        } else {
            "false"@
        },
        Scalar::Str(s) => quoted(s),
    }
}

/// Whether a scalar can be written as JSON: every scalar but a
/// floating-point number whose text is no JSON number.
pub open spec fn encodable(v: Scalar) -> bool {
    v matches Scalar::Float { bits, text } ==> is_json_number(text)
}

/// A scalar as the text of a label: a string as it is, any other value as its
/// JSON text.
pub open spec fn stringified(v: Scalar) -> Seq<char> {
    match v {
        Scalar::Str(s) => s,
        _ => scalar_text(v),
    }
}

impl Double {
    #[verifier::type_invariant]
    spec fn finite(&self) -> bool {
        finite_bits(self.bits)
    }

    /// The double with the given bits, whose decimal text is `text`; none
    /// where the bits are those of an infinity or of a NaN.
    pub fn new(bits: u64, text: &str) -> (r: Option<Double>)
        ensures
            r is Some <==> finite_bits(bits),
            r matches Some(d) ==> d@ == (bits, text@),
    {
        if (bits >> 52) & 0x7ff != 0x7ff {
            Some(Double { bits, text: text.to_owned() })
        } else {
            None
        }
    }

    /// The bits of the double. They are those of a finite number.
    pub fn bits(&self) -> (r: u64)
        ensures
            r == self@.0,
            finite_bits(r),
    {
        proof {
            use_type_invariant(self);
        }
        self.bits
    }

    /// The decimal text that the double was given.
    pub fn text(&self) -> (r: &str)
        ensures
            r@ == self@.1,
    {
        self.text.as_str()
    }
}

impl Clone for Double {
    fn clone(&self) -> (r: Self)
        ensures
            r@ == self@,
    {
        proof {
            use_type_invariant(self);
        }
        Double { bits: self.bits, text: self.text.clone() }
    }
}

impl Clone for FieldValue {
    fn clone(&self) -> (r: Self)
        ensures
            r@ == self@,
    {
        match self {
            FieldValue::Int(i) => FieldValue::Int(*i),
            FieldValue::Uint(u) => FieldValue::Uint(*u),
            FieldValue::Float(d) => FieldValue::Float(d.clone()),
            FieldValue::Bool(b) => FieldValue::Bool(*b),
            FieldValue::Str(s) => FieldValue::Str(s.clone()),
        }
    }
}

impl FieldValue {
    /// The value for the double with the given bits, whose decimal text is
    /// `text`. A double that is not finite becomes the integer zero.
    pub fn from_f64_bits(bits: u64, text: &str) -> (r: FieldValue)
        ensures
            r@ == float_value(bits, text@),
    {
        match Double::new(bits, text) {
            Some(double) => FieldValue::Float(double),
            None => FieldValue::Int(0),
        }
    }

    /// See [`stringified`].
    pub fn stringify(&self) -> (r: String)
        ensures
            r@ == stringified(self@),
    {
        match self {
            FieldValue::Int(i) => i64_text(*i),
            FieldValue::Uint(u) => u64_text(*u),
            FieldValue::Float(d) => d.text().to_owned(),
            FieldValue::Bool(b) => if *b {
                "true".to_owned()
            } else {
                "false".to_owned()
            },
            FieldValue::Str(s) => s.clone(),
        }
    }

    /// The JSON text of the value, see [`scalar_text`]. It fails with
    /// [`FormatError::Serialization`] exactly on a value that is not [`encodable`].
    pub fn to_json(&self) -> (r: Result<String, FormatError>)
        ensures
            encodable(self@) ==> r is Ok && r->Ok_0@ == scalar_text(self@),
            !encodable(self@) ==> r == Err::<String, FormatError>(FormatError::Serialization),
    {
        match self {
            FieldValue::Int(i) => Ok(i64_text(*i)),
            FieldValue::Uint(u) => Ok(u64_text(*u)),
            FieldValue::Float(d) => if json_number(d.text()) {
                Ok(d.text().to_owned())
            } else {
                Err(FormatError::Serialization)
            },
            FieldValue::Bool(b) => if *b {
                Ok("true".to_owned())
            } else {
                Ok("false".to_owned())
            },
            FieldValue::Str(s) => match json_string(s.as_str()) {
                Ok(t) => Ok(t),
                Err(_) => Err(FormatError::Serialization),
            },
        }
    }
}

/// A double that is not finite is written as the JSON number `0`, whatever
/// text came with it.
pub proof fn lemma_non_finite_is_zero(bits: u64, text: Seq<char>)
    requires
        !finite_bits(bits),
    ensures
        float_value(bits, text) == Scalar::Int(0),
        encodable(float_value(bits, text)),
        scalar_text(float_value(bits, text)) == seq!['0'],
{
    assert(decimal(0) =~= seq!['0']);
}

/// The infinities and the NaNs are not finite: their exponent bits are all
/// set.
pub proof fn lemma_exponent_all_ones(bits: u64)
    requires
        bits & 0x7ff0_0000_0000_0000 == 0x7ff0_0000_0000_0000,
    ensures
        !finite_bits(bits),
{
    assert(bits & 0x7ff0_0000_0000_0000 == 0x7ff0_0000_0000_0000 ==> (bits >> 52) & 0x7ff
        == 0x7ff) by (bit_vector);
}

} // verus!
