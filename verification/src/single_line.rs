//! Why every line that the formatter writes is one line: no newline stands
//! in the text of a document.

use vstd::prelude::*;
use crate::decimal::{decimal, decimal_nat};
use crate::document::{
    document_encodable, document_text, joined, json_encodable, json_text, line_text, list_text,
    member_text, member_texts, object_encodable, object_text, Json,
};
use crate::json::{
    digits_end, escaped, escaped_text, exp_start, frac_end, has_exponent, int_end, int_start,
    is_digit, is_json_number, quoted,
};
use crate::value::{encodable, scalar_text, Scalar};

verus! {

/// Whether no character of `s` is a newline.
pub open spec fn no_newline(s: Seq<char>) -> bool {
    forall|i: int| 0 <= i < s.len() ==> s[i] != '\n'
}

/// An escaped character holds no newline: the newline itself is written as a
/// backslash and the letter `n`.
pub proof fn lemma_escaped(c: char)
    ensures
        no_newline(escaped(c)),
{
}

/// The escaped text of a string holds no newline.
pub proof fn lemma_escaped_text(s: Seq<char>)
    ensures
        no_newline(escaped_text(s)),
    decreases s.len(),
{
    if s.len() > 0 {
        lemma_escaped_text(s.drop_last());
        lemma_escaped(s.last());
    }
}

/// A JSON string literal holds no newline.
pub proof fn lemma_quoted(s: Seq<char>)
    ensures
        no_newline(quoted(s)),
{
    lemma_escaped_text(s);
}

/// The decimal digits of a number hold no newline.
pub proof fn lemma_decimal_nat(n: nat)
    ensures
        no_newline(decimal_nat(n)),
    decreases n,
{
    if n >= 10 {
        lemma_decimal_nat(n / 10);
    }
}

/// The decimal text of an integer holds no newline.
pub proof fn lemma_decimal(i: int)
    ensures
        no_newline(decimal(i)),
{
    if i < 0 {
        lemma_decimal_nat((-i) as nat);
    } else {
        lemma_decimal_nat(i as nat);
    }
}

/// From `i` up to the end of the run of digits that begins there, every
/// character is a digit.
pub proof fn lemma_digits(s: Seq<char>, i: int)
    requires
        0 <= i <= s.len(),
    ensures
        i <= digits_end(s, i) <= s.len(),
        forall|j: int| i <= j < digits_end(s, i) ==> is_digit(#[trigger] s[j]),
    decreases s.len() - i,
{
    if i < s.len() && is_digit(s[i]) {
        lemma_digits(s, i + 1);
    }
}

/// A JSON number literal holds no newline.
pub proof fn lemma_json_number(s: Seq<char>)
    requires
        is_json_number(s),
    ensures
        no_newline(s),
{
    let a = int_start(s);
    let b = int_end(s);
    let c = frac_end(s);
    lemma_digits(s, a);
    if b < s.len() && s[b] == '.' {
        lemma_digits(s, b + 1);
    }
    if has_exponent(s) {
        let t = exp_start(s);
        lemma_digits(s, t);
        assert forall|i: int| 0 <= i < s.len() implies s[i] != '\n' by {
            if i < a {
            } else if i < b {
                assert(is_digit(s[i]));
            } else if i < c {
                if i > b {
                    assert(is_digit(s[i]));
                }
            } else if i < t {
            } else {
                assert(is_digit(s[i]));
            }
        }
    } else {
        assert forall|i: int| 0 <= i < s.len() implies s[i] != '\n' by {
            if i < a {
            } else if i < b {
                assert(is_digit(s[i]));
            } else if i > b {
                assert(is_digit(s[i]));
            }
        }
    }
}

/// The JSON text of a scalar that can be written holds no newline.
pub proof fn lemma_scalar_text(v: Scalar)
    requires
        encodable(v),
    ensures
        no_newline(scalar_text(v)),
{
    match v {
        Scalar::Int(i) => {
            lemma_decimal(i as int);
        },
        Scalar::Uint(u) => {
            lemma_decimal(u as int);
        },
        Scalar::Float { bits, text } => {
            lemma_json_number(text);
        },
        Scalar::Bool(b) => {
            reveal_strlit("true");
            reveal_strlit("false");
        },
        Scalar::Str(s) => {
            lemma_quoted(s);
        },
    }
}

/// Parts without a newline, joined by commas, hold no newline.
pub proof fn lemma_joined(parts: Seq<Seq<char>>)
    requires
        forall|i: int| 0 <= i < parts.len() ==> no_newline(#[trigger] parts[i]),
    ensures
        no_newline(joined(parts)),
    decreases parts.len(),
{
    if parts.len() == 1 {
        assert(no_newline(parts[0]));
    } else if parts.len() > 1 {
        assert forall|i: int| 0 <= i < parts.drop_last().len() implies no_newline(
            #[trigger] parts.drop_last()[i],
        ) by {
            assert(parts.drop_last()[i] == parts[i]);
        }
        lemma_joined(parts.drop_last());
        assert(no_newline(parts[parts.len() - 1]));
    }
}

/// A member holds no newline where the text of its value holds none.
pub proof fn lemma_member_text(key: Seq<char>, value_text: Seq<char>)
    requires
        no_newline(value_text),
    ensures
        no_newline(member_text(key, value_text)),
{
    lemma_quoted(key);
}

/// The text of an object whose scalars can be written holds no newline.
pub proof fn lemma_object_text(o: Seq<(Seq<char>, Scalar)>)
    requires
        object_encodable(o),
    ensures
        no_newline(object_text(o)),
{
    let parts = member_texts(o);
    assert forall|i: int| 0 <= i < parts.len() implies no_newline(#[trigger] parts[i]) by {
        assert(encodable(o[i].1));
        lemma_scalar_text(o[i].1);
        lemma_member_text(o[i].0, scalar_text(o[i].1));
    }
    lemma_joined(parts);
}

/// The text of a value whose scalars can be written holds no newline.
pub proof fn lemma_json_text(v: Json)
    requires
        json_encodable(v),
    ensures
        no_newline(json_text(v)),
{
    match v {
        Json::Scalar(s) => {
            lemma_scalar_text(s);
        },
        Json::Object(o) => {
            lemma_object_text(o);
        },
        Json::List(l) => {
            let parts = Seq::new(l.len(), |i: int| object_text(l[i]));
            assert forall|i: int| 0 <= i < parts.len() implies no_newline(#[trigger] parts[i]) by {
                assert(object_encodable(l[i]));
                lemma_object_text(l[i]);
            }
            lemma_joined(parts);
            assert(no_newline(list_text(l)));
        },
    }
}

/// The text of a document whose scalars can be written holds no newline.
pub proof fn lemma_document_text(d: Seq<(Seq<char>, Json)>)
    requires
        document_encodable(d),
    ensures
        no_newline(document_text(d)),
{
    let parts = Seq::new(d.len(), |i: int| member_text(d[i].0, json_text(d[i].1)));
    assert forall|i: int| 0 <= i < parts.len() implies no_newline(#[trigger] parts[i]) by {
        assert(json_encodable(d[i].1));
        lemma_json_text(d[i].1);
        lemma_member_text(d[i].0, json_text(d[i].1));
    }
    lemma_joined(parts);
}

/// A document is written as one line: its text ends with a newline and
/// holds no other.
pub proof fn lemma_one_line(d: Seq<(Seq<char>, Json)>)
    requires
        document_encodable(d),
    ensures
        line_text(d).len() >= 3,
        line_text(d).last() == '\n',
        no_newline(line_text(d).drop_last()),
        line_text(d)[0] == '{',
        line_text(d)[line_text(d).len() - 2] == '}',
{
    lemma_document_text(d);
    assert(line_text(d).drop_last() =~= document_text(d));
}

} // verus!
