//! JSON text of the leaves of a document: string literals, written by
//! `serde_json`, and the grammar of number literals.

use vstd::prelude::*;
use crate::text::chars_of;

verus! {

/// `serde_json::Error`, the error of a serialization. Nothing is known of
/// its contents.
#[verifier::external_type_specification]
#[verifier::external_body]
pub struct ExJsonError(serde_json::Error);

/// The lower-case hexadecimal digit for `d`, with `0 <= d < 16`.
pub open spec fn hex_digit(d: int) -> char {
    if d < 10 {
        ((48 + d) as u8) as char
    } else {
        ((87 + d) as u8) as char
    }
}

/// How one character stands inside a JSON string literal: the quotation mark,
/// the backslash and the control characters below U+0020 are escaped, every
/// other character stands for itself.
pub open spec fn escaped(c: char) -> Seq<char> {
    if c == '"' {
        seq!['\\', '"']
    } else if c == '\\' {
        seq!['\\', '\\']
    } else if c == '\u{8}' {
        seq!['\\', 'b']
    } else if c == '\u{c}' {
        seq!['\\', 'f']
    } else if c == '\n' {
        seq!['\\', 'n']
    } else if c == '\r' {
        seq!['\\', 'r']
    } else if c == '\t' {
        seq!['\\', 't']
    } else if ' ' > c {
        seq!['\\', 'u', '0', '0', hex_digit((c as u8) as int / 16), hex_digit((c as u8) as int % 16)]
    } else {
        seq![c]
    }
}

/// The characters of `s`, each escaped as in [`escaped`].
pub open spec fn escaped_text(s: Seq<char>) -> Seq<char>
    decreases s.len(),
{
    if s.len() == 0 {
        Seq::empty()
    } else {
        escaped_text(s.drop_last()) + escaped(s.last())
    }
}

/// The JSON string literal for `s`: its escaped characters between quotation
/// marks.
pub open spec fn quoted(s: Seq<char>) -> Seq<char> {
    seq!['"'] + escaped_text(s) + seq!['"']
}

/// Calls `serde_json::to_string` on a string slice. The serializer writes a
/// quotation mark, the bytes of the string with `"`, `\` and the bytes below
/// 0x20 replaced by their escape sequences (`\b`, `\t`, `\n`, `\f`, `\r`, or
/// `\u00` and two lower-case hexadecimal digits), and a closing quotation
/// mark. It writes into a byte vector, which accepts every write, and neither
/// cause of failure that `serde_json` documents applies to a string, so the
/// call returns `Ok`.
#[verifier::external_body]
pub(crate) fn json_string(s: &str) -> (r: Result<String, serde_json::Error>)
    ensures
        r is Ok,
        r->Ok_0@ == quoted(s@),
{
    serde_json::to_string(s)
}

/// Whether `c` is a decimal digit.
pub open spec fn is_digit(c: char) -> bool {
    '0' <= c && c <= '9'
}

/// The end of the run of decimal digits of `s` that begins at `i`.
pub open spec fn digits_end(s: Seq<char>, i: int) -> int
    decreases s.len() - i,
{
    if 0 <= i < s.len() && is_digit(s[i]) {
        digits_end(s, i + 1)
    } else {
        i
    }
}

/// Where the integer part begins: after an optional minus sign.
pub open spec fn int_start(s: Seq<char>) -> int {
    if s.len() > 0 && s[0] == '-' {
        1
    } else {
        0
    }
}

/// Where the integer part ends.
pub open spec fn int_end(s: Seq<char>) -> int {
    digits_end(s, int_start(s))
}

/// Where the optional fraction ends: a point and the digits behind it.
pub open spec fn frac_end(s: Seq<char>) -> int {
    let b = int_end(s);
    if b < s.len() && s[b] == '.' {
        digits_end(s, b + 1)
    } else {
        b
    }
}

/// Whether an exponent marker follows the fraction.
pub open spec fn has_exponent(s: Seq<char>) -> bool {
    let c = frac_end(s);
    c < s.len() && (s[c] == 'e' || s[c] == 'E')
}

/// Where the digits of the exponent begin: after the marker and an optional
/// sign.
pub open spec fn exp_start(s: Seq<char>) -> int {
    let c = frac_end(s);
    if c + 1 < s.len() && (s[c + 1] == '+' || s[c + 1] == '-') {
        c + 2
    } else {
        c + 1
    }
}

/// Whether `s` is a JSON number literal: an optional minus sign, an integer
/// part without a leading zero, an optional fraction and an optional
/// exponent, each with at least one digit, and nothing else.
pub open spec fn is_json_number(s: Seq<char>) -> bool {
    let a = int_start(s);
    let b = int_end(s);
    let c = frac_end(s);
    &&& b > a
    &&& (s[a] == '0' ==> b == a + 1)
    &&& (c == b || c > b + 1)
    &&& if has_exponent(s) {
        let t = exp_start(s);
        digits_end(s, t) > t && digits_end(s, t) == s.len()
    } else {
        c == s.len()
    }
}

fn scan_digits(s: &Vec<char>, start: usize) -> (r: usize)
    requires
        start <= s.len(),
    ensures
        r == digits_end(s@, start as int),
        start <= r <= s.len(),
{
    let mut i: usize = start;
    while i < s.len() && s[i] >= '0' && s[i] <= '9'
        invariant
            start <= i <= s.len(),
            digits_end(s@, start as int) == digits_end(s@, i as int),
        decreases s.len() - i,
    {
        i += 1;
    }
    i
}

/// Whether `text` is a JSON number literal.
pub fn json_number(text: &str) -> (r: bool)
    ensures
        r == is_json_number(text@),
{
    let s = chars_of(text);
    let n = s.len();
    let a: usize = if n > 0 && s[0] == '-' { 1 } else { 0 };
    let b = scan_digits(&s, a);
    if b == a {
        return false;
    }
    if s[a] == '0' && b != a + 1 {
        return false;
    }
    let c: usize = if b < n && s[b] == '.' { scan_digits(&s, b + 1) } else { b };
    if c > b && c - b == 1 {
        return false;
    }
    if c < n && (s[c] == 'e' || s[c] == 'E') {
        let t: usize = if c + 1 < n && (s[c + 1] == '+' || s[c + 1] == '-') { c + 2 } else { c + 1 };
        let d = scan_digits(&s, t);
        d > t && d == n
    } else {
        c == n
    }
}

} // verus!
