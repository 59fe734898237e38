//! The output document: an ordered list of keyed JSON values with unique
//! keys, and its text.

use vstd::prelude::*;
use crate::error::FormatError;
use crate::json::{json_string, quoted};
use crate::text::same_text;
use crate::value::{encodable, scalar_text, FieldValue, Scalar};

verus! {

/// A value of the document: a scalar, an object of scalars, or a list of
/// such objects.
#[derive(Debug)]
pub enum DocValue {
    Scalar(FieldValue),
    Object(Vec<(String, FieldValue)>),
    List(Vec<Vec<(String, FieldValue)>>),
}

/// What a [`DocValue`] holds, with texts as character sequences.
pub enum Json {
    Scalar(Scalar),
    Object(Seq<(Seq<char>, Scalar)>),
    List(Seq<Seq<(Seq<char>, Scalar)>>),
}

/// The members of an object, by their views.
pub open spec fn members_view(o: Seq<(String, FieldValue)>) -> Seq<(Seq<char>, Scalar)> {
    Seq::new(o.len(), |i: int| (o[i].0@, o[i].1@))
}

/// The objects of a list, by their views.
pub open spec fn objects_view(l: Seq<Vec<(String, FieldValue)>>) -> Seq<Seq<(Seq<char>, Scalar)>> {
    Seq::new(l.len(), |i: int| members_view(l[i]@))
}

impl View for DocValue {
    type V = Json;

    open spec fn view(&self) -> Json {
        match self {
            DocValue::Scalar(v) => Json::Scalar(v@),
            DocValue::Object(o) => Json::Object(members_view(o@)),
            DocValue::List(l) => Json::List(objects_view(l@)),
        }
    }
}

/// The parts, separated by commas.
pub open spec fn joined(parts: Seq<Seq<char>>) -> Seq<char>
    decreases parts.len(),
{
    if parts.len() == 0 {
        Seq::empty()
    } else if parts.len() == 1 {
        parts[0]
    } else {
        joined(parts.drop_last()) + seq![','] + parts.last()
    }
}

/// One member of an object: the quoted key, a colon, the text of the value.
pub open spec fn member_text(key: Seq<char>, value_text: Seq<char>) -> Seq<char> {
    quoted(key) + seq![':'] + value_text
}

/// The texts of the members of an object of scalars.
pub open spec fn member_texts(o: Seq<(Seq<char>, Scalar)>) -> Seq<Seq<char>> {
    Seq::new(o.len(), |i: int| member_text(o[i].0, scalar_text(o[i].1)))
}

/// The compact JSON text of an object of scalars.
pub open spec fn object_text(o: Seq<(Seq<char>, Scalar)>) -> Seq<char> {
    seq!['{'] + joined(member_texts(o)) + seq!['}']
}

/// The compact JSON text of a list of objects.
pub open spec fn list_text(l: Seq<Seq<(Seq<char>, Scalar)>>) -> Seq<char> {
    seq!['['] + joined(Seq::new(l.len(), |i: int| object_text(l[i]))) + seq![']']
}

/// The compact JSON text of a value.
pub open spec fn json_text(v: Json) -> Seq<char> {
    match v {
        Json::Scalar(s) => scalar_text(s),
        Json::Object(o) => object_text(o),
        Json::List(l) => list_text(l),
    }
}

/// Whether every scalar of the object can be written as JSON.
pub open spec fn object_encodable(o: Seq<(Seq<char>, Scalar)>) -> bool {
    forall|i: int| 0 <= i < o.len() ==> encodable(#[trigger] o[i].1)
}

/// Whether every scalar of the list can be written as JSON.
pub open spec fn list_encodable(l: Seq<Seq<(Seq<char>, Scalar)>>) -> bool {
    forall|i: int| 0 <= i < l.len() ==> object_encodable(#[trigger] l[i])
}

/// Whether every scalar of the value can be written as JSON.
pub open spec fn json_encodable(v: Json) -> bool {
    match v {
        Json::Scalar(s) => encodable(s),
        Json::Object(o) => object_encodable(o),
        Json::List(l) => list_encodable(l),
    }
}

/// The compact JSON text of a document: its members in their order.
pub open spec fn document_text(d: Seq<(Seq<char>, Json)>) -> Seq<char> {
    seq!['{'] + joined(Seq::new(d.len(), |i: int| member_text(d[i].0, json_text(d[i].1))))
        + seq!['}']
}

/// The line that a document is written as: its text and one newline.
pub open spec fn line_text(d: Seq<(Seq<char>, Json)>) -> Seq<char> {
    document_text(d) + seq!['\n']
}

/// Whether every value of the document can be written as JSON.
pub open spec fn document_encodable(d: Seq<(Seq<char>, Json)>) -> bool {
    forall|i: int| 0 <= i < d.len() ==> json_encodable(#[trigger] d[i].1)
}

/// Whether some entry of `d` has the key `key`.
pub open spec fn has_entry(d: Seq<(Seq<char>, Json)>, key: Seq<char>) -> bool {
    exists|i: int| 0 <= i < d.len() && (#[trigger] d[i]).0 == key
}

/// Whether no key occurs twice in `d`.
pub open spec fn distinct_keys(d: Seq<(Seq<char>, Json)>) -> bool {
    forall|i: int, j: int| 0 <= i < j < d.len() ==> (#[trigger] d[i]).0 != (#[trigger] d[j]).0
}

/// The index of the first entry with the key `key`; the length of `d` where
/// there is none.
pub open spec fn key_index(d: Seq<(Seq<char>, Json)>, key: Seq<char>) -> int
    decreases d.len(),
{
    if d.len() > 0 && d[0].0 != key {
        1 + key_index(d.drop_first(), key)
    } else {
        0
    }
}

/// The document `d` with `value` under `key`: in place of the value that the
/// key had, or as a new last entry.
pub open spec fn put(d: Seq<(Seq<char>, Json)>, key: Seq<char>, value: Json) -> Seq<
    (Seq<char>, Json),
> {
    let p = key_index(d, key);
    if p < d.len() {
        d.update(p, (key, value))
    } else {
        d.push((key, value))
    }
}

/// What [`key_index`] is: no entry before it has the key, and the entry at
/// it, if any, has.
pub proof fn lemma_key_index(d: Seq<(Seq<char>, Json)>, key: Seq<char>)
    ensures
        0 <= key_index(d, key) <= d.len(),
        forall|j: int| 0 <= j < key_index(d, key) ==> (#[trigger] d[j]).0 != key,
        key_index(d, key) < d.len() ==> d[key_index(d, key)].0 == key,
        has_entry(d, key) <==> key_index(d, key) < d.len(),
    decreases d.len(),
{
    if d.len() > 0 && d[0].0 != key {
        let t = d.drop_first();
        lemma_key_index(t, key);
        assert forall|j: int| 0 <= j < key_index(d, key) implies (#[trigger] d[j]).0 != key by {
            if j > 0 {
                assert(d[j] == t[j - 1]);
            }
        }
        if key_index(d, key) < d.len() {
            assert(d[key_index(d, key)] == t[key_index(t, key)]);
        }
    }
    let p = key_index(d, key);
    if p < d.len() {
        assert(d[p].0 == key);
    }
}

/// The position that [`lemma_key_index`] describes is the key's index.
pub proof fn lemma_key_index_unique(d: Seq<(Seq<char>, Json)>, key: Seq<char>, p: int)
    requires
        0 <= p <= d.len(),
        forall|j: int| 0 <= j < p ==> (#[trigger] d[j]).0 != key,
        p < d.len() ==> d[p].0 == key,
    ensures
        key_index(d, key) == p,
    decreases p,
{
    if p > 0 {
        let t = d.drop_first();
        assert(d[0].0 != key);
        assert forall|j: int| 0 <= j < p - 1 implies (#[trigger] t[j]).0 != key by {
            assert(t[j] == d[j + 1]);
        }
        if p - 1 < t.len() {
            assert(t[p - 1] == d[p]);
        }
        lemma_key_index_unique(t, key, p - 1);
    }
}

/// A put keeps the keys distinct.
pub proof fn lemma_put_distinct(d: Seq<(Seq<char>, Json)>, key: Seq<char>, value: Json)
    requires
        distinct_keys(d),
    ensures
        distinct_keys(put(d, key, value)),
{
    let p = key_index(d, key);
    let t = put(d, key, value);
    lemma_key_index(d, key);
    assert forall|i: int, j: int| 0 <= i < j < t.len() implies (#[trigger] t[i]).0 != (
    #[trigger] t[j]).0 by {
        if p < d.len() {
            assert(t[i].0 == d[i].0 && t[j].0 == d[j].0);
        } else {
            if j < d.len() {
                assert(t[i] == d[i] && t[j] == d[j]);
            } else {
                assert(t[i] == d[i]);
            }
        }
    }
}

/// A put of a key that the document lacks appends the entry.
pub proof fn lemma_put_new(d: Seq<(Seq<char>, Json)>, key: Seq<char>, value: Json)
    requires
        !has_entry(d, key),
    ensures
        put(d, key, value) == d.push((key, value)),
{
    lemma_key_index(d, key);
}

/// Whether `r` arises from `d` by writing under keys of `keys` only: every
/// entry of `d` under another key stands in `r` where it stood, every entry
/// of `r` is such an entry or has a key of `keys`, and `r` has no key twice
/// unless `d` has.
pub open spec fn extends(
    d: Seq<(Seq<char>, Json)>,
    r: Seq<(Seq<char>, Json)>,
    keys: Set<Seq<char>>,
) -> bool {
    &&& r.len() >= d.len()
    &&& forall|i: int| 0 <= i < d.len() && !keys.contains((#[trigger] d[i]).0) ==> r[i] == d[i]
    &&& forall|i: int|
        0 <= i < r.len() ==> keys.contains((#[trigger] r[i]).0) || (i < d.len() && r[i] == d[i])
    &&& distinct_keys(d) ==> distinct_keys(r)
}

/// A put writes under its key only.
pub proof fn lemma_put_extends(
    d: Seq<(Seq<char>, Json)>,
    key: Seq<char>,
    value: Json,
    keys: Set<Seq<char>>,
)
    requires
        keys.contains(key),
    ensures
        extends(d, put(d, key, value), keys),
{
    lemma_key_index(d, key);
    if distinct_keys(d) {
        lemma_put_distinct(d, key, value);
    }
}

/// Writing under `keys` and then under `more` is writing under both.
pub proof fn lemma_extends_twice(
    d: Seq<(Seq<char>, Json)>,
    r: Seq<(Seq<char>, Json)>,
    s: Seq<(Seq<char>, Json)>,
    keys: Set<Seq<char>>,
    more: Set<Seq<char>>,
)
    requires
        extends(d, r, keys),
        extends(r, s, more),
    ensures
        extends(d, s, keys.union(more)),
{
    let both = keys.union(more);
    assert forall|i: int| 0 <= i < d.len() && !both.contains((#[trigger] d[i]).0) implies s[i]
        == d[i] by {
        assert(r[i] == d[i]);
    }
    assert forall|i: int| 0 <= i < s.len() implies both.contains((#[trigger] s[i]).0) || (i
        < d.len() && s[i] == d[i]) by {
        if !more.contains(s[i].0) {
            assert(s[i] == r[i]);
        }
    }
}

/// Whether `d` has the entry `(key, value)`.
pub open spec fn holds(d: Seq<(Seq<char>, Json)>, key: Seq<char>, value: Json) -> bool {
    exists|p: int| 0 <= p < d.len() && #[trigger] d[p] == (key, value)
}

/// An entry stays where writing goes on under other keys.
pub proof fn lemma_extends_holds(
    d: Seq<(Seq<char>, Json)>,
    r: Seq<(Seq<char>, Json)>,
    keys: Set<Seq<char>>,
    key: Seq<char>,
    value: Json,
)
    requires
        extends(d, r, keys),
        holds(d, key, value),
        !keys.contains(key),
    ensures
        holds(r, key, value),
{
    let p = choose|p: int| 0 <= p < d.len() && #[trigger] d[p] == (key, value);
    assert(r[p] == d[p]);
}

/// After a put the document has the entry that was put.
pub proof fn lemma_put_holds(d: Seq<(Seq<char>, Json)>, key: Seq<char>, value: Json)
    ensures
        holds(put(d, key, value), key, value),
{
    lemma_key_index(d, key);
    let p = key_index(d, key);
    assert(put(d, key, value)[p] == (key, value));
}

/// One event as it goes out: keyed values in their order, no key twice.
#[derive(Debug)]
pub struct OutputDocument {
    entries: Vec<(String, DocValue)>,
}

impl View for OutputDocument {
    type V = Seq<(Seq<char>, Json)>;

    closed spec fn view(&self) -> Seq<(Seq<char>, Json)> {
        Seq::new(self.entries@.len(), |i: int| (self.entries@[i].0@, self.entries@[i].1@))
    }
}

/// The parts, separated by commas.
fn join(parts: &Vec<String>) -> (r: String)
    ensures
        r@ == joined(Seq::new(parts@.len(), |i: int| parts@[i]@)),
{
    let ghost texts = Seq::new(parts@.len(), |i: int| parts@[i]@);
    let mut out = String::new();
    let mut i: usize = 0;
    while i < parts.len()
        invariant
            i <= parts@.len(),
            texts == Seq::new(parts@.len(), |i: int| parts@[i]@),
            out@ == joined(texts.take(i as int)),
        decreases parts@.len() - i,
    {
        if i > 0 {
            out.push(',');
        }
        out.append(parts[i].as_str());
        proof {
            assert(texts.take(i + 1).drop_last() =~= texts.take(i as int));
            assert(texts.take(i + 1).last() == parts@[i as int]@);
            assert(out@ =~= joined(texts.take(i + 1)));
        }
        i += 1;
    }
    proof {
        assert(texts.take(parts@.len() as int) =~= texts);
    }
    out
}

/// The text of one member, see [`member_text`].
fn member(key: &str, value_text: &str) -> (r: Result<String, FormatError>)
    ensures
        r is Ok,
        r->Ok_0@ == member_text(key@, value_text@),
{
    match json_string(key) {
        Ok(mut out) => {
            out.push(':');
            out.append(value_text);
            Ok(out)
        },
        Err(_) => Err(FormatError::Serialization),
    }
}

/// `body` between the two delimiters.
fn enclosed(open: char, body: &str, close: char) -> (r: String)
    ensures
        r@ == seq![open] + body@ + seq![close],
{
    let mut out = String::new();
    out.push(open);
    out.append(body);
    out.push(close);
    proof {
        assert(out@ =~= seq![open] + body@ + seq![close]);
    }
    out
}

/// The JSON text of an object of scalars, see [`object_text`]. It fails with
/// [`FormatError::Serialization`] exactly where a scalar is not encodable.
pub fn render_object(object: &Vec<(String, FieldValue)>) -> (r: Result<String, FormatError>)
    ensures
        object_encodable(members_view(object@)) ==> r is Ok && r->Ok_0@ == object_text(
            members_view(object@),
        ),
        !object_encodable(members_view(object@)) ==> r == Err::<String, FormatError>(
            FormatError::Serialization,
        ),
{
    let ghost o = members_view(object@);
    let mut parts: Vec<String> = Vec::new();
    let mut i: usize = 0;
    while i < object.len()
        invariant
            i <= object@.len(),
            o == members_view(object@),
            parts@.len() == i,
            forall|j: int| 0 <= j < i ==> encodable(#[trigger] o[j].1),
            forall|j: int| 0 <= j < i ==> (#[trigger] parts@[j])@ == member_texts(o)[j],
        decreases object@.len() - i,
    {
        let text = match object[i].1.to_json() {
            Ok(text) => text,
            Err(e) => {
                proof {
                    assert(!encodable(o[i as int].1));
                }
                return Err(e);
            },
        };
        let part = match member(object[i].0.as_str(), text.as_str()) {
            Ok(part) => part,
            Err(e) => {
                return Err(e);
            },
        };
        parts.push(part);
        i += 1;
    }
    let body = join(&parts);
    proof {
        assert(Seq::new(parts@.len(), |i: int| parts@[i]@) =~= member_texts(o));
    }
    Ok(enclosed('{', body.as_str(), '}'))
}

/// The JSON text of a list of objects, see [`list_text`].
pub fn render_list(list: &Vec<Vec<(String, FieldValue)>>) -> (r: Result<String, FormatError>)
    ensures
        list_encodable(objects_view(list@)) ==> r is Ok && r->Ok_0@ == list_text(
            objects_view(list@),
        ),
        !list_encodable(objects_view(list@)) ==> r == Err::<String, FormatError>(
            FormatError::Serialization,
        ),
{
    let ghost l = objects_view(list@);
    let ghost texts = Seq::new(l.len(), |i: int| object_text(l[i]));
    let mut parts: Vec<String> = Vec::new();
    let mut i: usize = 0;
    while i < list.len()
        invariant
            i <= list@.len(),
            l == objects_view(list@),
            texts == Seq::new(l.len(), |i: int| object_text(l[i])),
            parts@.len() == i,
            forall|j: int| 0 <= j < i ==> object_encodable(#[trigger] l[j]),
            forall|j: int| 0 <= j < i ==> (#[trigger] parts@[j])@ == texts[j],
        decreases list@.len() - i,
    {
        let part = match render_object(&list[i]) {
            Ok(part) => part,
            Err(e) => {
                proof {
                    assert(l.len() == list@.len());
                    assert(!object_encodable(l[i as int]));
                }
                return Err(e);
            },
        };
        parts.push(part);
        i += 1;
    }
    let body = join(&parts);
    proof {
        assert(Seq::new(parts@.len(), |i: int| parts@[i]@) =~= texts);
    }
    Ok(enclosed('[', body.as_str(), ']'))
}

impl DocValue {
    /// The JSON text of the value, see [`json_text`]. It fails with
    /// [`FormatError::Serialization`] exactly where a scalar is not
    /// encodable.
    pub fn render(&self) -> (r: Result<String, FormatError>)
        ensures
            json_encodable(self@) ==> r is Ok && r->Ok_0@ == json_text(self@),
            !json_encodable(self@) ==> r == Err::<String, FormatError>(FormatError::Serialization),
    {
        match self {
            DocValue::Scalar(v) => v.to_json(),
            DocValue::Object(o) => render_object(o),
            DocValue::List(l) => render_list(l),
        }
    }
}

impl OutputDocument {
    #[verifier::type_invariant]
    spec fn well_formed(&self) -> bool {
        distinct_keys(self@)
    }

    /// A document without entries.
    pub fn new() -> (r: OutputDocument)
        ensures
            r@ == Seq::<(Seq<char>, Json)>::empty(),
    {
        let r = OutputDocument { entries: Vec::new() };
        proof {
            assert(r@ =~= Seq::<(Seq<char>, Json)>::empty());
        }
        r
    }

    /// The number of entries. No two of them have the same key, as in every
    /// document.
    pub fn len(&self) -> (r: usize)
        ensures
            r == self@.len(),
            distinct_keys(self@),
    {
        proof {
            use_type_invariant(self);
        }
        self.entries.len()
    }

    /// The key of the entry at index `i`.
    pub fn key_at(&self, i: usize) -> (r: &str)
        requires
            i < self@.len(),
        ensures
            r@ == self@[i as int].0,
    {
        self.entries[i].0.as_str()
    }

    /// The value of the entry at index `i`.
    pub fn value_at(&self, i: usize) -> (r: &DocValue)
        requires
            i < self@.len(),
        ensures
            r@ == self@[i as int].1,
    {
        &self.entries[i].1
    }

    fn position(&self, key: &str) -> (p: usize)
        ensures
            p == key_index(self@, key@),
            p <= self@.len(),
    {
        let mut i: usize = 0;
        while i < self.entries.len() && !same_text(self.entries[i].0.as_str(), key)
            invariant
                i <= self.entries@.len(),
                self@.len() == self.entries@.len(),
                forall|j: int| 0 <= j < i ==> (#[trigger] self@[j]).0 != key@,
            decreases self.entries@.len() - i,
        {
            i += 1;
        }
        proof {
            lemma_key_index_unique(self@, key@, i as int);
        }
        i
    }

    /// The value under `key`, if the document has one.
    pub fn get(&self, key: &str) -> (r: Option<&DocValue>)
        ensures
            r is Some <==> has_entry(self@, key@),
            r matches Some(v) ==> v@ == self@[key_index(self@, key@)].1,
    {
        proof {
            lemma_key_index(self@, key@);
        }
        let p = self.position(key);
        if p < self.entries.len() {
            Some(&self.entries[p].1)
        } else {
            None
        }
    }

    /// Puts `value` under `key`: in place of the value that the key had, or
    /// as a new last entry.
    pub fn put(&mut self, key: String, value: DocValue)
        ensures
            final(self)@ == put(old(self)@, key@, value@),
            distinct_keys(final(self)@),
    {
        proof {
            use_type_invariant(&*self);
            lemma_put_distinct(self@, key@, value@);
        }
        let p = self.position(key.as_str());
        let mut entries: Vec<(String, DocValue)> = Vec::new();
        core::mem::swap(&mut self.entries, &mut entries);
        if p < entries.len() {
            entries.set(p, (key, value));
        } else {
            entries.push((key, value));
        }
        proof {
            let t = Seq::new(entries@.len(), |i: int| (entries@[i].0@, entries@[i].1@));
            assert(t =~= put(old(self)@, key@, value@));
        }
        self.entries = entries;
    }

    /// The JSON text of the document, see [`document_text`]. It fails with
    /// [`FormatError::Serialization`] exactly where a scalar is not
    /// encodable.
    pub fn render(&self) -> (r: Result<String, FormatError>)
        ensures
            document_encodable(self@) ==> r is Ok && r->Ok_0@ == document_text(self@),
            !document_encodable(self@) ==> r == Err::<String, FormatError>(
                FormatError::Serialization,
            ),
    {
        let ghost d = self@;
        let ghost texts = Seq::new(d.len(), |i: int| member_text(d[i].0, json_text(d[i].1)));
        let mut parts: Vec<String> = Vec::new();
        let mut i: usize = 0;
        while i < self.entries.len()
            invariant
                i <= self.entries@.len(),
                d == self@,
                d.len() == self.entries@.len(),
                texts == Seq::new(d.len(), |i: int| member_text(d[i].0, json_text(d[i].1))),
                parts@.len() == i,
                forall|j: int| 0 <= j < i ==> json_encodable(#[trigger] d[j].1),
                forall|j: int| 0 <= j < i ==> (#[trigger] parts@[j])@ == texts[j],
            decreases self.entries@.len() - i,
        {
            let text = match self.entries[i].1.render() {
                Ok(text) => text,
                Err(e) => {
                    proof {
                        assert(!json_encodable(d[i as int].1));
                    }
                    return Err(e);
                },
            };
            let part = match member(self.entries[i].0.as_str(), text.as_str()) {
                Ok(part) => part,
                Err(e) => {
                    return Err(e);
                },
            };
            parts.push(part);
            i += 1;
        }
        let body = join(&parts);
        proof {
            assert(Seq::new(parts@.len(), |i: int| parts@[i]@) =~= texts);
        }
        Ok(enclosed('{', body.as_str(), '}'))
    }

    /// The line that the document is written as, see [`line_text`].
    pub fn to_line(&self) -> (r: Result<String, FormatError>)
        ensures
            document_encodable(self@) ==> r is Ok && r->Ok_0@ == line_text(self@),
            !document_encodable(self@) ==> r == Err::<String, FormatError>(
                FormatError::Serialization,
            ),
    {
        match self.render() {
            Ok(mut text) => {
                text.push('\n');
                Ok(text)
            },
            Err(e) => Err(e),
        }
    }
}

} // verus!
