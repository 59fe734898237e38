//! A mapping from field names to values that keeps its entries ordered by
//! name.

use vstd::prelude::*;
use crate::document::members_view;
use crate::text::{lemma_lex_irreflexive, lemma_lex_total, lemma_lex_transitive, lex_lt, same_text, text_lt};
use crate::value::{FieldValue, Scalar};

verus! {

/// Whether the names of `s` stand in strictly increasing lexicographic order.
/// No name then occurs twice.
pub open spec fn sorted(s: Seq<(Seq<char>, Scalar)>) -> bool {
    forall|i: int, j: int| 0 <= i < j < s.len() ==> lex_lt(#[trigger] s[i].0, #[trigger] s[j].0)
}

/// The length of the leading run of entries whose name comes before `key`.
/// In a sorted sequence this is where `key` stands or would have to stand.
pub open spec fn lower_bound(s: Seq<(Seq<char>, Scalar)>, key: Seq<char>) -> int
    decreases s.len(),
{
    if s.len() > 0 && lex_lt(s[0].0, key) {
        1 + lower_bound(s.drop_first(), key)
    } else {
        0
    }
}

/// Whether some entry of the sorted sequence `s` is named `key`.
pub open spec fn has_key(s: Seq<(Seq<char>, Scalar)>, key: Seq<char>) -> bool {
    let p = lower_bound(s, key);
    p < s.len() && s[p].0 == key
}

/// The value that the sorted sequence `s` holds under `key`.
pub open spec fn lookup(s: Seq<(Seq<char>, Scalar)>, key: Seq<char>) -> Option<Scalar> {
    if has_key(s, key) {
        Some(s[lower_bound(s, key)].1)
    } else {
        None
    }
}

/// The sorted sequence `s` with `value` under `key`: in place of the entry of
/// that name if there is one, else as a new entry where the order wants it.
pub open spec fn sorted_put(s: Seq<(Seq<char>, Scalar)>, key: Seq<char>, value: Scalar) -> Seq<
    (Seq<char>, Scalar),
> {
    let p = lower_bound(s, key);
    if has_key(s, key) {
        s.update(p, (key, value))
    } else {
        s.insert(p, (key, value))
    }
}

/// The sorted sequence `s` without the entry named `key`.
pub open spec fn sorted_remove(s: Seq<(Seq<char>, Scalar)>, key: Seq<char>) -> Seq<
    (Seq<char>, Scalar),
> {
    if has_key(s, key) {
        s.remove(lower_bound(s, key))
    } else {
        s
    }
}

/// What [`lower_bound`] is: every entry before it is named before `key`, and
/// the entry at it, if any, is not.
pub proof fn lemma_lower_bound(s: Seq<(Seq<char>, Scalar)>, key: Seq<char>)
    ensures
        0 <= lower_bound(s, key) <= s.len(),
        forall|j: int| 0 <= j < lower_bound(s, key) ==> lex_lt(#[trigger] s[j].0, key),
        lower_bound(s, key) < s.len() ==> !lex_lt(s[lower_bound(s, key)].0, key),
    decreases s.len(),
{
    if s.len() > 0 && lex_lt(s[0].0, key) {
        let t = s.drop_first();
        lemma_lower_bound(t, key);
        assert forall|j: int| 0 <= j < lower_bound(s, key) implies lex_lt(#[trigger] s[j].0, key) by {
            if j > 0 {
                assert(s[j] == t[j - 1]);
            }
        }
        if lower_bound(s, key) < s.len() {
            assert(s[lower_bound(s, key)] == t[lower_bound(t, key)]);
        }
    }
}

/// The position that [`lemma_lower_bound`] describes is the lower bound.
pub proof fn lemma_lower_bound_unique(s: Seq<(Seq<char>, Scalar)>, key: Seq<char>, p: int)
    requires
        0 <= p <= s.len(),
        forall|j: int| 0 <= j < p ==> lex_lt(#[trigger] s[j].0, key),
        p < s.len() ==> !lex_lt(s[p].0, key),
    ensures
        lower_bound(s, key) == p,
    decreases p,
{
    if p > 0 {
        let t = s.drop_first();
        assert(lex_lt(s[0].0, key));
        assert forall|j: int| 0 <= j < p - 1 implies lex_lt(#[trigger] t[j].0, key) by {
            assert(t[j] == s[j + 1]);
        }
        if p - 1 < t.len() {
            assert(t[p - 1] == s[p]);
        }
        lemma_lower_bound_unique(t, key, p - 1);
    }
}

/// In a sorted sequence, the entry at index `i` is found under its name.
pub proof fn lemma_lower_bound_of_entry(s: Seq<(Seq<char>, Scalar)>, i: int)
    requires
        sorted(s),
        0 <= i < s.len(),
    ensures
        lower_bound(s, s[i].0) == i,
        lookup(s, s[i].0) == Some(s[i].1),
{
    lemma_lex_irreflexive(s[i].0);
    lemma_lower_bound_unique(s, s[i].0, i);
}

/// Putting a value keeps the sequence sorted.
pub proof fn lemma_put_sorted(s: Seq<(Seq<char>, Scalar)>, key: Seq<char>, value: Scalar)
    requires
        sorted(s),
    ensures
        sorted(sorted_put(s, key, value)),
{
    let p = lower_bound(s, key);
    let t = sorted_put(s, key, value);
    lemma_lower_bound(s, key);
    if has_key(s, key) {
        assert forall|i: int, j: int| 0 <= i < j < t.len() implies lex_lt(
            #[trigger] t[i].0,
            #[trigger] t[j].0,
        ) by {
            assert(t[i].0 == s[i].0);
            assert(t[j].0 == s[j].0);
        }
    } else {
        if p < s.len() {
            lemma_lex_total(key, s[p].0);
        }
        assert forall|i: int, j: int| 0 <= i < j < t.len() implies lex_lt(
            #[trigger] t[i].0,
            #[trigger] t[j].0,
        ) by {
            if j < p {
                assert(t[i] == s[i] && t[j] == s[j]);
            } else if j == p {
                assert(t[i] == s[i]);
            } else if i < p {
                assert(t[i] == s[i] && t[j] == s[j - 1]);
            } else if i == p {
                assert(t[j] == s[j - 1]);
                if j - 1 > p {
                    assert(lex_lt(s[p].0, s[j - 1].0));
                    lemma_lex_transitive(key, s[p].0, s[j - 1].0);
                }
            } else {
                assert(t[i] == s[i - 1] && t[j] == s[j - 1]);
            }
        }
    }
}

/// Removing an entry keeps the sequence sorted.
pub proof fn lemma_remove_sorted(s: Seq<(Seq<char>, Scalar)>, key: Seq<char>)
    requires
        sorted(s),
    ensures
        sorted(sorted_remove(s, key)),
{
    let p = lower_bound(s, key);
    let t = sorted_remove(s, key);
    lemma_lower_bound(s, key);
    if has_key(s, key) {
        assert forall|i: int, j: int| 0 <= i < j < t.len() implies lex_lt(
            #[trigger] t[i].0,
            #[trigger] t[j].0,
        ) by {
            let a = if i < p { i } else { i + 1 };
            let b = if j < p { j } else { j + 1 };
            assert(t[i] == s[a] && t[j] == s[b]);
        }
    }
}

/// After a put the key is found with the value that was put.
pub proof fn lemma_put_then_lookup(s: Seq<(Seq<char>, Scalar)>, key: Seq<char>, value: Scalar)
    requires
        sorted(s),
    ensures
        lookup(sorted_put(s, key, value), key) == Some(value),
{
    let p = lower_bound(s, key);
    let t = sorted_put(s, key, value);
    lemma_lower_bound(s, key);
    lemma_put_sorted(s, key, value);
    assert(t[p] == (key, value));
    lemma_lower_bound_of_entry(t, p);
}

/// A put leaves what is found under every other key as it was.
pub proof fn lemma_put_keeps_others(
    s: Seq<(Seq<char>, Scalar)>,
    key: Seq<char>,
    value: Scalar,
    other: Seq<char>,
)
    requires
        sorted(s),
        other != key,
    ensures
        lookup(sorted_put(s, key, value), other) == lookup(s, other),
{
    let p = lower_bound(s, key);
    let q = lower_bound(s, other);
    let t = sorted_put(s, key, value);
    lemma_lower_bound(s, key);
    lemma_lower_bound(s, other);
    lemma_put_sorted(s, key, value);
    lemma_lex_total(key, other);
    if has_key(s, key) {
        assert forall|j: int| 0 <= j < q implies lex_lt(#[trigger] t[j].0, other) by {
            assert(t[j].0 == s[j].0);
        }
        if q < s.len() {
            assert(t[q].0 == s[q].0);
            if q != p {
                assert(t[q] == s[q]);
            }
        }
        lemma_lower_bound_unique(t, other, q);
    } else if lex_lt(key, other) {
        // the new entry stands before `other`, which moves up by one
        if q < p {
            assert(lex_lt(s[q].0, key)) by {
                assert(0 <= q < lower_bound(s, key));
            }
            lemma_lex_transitive(s[q].0, key, other);
        }
        assert forall|j: int| 0 <= j < q + 1 implies lex_lt(#[trigger] t[j].0, other) by {
            if j < p {
                assert(t[j] == s[j]);
            } else if j == p {
                assert(t[j].0 == key);
            } else {
                assert(t[j] == s[j - 1]);
            }
        }
        if q < s.len() {
            assert(t[q + 1] == s[q]);
        }
        lemma_lower_bound_unique(t, other, q + 1);
    } else {
        // `other` stands before the new entry
        if p < q {
            assert(lex_lt(s[p].0, other)) by {
                assert(0 <= p < lower_bound(s, other));
            }
            lemma_lex_total(key, s[p].0);
            lemma_lex_transitive(key, s[p].0, other);
        }
        assert forall|j: int| 0 <= j < q implies lex_lt(#[trigger] t[j].0, other) by {
            assert(t[j] == s[j]);
        }
        if q < p {
            assert(t[q] == s[q]);
        } else {
            assert(t[q].0 == key);
            lemma_lex_irreflexive(key);
            if lex_lt(key, other) {
            }
        }
        lemma_lower_bound_unique(t, other, q);
    }
}

/// Every entry after a put is the entry that was put or an entry that was
/// there before.
pub proof fn lemma_put_entries(
    s: Seq<(Seq<char>, Scalar)>,
    key: Seq<char>,
    value: Scalar,
    i: int,
)
    requires
        0 <= i < sorted_put(s, key, value).len(),
    ensures
        sorted_put(s, key, value)[i] == (key, value) || exists|j: int|
            0 <= j < s.len() && #[trigger] s[j] == sorted_put(s, key, value)[i],
{
    let p = lower_bound(s, key);
    let t = sorted_put(s, key, value);
    lemma_lower_bound(s, key);
    if i != p {
        if has_key(s, key) || i < p {
            assert(s[i] == t[i]);
        } else {
            assert(s[i - 1] == t[i]);
        }
    }
}

/// After a removal no entry has the key that was removed.
pub proof fn lemma_removed_key_gone(s: Seq<(Seq<char>, Scalar)>, key: Seq<char>)
    requires
        sorted(s),
    ensures
        forall|i: int|
            0 <= i < sorted_remove(s, key).len() ==> (#[trigger] sorted_remove(s, key)[i]).0 != key,
{
    let p = lower_bound(s, key);
    let t = sorted_remove(s, key);
    lemma_lower_bound(s, key);
    assert forall|i: int| 0 <= i < t.len() implies (#[trigger] t[i]).0 != key by {
        lemma_lex_irreflexive(key);
        if has_key(s, key) {
            if i < p {
                assert(t[i] == s[i]);
            } else {
                assert(t[i] == s[i + 1]);
                assert(lex_lt(s[p].0, s[i + 1].0));
            }
        } else {
            if i < p {
                assert(lex_lt(s[i].0, key));
            } else if i == p {
            } else {
                lemma_lex_total(key, s[p].0);
                assert(lex_lt(s[p].0, s[i].0));
                lemma_lex_transitive(key, s[p].0, s[i].0);
            }
        }
    }
}

/// Fields ordered by name, each name at most once.
#[derive(Debug)]
pub struct FieldMap {
    entries: Vec<(String, FieldValue)>,
}

impl View for FieldMap {
    type V = Seq<(Seq<char>, Scalar)>;

    closed spec fn view(&self) -> Seq<(Seq<char>, Scalar)> {
        Seq::new(self.entries@.len(), |i: int| (self.entries@[i].0@, self.entries@[i].1@))
    }
}

impl FieldMap {
    #[verifier::type_invariant]
    spec fn well_formed(&self) -> bool {
        sorted(self@)
    }

    /// A map without entries.
    pub fn new() -> (r: FieldMap)
        ensures
            r@ == Seq::<(Seq<char>, Scalar)>::empty(),
    {
        let r = FieldMap { entries: Vec::new() };
        proof {
            assert(r@ =~= Seq::<(Seq<char>, Scalar)>::empty());
        }
        r
    }

    /// The number of entries. They are sorted by name, as in every map.
    pub fn len(&self) -> (r: usize)
        ensures
            r == self@.len(),
            sorted(self@),
    {
        proof {
            use_type_invariant(self);
        }
        self.entries.len()
    }

    /// Whether the map has no entry.
    pub fn is_empty(&self) -> (r: bool)
        ensures
            r == (self@.len() == 0),
    {
        self.entries.len() == 0
    }

    /// The name of the entry at index `i`.
    pub fn key_at(&self, i: usize) -> (r: &str)
        requires
            i < self@.len(),
        ensures
            r@ == self@[i as int].0,
    {
        self.entries[i].0.as_str()
    }

    /// The value of the entry at index `i`.
    pub fn value_at(&self, i: usize) -> (r: &FieldValue)
        requires
            i < self@.len(),
        ensures
            r@ == self@[i as int].1,
    {
        &self.entries[i].1
    }

    /// The entries as a list, in their order.
    pub fn to_entries(&self) -> (r: Vec<(String, FieldValue)>)
        ensures
            members_view(r@) == self@,
    {
        let mut entries: Vec<(String, FieldValue)> = Vec::new();
        let mut i: usize = 0;
        while i < self.entries.len()
            invariant
                i <= self.entries@.len(),
                entries@.len() == i,
                forall|j: int|
                    0 <= j < i ==> (#[trigger] entries@[j]).0@ == self.entries@[j].0@ && entries@[j].1@
                        == self.entries@[j].1@,
            decreases self.entries@.len() - i,
        {
            entries.push((self.entries[i].0.clone(), self.entries[i].1.clone()));
            i += 1;
        }
        proof {
            assert(members_view(entries@) =~= self@);
        }
        entries
    }

    fn position(&self, key: &str) -> (p: usize)
        ensures
            p == lower_bound(self@, key@),
            p <= self@.len(),
    {
        let mut i: usize = 0;
        while i < self.entries.len() && text_lt(self.entries[i].0.as_str(), key)
            invariant
                i <= self.entries@.len(),
                self@.len() == self.entries@.len(),
                forall|j: int| 0 <= j < i ==> lex_lt(#[trigger] self@[j].0, key@),
            decreases self.entries@.len() - i,
        {
            i += 1;
        }
        proof {
            lemma_lower_bound_unique(self@, key@, i as int);
        }
        i
    }

    /// The value under `key`, if the map has one.
    pub fn get(&self, key: &str) -> (r: Option<&FieldValue>)
        ensures
            match r {
                Some(v) => lookup(self@, key@) == Some(v@),
                None => lookup(self@, key@).is_none(),
            },
    {
        let p = self.position(key);
        if p < self.entries.len() && same_text(self.entries[p].0.as_str(), key) {
            Some(&self.entries[p].1)
        } else {
            None
        }
    }

    /// Puts `value` under `key`, in place of the value that was there if
    /// there was one.
    pub fn insert(&mut self, key: String, value: FieldValue)
        ensures
            final(self)@ == sorted_put(old(self)@, key@, value@),
            sorted(final(self)@),
    {
        proof {
            use_type_invariant(&*self);
            lemma_put_sorted(self@, key@, value@);
        }
        let p = self.position(key.as_str());
        let found = p < self.entries.len() && same_text(
            self.entries[p].0.as_str(),
            key.as_str(),
        );
        let mut entries: Vec<(String, FieldValue)> = Vec::new();
        core::mem::swap(&mut self.entries, &mut entries);
        if found {
            entries.set(p, (key, value));
        } else {
            entries.insert(p, (key, value));
        }
        proof {
            let t = Seq::new(entries@.len(), |i: int| (entries@[i].0@, entries@[i].1@));
            assert(t =~= sorted_put(old(self)@, key@, value@));
        }
        self.entries = entries;
    }

    /// Takes the entry named `key` out of the map and returns its value.
    pub fn remove(&mut self, key: &str) -> (r: Option<FieldValue>)
        ensures
            final(self)@ == sorted_remove(old(self)@, key@),
            sorted(final(self)@),
            match r {
                Some(v) => lookup(old(self)@, key@) == Some(v@),
                None => lookup(old(self)@, key@).is_none(),
            },
    {
        proof {
            use_type_invariant(&*self);
            lemma_remove_sorted(self@, key@);
        }
        let p = self.position(key);
        if p < self.entries.len() && same_text(self.entries[p].0.as_str(), key) {
            let mut entries: Vec<(String, FieldValue)> = Vec::new();
            core::mem::swap(&mut self.entries, &mut entries);
            let (_, value) = entries.remove(p);
            proof {
                let t = Seq::new(entries@.len(), |i: int| (entries@[i].0@, entries@[i].1@));
                assert(t =~= sorted_remove(old(self)@, key@));
            }
            self.entries = entries;
            Some(value)
        } else {
            None
        }
    }
}

impl Clone for FieldMap {
    fn clone(&self) -> (r: Self)
        ensures
            r@ == self@,
    {
        proof {
            use_type_invariant(self);
        }
        let mut entries: Vec<(String, FieldValue)> = Vec::new();
        let mut i: usize = 0;
        while i < self.entries.len()
            invariant
                i <= self.entries@.len(),
                entries@.len() == i,
                forall|j: int|
                    0 <= j < i ==> (#[trigger] entries@[j]).0@ == self.entries@[j].0@ && entries@[j].1@
                        == self.entries@[j].1@,
            decreases self.entries@.len() - i,
        {
            entries.push((self.entries[i].0.clone(), self.entries[i].1.clone()));
            i += 1;
        }
        proof {
            let t = Seq::new(entries@.len(), |i: int| (entries@[i].0@, entries@[i].1@));
            assert(t =~= self@);
        }
        FieldMap { entries }
    }
}

} // verus!
