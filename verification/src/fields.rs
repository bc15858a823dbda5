//! Named values in the order in which they were given, each name once.

use crate::serializer::{json_object, object_text, ToJsonString};
use vstd::prelude::*;
use vstd::string::*;

verus! {

/// Some pair of `m` is named `key`.
pub open spec fn has_key(m: Seq<(Seq<char>, Seq<char>)>, key: Seq<char>) -> bool {
    exists|i: int| 0 <= i < m.len() && (#[trigger] m[i]).0 == key
}

/// No two pairs of `m` share a name.
pub open spec fn distinct_keys(m: Seq<(Seq<char>, Seq<char>)>) -> bool {
    forall|i: int, j: int| 0 <= i < j < m.len() ==> (#[trigger] m[i]).0 != (#[trigger] m[j]).0
}

/// The value of a pair of `m` that is named `key`.
pub open spec fn value_of(m: Seq<(Seq<char>, Seq<char>)>, key: Seq<char>) -> Seq<char>
    recommends
        has_key(m, key),
{
    m[choose|i: int| 0 <= i < m.len() && (#[trigger] m[i]).0 == key].1
}

/// `m` with `key` bound to `value` at the end, unless `m` binds `key` already:
/// the first value given for a name stays.
pub open spec fn put_absent(
    m: Seq<(Seq<char>, Seq<char>)>,
    key: Seq<char>,
    value: Seq<char>,
) -> Seq<(Seq<char>, Seq<char>)> {
    if has_key(m, key) {
        m
    } else {
        m.push((key, value))
    }
}

/// A name that is given a value twice keeps the first one: the second
/// binding changes nothing, and the name is bound to the value it had, or to
/// the first one given where it had none.
pub proof fn lemma_first_value_stays(
    m: Seq<(Seq<char>, Seq<char>)>,
    key: Seq<char>,
    first: Seq<char>,
    second: Seq<char>,
)
    requires
        distinct_keys(m),
    ensures
        put_absent(put_absent(m, key, first), key, second) == put_absent(m, key, first),
        distinct_keys(put_absent(m, key, first)),
        has_key(put_absent(m, key, first), key),
        value_of(put_absent(m, key, first), key) == (if has_key(m, key) {
            value_of(m, key)
        } else {
            first
        }),
        put_absent(m, key, first).len() == (if has_key(m, key) {
            m.len()
        } else {
            m.len() + 1
        }),
{
    if !has_key(m, key) {
        assert(put_absent(m, key, first)[m.len() as int].0 == key);
    }
}

/// Binding one name leaves the values of the other names as they were.
pub proof fn lemma_other_values_stay(
    m: Seq<(Seq<char>, Seq<char>)>,
    key: Seq<char>,
    value: Seq<char>,
    other: Seq<char>,
)
    requires
        distinct_keys(m),
        other != key,
    ensures
        has_key(put_absent(m, key, value), other) == has_key(m, other),
        has_key(m, other) ==> value_of(put_absent(m, key, value), other) == value_of(m, other),
{
    if has_key(m, other) {
        let c = choose|c: int| 0 <= c < m.len() && (#[trigger] m[c]).0 == other;
        assert(put_absent(m, key, value)[c].0 == other);
    }
}

/// An ordered map from names to values. A name is bound once, by the first
/// value given for it, and the pairs keep the order in which they came.
#[derive(Debug)]
pub struct Fields {
    entries: Vec<(String, String)>,
}

/// The pairs of `entries` as texts.
spec fn pairs(entries: Seq<(String, String)>) -> Seq<(Seq<char>, Seq<char>)> {
    Seq::new(entries.len(), |i: int| (entries[i].0@, entries[i].1@))
}

impl View for Fields {
    type V = Seq<(Seq<char>, Seq<char>)>;

    closed spec fn view(&self) -> Self::V {
        pairs(self.entries@)
    }
}

impl Fields {
    #[verifier::type_invariant]
    pub closed spec fn inv(&self) -> bool {
        distinct_keys(self@)
    }

    /// An empty map.
    pub fn new() -> (m: Fields)
        ensures
            m@ == Seq::<(Seq<char>, Seq<char>)>::empty(),
    {
        let m = Fields { entries: Vec::new() };
        m
    }

    /// The number of names bound. No name is bound twice.
    pub fn len(&self) -> (n: usize)
        ensures
            n == self@.len(),
            distinct_keys(self@),
    {
        proof {
            use_type_invariant(self);
        }
        self.entries.len()
    }

    /// Whether no name is bound.
    pub fn is_empty(&self) -> (b: bool)
        ensures
            b == (self@.len() == 0),
    {
        self.entries.len() == 0
    }

    /// The position of the pair named `key`.
    fn position(&self, key: &str) -> (p: Option<usize>)
        ensures
            match p {
                Some(i) => i < self@.len() && self@[i as int].0 == key@,
                None => !has_key(self@, key@),
            },
    {
        let k = key.to_owned();
        let mut i: usize = 0;
        while i < self.entries.len()
            invariant
                i <= self.entries.len(),
                k@ == key@,
                forall|j: int| 0 <= j < i ==> (#[trigger] self@[j]).0 != key@,
            decreases self.entries.len() - i,
        {
            if self.entries[i].0 == k {
                return Some(i);
            }
            i += 1;
        }
        None
    }

    /// Whether `key` is bound.
    pub fn contains_key(&self, key: &str) -> (b: bool)
        ensures
            b == has_key(self@, key@),
    {
        self.position(key).is_some()
    }

    /// The value bound to `key`.
    pub fn get(&self, key: &str) -> (v: Option<&String>)
        ensures
            match v {
                Some(s) => has_key(self@, key@) && s@ == value_of(self@, key@),
                None => !has_key(self@, key@),
            },
    {
        match self.position(key) {
            Some(i) => {
                proof {
                    use_type_invariant(self);
                }
                Some(&self.entries[i].1)
            },
            None => None,
        }
    }

    /// Binds `key` to `value` unless `key` is bound already.
    pub fn or_insert(&mut self, key: &str, value: &str)
        ensures
            final(self)@ == put_absent(old(self)@, key@, value@),
    {
        if self.position(key).is_none() {
            proof {
                use_type_invariant(&*self);
            }
            let ghost before = self@;
            let mut entries: Vec<(String, String)> = Vec::new();
            std::mem::swap(&mut self.entries, &mut entries);
            entries.push((key.to_owned(), value.to_owned()));
            assert(pairs(entries@) =~= before.push((key@, value@)));
            std::mem::swap(&mut self.entries, &mut entries);
        }
    }

    /// The name of the pair at position `i`.
    pub fn name(&self, i: usize) -> (s: &String)
        requires
            i < self@.len(),
        ensures
            s@ == self@[i as int].0,
    {
        &self.entries[i].0
    }

    /// The value of the pair at position `i`.
    pub fn value(&self, i: usize) -> (s: &String)
        requires
            i < self@.len(),
        ensures
            s@ == self@[i as int].1,
    {
        &self.entries[i].1
    }
}

impl ToJsonString for Fields {
    /// The pairs as one JSON object, each value a JSON string.
    open spec fn json(&self) -> Seq<char> {
        json_object(self@)
    }

    fn tojson(&self) -> (s: String) {
        object_text(&self.entries)
    }
}

impl Clone for Fields {
    fn clone(&self) -> (m: Fields)
        ensures
            m@ == self@,
    {
        proof {
            use_type_invariant(self);
        }
        let mut entries: Vec<(String, String)> = Vec::new();
        let mut i: usize = 0;
        while i < self.entries.len()
            invariant
                i <= self.entries.len(),
                entries@.len() == i,
                forall|j: int| 0 <= j < i ==> entries@[j] == self.entries@[j],
            decreases self.entries.len() - i,
        {
            entries.push((self.entries[i].0.clone(), self.entries[i].1.clone()));
            i += 1;
        }
        assert(pairs(entries@) =~= self@);
        Fields { entries }
    }
}

} // verus!
