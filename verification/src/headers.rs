//! Header fields of a message: names without regard to ASCII case, one value
//! each, the last one set.

use vstd::prelude::*;
use crate::text::chars;

verus! {

/// `c` in lower case where it is an ASCII capital, else `c`.
pub open spec fn lower(c: char) -> char {
    if 'A' <= c && c <= 'Z' {
        ((c as u8 + 32) as u8) as char
    } else {
        c
    }
}

/// `a` and `b` are one header name: equal but for the case of ASCII letters.
pub open spec fn same_name(a: Seq<char>, b: Seq<char>) -> bool {
    &&& a.len() == b.len()
    &&& forall|i: int| 0 <= i < a.len() ==> lower(#[trigger] a[i]) == lower(b[i])
}

/// Some field of `m` goes by `name`.
pub open spec fn has_header(m: Seq<(Seq<char>, Seq<char>)>, name: Seq<char>) -> bool {
    exists|i: int| 0 <= i < m.len() && same_name((#[trigger] m[i]).0, name)
}

/// The position of a field of `m` that goes by `name`.
pub open spec fn header_index(m: Seq<(Seq<char>, Seq<char>)>, name: Seq<char>) -> int
    recommends
        has_header(m, name),
{
    choose|i: int| 0 <= i < m.len() && same_name((#[trigger] m[i]).0, name)
}

/// No two fields of `m` go by one name.
pub open spec fn distinct_names(m: Seq<(Seq<char>, Seq<char>)>) -> bool {
    forall|i: int, j: int|
        0 <= i < j < m.len() ==> !same_name((#[trigger] m[i]).0, (#[trigger] m[j]).0)
}

/// `m` with the field `name` set to `value`: in the place of the field that
/// went by that name, or at the end where there was none.
pub open spec fn with_header(
    m: Seq<(Seq<char>, Seq<char>)>,
    name: Seq<char>,
    value: Seq<char>,
) -> Seq<(Seq<char>, Seq<char>)> {
    if has_header(m, name) {
        m.update(header_index(m, name), (name, value))
    } else {
        m.push((name, value))
    }
}

/// Header names are compared by an equivalence.
pub proof fn lemma_same_name_equivalence(a: Seq<char>, b: Seq<char>, c: Seq<char>)
    ensures
        same_name(a, a),
        same_name(a, b) ==> same_name(b, a),
        same_name(a, b) && same_name(b, c) ==> same_name(a, c),
{
}

/// Setting a field keeps the names apart, and the field then holds the value.
pub proof fn lemma_with_header(m: Seq<(Seq<char>, Seq<char>)>, name: Seq<char>, value: Seq<char>)
    requires
        distinct_names(m),
    ensures
        distinct_names(with_header(m, name, value)),
        has_header(with_header(m, name, value), name),
        with_header(m, name, value)[header_index(with_header(m, name, value), name)] == (
            name,
            value,
        ),
{
    let r = with_header(m, name, value);
    let p = if has_header(m, name) {
        header_index(m, name)
    } else {
        m.len() as int
    };
    lemma_same_name_equivalence(name, name, name);
    assert forall|i: int, j: int| 0 <= i < j < r.len() implies !same_name(
        (#[trigger] r[i]).0,
        (#[trigger] r[j]).0,
    ) by {
        if i == p {
            lemma_same_name_equivalence(m[j].0, name, m[p].0);
            lemma_same_name_equivalence(name, m[j].0, name);
            if has_header(m, name) {
                lemma_same_name_equivalence(m[p].0, name, m[j].0);
            }
        } else if j == p {
            lemma_same_name_equivalence(m[i].0, name, m[p].0);
            if has_header(m, name) {
                lemma_same_name_equivalence(m[p].0, name, m[i].0);
                lemma_same_name_equivalence(name, m[p].0, name);
            }
        }
    }
    assert(same_name(r[p].0, name));
    let q = header_index(r, name);
    if q != p {
        lemma_same_name_equivalence(r[q].0, name, r[p].0);
        lemma_same_name_equivalence(name, r[p].0, name);
        lemma_same_name_equivalence(r[p].0, name, r[q].0);
    }
}

/// The code of `c` in lower case.
fn lower_code(c: char) -> (n: u32)
    ensures
        n == lower(c) as u32,
{
    if 'A' <= c && c <= 'Z' {
        c as u32 + 32
    } else {
        c as u32
    }
}

/// Whether `a` and `b` are one header name.
pub fn names_match(a: &str, b: &str) -> (r: bool)
    ensures
        r == same_name(a@, b@),
{
    let av = chars(a);
    let bv = chars(b);
    if av.len() != bv.len() {
        return false;
    }
    let mut i: usize = 0;
    while i < av.len()
        invariant
            av@ == a@,
            bv@ == b@,
            av.len() == bv.len(),
            i <= av.len(),
            forall|j: int| 0 <= j < i ==> lower(#[trigger] a@[j]) == lower(b@[j]),
        decreases av.len() - i,
    {
        if lower_code(av[i]) != lower_code(bv[i]) {
            return false;
        }
        i += 1;
    }
    true
}

/// The header fields of a message, in the order in which their names first
/// came.
#[derive(Debug)]
pub struct Headers {
    entries: Vec<(String, String)>,
}

/// The fields of `entries` as texts.
spec fn fields(entries: Seq<(String, String)>) -> Seq<(Seq<char>, Seq<char>)> {
    Seq::new(entries.len(), |i: int| (entries[i].0@, entries[i].1@))
}

impl View for Headers {
    type V = Seq<(Seq<char>, Seq<char>)>;

    closed spec fn view(&self) -> Self::V {
        fields(self.entries@)
    }
}

impl Headers {
    #[verifier::type_invariant]
    pub closed spec fn inv(&self) -> bool {
        distinct_names(self@)
    }

    /// No fields.
    pub fn new() -> (h: Headers)
        ensures
            h@ == Seq::<(Seq<char>, Seq<char>)>::empty(),
    {
        let entries: Vec<(String, String)> = Vec::new();
        Headers { entries }
    }

    /// The number of fields. No two fields go by one name.
    pub fn len(&self) -> (n: usize)
        ensures
            n == self@.len(),
            distinct_names(self@),
    {
        proof {
            use_type_invariant(self);
        }
        self.entries.len()
    }

    /// The position of the field that goes by `name`.
    fn position(&self, name: &str) -> (p: Option<usize>)
        ensures
            match p {
                Some(i) => has_header(self@, name@) && i == header_index(self@, name@),
                None => !has_header(self@, name@),
            },
    {
        let mut i: usize = 0;
        while i < self.entries.len()
            invariant
                i <= self.entries.len(),
                forall|j: int| 0 <= j < i ==> !same_name((#[trigger] self@[j]).0, name@),
            decreases self.entries.len() - i,
        {
            if names_match(self.entries[i].0.as_str(), name) {
                proof {
                    use_type_invariant(self);
                    assert(same_name(self@[i as int].0, name@));
                    let c = header_index(self@, name@);
                    if c != i {
                        lemma_same_name_equivalence(self@[c].0, name@, self@[i as int].0);
                        lemma_same_name_equivalence(name@, self@[i as int].0, name@);
                        lemma_same_name_equivalence(self@[i as int].0, name@, self@[c].0);
                    }
                }
                return Some(i);
            }
            i += 1;
        }
        None
    }

    /// The value of the field that goes by `name`.
    pub fn get(&self, name: &str) -> (v: Option<&String>)
        ensures
            match v {
                Some(s) => has_header(self@, name@) && s@ == self@[header_index(self@, name@)].1,
                None => !has_header(self@, name@),
            },
    {
        match self.position(name) {
            Some(i) => Some(&self.entries[i].1),
            None => None,
        }
    }

    /// Sets the field `name` to `value`. A field that went by that name is
    /// replaced where it stood.
    pub fn set(&mut self, name: &str, value: &str)
        ensures
            final(self)@ == with_header(old(self)@, name@, value@),
    {
        proof {
            use_type_invariant(&*self);
            lemma_with_header(self@, name@, value@);
        }
        let ghost before = self@;
        let found = self.position(name);
        let mut entries: Vec<(String, String)> = Vec::new();
        std::mem::swap(&mut self.entries, &mut entries);
        match found {
            Some(i) => {
                entries.set(i, (name.to_owned(), value.to_owned()));
            },
            None => {
                entries.push((name.to_owned(), value.to_owned()));
            },
        }
        assert(fields(entries@) =~= with_header(before, name@, value@));
        std::mem::swap(&mut self.entries, &mut entries);
    }

    /// The name of the field at position `i`.
    pub fn name(&self, i: usize) -> (s: &String)
        requires
            i < self@.len(),
        ensures
            s@ == self@[i as int].0,
    {
        &self.entries[i].0
    }

    /// The value of the field at position `i`.
    pub fn value(&self, i: usize) -> (s: &String)
        requires
            i < self@.len(),
        ensures
            s@ == self@[i as int].1,
    {
        &self.entries[i].1
    }
}

impl Clone for Headers {
    fn clone(&self) -> (h: Headers)
        ensures
            h@ == self@,
    {
        proof {
            use_type_invariant(self);
        }
        let mut entries: Vec<(String, String)> = Vec::new();
        let mut i: usize = 0;
        while i < self.entries.len()
            invariant
                i <= self.entries.len(),
                entries@.len() == i,
                forall|j: int| 0 <= j < i ==> entries@[j] == self.entries@[j],
            decreases self.entries.len() - i,
        {
            entries.push((self.entries[i].0.clone(), self.entries[i].1.clone()));
            i += 1;
        }
        assert(fields(entries@) =~= self@);
        Headers { entries }
    }
}

} // verus!
