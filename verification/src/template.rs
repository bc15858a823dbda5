//! Routes from path templates: a path may hold placeholders, a name in
//! braces each, that give way to the values of the segments of that name; the
//! parameters follow as a query.

use crate::fields::{
    distinct_keys, has_key, lemma_first_value_stays, lemma_other_values_stay, value_of, Fields,
};
use crate::text::{
    contains, count, lemma_count_after, lemma_count_front, lemma_no_start, lemma_replace_after,
    lemma_replace_front, matches_at, occurs, replace, replace_all,
};
use vstd::prelude::*;
use vstd::string::*;

verus! {

/// The placeholder for the segment `name`: the name in braces.
pub open spec fn placeholder(name: Seq<char>) -> Seq<char> {
    seq!['{'] + name + seq!['}']
}

/// `route` with the value of one segment put in. The placeholder is looked
/// for in `path`, the template as it was given: where it does not stand
/// there, `route` stays as it is.
pub open spec fn substitute(
    path: Seq<char>,
    route: Seq<char>,
    name: Seq<char>,
    value: Seq<char>,
) -> Seq<char> {
    if occurs(path, placeholder(name)) {
        replace_all(route, placeholder(name), value)
    } else {
        route
    }
}

/// `path` with the values of `segments` put in, one segment after the other
/// in their order.
pub open spec fn resolve(path: Seq<char>, segments: Seq<(Seq<char>, Seq<char>)>) -> Seq<char>
    decreases segments.len(),
{
    if segments.len() == 0 {
        path
    } else {
        substitute(
            path,
            resolve(path, segments.drop_last()),
            segments.last().0,
            segments.last().1,
        )
    }
}

/// The pairs of `parameters` as `name=value`, one after the other in their
/// order with nothing between them.
pub open spec fn query(parameters: Seq<(Seq<char>, Seq<char>)>) -> Seq<char>
    decreases parameters.len(),
{
    if parameters.len() == 0 {
        Seq::empty()
    } else {
        query(parameters.drop_last()) + parameters.last().0 + seq!['='] + parameters.last().1
    }
}

/// The route for `path`: its segments put in and, where there are
/// parameters, a question mark and the query behind it.
pub open spec fn route_of(
    path: Seq<char>,
    segments: Seq<(Seq<char>, Seq<char>)>,
    parameters: Seq<(Seq<char>, Seq<char>)>,
) -> Seq<char> {
    if parameters.len() >= 1 {
        resolve(path, segments) + seq!['?'] + query(parameters)
    } else {
        resolve(path, segments)
    }
}

/// The placeholder for the segment `name`.
pub fn placeholder_of(name: &str) -> (s: String)
    ensures
        s@ == placeholder(name@),
{
    let mut s = String::new();
    s.append("{");
    s.append(name);
    s.append("}");
    proof {
        reveal_strlit("{");
        reveal_strlit("}");
    }
    s
}

/// `path` with the values of `segments` put in.
pub fn resolved(path: &str, segments: &Fields) -> (route: String)
    ensures
        route@ == resolve(path@, segments@),
{
    let mut route = path.to_owned();
    let n = segments.len();
    let mut i: usize = 0;
    while i < n
        invariant
            n == segments@.len(),
            i <= n,
            route@ == resolve(path@, segments@.take(i as int)),
        decreases n - i,
    {
        let key = placeholder_of(segments.name(i).as_str());
        proof {
            let next = segments@.take(i + 1);
            assert(next.drop_last() =~= segments@.take(i as int));
        }
        if contains(path, key.as_str()) {
            route = replace(route.as_str(), key.as_str(), segments.value(i).as_str());
        }
        i += 1;
    }
    assert(segments@.take(n as int) =~= segments@);
    route
}

/// Puts the query of `parameters` at the end of `route`, behind a question
/// mark, where there are parameters.
pub fn push_query(route: &mut String, parameters: &Fields)
    ensures
        final(route)@ == (if parameters@.len() >= 1 {
            old(route)@ + seq!['?'] + query(parameters@)
        } else {
            old(route)@
        }),
{
    let n = parameters.len();
    if n >= 1 {
        route.append("?");
        proof {
            reveal_strlit("?");
        }
        let mut i: usize = 0;
        while i < n
            invariant
                n == parameters@.len(),
                i <= n,
                route@ == old(route)@ + seq!['?'] + query(parameters@.take(i as int)),
            decreases n - i,
        {
            let mut pair = String::new();
            pair.append(parameters.name(i).as_str());
            pair.append("=");
            pair.append(parameters.value(i).as_str());
            route.append(pair.as_str());
            proof {
                reveal_strlit("=");
                let next = parameters@.take(i + 1);
                assert(next.drop_last() =~= parameters@.take(i as int));
            }
            i += 1;
        }
        assert(parameters@.take(n as int) =~= parameters@);
    }
}

/// The route for `path` with `segments` and `parameters`.
pub fn route(path: &str, segments: &Fields, parameters: &Fields) -> (r: String)
    ensures
        r@ == route_of(path@, segments@, parameters@),
{
    let mut r = resolved(path, segments);
    push_query(&mut r, parameters);
    r
}

/// A path with neither segments nor parameters is its own route.
pub proof fn lemma_plain_route(path: Seq<char>)
    ensures
        route_of(path, Seq::empty(), Seq::empty()) == path,
{
}

/// Segments whose placeholders do not stand in the path leave it as it is.
pub proof fn lemma_no_placeholder(path: Seq<char>, segments: Seq<(Seq<char>, Seq<char>)>)
    requires
        forall|i: int|
            0 <= i < segments.len() ==> !occurs(path, placeholder((#[trigger] segments[i]).0)),
    ensures
        resolve(path, segments) == path,
        route_of(path, segments, Seq::empty()) == path,
    decreases segments.len(),
{
    if segments.len() > 0 {
        lemma_no_placeholder(path, segments.drop_last());
    }
}

/// A part of a path template: text that stands for itself, or the
/// placeholder of the segment so named.
pub enum Piece {
    Text(Seq<char>),
    Slot(Seq<char>),
}

/// `s` holds no brace.
pub open spec fn plain(s: Seq<char>) -> bool {
    forall|i: int| 0 <= i < s.len() ==> #[trigger] s[i] != '{' && s[i] != '}'
}

/// `s` holds no opening brace, so that no placeholder starts in it.
pub open spec fn unopened(s: Seq<char>) -> bool {
    forall|i: int| 0 <= i < s.len() ==> #[trigger] s[i] != '{'
}

/// `pieces` is a template as it is meant: no text of it holds an opening
/// brace, and no name of it holds a brace.
pub open spec fn well_written(pieces: Seq<Piece>) -> bool {
    forall|i: int|
        0 <= i < pieces.len() ==> match #[trigger] pieces[i] {
            Piece::Text(t) => unopened(t),
            Piece::Slot(n) => plain(n),
        }
}

/// `segments` go with a template: no name of them holds a brace, and no
/// value of them holds an opening brace.
pub open spec fn well_named(segments: Seq<(Seq<char>, Seq<char>)>) -> bool {
    forall|i: int|
        0 <= i < segments.len() ==> plain((#[trigger] segments[i]).0) && unopened(segments[i].1)
}

/// What stands for `piece` once `segments` are put in: a text stays, a
/// placeholder gives way to the value of its segment, and stays as it is
/// written where it has none.
pub open spec fn filled(piece: Piece, segments: Seq<(Seq<char>, Seq<char>)>) -> Seq<char> {
    match piece {
        Piece::Text(t) => t,
        Piece::Slot(n) => if has_key(segments, n) {
            value_of(segments, n)
        } else {
            placeholder(n)
        },
    }
}

/// The template `pieces` with `segments` put in.
pub open spec fn fill(pieces: Seq<Piece>, segments: Seq<(Seq<char>, Seq<char>)>) -> Seq<char>
    decreases pieces.len(),
{
    if pieces.len() == 0 {
        Seq::empty()
    } else {
        filled(pieces[0], segments) + fill(pieces.skip(1), segments)
    }
}

/// The path that the template `pieces` is written as.
pub open spec fn path_of(pieces: Seq<Piece>) -> Seq<char> {
    fill(pieces, Seq::empty())
}

/// `pieces` holds the placeholder of `name`.
pub open spec fn has_slot(pieces: Seq<Piece>, name: Seq<char>) -> bool {
    exists|i: int| 0 <= i < pieces.len() && #[trigger] pieces[i] == Piece::Slot(name)
}

/// A placeholder that the template holds, and that no segment names, stands
/// in what the segments make of the template.
pub proof fn lemma_slot_stays(
    pieces: Seq<Piece>,
    segments: Seq<(Seq<char>, Seq<char>)>,
    name: Seq<char>,
)
    requires
        has_slot(pieces, name),
        !has_key(segments, name),
    ensures
        occurs(fill(pieces, segments), placeholder(name)),
    decreases pieces.len(),
{
    let k = choose|i: int| 0 <= i < pieces.len() && #[trigger] pieces[i] == Piece::Slot(name);
    let head = filled(pieces[0], segments);
    let rest = fill(pieces.skip(1), segments);
    let pat = placeholder(name);
    if k == 0 {
        assert((head + rest).subrange(0, pat.len() as int) =~= pat);
        assert(matches_at(fill(pieces, segments), pat, 0));
    } else {
        assert(pieces.skip(1)[k - 1] == Piece::Slot(name));
        lemma_slot_stays(pieces.skip(1), segments, name);
        let j = choose|j: int| matches_at(rest, pat, j);
        assert((head + rest).subrange(head.len() + j, head.len() + j + pat.len())
            =~= rest.subrange(j, j + pat.len()));
        assert(matches_at(fill(pieces, segments), pat, head.len() + j));
    }
}

/// Where every placeholder of the template has its segment, what the
/// segments make of it holds no opening brace: no placeholder is left.
pub proof fn lemma_filled_is_unopened(pieces: Seq<Piece>, segments: Seq<(Seq<char>, Seq<char>)>)
    requires
        well_written(pieces),
        well_named(segments),
        forall|i: int|
            0 <= i < pieces.len() ==> match #[trigger] pieces[i] {
                Piece::Text(t) => true,
                Piece::Slot(n) => has_key(segments, n),
            },
    ensures
        unopened(fill(pieces, segments)),
        forall|name: Seq<char>| !occurs(fill(pieces, segments), #[trigger] placeholder(name)),
    decreases pieces.len(),
{
    if pieces.len() > 0 {
        let head = filled(pieces[0], segments);
        let rest = fill(pieces.skip(1), segments);
        assert forall|i: int| 0 <= i < pieces.skip(1).len() implies match #[trigger] pieces.skip(
            1,
        )[i] {
            Piece::Text(t) => unopened(t),
            Piece::Slot(n) => plain(n) && has_key(segments, n),
        } by {
            assert(pieces.skip(1)[i] == pieces[i + 1]);
        }
        lemma_filled_is_unopened(pieces.skip(1), segments);
        match pieces[0] {
            Piece::Text(t) => {},
            Piece::Slot(n) => {
                let c = choose|c: int| 0 <= c < segments.len() && (#[trigger] segments[c]).0 == n;
                assert(unopened(segments[c].1));
            },
        }
        assert forall|i: int| 0 <= i < (head + rest).len() implies #[trigger] (head + rest)[i]
            != '{' by {
            if i < head.len() {
                assert((head + rest)[i] == head[i]);
            } else {
                assert((head + rest)[i] == rest[i - head.len()]);
            }
        }
    }
    let route = fill(pieces, segments);
    assert forall|name: Seq<char>| !occurs(route, #[trigger] placeholder(name)) by {
        let pat = placeholder(name);
        if occurs(route, pat) {
            let i = choose|i: int| matches_at(route, pat, i);
            assert(route.subrange(i, i + pat.len())[0] == pat[0]);
            assert(route[i] == '{');
        }
    }
}

/// A segment whose placeholder the template does not hold changes nothing.
proof fn lemma_fill_without_slot(
    pieces: Seq<Piece>,
    segments: Seq<(Seq<char>, Seq<char>)>,
    name: Seq<char>,
    value: Seq<char>,
)
    requires
        distinct_keys(segments),
        !has_key(segments, name),
        !has_slot(pieces, name),
    ensures
        fill(pieces, segments.push((name, value))) == fill(pieces, segments),
    decreases pieces.len(),
{
    if pieces.len() > 0 {
        assert forall|i: int| 0 <= i < pieces.skip(1).len() implies #[trigger] pieces.skip(1)[i]
            != Piece::Slot(name) by {
            assert(pieces[i + 1] != Piece::Slot(name));
        }
        lemma_fill_without_slot(pieces.skip(1), segments, name, value);
        match pieces[0] {
            Piece::Text(t) => {},
            Piece::Slot(n) => {
                assert(n != name);
                lemma_other_values_stay(segments, name, value, n);
            },
        }
    }
}

/// No occurrence of the placeholder of `name` starts within the placeholder
/// of another name, whatever follows it.
proof fn lemma_other_placeholder(n: Seq<char>, name: Seq<char>, rest: Seq<char>)
    requires
        plain(n),
        plain(name),
        n != name,
    ensures
        forall|i: int|
            0 <= i < placeholder(n).len() ==> !matches_at(
                placeholder(n) + rest,
                placeholder(name),
                i,
            ),
{
    let c = placeholder(n);
    let pat = placeholder(name);
    let s = c + rest;
    assert forall|i: int| 0 <= i < c.len() implies !matches_at(s, pat, i) by {
        if matches_at(s, pat, i) {
            // The occurrence starts with a brace, and behind its first
            // character the placeholder of `n` holds none but its last.
            let w = s.subrange(i, i + pat.len());
            assert(w[0] == pat[0]);
            assert(s[i] == '{');
            if i > 0 {
                if i <= n.len() {
                    assert(c[i] == n[i - 1]);
                }
            } else {
                // Both start here: the first closing brace of each is the
                // end of its name, so the names have one length and agree.
                let a = name.len() as int;
                let b = n.len() as int;
                if a < b {
                    assert(w[a + 1] == pat[a + 1]);
                    assert(s[a + 1] == n[a]);
                } else if a > b {
                    assert(w[b + 1] == pat[b + 1]);
                    assert(pat[b + 1] == name[b]);
                    assert(s[b + 1] == '}');
                } else {
                    assert forall|j: int| 0 <= j < n.len() implies n[j] == name[j] by {
                        assert(w[j + 1] == pat[j + 1]);
                        assert(s[j + 1] == n[j]);
                        assert(pat[j + 1] == name[j]);
                    }
                    assert(n =~= name);
                }
            }
        }
    }
}

/// Putting in one more segment is replacing its placeholder in what the
/// segments before it have made of the template.
proof fn lemma_fill_one_more(
    pieces: Seq<Piece>,
    segments: Seq<(Seq<char>, Seq<char>)>,
    name: Seq<char>,
    value: Seq<char>,
)
    requires
        well_written(pieces),
        well_named(segments),
        distinct_keys(segments),
        plain(name),
        !has_key(segments, name),
    ensures
        replace_all(fill(pieces, segments), placeholder(name), value) == fill(
            pieces,
            segments.push((name, value)),
        ),
    decreases pieces.len(),
{
    let pat = placeholder(name);
    let more = segments.push((name, value));
    if pieces.len() > 0 {
        let head = filled(pieces[0], segments);
        let rest = fill(pieces.skip(1), segments);
        assert forall|i: int| 0 <= i < pieces.skip(1).len() implies match #[trigger] pieces.skip(
            1,
        )[i] {
            Piece::Text(t) => unopened(t),
            Piece::Slot(n) => plain(n),
        } by {
            assert(pieces.skip(1)[i] == pieces[i + 1]);
        }
        lemma_fill_one_more(pieces.skip(1), segments, name, value);
        assert(pat[0] == '{');
        match pieces[0] {
            Piece::Text(t) => {
                lemma_no_start(head, rest, pat);
                lemma_replace_after(head, rest, pat, value);
            },
            Piece::Slot(n) => {
                if n == name {
                    lemma_first_value_stays(segments, name, value, value);
                    lemma_replace_front(rest, pat, value);
                } else {
                    lemma_other_values_stay(segments, name, value, n);
                    if has_key(segments, n) {
                        let c = choose|c: int|
                            0 <= c < segments.len() && (#[trigger] segments[c]).0 == n;
                        assert(unopened(segments[c].1));
                        lemma_no_start(head, rest, pat);
                    } else {
                        lemma_other_placeholder(n, name, rest);
                    }
                    lemma_replace_after(head, rest, pat, value);
                }
            },
        }
    }
}

/// A path in which every opening brace starts a placeholder, with segments
/// whose names hold no brace and whose values hold no opening brace,
/// resolves to the path with every placeholder replaced by the value of its
/// segment; a placeholder that no segment names stays in the route as it
/// is written.
pub proof fn lemma_resolve_fills(pieces: Seq<Piece>, segments: Seq<(Seq<char>, Seq<char>)>)
    requires
        well_written(pieces),
        well_named(segments),
        distinct_keys(segments),
    ensures
        resolve(path_of(pieces), segments) == fill(pieces, segments),
    decreases segments.len(),
{
    if segments.len() == 0 {
        assert(segments =~= Seq::empty());
    } else {
        let before = segments.drop_last();
        let name = segments.last().0;
        let value = segments.last().1;
        assert(before.push((name, value)) =~= segments);
        assert(distinct_keys(before)) by {
            assert forall|i: int, j: int| 0 <= i < j < before.len() implies (
            #[trigger] before[i]).0 != (#[trigger] before[j]).0 by {
                assert(segments[i].0 != segments[j].0);
            }
        }
        assert(well_named(before)) by {
            assert forall|i: int| 0 <= i < before.len() implies plain((#[trigger] before[i]).0)
                && unopened(before[i].1) by {
                assert(plain(segments[i].0));
            }
        }
        assert(plain(segments[segments.len() - 1].0));
        if has_key(before, name) {
            let c = choose|c: int| 0 <= c < before.len() && (#[trigger] before[c]).0 == name;
            assert(segments[c].0 == segments[segments.len() - 1].0);
        }
        lemma_resolve_fills(pieces, before);
        if occurs(path_of(pieces), placeholder(name)) {
            lemma_fill_one_more(pieces, before, name, value);
        } else {
            if has_slot(pieces, name) {
                lemma_slot_stays(pieces, Seq::empty(), name);
            }
            lemma_fill_without_slot(pieces, before, name, value);
        }
    }
}

/// How often `pieces` holds the placeholder of `name`.
pub open spec fn slots(pieces: Seq<Piece>, name: Seq<char>) -> nat
    decreases pieces.len(),
{
    if pieces.len() == 0 {
        0
    } else if pieces[0] == Piece::Slot(name) {
        1 + slots(pieces.skip(1), name)
    } else {
        slots(pieces.skip(1), name)
    }
}

/// The placeholder of a name that no segment has stands in what the segments
/// make of the template as often as the template holds it.
proof fn lemma_count_fill(
    pieces: Seq<Piece>,
    segments: Seq<(Seq<char>, Seq<char>)>,
    name: Seq<char>,
)
    requires
        well_written(pieces),
        well_named(segments),
        plain(name),
        !has_key(segments, name),
    ensures
        count(fill(pieces, segments), placeholder(name)) == slots(pieces, name),
    decreases pieces.len(),
{
    let pat = placeholder(name);
    if pieces.len() > 0 {
        let head = filled(pieces[0], segments);
        let rest = fill(pieces.skip(1), segments);
        assert forall|i: int| 0 <= i < pieces.skip(1).len() implies match #[trigger] pieces.skip(
            1,
        )[i] {
            Piece::Text(t) => unopened(t),
            Piece::Slot(n) => plain(n),
        } by {
            assert(pieces.skip(1)[i] == pieces[i + 1]);
        }
        lemma_count_fill(pieces.skip(1), segments, name);
        assert(pat[0] == '{');
        match pieces[0] {
            Piece::Text(t) => {
                lemma_no_start(head, rest, pat);
                lemma_count_after(head, rest, pat);
            },
            Piece::Slot(n) => {
                if n == name {
                    assert((head + rest).subrange(0, pat.len() as int) =~= pat);
                    assert forall|i: int| 0 < i < head.len() implies !matches_at(
                        head + rest,
                        pat,
                        i,
                    ) by {
                        if matches_at(head + rest, pat, i) {
                            // Behind its first character a placeholder
                            // holds no opening brace.
                            assert((head + rest).subrange(i, i + pat.len())[0] == pat[0]);
                            assert((head + rest)[i] == head[i]);
                            if i <= name.len() {
                                assert(head[i] == name[i - 1]);
                            }
                        }
                    }
                    lemma_count_front(head, rest, pat);
                } else {
                    if has_key(segments, n) {
                        let c = choose|c: int|
                            0 <= c < segments.len() && (#[trigger] segments[c]).0 == n;
                        assert(unopened(segments[c].1));
                        lemma_no_start(head, rest, pat);
                    } else {
                        lemma_other_placeholder(n, name, rest);
                    }
                    lemma_count_after(head, rest, pat);
                }
            },
        }
    }
}

/// The placeholder of a name that no segment has stays in the route as
/// often as it stands in the path: in a path in which every opening brace
/// starts a placeholder, with segments whose names hold no brace and whose
/// values hold no opening brace, it stands as often as the template holds
/// it, before and after the segments are put in.
pub proof fn lemma_placeholder_stays(
    pieces: Seq<Piece>,
    segments: Seq<(Seq<char>, Seq<char>)>,
    name: Seq<char>,
)
    requires
        well_written(pieces),
        well_named(segments),
        distinct_keys(segments),
        plain(name),
        !has_key(segments, name),
    ensures
        count(path_of(pieces), placeholder(name)) == slots(pieces, name),
        count(resolve(path_of(pieces), segments), placeholder(name)) == slots(pieces, name),
{
    lemma_resolve_fills(pieces, segments);
    lemma_count_fill(pieces, segments, name);
    lemma_count_fill(pieces, Seq::empty(), name);
}

} // verus!
