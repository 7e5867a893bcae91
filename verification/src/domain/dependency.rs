//! Task dependencies: refusing an edge that would close a cycle.
//!
//! The dependency graph is modelled as a sequence of `(from, to)` name pairs;
//! a node reaches another when a path of edges leads from the first to the
//! second (every node reaches itself by the path of length zero).

use vstd::prelude::*;

use crate::text::str_eq;

verus! {

/// The edges of the graph by the names of their end points.
pub open spec fn edge_names(edges: Seq<(String, String)>) -> Seq<(Seq<char>, Seq<char>)> {
    edges.map_values(|e: (String, String)| (e.0@, e.1@))
}

/// `g` holds the edge `a -> b`.
pub open spec fn has_edge(g: Seq<(Seq<char>, Seq<char>)>, a: Seq<char>, b: Seq<char>) -> bool {
    exists|j: int| 0 <= j < g.len() && #[trigger] g[j] == (a, b)
}

/// Step `i` of `p` follows an edge of `g`.
pub open spec fn path_step(g: Seq<(Seq<char>, Seq<char>)>, p: Seq<Seq<char>>, i: int) -> bool {
    has_edge(g, p[i], p[i + 1])
}

/// `p` is a non-empty walk along the edges of `g`.
pub open spec fn is_path(g: Seq<(Seq<char>, Seq<char>)>, p: Seq<Seq<char>>) -> bool {
    &&& p.len() >= 1
    &&& forall|i: int| 0 <= i < p.len() - 1 ==> #[trigger] path_step(g, p, i)
}

/// Some walk of `g` starts at `a` and ends at `b`.
pub open spec fn reaches(g: Seq<(Seq<char>, Seq<char>)>, a: Seq<char>, b: Seq<char>) -> bool {
    exists|p: Seq<Seq<char>>| #[trigger] is_path(g, p) && p[0] == a && p.last() == b
}

/// Adding the edge `from -> to` to `edges` makes `from` reachable again from
/// `to`, that is, closes a cycle through the new edge.
pub open spec fn closes_cycle(edges: Seq<(String, String)>, from: Seq<char>, to: Seq<char>) -> bool {
    reaches(edge_names(edges).push((from, to)), to, from)
}

/// The names held by a vector of string slices.
pub open spec fn names(v: Seq<&str>) -> Seq<Seq<char>> {
    v.map_values(|s: &str| s@)
}

proof fn lemma_reaches_itself(g: Seq<(Seq<char>, Seq<char>)>, a: Seq<char>)
    ensures
        reaches(g, a, a),
{
    let p = seq![a];
    assert(is_path(g, p));
}

proof fn lemma_reaches_step(
    g: Seq<(Seq<char>, Seq<char>)>,
    a: Seq<char>,
    b: Seq<char>,
    c: Seq<char>,
)
    requires
        reaches(g, a, b),
        has_edge(g, b, c),
    ensures
        reaches(g, a, c),
{
    let p = choose|p: Seq<Seq<char>>| #[trigger] is_path(g, p) && p[0] == a && p.last() == b;
    let q = p.push(c);
    assert forall|i: int| 0 <= i < q.len() - 1 implies #[trigger] path_step(g, q, i) by {
        if i < p.len() - 1 {
            assert(path_step(g, p, i));
        }
    }
    assert(is_path(g, q) && q[0] == a && q.last() == c);
}

/// Every node of a walk that starts inside a set closed under the edges of
/// `g` lies inside the set.
proof fn lemma_walk_stays(
    g: Seq<(Seq<char>, Seq<char>)>,
    s: Seq<Seq<char>>,
    p: Seq<Seq<char>>,
    i: int,
)
    requires
        is_path(g, p),
        s.contains(p[0]),
        forall|j: int| 0 <= j < g.len() && s.contains(#[trigger] g[j].0) ==> s.contains(g[j].1),
        0 <= i < p.len(),
    ensures
        s.contains(p[i]),
    decreases i,
{
    if i > 0 {
        lemma_walk_stays(g, s, p, i - 1);
        assert(path_step(g, p, i - 1));
        let j = choose|j: int| 0 <= j < g.len() && #[trigger] g[j] == (p[i - 1], p[i]);
        assert(s.contains(g[j].0));
    }
}

/// Nothing outside a set closed under the edges of `g` is reachable from
/// inside it.
proof fn lemma_closed_set_unreachable(
    g: Seq<(Seq<char>, Seq<char>)>,
    s: Seq<Seq<char>>,
    a: Seq<char>,
    b: Seq<char>,
)
    requires
        s.contains(a),
        !s.contains(b),
        forall|j: int| 0 <= j < g.len() && s.contains(#[trigger] g[j].0) ==> s.contains(g[j].1),
    ensures
        !reaches(g, a, b),
{
    if reaches(g, a, b) {
        let p = choose|p: Seq<Seq<char>>| #[trigger] is_path(g, p) && p[0] == a && p.last() == b;
        lemma_walk_stays(g, s, p, p.len() - 1);
    }
}

/// A sequence without repetitions drawn from a finite set is no longer than
/// the set.
proof fn lemma_distinct_within(s: Seq<Seq<char>>, u: Set<Seq<char>>)
    requires
        s.no_duplicates(),
        u.finite(),
        forall|k: int| 0 <= k < s.len() ==> u.contains(#[trigger] s[k]),
    ensures
        s.len() <= u.len(),
{
    s.unique_seq_to_set();
    assert(s.to_set().subset_of(u));
    vstd::set_lib::lemma_len_subset(s.to_set(), u);
}

/// Whether `x` occurs among the names in `v`.
fn holds_name(v: &Vec<&str>, x: &str) -> (r: bool)
    ensures
        r == names(v@).contains(x@),
{
    let mut i: usize = 0;
    while i < v.len()
        invariant
            i <= v.len(),
            forall|k: int| 0 <= k < i ==> (#[trigger] v@[k])@ != x@,
        decreases v.len() - i,
    {
        if str_eq(v[i], x) {
            assert(names(v@)[i as int] == x@);
            return true;
        }
        i += 1;
    }
    assert forall|k: int| 0 <= k < names(v@).len() implies names(v@)[k] != x@ by {
        assert(v@[k]@ != x@);
    }
    false
}

/// Whether adding the edge `from -> to` to `edges` creates a cycle: a walk
/// from `to` back to `from` exists in the graph with the new edge.
pub fn detect_cycle(edges: &[(String, String)], from: &str, to: &str) -> (r: bool)
    ensures
        r == closes_cycle(edges@, from@, to@),
{
    let ghost en = edge_names(edges@);
    let ghost g = en.push((from@, to@));
    let ghost u: Set<Seq<char>> = en.map_values(|e: (Seq<char>, Seq<char>)| e.1).to_set().insert(
        to@,
    );
    let mut visited: Vec<&str> = Vec::new();
    let mut stack: Vec<&str> = Vec::new();
    stack.push(to);
    proof {
        lemma_reaches_itself(g, to@);
        assert(names(stack@)[0] == to@);
        assert(names(visited@) =~= Seq::<Seq<char>>::empty());
    }
    while stack.len() > 0
        invariant
            en == edge_names(edges@),
            g == en.push((from@, to@)),
            u == en.map_values(|e: (Seq<char>, Seq<char>)| e.1).to_set().insert(to@),
            u.finite(),
            forall|k: int| 0 <= k < stack.len() ==> reaches(g, to@, (#[trigger] stack@[k])@),
            forall|k: int| 0 <= k < stack.len() ==> u.contains((#[trigger] stack@[k])@),
            forall|k: int| 0 <= k < visited.len() ==> reaches(g, to@, (#[trigger] visited@[k])@),
            forall|k: int| 0 <= k < visited.len() ==> u.contains((#[trigger] visited@[k])@),
            names(visited@).no_duplicates(),
            visited.len() <= u.len(),
            !names(visited@).contains(from@),
            names(visited@).contains(to@) || names(stack@).contains(to@),
            forall|j: int|
                0 <= j < en.len() && names(visited@).contains(#[trigger] en[j].0) ==> names(
                    visited@,
                ).contains(en[j].1) || names(stack@).contains(en[j].1),
        decreases u.len() - visited.len(), stack.len(),
    {
        let ghost before = stack@;
        let node = stack.pop().unwrap();
        let ghost rest = stack@;
        assert(before == rest.push(node));
        assert(reaches(g, to@, node@) && u.contains(node@)) by {
            assert(before[before.len() - 1] == node);
        }
        if str_eq(node, from) {
            return true;
        }
        if !holds_name(&visited, node) {
            let ghost old_visited = visited@;
            visited.push(node);
            proof {
                assert(names(visited@) =~= names(old_visited).push(node@));
                assert forall|k: int| 0 <= k < names(visited@).len() implies u.contains(
                    #[trigger] names(visited@)[k],
                ) by {
                    assert(u.contains(visited@[k]@));
                }
                lemma_distinct_within(names(visited@), u);
            }
            let mut j: usize = 0;
            while j < edges.len()
                invariant
                    en == edge_names(edges@),
                    g == en.push((from@, to@)),
                    u == en.map_values(|e: (Seq<char>, Seq<char>)| e.1).to_set().insert(to@),
                    j <= edges.len(),
                    reaches(g, to@, node@),
                    stack@.len() >= rest.len(),
                    stack@.subrange(0, rest.len() as int) == rest,
                    forall|k: int| 0 <= k < stack.len() ==> reaches(g, to@, (#[trigger] stack@[k])@),
                    forall|k: int| 0 <= k < stack.len() ==> u.contains((#[trigger] stack@[k])@),
                    forall|i: int|
                        0 <= i < j && #[trigger] en[i].0 == node@ ==> names(stack@).contains(
                            en[i].1,
                        ),
                decreases edges.len() - j,
            {
                let ghost prev = stack@;
                if str_eq(edges[j].0.as_str(), node) {
                    stack.push(edges[j].1.as_str());
                    proof {
                        let e = en[j as int];
                        assert(e == (edges@[j as int].0@, edges@[j as int].1@));
                        assert(g[j as int] == (node@, e.1));
                        lemma_reaches_step(g, to@, node@, e.1);
                        assert(en.map_values(|e: (Seq<char>, Seq<char>)| e.1)[j as int] == e.1);
                        assert(u.contains(e.1));
                        assert(names(stack@)[prev.len() as int] == e.1);
                        assert forall|i: int|
                            0 <= i < j && #[trigger] en[i].0 == node@ implies names(
                                stack@,
                            ).contains(en[i].1) by {
                            let w = choose|w: int|
                                0 <= w < names(prev).len() && names(prev)[w] == en[i].1;
                            assert(names(stack@)[w] == en[i].1);
                        }
                    }
                }
                j += 1;
            }
            proof {
                assert(stack@.subrange(0, rest.len() as int) == rest);
                assert forall|i: int|
                    0 <= i < en.len() && names(visited@).contains(#[trigger] en[i].0) implies names(
                        visited@,
                    ).contains(en[i].1) || names(stack@).contains(en[i].1) by {
                    if en[i].0 != node@ {
                        let w = choose|w: int|
                            0 <= w < names(visited@).len() && names(visited@)[w] == en[i].0;
                        assert(w < old_visited.len());
                        assert(names(old_visited)[w] == en[i].0);
                        if names(old_visited).contains(en[i].1) {
                            let v = choose|v: int|
                                0 <= v < names(old_visited).len() && names(old_visited)[v]
                                    == en[i].1;
                            assert(names(visited@)[v] == en[i].1);
                        } else {
                            let v = choose|v: int|
                                0 <= v < names(before).len() && names(before)[v] == en[i].1;
                            if v == rest.len() {
                                assert(names(visited@)[old_visited.len() as int] == en[i].1);
                            } else {
                                assert(names(stack@)[v] == en[i].1) by {
                                    assert(stack@[v] == stack@.subrange(0, rest.len() as int)[v]);
                                }
                            }
                        }
                    }
                }
                if !names(old_visited).contains(to@) {
                    let v = choose|v: int| 0 <= v < names(before).len() && names(before)[v] == to@;
                    if v == rest.len() {
                        assert(names(visited@)[old_visited.len() as int] == to@);
                    } else {
                        assert(names(stack@)[v] == to@) by {
                            assert(stack@[v] == stack@.subrange(0, rest.len() as int)[v]);
                        }
                    }
                } else {
                    let v = choose|v: int| 0 <= v < names(old_visited).len() && names(old_visited)[v] == to@;
                    assert(names(visited@)[v] == to@);
                }
            }
        } else {
            proof {
                assert forall|i: int|
                    0 <= i < en.len() && names(visited@).contains(#[trigger] en[i].0) implies names(
                        visited@,
                    ).contains(en[i].1) || names(stack@).contains(en[i].1) by {
                    if !names(visited@).contains(en[i].1) {
                        let v = choose|v: int|
                            0 <= v < names(before).len() && names(before)[v] == en[i].1;
                        if v == rest.len() {
                            assert(false);
                        } else {
                            assert(names(stack@)[v] == en[i].1);
                        }
                    }
                }
                if !names(visited@).contains(to@) {
                    let v = choose|v: int| 0 <= v < names(before).len() && names(before)[v] == to@;
                    assert(v != rest.len());
                    assert(names(stack@)[v] == to@);
                }
            }
        }
    }
    proof {
        assert(names(stack@) =~= Seq::<Seq<char>>::empty());
        let s = names(visited@);
        assert forall|j: int| 0 <= j < g.len() && s.contains(#[trigger] g[j].0) implies s.contains(
            g[j].1,
        ) by {
            if j < en.len() {
                assert(g[j] == en[j]);
            }
        }
        lemma_closed_set_unreachable(g, s, to@, from@);
    }
    false
}

/// A task made to depend on itself always closes a cycle.
pub proof fn lemma_self_dependency_is_cycle(edges: Seq<(String, String)>, task: Seq<char>)
    ensures
        closes_cycle(edges, task, task),
{
    lemma_reaches_itself(edge_names(edges).push((task, task)), task);
}

/// Every walk of a graph is a walk of any graph holding at least its
/// edges.
proof fn lemma_walk_in_larger_graph(
    g: Seq<(Seq<char>, Seq<char>)>,
    h: Seq<(Seq<char>, Seq<char>)>,
    p: Seq<Seq<char>>,
)
    requires
        is_path(g, p),
        forall|j: int| 0 <= j < g.len() ==> has_edge(h, #[trigger] g[j].0, g[j].1),
    ensures
        is_path(h, p),
{
    assert forall|i: int| 0 <= i < p.len() - 1 implies #[trigger] path_step(h, p, i) by {
        assert(path_step(g, p, i));
        let j = choose|j: int| 0 <= j < g.len() && #[trigger] g[j] == (p[i], p[i + 1]);
        assert(has_edge(h, g[j].0, g[j].1));
    }
}

/// Recording more dependencies never removes a cycle: if adding
/// `from -> to` closes a cycle, it still does once further edges exist.
pub proof fn lemma_more_edges_keep_cycle(
    edges: Seq<(String, String)>,
    extra: Seq<(String, String)>,
    from: Seq<char>,
    to: Seq<char>,
)
    requires
        closes_cycle(edges, from, to),
    ensures
        closes_cycle(edges + extra, from, to),
{
    let g = edge_names(edges).push((from, to));
    let h = edge_names(edges + extra).push((from, to));
    assert forall|j: int| 0 <= j < g.len() implies has_edge(h, #[trigger] g[j].0, g[j].1) by {
        if j < edges.len() {
            assert(h[j] == g[j]);
        } else {
            assert(h[h.len() - 1] == g[j]);
        }
    }
    let p = choose|p: Seq<Seq<char>>| #[trigger] is_path(g, p) && p[0] == to && p.last() == from;
    lemma_walk_in_larger_graph(g, h, p);
}

} // verus!
