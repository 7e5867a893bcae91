//! Counting rules behind the session metrics, stated over the sequence of
//! tool names, edited paths or shell commands of one session.

use vstd::prelude::*;

use crate::pattern::{regex_is_match, regex_verdict};
use crate::text::{chars_of, str_eq, string_of, views};

verus! {

/// The characters of each string.
pub open spec fn string_views(s: Seq<String>) -> Seq<Seq<char>> {
    s.map_values(|x: String| x@)
}

/// The characters of each string slice.
pub open spec fn str_views(s: Seq<&str>) -> Seq<Seq<char>> {
    s.map_values(|x: &str| x@)
}

/// A tool that only reads the code base.
pub open spec fn is_read_tool(n: Seq<char>) -> bool {
    n == "Read"@ || n == "Grep"@ || n == "Glob"@
}

/// A tool that changes a file.
pub open spec fn is_edit_tool(n: Seq<char>) -> bool {
    n == "Edit"@ || n == "Write"@
}

/// How many reading calls come before the first editing call (all of them
/// when nothing is edited).
pub open spec fn reads_before_edit(names: Seq<Seq<char>>) -> nat
    decreases names.len(),
{
    if names.len() == 0 {
        0
    } else if is_edit_tool(names[0]) {
        0
    } else {
        (if is_read_tool(names[0]) {
            1nat
        } else {
            0nat
        }) + reads_before_edit(names.drop_first())
    }
}

/// How often `x` occurs in `s`.
pub open spec fn occurrences(s: Seq<Seq<char>>, x: Seq<char>) -> nat
    decreases s.len(),
{
    if s.len() == 0 {
        0
    } else {
        occurrences(s.drop_last(), x) + (if s.last() == x {
            1nat
        } else {
            0nat
        })
    }
}

/// Edits of one file from this many on count as a loop.
pub const DOOM_LOOP_THRESHOLD: usize = 5;

/// The paths edited at least `DOOM_LOOP_THRESHOLD` times.
pub open spec fn looping_paths(paths: Seq<Seq<char>>) -> Set<Seq<char>> {
    Set::new(|p: Seq<char>| occurrences(paths, p) >= DOOM_LOOP_THRESHOLD)
}

/// Whether `n` names a reading tool.
pub fn is_read_name(n: &str) -> (r: bool)
    ensures
        r == is_read_tool(n@),
{
    str_eq(n, "Read") || str_eq(n, "Grep") || str_eq(n, "Glob")
}

/// Whether `n` names an editing tool.
pub fn is_edit_name(n: &str) -> (r: bool)
    ensures
        r == is_edit_tool(n@),
{
    str_eq(n, "Edit") || str_eq(n, "Write")
}

/// Counts the reading calls before the first editing call.
pub fn count_reads_before_edit(names: &Vec<String>) -> (r: usize)
    ensures
        r == reads_before_edit(string_views(names@)),
{
    let ghost ns = string_views(names@);
    let mut count: usize = 0;
    let mut i: usize = 0;
    assert(ns.skip(0) =~= ns);
    while i < names.len()
        invariant
            i <= names.len(),
            ns == string_views(names@),
            count <= i,
            reads_before_edit(ns) == count + reads_before_edit(ns.skip(i as int)),
        decreases names.len() - i,
    {
        let n = names[i].as_str();
        assert(ns.skip(i as int).drop_first() =~= ns.skip(i + 1));
        assert(ns.skip(i as int)[0] == n@);
        if is_edit_name(n) {
            return count;
        }
        if is_read_name(n) {
            count += 1;
        }
        i += 1;
    }
    assert(ns.skip(i as int).len() == 0);
    count
}

proof fn lemma_occurs_in(s: Seq<Seq<char>>, x: Seq<char>)
    requires
        occurrences(s, x) > 0,
    ensures
        s.contains(x),
    decreases s.len(),
{
    if s.last() != x {
        lemma_occurs_in(s.drop_last(), x);
        let k = choose|k: int| 0 <= k < s.drop_last().len() && s.drop_last()[k] == x;
        assert(s[k] == x);
    } else {
        assert(s[s.len() - 1] == x);
    }
}

/// The index of `x` among the slices of `v`, if it is there.
fn position_of(v: &Vec<&str>, x: &str) -> (r: Option<usize>)
    ensures
        match r {
            Some(k) => k < v.len() && v@[k as int]@ == x@,
            None => !str_views(v@).contains(x@),
        },
{
    let mut i: usize = 0;
    while i < v.len()
        invariant
            i <= v.len(),
            forall|k: int| 0 <= k < i ==> (#[trigger] v@[k])@ != x@,
        decreases v.len() - i,
    {
        if str_eq(v[i], x) {
            return Some(i);
        }
        i += 1;
    }
    assert forall|k: int| 0 <= k < str_views(v@).len() implies str_views(v@)[k] != x@ by {
        assert(v@[k]@ != x@);
    }
    None
}

/// Counts the paths edited at least `DOOM_LOOP_THRESHOLD` times.
pub fn count_looping_paths(paths: &Vec<String>) -> (r: usize)
    ensures
        r == looping_paths(string_views(paths@)).len(),
{
    let ghost pv = string_views(paths@);
    let mut keys: Vec<&str> = Vec::new();
    let mut counts: Vec<usize> = Vec::new();
    let mut i: usize = 0;
    assert(pv.take(0) =~= Seq::<Seq<char>>::empty());
    assert(str_views(keys@) =~= Seq::<Seq<char>>::empty());
    while i < paths.len()
        invariant
            i <= paths.len(),
            pv == string_views(paths@),
            keys.len() == counts.len(),
            str_views(keys@).no_duplicates(),
            forall|k: int|
                0 <= k < keys.len() ==> #[trigger] counts@[k] == occurrences(
                    pv.take(i as int),
                    keys@[k]@,
                ),
            forall|k: int| 0 <= k < keys.len() ==> #[trigger] counts@[k] <= i,
            forall|k: int| 0 <= k < keys.len() ==> #[trigger] counts@[k] >= 1,
            forall|y: Seq<char>|
                !str_views(keys@).contains(y) ==> #[trigger] occurrences(pv.take(i as int), y)
                    == 0,
        decreases paths.len() - i,
    {
        let x = paths[i].as_str();
        let ghost pre = pv.take(i as int);
        assert(pv.take(i + 1) =~= pre.push(x@));
        assert(pv.take(i + 1).drop_last() =~= pre);
        assert forall|y: Seq<char>| #[trigger]
            occurrences(pv.take(i + 1), y) == occurrences(pre, y) + (if y == x@ {
                1nat
            } else {
                0nat
            }) by {
            assert(pv.take(i + 1).last() == x@);
        }
        match position_of(&keys, x) {
            Some(k) => {
                let c = counts[k];
                counts.set(k, c + 1);
                assert forall|k2: int| 0 <= k2 < keys.len() && k2 != k implies keys@[k2]@
                    != x@ by {
                    assert(str_views(keys@)[k2] == keys@[k2]@);
                    assert(str_views(keys@)[k as int] == keys@[k as int]@);
                }
            },
            None => {
                let ghost old_keys = keys@;
                keys.push(x);
                counts.push(1);
                assert(str_views(keys@) =~= str_views(old_keys).push(x@));
                assert forall|k2: int| 0 <= k2 < old_keys.len() implies keys@[k2]@ != x@ by {
                    assert(str_views(old_keys)[k2] == old_keys[k2]@);
                }
                assert forall|y: Seq<char>| !str_views(keys@).contains(y) implies #[trigger]
                    occurrences(pv.take(i + 1), y) == 0 by {
                    assert(str_views(keys@)[old_keys.len() as int] == x@);
                    if str_views(old_keys).contains(y) {
                        let w = choose|w: int|
                            0 <= w < str_views(old_keys).len() && str_views(old_keys)[w] == y;
                        assert(str_views(keys@)[w] == y);
                    }
                }
            },
        }
        i += 1;
    }
    assert(pv.take(i as int) =~= pv);
    let ghost kv = str_views(keys@);
    let mut found: usize = 0;
    let mut j: usize = 0;
    let ghost mut seen: Set<Seq<char>> = Set::empty();
    while j < keys.len()
        invariant
            j <= keys.len(),
            keys.len() == counts.len(),
            kv == str_views(keys@),
            kv.no_duplicates(),
            seen.finite(),
            seen.len() == found,
            found <= j,
            forall|k: int| 0 <= k < keys.len() ==> #[trigger] counts@[k] == occurrences(pv, kv[k]),
            forall|y: Seq<char>|
                #[trigger] seen.contains(y) <==> exists|k: int|
                    0 <= k < j && kv[k] == y && counts@[k] >= DOOM_LOOP_THRESHOLD,
        decreases keys.len() - j,
    {
        if counts[j] >= DOOM_LOOP_THRESHOLD {
            proof {
                assert(!seen.contains(kv[j as int])) by {
                    if seen.contains(kv[j as int]) {
                        let k = choose|k: int|
                            0 <= k < j && kv[k] == kv[j as int] && counts@[k] >= DOOM_LOOP_THRESHOLD;
                        assert(false);
                    }
                }
                seen = seen.insert(kv[j as int]);
            }
            found += 1;
        }
        proof {
            assert forall|y: Seq<char>| #[trigger] seen.contains(y) <==> exists|k: int|
                0 <= k < j + 1 && kv[k] == y && counts@[k] >= DOOM_LOOP_THRESHOLD by {
                if exists|k: int| 0 <= k < j + 1 && kv[k] == y && counts@[k] >= DOOM_LOOP_THRESHOLD {
                    let k = choose|k: int|
                        0 <= k < j + 1 && kv[k] == y && counts@[k] >= DOOM_LOOP_THRESHOLD;
                    if k < j {
                        assert(exists|k2: int|
                            0 <= k2 < j && kv[k2] == y && counts@[k2] >= DOOM_LOOP_THRESHOLD);
                    }
                }
            }
        }
        j += 1;
    }
    proof {
        assert forall|y: Seq<char>| #[trigger] seen.contains(y) <==> looping_paths(pv).contains(y) by {
            if occurrences(pv, y) >= DOOM_LOOP_THRESHOLD && !seen.contains(y) {
                if kv.contains(y) {
                    let k = choose|k: int| 0 <= k < kv.len() && kv[k] == y;
                    assert(counts@[k] == occurrences(pv, kv[k]));
                } else {
                    assert(occurrences(pv.take(i as int), y) == 0);
                }
            }
        }
        assert(seen =~= looping_paths(pv));
    }
    found
}

/// Some text of `texts` is matched by `pattern`.
pub open spec fn some_text_matches(texts: Seq<Seq<char>>, pattern: Seq<char>) -> bool {
    exists|i: int| 0 <= i < texts.len() && regex_verdict(pattern, #[trigger] texts[i]) == Some(true)
}

/// Whether `pattern` matches one of `texts`.
pub fn any_text_matches(texts: &Vec<String>, pattern: &str) -> (r: bool)
    ensures
        r == some_text_matches(string_views(texts@), pattern@),
{
    let ghost tv = string_views(texts@);
    let mut i: usize = 0;
    while i < texts.len()
        invariant
            i <= texts.len(),
            tv == string_views(texts@),
            forall|k: int| 0 <= k < i ==> regex_verdict(pattern@, #[trigger] tv[k]) != Some(true),
        decreases texts.len() - i,
    {
        let verdict = regex_is_match(pattern, texts[i].as_str());
        assert(tv[i as int] == texts@[i as int]@);
        if verdict == Some(true) {
            return true;
        }
        i += 1;
    }
    false
}

/// Lexicographic order on character sequences, as `String`'s `Ord` orders
/// texts (UTF-8 keeps the order of code points).
pub open spec fn lex_lt(a: Seq<char>, b: Seq<char>) -> bool
    decreases a.len(),
{
    if a.len() == 0 {
        b.len() > 0
    } else if b.len() == 0 {
        false
    } else if a[0] != b[0] {
        a[0] < b[0]
    } else {
        lex_lt(a.drop_first(), b.drop_first())
    }
}

/// Each element comes strictly before the next.
pub open spec fn strictly_sorted(s: Seq<Seq<char>>) -> bool {
    forall|i: int, j: int| 0 <= i < j < s.len() ==> lex_lt(#[trigger] s[i], #[trigger] s[j])
}

/// No text comes strictly before itself.
pub proof fn lemma_lex_irreflexive(a: Seq<char>)
    ensures
        !lex_lt(a, a),
    decreases a.len(),
{
    if a.len() > 0 {
        lemma_lex_irreflexive(a.drop_first());
    }
}

/// The text order is transitive.
pub proof fn lemma_lex_transitive(a: Seq<char>, b: Seq<char>, c: Seq<char>)
    requires
        lex_lt(a, b),
        lex_lt(b, c),
    ensures
        lex_lt(a, c),
    decreases a.len(),
{
    if a.len() > 0 && b.len() > 0 && c.len() > 0 && a[0] == b[0] && b[0] == c[0] {
        lemma_lex_transitive(a.drop_first(), b.drop_first(), c.drop_first());
    }
}

/// Of two different texts one comes first.
pub proof fn lemma_lex_total(a: Seq<char>, b: Seq<char>)
    ensures
        a == b || lex_lt(a, b) || lex_lt(b, a),
    decreases a.len(),
{
    if a.len() == 0 && b.len() == 0 {
        assert(a =~= b);
    } else if a.len() > 0 && b.len() > 0 && a[0] == b[0] {
        lemma_lex_total(a.drop_first(), b.drop_first());
        if a.drop_first() == b.drop_first() {
            assert(a.drop_first().len() == a.len() - 1);
            assert(b.drop_first().len() == b.len() - 1);
            assert(a.len() == b.len());
            assert forall|i: int| 0 <= i < a.len() implies a[i] == b[i] by {
                if i > 0 {
                    assert(a[i] == a.drop_first()[i - 1]);
                    assert(b[i] == b.drop_first()[i - 1]);
                }
            }
            assert(a =~= b);
        }
    }
}

proof fn lemma_lex_skip(a: Seq<char>, b: Seq<char>, i: int)
    requires
        0 <= i < a.len(),
        i < b.len(),
        a[i] == b[i],
    ensures
        lex_lt(a.skip(i), b.skip(i)) == lex_lt(a.skip(i + 1), b.skip(i + 1)),
{
    assert(a.skip(i).drop_first() =~= a.skip(i + 1));
    assert(b.skip(i).drop_first() =~= b.skip(i + 1));
}

/// Whether `a` comes strictly before `b`.
pub fn lex_less(a: &Vec<char>, b: &Vec<char>) -> (r: bool)
    ensures
        r == lex_lt(a@, b@),
{
    let mut i: usize = 0;
    assert(a@.skip(0) =~= a@);
    assert(b@.skip(0) =~= b@);
    while i < a.len() && i < b.len()
        invariant
            i <= a.len(),
            i <= b.len(),
            lex_lt(a@, b@) == lex_lt(a@.skip(i as int), b@.skip(i as int)),
        decreases a.len() - i,
    {
        if a[i] != b[i] {
            return a[i] < b[i];
        }
        proof {
            lemma_lex_skip(a@, b@, i as int);
        }
        i += 1;
    }
    i < b.len()
}

/// The distinct texts of `items` in increasing order: `items` sorted with
/// the duplicates removed.
pub fn sorted_distinct(items: &Vec<String>) -> (r: Vec<String>)
    ensures
        strictly_sorted(string_views(r@)),
        string_views(r@).to_set() == string_views(items@).to_set(),
{
    let ghost iv = string_views(items@);
    let mut out: Vec<Vec<char>> = Vec::new();
    let mut i: usize = 0;
    while i < items.len()
        invariant
            i <= items.len(),
            iv == string_views(items@),
            strictly_sorted(views(out@)),
            forall|x: Seq<char>|
                #[trigger] views(out@).contains(x) <==> iv.take(
                    i as int,
                ).contains(x),
        decreases items.len() - i,
    {
        let x = chars_of(items[i].as_str());
        let ghost ov = views(out@);
        let ghost t0 = iv.take(i as int);
        let ghost t1 = iv.take(i + 1);
        let mut k: usize = 0;
        while k < out.len() && lex_less(&out[k], &x)
            invariant
                k <= out.len(),
                ov == views(out@),
                forall|j: int| 0 <= j < k ==> lex_lt(#[trigger] ov[j], x@),
            decreases out.len() - k,
        {
            assert(ov[k as int] == out@[k as int]@);
            k += 1;
        }
        assert(t1 =~= t0.push(x@));
        if k < out.len() && !lex_less(&x, &out[k]) {
            proof {
                assert(ov[k as int] == out@[k as int]@);
                lemma_lex_total(x@, ov[k as int]);
                assert forall|y: Seq<char>| #[trigger] ov.contains(y) <==> t1.contains(
                    y,
                ) by {
                    if y == x@ {
                        assert(ov[k as int] == y);
                    }
                    if t1.contains(y) && y != x@ {
                        let w = choose|w: int| 0 <= w < t1.len() && t1[w] == y;
                        assert(t0[w] == y);
                    }
                    if t0.contains(y) {
                        let w = choose|w: int| 0 <= w < t0.len() && t0[w] == y;
                        assert(t1[w] == y);
                    }
                }
            }
        } else {
            proof {
                if k < out.len() {
                    assert(ov[k as int] == out@[k as int]@);
                }
            }
            out.insert(k, x);
            proof {
                let nv = views(out@);
                assert(nv =~= ov.insert(k as int, x@));
                assert forall|a: int, b: int| 0 <= a < b < nv.len() implies lex_lt(
                    #[trigger] nv[a],
                    #[trigger] nv[b],
                ) by {
                    if b == k {
                        assert(nv[a] == ov[a]);
                    } else if a == k {
                        assert(nv[b] == ov[b - 1]);
                        if b - 1 > k {
                            assert(lex_lt(ov[k as int], ov[b - 1]));
                            lemma_lex_transitive(x@, ov[k as int], ov[b - 1]);
                        }
                    } else if a < k && b < k {
                        assert(nv[a] == ov[a] && nv[b] == ov[b]);
                    } else if a < k && b > k {
                        assert(nv[a] == ov[a] && nv[b] == ov[b - 1]);
                        assert(lex_lt(ov[a], x@));
                        assert(lex_lt(x@, nv[b])) by {
                            if b - 1 > k {
                                assert(lex_lt(ov[k as int], ov[b - 1]));
                                lemma_lex_transitive(x@, ov[k as int], ov[b - 1]);
                            }
                        }
                        lemma_lex_transitive(ov[a], x@, nv[b]);
                    } else {
                        assert(nv[a] == ov[a - 1] && nv[b] == ov[b - 1]);
                    }
                }
                assert forall|y: Seq<char>| #[trigger] nv.contains(y) <==> t1.contains(
                    y,
                ) by {
                    if nv.contains(y) && y != x@ {
                        let w = choose|w: int| 0 <= w < nv.len() && nv[w] == y;
                        if w < k {
                            assert(ov[w] == y);
                        } else {
                            assert(ov[w - 1] == y);
                        }
                    }
                    if y == x@ {
                        assert(nv[k as int] == y);
                        assert(t1[t1.len() - 1] == y);
                    }
                    if ov.contains(y) {
                        let w = choose|w: int| 0 <= w < ov.len() && ov[w] == y;
                        if w < k {
                            assert(nv[w] == y);
                        } else {
                            assert(nv[w + 1] == y);
                        }
                    }
                    if t1.contains(y) && y != x@ {
                        let w = choose|w: int| 0 <= w < t1.len() && t1[w] == y;
                        assert(t0[w] == y);
                    }
                    if t0.contains(y) {
                        let w = choose|w: int| 0 <= w < t0.len() && t0[w] == y;
                        assert(t1[w] == y);
                    }
                }
            }
        }
        i += 1;
    }
    assert(iv.take(i as int) =~= iv);
    let ghost cv = views(out@);
    let mut r: Vec<String> = Vec::new();
    let mut j: usize = 0;
    while j < out.len()
        invariant
            j <= out.len(),
            cv == views(out@),
            string_views(r@) =~= cv.take(j as int),
        decreases out.len() - j,
    {
        let s = string_of(&out[j]);
        let ghost before = r@;
        r.push(s);
        assert(string_views(r@) =~= string_views(before).push(s@));
        assert(cv.take(j + 1) =~= cv.take(j as int).push(cv[j as int]));
        j += 1;
    }
    assert(cv.take(j as int) =~= cv);
    assert(string_views(r@).to_set() =~= iv.to_set());
    r
}

/// A strictly increasing list names each text once.
pub proof fn lemma_sorted_has_no_repeats(s: Seq<Seq<char>>)
    requires
        strictly_sorted(s),
    ensures
        s.no_duplicates(),
{
    assert forall|i: int, j: int| 0 <= i < s.len() && 0 <= j < s.len() && i != j implies s[i]
        != s[j] by {
        if i < j {
            assert(lex_lt(s[i], s[j]));
            lemma_lex_irreflexive(s[i]);
        } else {
            assert(lex_lt(s[j], s[i]));
            lemma_lex_irreflexive(s[j]);
        }
    }
}

/// The reads counted before the first edit are among the calls.
pub proof fn lemma_reads_within_calls(names: Seq<Seq<char>>)
    ensures
        reads_before_edit(names) <= names.len(),
    decreases names.len(),
{
    if names.len() > 0 {
        lemma_reads_within_calls(names.drop_first());
    }
}

/// A path only counts as looping when it was edited.
pub proof fn lemma_looping_paths_were_edited(paths: Seq<Seq<char>>, p: Seq<char>)
    requires
        looping_paths(paths).contains(p),
    ensures
        paths.contains(p),
{
    lemma_occurs_in(paths, p);
}

} // verus!
