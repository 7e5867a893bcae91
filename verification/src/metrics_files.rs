//! Which metrics files a report reads: `.jsonl` files whose name starts
//! with a date inside the requested range (`2026-04-07.jsonl`, or
//! `2026-04-07_001.jsonl` after a roll-over).

use vstd::prelude::*;

use crate::domain::tool_stats::{lex_less, lex_lt};
use crate::text::chars_of;

verus! {

/// Where the extension of a file name starts: after its last dot, unless
/// that dot is the first character (`.hidden` has none) or there is none.
pub open spec fn extension_dot(name: Seq<char>) -> Option<int>
    decreases name.len(),
{
    if name.len() == 0 {
        None
    } else if name.last() == '.' && name.len() > 1 {
        Some(name.len() - 1)
    } else {
        extension_dot(name.drop_last())
    }
}

/// The stem and the extension of a file name, as `Path::file_stem` and
/// `Path::extension` split it (`..` has no extension).
pub open spec fn stem_and_extension(name: Seq<char>) -> (Seq<char>, Option<Seq<char>>) {
    if name == seq!['.', '.'] {
        (name, None)
    } else {
        match extension_dot(name) {
            Some(i) => (name.take(i), Some(name.skip(i + 1))),
            None => (name, None),
        }
    }
}

/// The part of `s` before its first `_`, all of it when there is none.
pub open spec fn before_underscore(s: Seq<char>) -> Seq<char>
    decreases s.len(),
{
    if s.len() == 0 {
        s
    } else if s.last() == '_' && !s.drop_last().contains('_') {
        s.drop_last()
    } else if s.drop_last().contains('_') {
        before_underscore(s.drop_last())
    } else {
        s
    }
}

/// Whether a report over the dates from `from` to `to` (compared as text)
/// reads the metrics file `name`.
pub open spec fn selects_file(name: Seq<char>, from: Seq<char>, to: Seq<char>) -> bool {
    let (stem, ext) = stem_and_extension(name);
    let date = before_underscore(stem);
    ext == Some("jsonl"@) && !lex_lt(date, from) && !lex_lt(to, date)
}

/// Whether a report over the dates from `date_from` to `date_to` reads the
/// metrics file called `file_name`.
pub fn metrics_file_selected(file_name: &str, date_from: &str, date_to: &str) -> (r: bool)
    ensures
        r == selects_file(file_name@, date_from@, date_to@),
{
    proof {
        reveal_strlit("jsonl");
    }
    let v = chars_of(file_name);
    let n = v.len();
    if n == 2 && v[0] == '.' && v[1] == '.' {
        assert(v@ =~= seq!['.', '.']);
        return false;
    }
    proof {
        if v@ == seq!['.', '.'] {
            assert(v@.len() == 2 && v@[0] == '.' && v@[1] == '.');
            assert(false);
        }
    }
    // Find the last dot that is not the first character.
    let mut k: usize = n;
    assert(v@.take(n as int) =~= v@);
    while k > 0 && !(v[k - 1] == '.' && k > 1)
        invariant
            k <= n,
            n == v@.len(),
            extension_dot(v@) == extension_dot(v@.take(k as int)),
        decreases k,
    {
        assert(v@.take(k as int).drop_last() =~= v@.take(k - 1));
        k -= 1;
    }
    if k == 0 {
        assert(v@.take(0) =~= Seq::<char>::empty());
        return false;
    }
    assert(v@.take(k as int).last() == v@[k - 1]);
    assert(extension_dot(v@) == Some(k - 1));
    let dot = k - 1;
    assert(stem_and_extension(v@) == (v@.take(dot as int), Some(v@.skip(dot + 1))));
    // The extension must be exactly `jsonl`.
    let ext_len = n - dot - 1;
    let expected = chars_of("jsonl");
    assert(v@.skip(dot + 1).len() == ext_len);
    if ext_len != expected.len() {
        assert(v@.skip(dot + 1) != "jsonl"@);
        assert(stem_and_extension(v@).1 != Some("jsonl"@));
        assert(!selects_file(v@, date_from@, date_to@));
        return false;
    }
    let mut j: usize = 0;
    while j < ext_len
        invariant
            j <= ext_len,
            ext_len == expected@.len(),
            dot + 1 + ext_len == n,
            n == v@.len(),
            v@.skip(dot + 1).take(j as int) == expected@.take(j as int),
            v@ == file_name@,
            expected@ == "jsonl"@,
            stem_and_extension(v@) == (v@.take(dot as int), Some(v@.skip(dot + 1))),
        decreases ext_len - j,
    {
        if v[dot + 1 + j] != expected[j] {
            assert(v@.skip(dot + 1)[j as int] != expected@[j as int]);
            assert(v@.skip(dot + 1) != "jsonl"@);
            return false;
        }
        assert(v@.skip(dot + 1).take(j + 1) =~= v@.skip(dot + 1).take(j as int).push(v@[dot + 1 + j]));
        assert(expected@.take(j + 1) =~= expected@.take(j as int).push(expected@[j as int]));
        j += 1;
    }
    assert(v@.skip(dot + 1) =~= v@.skip(dot + 1).take(j as int));
    assert(expected@ =~= expected@.take(j as int));
    // The date is the stem up to its first underscore.
    let ghost stem = v@.take(dot as int);
    let mut date: Vec<char> = Vec::new();
    let mut m: usize = 0;
    while m < dot && v[m] != '_'
        invariant
            m <= dot,
            dot < n,
            n == v@.len(),
            stem == v@.take(dot as int),
            date@ == stem.take(m as int),
            !date@.contains('_'),
        decreases dot - m,
    {
        date.push(v[m]);
        assert(stem.take(m + 1) =~= stem.take(m as int).push(v@[m as int]));
        m += 1;
    }
    proof {
        lemma_before_underscore(stem, m as int);
    }
    let from = chars_of(date_from);
    let to = chars_of(date_to);
    !lex_less(&date, &from) && !lex_less(&to, &date)
}

/// The part before the first underscore is the prefix that stops there.
proof fn lemma_before_underscore(s: Seq<char>, m: int)
    requires
        0 <= m <= s.len(),
        !s.take(m).contains('_'),
        m < s.len() ==> s[m] == '_',
    ensures
        before_underscore(s) == s.take(m),
    decreases s.len(),
{
    if s.len() == 0 {
    } else if m == s.len() {
        assert(s.take(m) =~= s);
        assert(!s.drop_last().contains('_')) by {
            if s.drop_last().contains('_') {
                let w = choose|w: int| 0 <= w < s.drop_last().len() && s.drop_last()[w] == '_';
                assert(s.take(m)[w] == '_');
            }
        }
    } else if m == s.len() - 1 {
        assert(s.drop_last() =~= s.take(m));
    } else {
        assert(s.drop_last().contains('_')) by {
            assert(s.drop_last()[m] == '_');
        }
        assert(s.drop_last().take(m) =~= s.take(m));
        lemma_before_underscore(s.drop_last(), m);
    }
}

} // verus!
