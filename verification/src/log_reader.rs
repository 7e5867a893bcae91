//! Choosing the log entries of one session and putting them in time order,
//! and telling the two layouts of a log file apart.

use vstd::prelude::*;

use crate::domain::tool_stats::{
    lemma_lex_irreflexive, lemma_lex_total, lemma_lex_transitive, lex_less, lex_lt,
};
use crate::models::LogEntry;
use crate::text::{chars_of, pieces, str_eq, string_of, trim, trim_chars};

verus! {

/// `e` placed into `sorted` after every entry not later than it, so that
/// entries with equal time stamps keep their order.
pub open spec fn insert_by_time(sorted: Seq<LogEntry>, e: LogEntry) -> Seq<LogEntry>
    decreases sorted.len(),
{
    if sorted.len() == 0 {
        seq![e]
    } else if lex_lt(e.timestamp@, sorted.last().timestamp@) {
        insert_by_time(sorted.drop_last(), e).push(sorted.last())
    } else {
        sorted.push(e)
    }
}

/// The entries ordered by time stamp (compared as text), equal stamps in
/// their input order: a stable sort.
pub open spec fn by_time(s: Seq<LogEntry>) -> Seq<LogEntry>
    decreases s.len(),
{
    if s.len() == 0 {
        s
    } else {
        insert_by_time(by_time(s.drop_last()), s.last())
    }
}

/// The entries of session `session_id`, in the order they were read.
pub open spec fn of_session(s: Seq<LogEntry>, session_id: Seq<char>) -> Seq<LogEntry>
    decreases s.len(),
{
    if s.len() == 0 {
        s
    } else if s.last().session_id@ == session_id {
        of_session(s.drop_last(), session_id).push(s.last())
    } else {
        of_session(s.drop_last(), session_id)
    }
}

/// Time stamps never decrease along the sequence.
pub open spec fn in_time_order(s: Seq<LogEntry>) -> bool {
    forall|i: int, j: int|
        0 <= i < j < s.len() ==> !lex_lt(#[trigger] s[j].timestamp@, #[trigger] s[i].timestamp@)
}

proof fn lemma_insert_at(s: Seq<LogEntry>, e: LogEntry, k: int)
    requires
        0 <= k <= s.len(),
        forall|j: int| k <= j < s.len() ==> lex_lt(e.timestamp@, #[trigger] s[j].timestamp@),
        k == 0 || !lex_lt(e.timestamp@, s[k - 1].timestamp@),
    ensures
        insert_by_time(s, e) == s.insert(k, e),
    decreases s.len(),
{
    if s.len() == 0 {
        assert(s.insert(k, e) =~= seq![e]);
    } else if lex_lt(e.timestamp@, s.last().timestamp@) {
        assert(k < s.len()) by {
            if k == s.len() {
                assert(s[k - 1] == s.last());
            }
        }
        let t = s.drop_last();
        assert forall|j: int| k <= j < t.len() implies lex_lt(e.timestamp@, #[trigger] t[j].timestamp@) by {
            assert(t[j] == s[j]);
        }
        if k > 0 {
            assert(t[k - 1] == s[k - 1]);
        }
        lemma_insert_at(t, e, k);
        assert(t.insert(k, e).push(s.last()) =~= s.insert(k, e));
    } else {
        assert(k == s.len()) by {
            if k < s.len() {
                assert(lex_lt(e.timestamp@, s[s.len() - 1].timestamp@));
            }
        }
        assert(s.push(e) =~= s.insert(k, e));
    }
}

/// Keeps the entries of session `session_id` and orders them by time
/// stamp; entries with equal stamps keep the order they came in.
pub fn session_entries(entries: Vec<LogEntry>, session_id: &str) -> (r: Vec<LogEntry>)
    ensures
        r@ == by_time(of_session(entries@, session_id@)),
{
    let ghost all = entries@;
    let mut rest = entries;
    let mut reversed: Vec<LogEntry> = Vec::new();
    assert(rest@ + reversed@.reverse() =~= all);
    while rest.len() > 0
        invariant
            rest@ + reversed@.reverse() == all,
        decreases rest.len(),
    {
        let ghost before_rest = rest@;
        let ghost before_rev = reversed@;
        let e = rest.pop().unwrap();
        reversed.push(e);
        assert(reversed@.reverse() =~= seq![e] + before_rev.reverse());
        assert(rest@ + reversed@.reverse() =~= before_rest + before_rev.reverse());
    }
    assert(reversed@.reverse() =~= all);
    let mut out: Vec<LogEntry> = Vec::new();
    let ghost mut done: Seq<LogEntry> = Seq::empty();
    assert(done + reversed@.reverse() =~= all);
    while reversed.len() > 0
        invariant
            done + reversed@.reverse() == all,
            out@ == by_time(of_session(done, session_id@)),
        decreases reversed.len(),
    {
        let ghost before_rev = reversed@;
        let e = reversed.pop().unwrap();
        proof {
            assert(before_rev.reverse() =~= seq![e] + reversed@.reverse());
            assert(done.push(e) + reversed@.reverse() =~= done + before_rev.reverse());
            assert(done.push(e).drop_last() =~= done);
            done = done.push(e);
        }
        let ghost prev_done = done.drop_last();
        let ghost old_out = out@;
        if str_eq(e.session_id.as_str(), session_id) {
            proof {
                assert(of_session(done, session_id@) == of_session(prev_done, session_id@).push(e));
                assert(of_session(done, session_id@).drop_last() =~= of_session(prev_done, session_id@));
                assert(by_time(of_session(done, session_id@)) == insert_by_time(old_out, e));
            }
            let key = chars_of(e.timestamp.as_str());
            let mut k: usize = out.len();
            while k > 0 && lex_less(&key, &chars_of(out[k - 1].timestamp.as_str()))
                invariant
                    k <= out.len(),
                    key@ == e.timestamp@,
                    forall|j: int| k <= j < out@.len() ==> lex_lt(e.timestamp@, #[trigger] out@[j].timestamp@),
                decreases k,
            {
                k -= 1;
            }
            proof {
                lemma_insert_at(out@, e, k as int);
            }
            out.insert(k, e);
        } else {
            assert(of_session(done, session_id@) == of_session(prev_done, session_id@));
        }
    }
    assert(done =~= all);
    out
}


/// `b` is not earlier than `a`, `c` not earlier than `b`: so `c` is not
/// earlier than `a`.
proof fn lemma_not_earlier_chain(a: Seq<char>, b: Seq<char>, c: Seq<char>)
    requires
        !lex_lt(b, a),
        !lex_lt(c, b),
    ensures
        !lex_lt(c, a),
{
    lemma_lex_total(a, b);
    lemma_lex_total(b, c);
    if lex_lt(c, a) {
        if a == b {
            assert(lex_lt(c, b));
        } else if b == c {
            assert(lex_lt(b, a));
        } else {
            lemma_lex_transitive(a, b, c);
            lemma_lex_transitive(c, a, c);
            lemma_lex_irreflexive(c);
        }
    }
}

proof fn lemma_insert_in_order(s: Seq<LogEntry>, e: LogEntry)
    requires
        in_time_order(s),
    ensures
        in_time_order(insert_by_time(s, e)),
        forall|j: int| 0 <= j < insert_by_time(s, e).len() ==> #[trigger] insert_by_time(s, e)[j] == e
            || s.contains(insert_by_time(s, e)[j]),
    decreases s.len(),
{
    let r = insert_by_time(s, e);
    if s.len() == 0 {
    } else if lex_lt(e.timestamp@, s.last().timestamp@) {
        let t = s.drop_last();
        assert(in_time_order(t)) by {
            assert forall|i: int, j: int| 0 <= i < j < t.len() implies !lex_lt(
                #[trigger] t[j].timestamp@,
                #[trigger] t[i].timestamp@,
            ) by {
                assert(t[i] == s[i] && t[j] == s[j]);
            }
        }
        lemma_insert_in_order(t, e);
        let rt = insert_by_time(t, e);
        assert(r == rt.push(s.last()));
        assert forall|j: int| 0 <= j < rt.len() implies !lex_lt(
            s.last().timestamp@,
            #[trigger] rt[j].timestamp@,
        ) by {
            if rt[j] == e {
                if lex_lt(s.last().timestamp@, e.timestamp@) {
                    lemma_lex_transitive(e.timestamp@, s.last().timestamp@, e.timestamp@);
                    lemma_lex_irreflexive(e.timestamp@);
                }
            } else {
                let m = choose|m: int| 0 <= m < t.len() && t[m] == rt[j];
                assert(s[m] == t[m]);
                assert(s[s.len() - 1] == s.last());
            }
        }
        assert forall|i: int, j: int| 0 <= i < j < r.len() implies !lex_lt(
            #[trigger] r[j].timestamp@,
            #[trigger] r[i].timestamp@,
        ) by {
            if j == r.len() - 1 {
                assert(r[i] == rt[i]);
            } else {
                assert(r[i] == rt[i] && r[j] == rt[j]);
            }
        }
        assert forall|j: int| 0 <= j < r.len() implies #[trigger] r[j] == e || s.contains(r[j]) by {
            if j == r.len() - 1 {
                assert(s[s.len() - 1] == r[j]);
            } else {
                assert(r[j] == rt[j]);
                if rt[j] != e {
                    let m = choose|m: int| 0 <= m < t.len() && t[m] == rt[j];
                    assert(s[m] == t[m]);
                }
            }
        }
    } else {
        assert(r == s.push(e));
        assert forall|i: int, j: int| 0 <= i < j < r.len() implies !lex_lt(
            #[trigger] r[j].timestamp@,
            #[trigger] r[i].timestamp@,
        ) by {
            if j == r.len() - 1 {
                assert(r[i] == s[i]);
                if i < s.len() - 1 {
                    assert(!lex_lt(s[s.len() - 1].timestamp@, s[i].timestamp@));
                    lemma_not_earlier_chain(s[i].timestamp@, s.last().timestamp@, e.timestamp@);
                }
            } else {
                assert(r[i] == s[i] && r[j] == s[j]);
            }
        }
        assert forall|j: int| 0 <= j < r.len() implies #[trigger] r[j] == e || s.contains(r[j]) by {
            if j < s.len() {
                assert(r[j] == s[j]);
            }
        }
    }
}

/// The entries a session reads come in time order.
pub proof fn lemma_by_time_is_ordered(s: Seq<LogEntry>)
    ensures
        in_time_order(by_time(s)),
    decreases s.len(),
{
    if s.len() > 0 {
        lemma_by_time_is_ordered(s.drop_last());
        lemma_insert_in_order(by_time(s.drop_last()), s.last());
    }
}

/// The characters of `s` before its first line feed.
pub open spec fn before_first_nl(s: Seq<char>) -> Seq<char>
    decreases s.len(),
{
    if s.len() == 0 {
        s
    } else if s[0] == '\n' {
        seq![]
    } else {
        seq![s[0]] + before_first_nl(s.drop_first())
    }
}

/// The first line of `s` as `str::lines` yields it: up to the first line
/// feed, a carriage return before it dropped.
pub open spec fn first_line(s: Seq<char>) -> Seq<char> {
    let l = before_first_nl(s);
    if l.len() > 0 && l.last() == '\r' {
        l.drop_last()
    } else {
        l
    }
}

/// Whether a log file is written one record per line: its trimmed text is
/// not empty and its first line begins with `{` and ends with `}`. Other
/// files hold a stream of pretty-printed records.
pub open spec fn is_compact_layout(content: Seq<char>) -> bool {
    let t = trim(content);
    let f = first_line(t);
    t.len() > 0 && f.len() > 0 && f[0] == '{' && f.last() == '}'
}

/// Tells whether a log file is written one record per line.
pub fn compact_layout(content: &str) -> (r: bool)
    ensures
        r == is_compact_layout(content@),
{
    let t = trim_chars(&chars_of(content));
    if t.len() == 0 {
        return false;
    }
    let mut i: usize = 0;
    let mut line: Vec<char> = Vec::new();
    assert(t@.skip(0) =~= t@);
    assert(line@ + before_first_nl(t@) =~= before_first_nl(t@));
    while i < t.len() && t[i] != '\n'
        invariant
            i <= t@.len(),
            line@ == t@.take(i as int),
            forall|k: int| 0 <= k < i ==> t@[k] != '\n',
            before_first_nl(t@) == line@ + before_first_nl(t@.skip(i as int)),
        decreases t@.len() - i,
    {
        assert(t@.skip(i as int).drop_first() =~= t@.skip(i + 1));
        assert(seq![t@[i as int]] + t@.skip(i + 1) =~= t@.skip(i as int));
        line.push(t[i]);
        assert(line@ =~= t@.take(i + 1));
        i = i + 1;
    }
    assert(before_first_nl(t@.skip(i as int)) =~= Seq::<char>::empty());
    assert(before_first_nl(t@) =~= line@);
    if line.len() > 0 && line[line.len() - 1] == '\r' {
        line.pop();
    }
    line.len() > 0 && line[0] == '{' && line[line.len() - 1] == '}'
}

/// The pieces trimmed, the blank ones left out.
pub open spec fn nonblank_trimmed(ps: Seq<Seq<char>>) -> Seq<Seq<char>>
    decreases ps.len(),
{
    if ps.len() == 0 {
        seq![]
    } else {
        let r = nonblank_trimmed(ps.drop_last());
        let t = trim(ps.last());
        if t.len() == 0 {
            r
        } else {
            r.push(t)
        }
    }
}

/// The records of a file written one record per line: its lines trimmed,
/// blank lines left out.
pub open spec fn record_lines(content: Seq<char>) -> Seq<Seq<char>> {
    nonblank_trimmed(pieces(trim(content)))
}

/// The text of each record of a file written one record per line.
pub fn compact_records(content: &str) -> (r: Vec<String>)
    ensures
        r@.map_values(|l: String| l@) == record_lines(content@),
{
    let t = trim_chars(&chars_of(content));
    let mut out: Vec<String> = Vec::new();
    let mut cur: Vec<char> = Vec::new();
    let mut i: usize = 0;
    proof {
        assert(t@.take(0) =~= Seq::<char>::empty());
        assert(nonblank_trimmed(pieces(t@.take(0)).drop_last()) =~= Seq::<Seq<char>>::empty());
    }
    while i < t.len()
        invariant
            i <= t@.len(),
            pieces(t@.take(i as int)).len() >= 1,
            cur@ == pieces(t@.take(i as int)).last(),
            out@.map_values(|l: String| l@) == nonblank_trimmed(pieces(t@.take(i as int)).drop_last()),
        decreases t@.len() - i,
    {
        let ghost ps = pieces(t@.take(i as int));
        assert(t@.take(i + 1).drop_last() =~= t@.take(i as int));
        assert(t@.take(i + 1).last() == t@[i as int]);
        let c = t[i];
        if c == '\n' {
            assert(pieces(t@.take(i + 1)).drop_last() =~= ps);
            assert(ps.drop_last().push(ps.last()) =~= ps);
            let tc = trim_chars(&cur);
            if tc.len() > 0 {
                let ghost before = out@;
                out.push(string_of(&tc));
                assert(out@.map_values(|l: String| l@) =~= before.map_values(|l: String| l@).push(tc@));
            }
            cur = Vec::new();
        } else {
            assert(pieces(t@.take(i + 1)).drop_last() =~= ps.drop_last());
            cur.push(c);
        }
        i = i + 1;
    }
    assert(t@.take(t@.len() as int) =~= t@);
    let ghost ps = pieces(t@);
    assert(ps.drop_last().push(ps.last()) =~= ps);
    let tc = trim_chars(&cur);
    if tc.len() > 0 {
        let ghost before = out@;
        out.push(string_of(&tc));
        assert(out@.map_values(|l: String| l@) =~= before.map_values(|l: String| l@).push(tc@));
    }
    out
}

} // verus!
