//! Token usage read from a session transcript, and where the transcript of
//! a project lives.

use vstd::prelude::*;

use crate::domain::token_usage::TokenUsage;
use crate::json::{
    json_has_member, json_member_at, json_string_field, json_text_member, json_u64_at, json_u64_member,
};
use crate::text::{
    chars_of, is_ws, lemma_pieces_nonempty, pieces, str_eq, string_of, trim, trim_chars, trim_end,
    trim_start,
};

verus! {

/// A counter that is absent or not a number counts as zero.
pub open spec fn counter(c: Option<u64>) -> u64 {
    match c {
        Some(n) => n,
        None => 0,
    }
}

/// The usage one transcript line adds: only an assistant record with a
/// `message.usage` member counts; blank, malformed and other records add
/// nothing. Each counter is read from its member of `message.usage`.
pub open spec fn line_usage(line: Seq<char>) -> Option<TokenUsage> {
    let t = trim(line);
    if t.len() == 0 || json_text_member(t, "type"@) != Some("assistant"@) || !json_member_at(
        t,
        "/message/usage"@,
    ) {
        None
    } else {
        Some(
            TokenUsage {
                input_tokens: counter(json_u64_at(t, "/message/usage/input_tokens"@)),
                output_tokens: counter(json_u64_at(t, "/message/usage/output_tokens"@)),
                cache_creation_input_tokens: counter(
                    json_u64_at(t, "/message/usage/cache_creation_input_tokens"@),
                ),
                cache_read_input_tokens: counter(json_u64_at(t, "/message/usage/cache_read_input_tokens"@)),
            },
        )
    }
}

fn counter_at(t: &str, pointer: &str) -> (r: u64)
    ensures
        r == counter(json_u64_at(t@, pointer@)),
{
    match json_u64_member(t, pointer) {
        Some(n) => n,
        None => 0,
    }
}

/// Reads the usage a transcript line adds, if any.
pub fn usage_of_line(line: &str) -> (r: Option<TokenUsage>)
    ensures
        r == line_usage(line@),
{
    let tv = trim_chars(&chars_of(line));
    if tv.len() == 0 {
        return None;
    }
    let t = string_of(&tv);
    match json_string_field(t.as_str(), "type") {
        Some(kind) => {
            if !str_eq(kind.as_str(), "assistant") {
                return None;
            }
        },
        None => {
            return None;
        },
    }
    if !json_has_member(t.as_str(), "/message/usage") {
        return None;
    }
    Some(
        TokenUsage {
            input_tokens: counter_at(t.as_str(), "/message/usage/input_tokens"),
            output_tokens: counter_at(t.as_str(), "/message/usage/output_tokens"),
            cache_creation_input_tokens: counter_at(t.as_str(), "/message/usage/cache_creation_input_tokens"),
            cache_read_input_tokens: counter_at(t.as_str(), "/message/usage/cache_read_input_tokens"),
        },
    )
}

/// The four counters summed over the transcript lines, without bound.
pub open spec fn usage_totals(lines: Seq<Seq<char>>) -> (int, int, int, int)
    decreases lines.len(),
{
    if lines.len() == 0 {
        (0, 0, 0, 0)
    } else {
        let (a, b, c, d) = usage_totals(lines.drop_last());
        match line_usage(lines.last()) {
            Some(u) => (
                a + u.input_tokens,
                b + u.output_tokens,
                c + u.cache_creation_input_tokens,
                d + u.cache_read_input_tokens,
            ),
            None => (a, b, c, d),
        }
    }
}

/// Whether every total fits in 64 bits.
pub open spec fn totals_fit(t: (int, int, int, int)) -> bool {
    t.0 <= u64::MAX && t.1 <= u64::MAX && t.2 <= u64::MAX && t.3 <= u64::MAX
}

/// Sums the usage of the transcript lines: `None` exactly when a total does
/// not fit in 64 bits.
pub fn transcript_total(lines: &[String]) -> (r: Option<TokenUsage>)
    ensures
        match r {
            Some(u) => totals_fit(usage_totals(lines@.map_values(|l: String| l@))) && (
            u.input_tokens as int, u.output_tokens as int, u.cache_creation_input_tokens as int,
            u.cache_read_input_tokens as int) == usage_totals(lines@.map_values(|l: String| l@)),
            None => !totals_fit(usage_totals(lines@.map_values(|l: String| l@))),
        },
{
    let ghost lv = lines@.map_values(|l: String| l@);
    let mut total = TokenUsage::zero();
    let mut i: usize = 0;
    assert(lv.take(0) =~= Seq::<Seq<char>>::empty());
    while i < lines.len()
        invariant
            i <= lines.len(),
            lv == lines@.map_values(|l: String| l@),
            (total.input_tokens as int, total.output_tokens as int,
            total.cache_creation_input_tokens as int, total.cache_read_input_tokens as int)
                == usage_totals(lv.take(i as int)),
        decreases lines.len() - i,
    {
        assert(lv.take(i + 1).drop_last() =~= lv.take(i as int));
        assert(lv.take(i + 1).last() == lines@[i as int]@);
        match usage_of_line(lines[i].as_str()) {
            Some(u) => {
                let a = total.input_tokens.checked_add(u.input_tokens);
                let b = total.output_tokens.checked_add(u.output_tokens);
                let c = total.cache_creation_input_tokens.checked_add(u.cache_creation_input_tokens);
                let d = total.cache_read_input_tokens.checked_add(u.cache_read_input_tokens);
                match (a, b, c, d) {
                    (Some(a), Some(b), Some(c), Some(d)) => {
                        total = TokenUsage {
                            input_tokens: a,
                            output_tokens: b,
                            cache_creation_input_tokens: c,
                            cache_read_input_tokens: d,
                        };
                    },
                    _ => {
                        proof {
                            lemma_totals_stay_over(lv, i as int + 1);
                        }
                        return None;
                    },
                }
            },
            None => {},
        }
        i += 1;
    }
    assert(lv.take(i as int) =~= lv);
    Some(total)
}

/// Once a running total is past 64 bits it stays past.
proof fn lemma_totals_stay_over(lines: Seq<Seq<char>>, k: int)
    requires
        0 <= k <= lines.len(),
        !totals_fit(usage_totals(lines.take(k))),
    ensures
        !totals_fit(usage_totals(lines)),
    decreases lines.len() - k,
{
    if k < lines.len() {
        assert(lines.take(k + 1).drop_last() =~= lines.take(k));
        lemma_totals_stay_over(lines, k + 1);
    } else {
        assert(lines.take(k) =~= lines);
    }
}

/// The directory name of a project's transcripts: the project path with
/// each `/` turned into `-`, leading `-` removed.
pub open spec fn project_hash_of(path: Seq<char>) -> Seq<char> {
    strip_dashes(path.map_values(|c: char| if c == '/' { '-' } else { c }))
}

/// `s` without its leading `-` characters.
pub open spec fn strip_dashes(s: Seq<char>) -> Seq<char>
    decreases s.len(),
{
    if s.len() > 0 && s[0] == '-' {
        strip_dashes(s.drop_first())
    } else {
        s
    }
}

/// Computes the directory name of a project's transcripts.
pub fn project_hash(project_path: &str) -> (r: String)
    ensures
        r@ == project_hash_of(project_path@),
{
    let v = chars_of(project_path);
    let ghost replaced = v@.map_values(|c: char| if c == '/' { '-' } else { c });
    let mut i: usize = 0;
    assert(replaced.skip(0) =~= replaced);
    while i < v.len() && (v[i] == '/' || v[i] == '-')
        invariant
            i <= v.len(),
            replaced == v@.map_values(|c: char| if c == '/' { '-' } else { c }),
            strip_dashes(replaced) == strip_dashes(replaced.skip(i as int)),
        decreases v.len() - i,
    {
        assert(replaced.skip(i as int).drop_first() =~= replaced.skip(i + 1));
        assert(replaced.skip(i as int)[0] == '-');
        i += 1;
    }
    let mut r: Vec<char> = Vec::new();
    let start = i;
    while i < v.len()
        invariant
            start <= i <= v.len(),
            replaced == v@.map_values(|c: char| if c == '/' { '-' } else { c }),
            r@ == replaced.subrange(start as int, i as int),
        decreases v.len() - i,
    {
        let c = if v[i] == '/' { '-' } else { v[i] };
        r.push(c);
        assert(replaced.subrange(start as int, i + 1) =~= replaced.subrange(start as int, i as int).push(c));
        i += 1;
    }
    assert(replaced.skip(start as int) =~= replaced.subrange(start as int, v.len() as int));
    assert(start == v.len() || replaced.skip(start as int)[0] != '-');
    string_of(&r)
}

/// Lines that are not assistant records with usage leave the totals as
/// they are.
pub proof fn lemma_skipped_line_adds_nothing(lines: Seq<Seq<char>>, line: Seq<char>)
    requires
        line_usage(line) is None,
    ensures
        usage_totals(lines.push(line)) == usage_totals(lines),
{
    assert(lines.push(line).drop_last() =~= lines);
}

/// The totals of two transcripts read one after the other are the sums of
/// their totals: each line counts on its own.
pub proof fn lemma_totals_add_up(first: Seq<Seq<char>>, second: Seq<Seq<char>>)
    ensures
        usage_totals(first + second) == ({
            let (a, b, c, d) = usage_totals(first);
            let (e, f, g, h) = usage_totals(second);
            (a + e, b + f, c + g, d + h)
        }),
    decreases second.len(),
{
    if second.len() == 0 {
        assert(first + second =~= first);
    } else {
        lemma_totals_add_up(first, second.drop_last());
        assert((first + second).drop_last() =~= first + second.drop_last());
        assert((first + second).last() == second.last());
    }
}

/// A line that ended with a line feed, without the carriage return that
/// came before that line feed.
pub open spec fn strip_cr(l: Seq<char>) -> Seq<char> {
    if l.len() > 0 && l.last() == '\r' {
        l.drop_last()
    } else {
        l
    }
}

/// The lines of a transcript as `BufRead::lines` yields them: split at line
/// feeds, a carriage return before a line feed dropped, and no empty line
/// after a final line feed.
pub open spec fn text_lines(s: Seq<char>) -> Seq<Seq<char>> {
    let p = pieces(s);
    let body = p.drop_last().map_values(|l: Seq<char>| strip_cr(l));
    if p.last().len() == 0 {
        body
    } else {
        body.push(p.last())
    }
}

/// Splits a transcript text into its lines as `BufRead::lines` would.
pub fn transcript_lines(text: &str) -> (r: Vec<String>)
    ensures
        r@.map_values(|l: String| l@) == text_lines(text@),
{
    let t = chars_of(text);
    let mut out: Vec<String> = Vec::new();
    let mut cur: Vec<char> = Vec::new();
    let mut i: usize = 0;
    proof {
        assert(t@.take(0) =~= Seq::<char>::empty());
        assert(out@.map_values(|l: String| l@) =~= pieces(t@.take(0)).drop_last().map_values(
            |l: Seq<char>| strip_cr(l),
        ));
    }
    while i < t.len()
        invariant
            i <= t@.len(),
            t@ == text@,
            pieces(t@.take(i as int)).len() >= 1,
            cur@ == pieces(t@.take(i as int)).last(),
            out@.map_values(|l: String| l@) == pieces(t@.take(i as int)).drop_last().map_values(
                |l: Seq<char>| strip_cr(l),
            ),
        decreases t@.len() - i,
    {
        let ghost ps = pieces(t@.take(i as int));
        assert(t@.take(i + 1).drop_last() =~= t@.take(i as int));
        assert(t@.take(i + 1).last() == t@[i as int]);
        let c = t[i];
        if c == '\n' {
            assert(pieces(t@.take(i + 1)).drop_last() =~= ps);
            let ghost before = out@;
            let n = cur.len();
            if n > 0 && cur[n - 1] == '\r' {
                cur.pop();
            }
            assert(cur@ == strip_cr(ps.last()));
            out.push(string_of(&cur));
            assert(out@.map_values(|l: String| l@) =~= before.map_values(|l: String| l@).push(cur@));
            assert(ps.drop_last().push(ps.last()) =~= ps);
            assert(ps.map_values(|l: Seq<char>| strip_cr(l)) =~= ps.drop_last().map_values(
                |l: Seq<char>| strip_cr(l),
            ).push(strip_cr(ps.last())));
            cur = Vec::new();
        } else {
            assert(pieces(t@.take(i + 1)).drop_last() =~= ps.drop_last());
            cur.push(c);
        }
        i = i + 1;
    }
    assert(t@.take(t@.len() as int) =~= t@);
    if cur.len() > 0 {
        let ghost before = out@;
        out.push(string_of(&cur));
        assert(out@.map_values(|l: String| l@) =~= before.map_values(|l: String| l@).push(cur@));
    }
    out
}

/// The usage totals of a whole transcript text.
pub open spec fn text_totals(s: Seq<char>) -> (int, int, int, int) {
    usage_totals(text_lines(s))
}

proof fn lemma_trim_start_push_ws(s: Seq<char>, c: char)
    requires
        is_ws(c),
    ensures
        trim_start(s.push(c)) == (if trim_start(s).len() == 0 {
            Seq::<char>::empty()
        } else {
            trim_start(s).push(c)
        }),
    decreases s.len(),
{
    if s.len() == 0 {
        assert(s.push(c).drop_first() =~= Seq::<char>::empty());
        assert(trim_start(s.push(c).drop_first()) =~= Seq::<char>::empty());
        assert(s.push(c)[0] == c);
    } else if is_ws(s[0]) {
        lemma_trim_start_push_ws(s.drop_first(), c);
        assert(s.push(c).drop_first() =~= s.drop_first().push(c));
        assert(s.push(c)[0] == s[0]);
    } else {
        assert(s.push(c)[0] == s[0]);
    }
}

proof fn lemma_strip_cr_keeps_usage(l: Seq<char>)
    ensures
        line_usage(strip_cr(l)) == line_usage(l),
{
    if l.len() > 0 && l.last() == '\r' {
        let k = l.drop_last();
        assert(k.push('\r') =~= l);
        lemma_trim_start_push_ws(k, '\r');
        if trim_start(k).len() == 0 {
            assert(trim(l).len() == 0);
            assert(trim_end(trim_start(k)) =~= Seq::<char>::empty());
        } else {
            assert(trim_start(k).push('\r').drop_last() =~= trim_start(k));
            assert(trim(l) == trim(k));
        }
    }
}

proof fn lemma_strip_cr_keeps_totals(ps: Seq<Seq<char>>)
    ensures
        usage_totals(ps.map_values(|l: Seq<char>| strip_cr(l))) == usage_totals(ps),
    decreases ps.len(),
{
    if ps.len() > 0 {
        let m = ps.map_values(|l: Seq<char>| strip_cr(l));
        lemma_strip_cr_keeps_totals(ps.drop_last());
        assert(m.drop_last() =~= ps.drop_last().map_values(|l: Seq<char>| strip_cr(l)));
        lemma_strip_cr_keeps_usage(ps.last());
    }
}

proof fn lemma_text_totals_are_piece_totals(s: Seq<char>)
    ensures
        text_totals(s) == usage_totals(pieces(s)),
{
    let p = pieces(s);
    lemma_pieces_nonempty(s);
    let body = p.drop_last().map_values(|l: Seq<char>| strip_cr(l));
    lemma_strip_cr_keeps_totals(p.drop_last());
    assert(trim(Seq::<char>::empty()) =~= Seq::<char>::empty());
    if p.last().len() != 0 {
        assert(body.push(p.last()).drop_last() =~= body);
    } else {
        assert(p.last() =~= Seq::<char>::empty());
    }
}

proof fn lemma_pieces_join(a: Seq<char>, b: Seq<char>)
    ensures
        pieces(a.push('\n') + b) == pieces(a) + pieces(b),
    decreases b.len(),
{
    lemma_pieces_nonempty(b);
    if b.len() == 0 {
        assert(a.push('\n') + b =~= a.push('\n'));
        assert(a.push('\n').drop_last() =~= a);
        assert(pieces(a).push(seq![]) =~= pieces(a) + pieces(b));
    } else {
        let j = a.push('\n') + b;
        lemma_pieces_join(a, b.drop_last());
        lemma_pieces_nonempty(b.drop_last());
        assert(j.drop_last() =~= a.push('\n') + b.drop_last());
        assert(j.last() == b.last());
        if b.last() == '\n' {
            assert((pieces(a) + pieces(b.drop_last())).push(seq![]) =~= pieces(a) + pieces(b));
        } else {
            let q = pieces(b.drop_last());
            let pq = pieces(a) + q;
            assert(pq.update(pq.len() - 1, pq.last().push(b.last())) =~= pieces(a) + q.update(
                q.len() - 1,
                q.last().push(b.last()),
            ));
        }
    }
}

/// Two transcripts joined at a line feed hold the usage of both: each
/// total of the joined text is the sum of the totals of the two parts.
pub proof fn lemma_joined_transcripts_add_up(first: Seq<char>, second: Seq<char>)
    ensures
        text_totals(first.push('\n') + second) == ({
            let (a, b, c, d) = text_totals(first);
            let (e, f, g, h) = text_totals(second);
            (a + e, b + f, c + g, d + h)
        }),
{
    lemma_text_totals_are_piece_totals(first.push('\n') + second);
    lemma_text_totals_are_piece_totals(first);
    lemma_text_totals_are_piece_totals(second);
    lemma_pieces_join(first, second);
    lemma_totals_add_up(pieces(first), pieces(second));
}

proof fn lemma_strip_dashes_shape(s: Seq<char>)
    ensures
        strip_dashes(s).len() == 0 || strip_dashes(s)[0] != '-',
        forall|i: int| 0 <= i < strip_dashes(s).len() ==> exists|j: int| 0 <= j < s.len()
            && s[j] == #[trigger] strip_dashes(s)[i],
    decreases s.len(),
{
    if s.len() > 0 && s[0] == '-' {
        lemma_strip_dashes_shape(s.drop_first());
        assert forall|i: int| 0 <= i < strip_dashes(s).len() implies exists|j: int| 0 <= j < s.len()
            && s[j] == #[trigger] strip_dashes(s)[i] by {
            let j = choose|j: int| 0 <= j < s.drop_first().len() && s.drop_first()[j] == strip_dashes(s)[i];
            assert(s[j + 1] == strip_dashes(s)[i]);
        }
    } else {
        assert forall|i: int| 0 <= i < strip_dashes(s).len() implies exists|j: int| 0 <= j < s.len()
            && s[j] == #[trigger] strip_dashes(s)[i] by {
            assert(s[i] == strip_dashes(s)[i]);
        }
    }
}

/// A transcript directory name holds no `/` and does not start with `-`.
pub proof fn lemma_project_hash_shape(path: Seq<char>)
    ensures
        !project_hash_of(path).contains('/'),
        project_hash_of(path).len() == 0 || project_hash_of(path)[0] != '-',
{
    let replaced = path.map_values(|c: char| if c == '/' { '-' } else { c });
    lemma_strip_dashes_shape(replaced);
    if project_hash_of(path).contains('/') {
        let i = choose|i: int| 0 <= i < project_hash_of(path).len() && project_hash_of(path)[i] == '/';
        let j = choose|j: int| 0 <= j < replaced.len() && replaced[j] == #[trigger] strip_dashes(replaced)[i];
        assert(replaced[j] != '/');
    }
}

} // verus!
