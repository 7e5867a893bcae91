//! The size of a task branch, read from the summary line of
//! `git diff --stat`.

use vstd::prelude::*;
use crate::text::{
    after_last_nl, chars_of, has_prefix, last_line, last_line_of, parse_u32, parse_u32_spec, split_words,
    starts_with, string_of, trim, trim_chars, words,
};

verus! {

/// Lines added and removed and files touched on a task branch.
#[derive(Debug, Clone, PartialEq, Eq, Structural)]
pub struct TaskSize {
    pub additions: u32,
    pub deletions: u32,
    pub files_changed: u32,
}

/// Scanning `ws` from index `i`: the number written just before the first
/// word (not the very first one) that begins with `keyword`, if that word
/// exists; `None` when there is no such word or the word before it is not a
/// number.
pub open spec fn number_before_from(ws: Seq<Seq<char>>, keyword: Seq<char>, i: int) -> Option<u32>
    decreases ws.len() - i,
{
    if i >= ws.len() || i < 0 {
        None
    } else if i > 0 && starts_with(ws[i], keyword) {
        parse_u32_spec(ws[i - 1])
    } else {
        number_before_from(ws, keyword, i + 1)
    }
}

/// The number that precedes the first word starting with `keyword` in the
/// summary line `summary` (e.g. `5` for `"file"` in `"5 files changed"`).
pub open spec fn number_before(summary: Seq<char>, keyword: Seq<char>) -> Option<u32> {
    number_before_from(words(summary), keyword, 0)
}

/// Reads the number before the first word of `summary` that starts with
/// `keyword`.
pub fn extract_number(summary: &str, keyword: &str) -> (r: Option<u32>)
    ensures
        r == number_before(summary@, keyword@),
{
    let text = chars_of(summary);
    let kw = chars_of(keyword);
    let parts = split_words(&text);
    let ghost ws = words(text@);
    let mut i: usize = 0;
    while i < parts.len()
        invariant
            i <= parts@.len(),
            parts@.len() == ws.len(),
            forall|k: int| 0 <= k < parts@.len() ==> #[trigger] parts@[k]@ == ws[k],
            kw@ == keyword@,
            ws == words(summary@),
            number_before_from(ws, kw@, 0) == number_before_from(ws, kw@, i as int),
        decreases parts@.len() - i,
    {
        if i > 0 && has_prefix(&parts[i], &kw) {
            return parse_u32(&parts[i - 1]);
        }
        i = i + 1;
    }
    None
}

/// What `parse_diff_stat` gives for the whole `git diff --stat` output: the
/// last line, trimmed, must name a number of files; insertions and deletions
/// count as zero when the line does not mention them.
pub open spec fn diff_stat_of(output: Seq<char>) -> Option<TaskSize> {
    match last_line(output) {
        None => None,
        Some(line) => {
            let summary = trim(line);
            if summary.len() == 0 {
                None
            } else {
                match number_before(summary, "file"@) {
                    None => None,
                    Some(files) => Some(
                        TaskSize {
                            additions: match number_before(summary, "insertion"@) {
                                Some(n) => n,
                                None => 0,
                            },
                            deletions: match number_before(summary, "deletion"@) {
                                Some(n) => n,
                                None => 0,
                            },
                            files_changed: files,
                        },
                    ),
                }
            }
        },
    }
}

/// Parses the summary line of `git diff --stat` output, such as
/// `" 5 files changed, 120 insertions(+), 30 deletions(-)"`.
pub fn parse_diff_stat(output: &str) -> (r: Option<TaskSize>)
    ensures
        r == diff_stat_of(output@),
{
    let text = chars_of(output);
    let line = match last_line_of(&text) {
        None => return None,
        Some(l) => l,
    };
    let trimmed = trim_chars(&line);
    if trimmed.len() == 0 {
        return None;
    }
    let summary = string_of(&trimmed);
    let files_changed = match extract_number(summary.as_str(), "file") {
        None => return None,
        Some(n) => n,
    };
    let additions = match extract_number(summary.as_str(), "insertion") {
        Some(n) => n,
        None => 0,
    };
    let deletions = match extract_number(summary.as_str(), "deletion") {
        Some(n) => n,
        None => 0,
    };
    Some(TaskSize { additions, deletions, files_changed })
}

/// After a line feed, a text without line feeds is all of the last line.
proof fn lemma_after_last_nl_of_tail(p: Seq<char>, u: Seq<char>)
    requires
        forall|i: int| 0 <= i < u.len() ==> u[i] != '\n',
    ensures
        after_last_nl(p.push('\n') + u) == u,
        after_last_nl(u) == u,
    decreases u.len(),
{
    if u.len() == 0 {
        assert(p.push('\n') + u =~= p.push('\n'));
    } else {
        lemma_after_last_nl_of_tail(p, u.drop_last());
        assert((p.push('\n') + u).drop_last() =~= p.push('\n') + u.drop_last());
        assert(u.drop_last().push(u.last()) =~= u);
    }
}

/// Only the last line of the output counts: whatever comes before it, a
/// final line `last` without line feeds gives the same size as `last`
/// alone.
pub proof fn lemma_only_last_line_counts(before: Seq<char>, last: Seq<char>)
    requires
        last.len() > 0,
        forall|i: int| 0 <= i < last.len() ==> last[i] != '\n',
    ensures
        diff_stat_of(before.push('\n') + last) == diff_stat_of(last),
{
    lemma_after_last_nl_of_tail(before, last);
    let whole = before.push('\n') + last;
    assert(whole.last() == last.last());
    assert(last_line(whole) == Some(last));
    assert(last_line(last) == Some(last));
}

} // verus!
