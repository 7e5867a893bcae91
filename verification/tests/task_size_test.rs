use seogi::domain::task_size::{extract_number, parse_diff_stat, TaskSize};

#[test]
fn parse_full_summary_with_insertions_and_deletions() {
    let output = " 5 files changed, 120 insertions(+), 30 deletions(-)";

    let result = parse_diff_stat(output);

    assert_eq!(
        result,
        Some(TaskSize {
            additions: 120,
            deletions: 30,
            files_changed: 5,
        })
    );
}

#[test]
fn parse_summary_with_insertions_only() {
    let output = " 1 file changed, 10 insertions(+)";

    let result = parse_diff_stat(output);

    assert_eq!(
        result,
        Some(TaskSize {
            additions: 10,
            deletions: 0,
            files_changed: 1,
        })
    );
}

#[test]
fn parse_summary_with_deletions_only() {
    let output = " 3 files changed, 50 deletions(-)";

    let result = parse_diff_stat(output);

    assert_eq!(
        result,
        Some(TaskSize {
            additions: 0,
            deletions: 50,
            files_changed: 3,
        })
    );
}

#[test]
fn parse_multiline_stat_output_uses_last_line() {
    let output = " src/main.rs | 10 +++++++---\n src/lib.rs  |  5 +++++\n 2 files changed, 12 insertions(+), 3 deletions(-)";

    let result = parse_diff_stat(output);

    assert_eq!(
        result,
        Some(TaskSize {
            additions: 12,
            deletions: 3,
            files_changed: 2,
        })
    );
}

#[test]
fn parse_empty_output_returns_none() {
    assert_eq!(parse_diff_stat(""), None);
}

#[test]
fn parse_whitespace_only_returns_none() {
    assert_eq!(parse_diff_stat("   \n   "), None);
}

#[test]
fn parse_invalid_summary_returns_none() {
    assert_eq!(parse_diff_stat("no matching pattern here"), None);
}

#[test]
fn parse_singular_file_changed() {
    let output = " 1 file changed, 1 insertion(+), 1 deletion(-)";

    let result = parse_diff_stat(output);

    assert_eq!(
        result,
        Some(TaskSize {
            additions: 1,
            deletions: 1,
            files_changed: 1,
        })
    );
}

// Own cases.

#[test]
fn extract_number_reads_word_before_keyword() {
    assert_eq!(extract_number("5 files changed, 120 insertions(+)", "insertion"), Some(120));
    assert_eq!(extract_number("5 files changed", "insertion"), None);
    assert_eq!(extract_number("many insertions(+)", "insertion"), None);
    assert_eq!(extract_number("insertions(+)", "insertion"), None);
}

#[test]
fn parse_trailing_blank_line_gives_none() {
    // Only the very last line is read, even when it is blank.
    assert_eq!(parse_diff_stat(" 2 files changed, 4 insertions(+)\n\n"), None);
    assert_eq!(
        parse_diff_stat(" 2 files changed, 4 insertions(+)\n"),
        Some(TaskSize {
            additions: 4,
            deletions: 0,
            files_changed: 2,
        })
    );
}

#[test]
fn text_before_the_last_line_does_not_count() {
    let last = " 2 files changed, 3 insertions(+)";
    assert_eq!(parse_diff_stat(&format!("1 file changed, 9 deletions(-)\n{last}")), parse_diff_stat(last));
    assert_eq!(parse_diff_stat(&format!("garbage\nmore\n{last}")), parse_diff_stat(last));
}
