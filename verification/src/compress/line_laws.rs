//! Which lines of an output are kept, stated on the lines themselves.

use vstd::prelude::*;

use super::general::{
    folded, folded_run, general_marks, is_telling, is_trace, normalized, run_end, run_len,
    signal_line, telling_of,
};
use super::git::{
    body_len, change, change_list, diff_alert, diff_marks, diff_stat, git_diff_of, git_log_of,
    git_status_of, log_entries, log_entry, message_of, status_change, status_head,
};
use super::laws::{lemma_complaints_are_not_blank, lemma_run_len};
use super::patterns::matches_in;
use super::tools::{
    cargo_diagnostic, cargo_marks, cargo_of, compiling, docker_marks, docker_of, make_error,
    make_of, npm_of, npm_problem, pip_of, pip_report, with_last_line,
};
use crate::number::decimal;
use crate::select::{
    count_is_that_of_lines, first_set, first_set_is_first, is_nonblank, keeps_exactly, last_set,
    last_set_is_last, marked, marked_ends_with_last_set, marked_keeps_exactly, marked_keeps_set,
    marks_of, nonblank, positions, selects,
};
use crate::text::{joined, lines_of, lower, occurs_in, trimmed, trimmed_end, trimmed_is_not_empty};

verus! {

/// Of the output of `pip` exactly those lines are kept that report an installation, or speak
/// of an error or a failure, in capitals or not.
pub proof fn pip_keeps_reports(output: Seq<char>)
    ensures
        ({
            let all = lines_of(output);
            selects(
                pip_of(output),
                all,
                |i: int|
                    occurs_in("Successfully installed"@, all[i]) || occurs_in(
                        "error"@,
                        lower(all[i]),
                    ) || occurs_in("failed"@, lower(all[i])),
            )
        }),
{
    let all = lines_of(output);
    marked_keeps_exactly(
        all,
        marks_of(all, pip_report()),
        |i: int|
            occurs_in("Successfully installed"@, all[i]) || occurs_in("error"@, lower(all[i]))
                || occurs_in("failed"@, lower(all[i])),
    );
}

/// Of a log exactly those lines are kept that speak of an error, a warning or something fatal,
/// in capitals or not, and the last twenty.
pub proof fn log_keeps_trouble_and_tail(output: Seq<char>)
    ensures
        ({
            let all = lines_of(output);
            selects(
                docker_of(output),
                all,
                |i: int|
                    i + 20 >= all.len() || occurs_in("error"@, lower(all[i])) || occurs_in(
                        "warn"@,
                        lower(all[i]),
                    ) || occurs_in("fatal"@, lower(all[i])),
            )
        }),
{
    let all = lines_of(output);
    marked_keeps_exactly(
        all,
        docker_marks(all),
        |i: int|
            i + 20 >= all.len() || occurs_in("error"@, lower(all[i])) || occurs_in(
                "warn"@,
                lower(all[i]),
            ) || occurs_in("fatal"@, lower(all[i])),
    );
    if all.len() > 0 {
        marked_keeps_set(all, docker_marks(all), all.len() - 1);
    }
}

/// Of a diff exactly those lines are kept that belong to its statistics, that are changed and
/// speak of trouble, and of its headers and changed lines those in front of which fewer than
/// thirty others stand, wherever that is.
pub proof fn diff_keeps_statistics_alerts_and_first_changes(output: Seq<char>)
    ensures
        ({
            let all = lines_of(output);
            selects(
                git_diff_of(output),
                all,
                |i: int|
                    matches_in(r"(\|\s*\d+)|((files?|insertions?|deletions?)\b)"@, all[i])
                        || matches_in(r"(?i)^[+-].*(error|warn)"@, all[i]) || ("diff --git"@.is_prefix_of(
                        all[i],
                    ) || "@@"@.is_prefix_of(all[i]) || "+"@.is_prefix_of(all[i])
                        || "-"@.is_prefix_of(all[i])) && all.take(i).filter(
                        |line: Seq<char>|
                            "diff --git"@.is_prefix_of(line) || "@@"@.is_prefix_of(line)
                                || "+"@.is_prefix_of(line) || "-"@.is_prefix_of(line),
                    ).len() < 30,
            )
        }),
{
    let all = lines_of(output);
    let marks = diff_marks(all, marks_of(all, diff_stat()), marks_of(all, diff_alert()));
    let changed = |line: Seq<char>|
        "diff --git"@.is_prefix_of(line) || "@@"@.is_prefix_of(line) || "+"@.is_prefix_of(line)
            || "-"@.is_prefix_of(line);
    assert(change() =~= changed);
    let keep = |i: int|
        matches_in(r"(\|\s*\d+)|((files?|insertions?|deletions?)\b)"@, all[i]) || matches_in(
            r"(?i)^[+-].*(error|warn)"@,
            all[i],
        ) || ("diff --git"@.is_prefix_of(all[i]) || "@@"@.is_prefix_of(all[i])
            || "+"@.is_prefix_of(all[i]) || "-"@.is_prefix_of(all[i])) && all.take(i).filter(
            |line: Seq<char>|
                "diff --git"@.is_prefix_of(line) || "@@"@.is_prefix_of(line)
                    || "+"@.is_prefix_of(line) || "-"@.is_prefix_of(line),
        ).len() < 30;
    assert forall|i: int| 0 <= i < all.len() implies #[trigger] keep(i) == marks[i] by {
        count_is_that_of_lines(all, change(), i);
    }
    marked_keeps_exactly(all, marks, keep);
}

/// Of the lines of `cargo` that say what is compiled the first five are kept. Of the others
/// exactly those are kept that are errors with a code or warnings, that hold the result of a
/// run of tests whatever it is, or that begin with `Finished` or `Running`.
pub proof fn cargo_keeps_diagnostics_and_reports(output: Seq<char>)
    ensures
        ({
            let all = lines_of(output);
            selects(
                cargo_of(output),
                all,
                |i: int|
                    if "Compiling"@.is_prefix_of(all[i]) {
                        all.take(i).filter(
                            |line: Seq<char>| "Compiling"@.is_prefix_of(line),
                        ).len() < 5
                    } else {
                        matches_in(r"error\[E\d+\]"@, all[i]) || matches_in(
                            r"warning(\[|:)"@,
                            all[i],
                        ) || occurs_in("test result:"@, all[i]) || "Finished"@.is_prefix_of(all[i])
                            || "Running"@.is_prefix_of(all[i])
                    },
            )
        }),
{
    let all = lines_of(output);
    let marks = cargo_marks(all, marks_of(all, cargo_diagnostic()));
    let compiles = |line: Seq<char>| "Compiling"@.is_prefix_of(line);
    assert(compiling() =~= compiles);
    let keep = |i: int|
        if "Compiling"@.is_prefix_of(all[i]) {
            all.take(i).filter(|line: Seq<char>| "Compiling"@.is_prefix_of(line)).len() < 5
        } else {
            matches_in(r"error\[E\d+\]"@, all[i]) || matches_in(r"warning(\[|:)"@, all[i])
                || occurs_in("test result:"@, all[i]) || "Finished"@.is_prefix_of(all[i])
                || "Running"@.is_prefix_of(all[i])
        };
    assert forall|i: int| 0 <= i < all.len() implies #[trigger] keep(i) == marks[i] by {
        count_is_that_of_lines(all, compiling(), i);
    }
    marked_keeps_exactly(all, marks, keep);
}

/// What is known of the last line that is not blank, wherever it stands.
proof fn lemma_last_line(kept: Seq<Seq<char>>, all: Seq<Seq<char>>, last: int)
    requires
        0 <= last < all.len(),
        is_nonblank(all[last]),
        forall|j: int| last < j < all.len() ==> !is_nonblank(#[trigger] all[j]),
    ensures
        with_last_line(kept, all) == if kept.contains(all[last]) {
            kept
        } else {
            kept.push(all[last])
        },
{
    let marks = marks_of(all, nonblank());
    last_set_is_last(marks, all.len() as int);
    assert(marks[last]);
    if let Some(i) = last_set(marks, all.len() as int) {
        if i > last {
            assert(!is_nonblank(all[i]));
        }
    }
}

/// Of the output of `npm` exactly the lines with `ERR!` or `WARN` are kept, and then the last
/// line that is not blank, unless it is kept already.
pub proof fn npm_keeps_problems_and_last_line(output: Seq<char>, last: int)
    requires
        0 <= last < lines_of(output).len(),
        is_nonblank(lines_of(output)[last]),
        forall|j: int|
            last < j < lines_of(output).len() ==> !is_nonblank(#[trigger] lines_of(output)[j]),
    ensures
        ({
            let all = lines_of(output);
            let problem = |i: int| occurs_in("ERR!"@, all[i]) || occurs_in("WARN"@, all[i]);
            exists|kept: Seq<Seq<char>>|
                #[trigger] keeps_exactly(kept, all, problem) && npm_of(output) == Some(
                    joined(
                        if kept.contains(all[last]) {
                            kept
                        } else {
                            kept.push(all[last])
                        },
                    ),
                )
        }),
{
    let all = lines_of(output);
    let marks = marks_of(all, npm_problem());
    let kept = marked(all, marks);
    marked_keeps_exactly(
        all,
        marks,
        |i: int| occurs_in("ERR!"@, all[i]) || occurs_in("WARN"@, all[i]),
    );
    lemma_last_line(kept, all, last);
    if kept.contains(all[last]) {
        assert(kept.len() > 0);
    }
}

/// Of the output of `make` exactly the lines that speak of an error, in capitals or not, are
/// kept, and then the last line that is not blank, unless it is kept already.
pub proof fn make_keeps_errors_and_last_line(output: Seq<char>, last: int)
    requires
        0 <= last < lines_of(output).len(),
        is_nonblank(lines_of(output)[last]),
        forall|j: int|
            last < j < lines_of(output).len() ==> !is_nonblank(#[trigger] lines_of(output)[j]),
    ensures
        ({
            let all = lines_of(output);
            let error = |i: int| occurs_in("error"@, lower(all[i]));
            exists|kept: Seq<Seq<char>>|
                #[trigger] keeps_exactly(kept, all, error) && make_of(output) == Some(
                    joined(
                        if kept.contains(all[last]) {
                            kept
                        } else {
                            kept.push(all[last])
                        },
                    ),
                )
        }),
{
    let all = lines_of(output);
    let marks = marks_of(all, make_error());
    let kept = marked(all, marks);
    marked_keeps_exactly(all, marks, |i: int| occurs_in("error"@, lower(all[i])));
    lemma_last_line(kept, all, last);
    if kept.contains(all[last]) {
        assert(kept.len() > 0);
    }
}

/// Blank output of `npm`, `make` and `git status` gives nothing.
pub proof fn blank_output_gives_nothing(output: Seq<char>)
    requires
        forall|j: int|
            0 <= j < lines_of(output).len() ==> !is_nonblank(#[trigger] lines_of(output)[j]),
    ensures
        npm_of(output) is None,
        make_of(output) is None,
        git_status_of(output) is None,
{
    let all = lines_of(output);
    last_set_is_last(marks_of(all, nonblank()), all.len() as int);
    first_set_is_first(marks_of(all, nonblank()), 0);
    first_set_is_first(marks_of(all, status_head()), 0);
    lemma_nothing_marked(all, npm_problem());
    lemma_nothing_marked(all, make_error());
    if let Some(i) = last_set(marks_of(all, nonblank()), all.len() as int) {
        assert(is_nonblank(all[i]));
    }
    if let Some(i) = first_set(marks_of(all, nonblank()), 0) {
        assert(is_nonblank(all[i]));
    }
    if let Some(i) = first_set(marks_of(all, status_head()), 0) {
        lemma_head_is_nonblank(all[i]);
        assert(is_nonblank(all[i]));
    }
}

proof fn lemma_head_is_nonblank(line: Seq<char>)
    ensures
        "On branch"@.is_prefix_of(line) || "HEAD detached"@.is_prefix_of(line) ==> is_nonblank(
            line,
        ),
{
    reveal_strlit("On branch");
    reveal_strlit("HEAD detached");
    if "On branch"@.is_prefix_of(line) {
        assert("On branch"@[0] == line[0]);
        trimmed_is_not_empty(line, 0);
    }
    if "HEAD detached"@.is_prefix_of(line) {
        assert("HEAD detached"@[0] == line[0]);
        trimmed_is_not_empty(line, 0);
    }
}

proof fn lemma_nothing_marked(all: Seq<Seq<char>>, test: spec_fn(Seq<char>) -> bool)
    requires
        forall|j: int| 0 <= j < all.len() ==> !is_nonblank(#[trigger] all[j]),
        test == npm_problem() || test == make_error(),
    ensures
        marked(all, marks_of(all, test)).len() == 0,
{
    let marks = marks_of(all, test);
    assert forall|j: int| 0 <= j < all.len() implies !marks[j] by {
        lemma_complaints_are_not_blank(all[j]);
        assert(!is_nonblank(all[j]));
    }
    marked_ends_with_last_set(all, marks, 0);
    assert(all.take(0) =~= Seq::<Seq<char>>::empty());
}

/// The general reduction keeps exactly the first fifteen lines, the last ten, and the lines
/// that hold a telling word, a verdict or a count of results, or look like a change, a trace
/// or an exit status; runs of similar lines among them are then folded.
pub proof fn general_reduction_keeps_ends_and_telling_lines(output: Seq<char>)
    ensures
        ({
            let all = lines_of(output);
            let keep = |i: int|
                i < 15 || i + 10 >= all.len() || matches_in(
                    r"(?i)(error|enoent|fatal|panic|warning|warn|fail|reject|denied|refused|forbidden)"@,
                    all[i],
                ) || matches_in(r"\b(PASS|FAIL|ok|not ok)\b"@, all[i]) || matches_in(
                    r"(?i)\b\d+\s+(passed|failed|error|warning|test|tests|file|files)\b"@,
                    all[i],
                ) || "+"@.is_prefix_of(all[i]) || "-"@.is_prefix_of(all[i])
                    || ">"@.is_prefix_of(all[i]) || occurs_in("Caused by:"@, all[i])
                    || occurs_in("Traceback"@, all[i]) || occurs_in("  File \""@, all[i])
                    || occurs_in("at "@, lower(all[i])) || occurs_in(
                    "exit code"@,
                    lower(all[i]),
                ) || occurs_in("status:"@, lower(all[i])) || occurs_in(
                    "returned"@,
                    lower(all[i]),
                ) || occurs_in("exited"@, lower(all[i]));
            exists|part: Seq<Seq<char>>|
                #[trigger] keeps_exactly(part, all, keep) && telling_of(output) == joined(folded(part, 0))
        }),
{
    let all = lines_of(output);
    marked_keeps_exactly(
        all,
        general_marks(all, marks_of(all, signal_line())),
        |i: int|
            i < 15 || i + 10 >= all.len() || matches_in(
                r"(?i)(error|enoent|fatal|panic|warning|warn|fail|reject|denied|refused|forbidden)"@,
                all[i],
            ) || matches_in(r"\b(PASS|FAIL|ok|not ok)\b"@, all[i]) || matches_in(
                r"(?i)\b\d+\s+(passed|failed|error|warning|test|tests|file|files)\b"@,
                all[i],
            ) || "+"@.is_prefix_of(all[i]) || "-"@.is_prefix_of(all[i]) || ">"@.is_prefix_of(all[i])
                || occurs_in("Caused by:"@, all[i]) || occurs_in("Traceback"@, all[i])
                || occurs_in("  File \""@, all[i]) || occurs_in("at "@, lower(all[i])) || occurs_in(
                "exit code"@,
                lower(all[i]),
            ) || occurs_in("status:"@, lower(all[i])) || occurs_in("returned"@, lower(all[i]))
                || occurs_in("exited"@, lower(all[i])),
    );
}

/// Similarity is seen through white space around a line and through the digits in it, and
/// through nothing else.
pub proof fn similarity_hides_padding_and_digits(line: Seq<char>, i: int)
    requires
        0 <= i < trimmed(line).len(),
    ensures
        normalized(line).len() == trimmed(line).len(),
        48 <= trimmed(line)[i] as u32 <= 57 ==> normalized(line)[i] == '#',
        !(48 <= trimmed(line)[i] as u32 <= 57) ==> normalized(line)[i] == trimmed(line)[i],
{
}

proof fn lemma_run_len_is(all: Seq<Seq<char>>, from: int, to: int, key: Seq<char>)
    requires
        0 <= from <= to <= all.len(),
        forall|j: int| from <= j < to ==> normalized(#[trigger] all[j]) == key,
        to < all.len() ==> normalized(all[to]) != key,
    ensures
        run_len(all, from, key) == to - from,
    decreases to - from,
{
    if from < to {
        lemma_run_len_is(all, from + 1, to, key);
    }
}

proof fn lemma_run_len_skip(all: Seq<Seq<char>>, n: int, from: int, key: Seq<char>)
    requires
        0 <= n <= all.len(),
        0 <= from,
    ensures
        run_len(all.skip(n), from, key) == run_len(all, n + from, key),
    decreases all.len() - n - from,
{
    if n + from < all.len() && normalized(all[n + from]) == key {
        lemma_run_len_skip(all, n, from + 1, key);
    }
}

proof fn lemma_folded_skip(all: Seq<Seq<char>>, n: int, from: int)
    requires
        0 <= n <= all.len(),
        0 <= from <= all.len() - n,
    ensures
        folded(all.skip(n), from) == folded(all, n + from),
    decreases all.len() - n - from,
{
    if n + from < all.len() {
        let key = normalized(all[n + from]);
        lemma_run_len_skip(all, n, from + 1, key);
        lemma_run_len(all, n + from + 1, key);
        let end = run_end(all, n + from);
        assert(run_end(all.skip(n), from) == end - n);
        lemma_folded_skip(all, n, end - n);
        assert(folded_run(all.skip(n), from, end - n) =~= folded_run(all, n + from, end));
    }
}

/// A run of similar lines is folded by itself: three and more give their first line and a note
/// of how many they are, fewer stay as they are. What stands behind it is folded by itself.
pub proof fn folding_goes_run_by_run(run: Seq<Seq<char>>, rest: Seq<Seq<char>>)
    requires
        run.len() > 0,
        forall|j: int| 0 <= j < run.len() ==> normalized(#[trigger] run[j]) == normalized(run[0]),
        rest.len() > 0 ==> normalized(rest[0]) != normalized(run[0]),
    ensures
        folded(run + rest, 0) == (if run.len() >= 3 {
            seq![run[0], "[... repeated "@ + decimal(run.len()) + " similar lines ...]"@]
        } else {
            run
        }) + folded(rest, 0),
        folded(Seq::<Seq<char>>::empty(), 0) == Seq::<Seq<char>>::empty(),
{
    let all = run + rest;
    let n = run.len() as int;
    assert forall|j: int| 1 <= j < n implies normalized(#[trigger] all[j]) == normalized(
        all[0],
    ) by {
        assert(all[j] == run[j]);
    }
    if rest.len() > 0 {
        assert(all[n] == rest[0]);
    }
    lemma_run_len_is(all, 1, n, normalized(all[0]));
    assert(run_end(all, 0) == n);
    lemma_folded_skip(all, n, 0);
    assert(all.skip(n) =~= rest);
    assert(all.subrange(0, n) =~= run);
}

/// A status in short: the line that sums it up, the number of lines that name changed files,
/// the first twenty of these without white space at their ends, and how many more there are.
/// The line that sums it up is the first that begins with `On branch` or `HEAD detached`, or
/// else the first that is not blank.
pub proof fn status_tells_summary_and_changes(output: Seq<char>, at: int)
    requires
        0 <= at < lines_of(output).len(),
        ({
            let all = lines_of(output);
            let head = |i: int|
                "On branch"@.is_prefix_of(all[i]) || "HEAD detached"@.is_prefix_of(all[i]);
            ||| head(at) && forall|j: int| 0 <= j < at ==> !#[trigger] head(j)
            ||| {
                &&& forall|j: int| 0 <= j < all.len() ==> !#[trigger] head(j)
                &&& is_nonblank(all[at])
                &&& forall|j: int| 0 <= j < at ==> !is_nonblank(#[trigger] all[j])
            }
        }),
    ensures
        ({
            let all = lines_of(output);
            let change = |i: int|
                "\t"@.is_prefix_of(all[i]) || occurs_in("modified:"@, all[i]) || occurs_in(
                    "new file:"@,
                    all[i],
                ) || occurs_in("deleted:"@, all[i]) || occurs_in("renamed:"@, all[i]) || occurs_in(
                    "both modified:"@,
                    all[i],
                );
            exists|changes: Seq<Seq<char>>|
                #[trigger] keeps_exactly(changes, all, change) && git_status_of(output) == Some(
                    trimmed_end(
                        all[at] + "\nChanged files: "@ + decimal(changes.len()) + "\n"@ + changes.take(
                            if changes.len() < 20 {
                                changes.len() as int
                            } else {
                                20
                            },
                        ).map_values(|line: Seq<char>| trimmed_end(line) + "\n"@).flatten() + (
                        if changes.len() > 20 {
                            "[... "@ + decimal((changes.len() - 20) as nat) + " more files]"@
                        } else {
                            Seq::empty()
                        }),
                    ),
                )
        }),
{
    let all = lines_of(output);
    let head = |i: int| "On branch"@.is_prefix_of(all[i]) || "HEAD detached"@.is_prefix_of(all[i]);
    let heads = marks_of(all, status_head());
    let marks = marks_of(all, status_change());
    let changes = marked(all, marks);
    first_set_is_first(heads, 0);
    first_set_is_first(marks_of(all, nonblank()), 0);
    assert forall|j: int| 0 <= j < all.len() implies heads[j] == #[trigger] head(j) by {}
    if head(at) {
        assert(heads[at]);
        if let Some(i) = first_set(heads, 0) {
            assert(head(i));
            assert(i == at);
        }
    } else {
        if let Some(i) = first_set(heads, 0) {
            assert(head(i));
        }
        assert(marks_of(all, nonblank())[at]);
        if let Some(i) = first_set(marks_of(all, nonblank()), 0) {
            assert(is_nonblank(all[i]));
            assert(i == at);
        }
    }
    marked_keeps_exactly(
        all,
        marks,
        |i: int|
            "\t"@.is_prefix_of(all[i]) || occurs_in("modified:"@, all[i]) || occurs_in(
                "new file:"@,
                all[i],
            ) || occurs_in("deleted:"@, all[i]) || occurs_in("renamed:"@, all[i]) || occurs_in(
                "both modified:"@,
                all[i],
            ),
    );
    let listed: int = if changes.len() < 20 {
        changes.len() as int
    } else {
        20
    };
    lemma_change_list(changes, listed);
    reveal_strlit("\nChanged files: ");
    reveal_strlit("Changed files: ");
    reveal_strlit("\n");
    assert(all[at].push('\n') + "Changed files: "@ =~= all[at] + "\nChanged files: "@);
    let front = all[at] + "\nChanged files: "@;
    assert(front + decimal(changes.len()).push('\n') =~= front + decimal(changes.len()) + "\n"@);
}

proof fn lemma_change_list(changes: Seq<Seq<char>>, n: int)
    requires
        0 <= n <= changes.len(),
    ensures
        change_list(changes, n) == changes.take(n).map_values(
            |line: Seq<char>| trimmed_end(line) + "\n"@,
        ).flatten(),
    decreases n,
{
    let entry = |line: Seq<char>| trimmed_end(line) + "\n"@;
    let entries = changes.take(n).map_values(entry);
    if n > 0 {
        lemma_change_list(changes, n - 1);
        reveal_strlit("\n");
        assert(entries.drop_last() =~= changes.take(n - 1).map_values(entry));
        entries.lemma_flatten_and_flatten_alt_are_equivalent();
        entries.drop_last().lemma_flatten_and_flatten_alt_are_equivalent();
        assert(trimmed_end(changes[n - 1]).push('\n') =~= entries.last());
    } else {
        assert(entries =~= Seq::<Seq<char>>::empty());
    }
}

/// Whether a line of a commit belongs to its message: it is not blank, and is neither the
/// author nor the date.
pub open spec fn speaks(line: Seq<char>) -> bool {
    trimmed(line).len() > 0 && !"Author:"@.is_prefix_of(trimmed(line)) && !"Date:"@.is_prefix_of(
        trimmed(line),
    )
}

/// Whether `entry` is the commit from `from` up to `to` in short: its first line and, where
/// there is one, the first line of its message, set in by four spaces.
pub open spec fn tells_commit(
    entry: Seq<Seq<char>>,
    all: Seq<Seq<char>>,
    from: int,
    to: int,
) -> bool {
    ||| entry == seq![all[from]] && forall|j: int| from < j < to ==> !speaks(#[trigger] all[j])
    ||| exists|m: int|
        from < m < to && speaks(#[trigger] all[m]) && (forall|j: int|
            from < j < m ==> !speaks(#[trigger] all[j])) && entry == seq![
            all[from],
            "    "@ + trimmed(all[m]),
        ]
}

/// Where a commit ends: at the next one, or at the end.
pub open spec fn commit_end(starts: Seq<int>, k: int, n: int) -> int {
    if k + 1 < starts.len() {
        starts[k + 1]
    } else {
        n
    }
}

/// A log in short tells the first fifteen commits, in order, and of each its first line and the
/// first line of its message. A commit goes from a line that begins with `commit ` up to the
/// next one.
pub proof fn log_tells_first_commits(output: Seq<char>)
    ensures
        ({
            let all = lines_of(output);
            let commit = |i: int| "commit "@.is_prefix_of(all[i]);
            exists|starts: Seq<int>, entries: Seq<Seq<Seq<char>>>|
                {
                    &&& #[trigger] positions(starts, all.len() as int, commit)
                    &&& #[trigger] entries.len() == if starts.len() < 15 {
                        starts.len()
                    } else {
                        15
                    }
                    &&& forall|k: int|
                        0 <= k < entries.len() ==> tells_commit(
                            #[trigger] entries[k],
                            all,
                            starts[k],
                            commit_end(starts, k, all.len() as int),
                        )
                    &&& git_log_of(output) == if entries.len() == 0 {
                        None
                    } else {
                        Some(joined(entries.flatten()))
                    }
                }
        }),
{
    let all = lines_of(output);
    let (starts, entries) = lemma_log(all, 0, 15);
    assert(positions(starts, all.len() as int, |i: int| "commit "@.is_prefix_of(all[i])));
    if entries.len() > 0 {
        assert(entries[0].len() > 0);
        assert(entries.flatten().len() >= entries[0].len());
    }
}

proof fn lemma_body(all: Seq<Seq<char>>, from: int)
    requires
        0 <= from <= all.len(),
    ensures
        ({
            let to = from + body_len(all, from);
            &&& to <= all.len()
            &&& forall|j: int| from <= j < to ==> !"commit "@.is_prefix_of(#[trigger] all[j])
            &&& to < all.len() ==> "commit "@.is_prefix_of(all[to])
        }),
    decreases all.len() - from,
{
    if from < all.len() && !"commit "@.is_prefix_of(all[from]) {
        lemma_body(all, from + 1);
    }
}

proof fn lemma_message(all: Seq<Seq<char>>, from: int, to: int)
    ensures
        match message_of(all, from, to) {
            None => forall|j: int| from <= j < to ==> !speaks(#[trigger] all[j]),
            Some(message) => exists|m: int|
                from <= m < to && speaks(#[trigger] all[m]) && (forall|j: int|
                    from <= j < m ==> !speaks(#[trigger] all[j])) && message == trimmed(all[m]),
        },
    decreases to - from,
{
    if from < to {
        lemma_message(all, from, to - 1);
        if message_of(all, from, to - 1) is None && speaks(all[to - 1]) {
            assert(message_of(all, from, to) == Some(trimmed(all[to - 1])));
        }
    }
}

proof fn lemma_log(all: Seq<Seq<char>>, from: int, room: int) -> (found: (
    Seq<int>,
    Seq<Seq<Seq<char>>>,
))
    requires
        0 <= from <= all.len(),
        room >= 0,
    ensures
        positions(
            found.0,
            all.len() as int,
            |i: int| i >= from && "commit "@.is_prefix_of(all[i]),
        ),
        from == 0 ==> positions(
            found.0,
            all.len() as int,
            |i: int| "commit "@.is_prefix_of(all[i]),
        ),
        found.1.len() == if found.0.len() < room {
            found.0.len() as int
        } else {
            room
        },
        forall|k: int|
            0 <= k < found.1.len() ==> tells_commit(
                #[trigger] found.1[k],
                all,
                found.0[k],
                commit_end(found.0, k, all.len() as int),
            ),
        found.1.flatten() == log_entries(all, from, room),
    decreases all.len() - from,
{
    if from >= all.len() {
        (Seq::empty(), Seq::empty())
    } else if !"commit "@.is_prefix_of(all[from]) {
        let (starts, entries) = lemma_log(all, from + 1, room);
        let later = |i: int| i >= from + 1 && "commit "@.is_prefix_of(all[i]);
        let keep = |i: int| i >= from && "commit "@.is_prefix_of(all[i]);
        let plain = |i: int| "commit "@.is_prefix_of(all[i]);
        assert forall|i: int| 0 <= i < all.len() && #[trigger] keep(i) implies starts.contains(
            i,
        ) by {
            assert(later(i));
        }
        if from == 0 {
            assert forall|i: int| 0 <= i < all.len() && #[trigger] plain(i) implies starts.contains(
                i,
            ) by {
                assert(later(i));
            }
            assert(positions(starts, all.len() as int, plain));
        }
        assert(positions(starts, all.len() as int, keep));
        (starts, entries)
    } else {
        let to = from + 1 + body_len(all, from + 1);
        lemma_body(all, from + 1);
        let (starts, entries) = lemma_log(
            all,
            to,
            if room > 0 {
                room - 1
            } else {
                0
            },
        );
        let later = |i: int| i >= to && "commit "@.is_prefix_of(all[i]);
        let keep = |i: int| i >= from && "commit "@.is_prefix_of(all[i]);
        let plain = |i: int| "commit "@.is_prefix_of(all[i]);
        let all_starts = seq![from] + starts;
        assert forall|k: int| 0 <= k < all_starts.len() implies 0 <= #[trigger] all_starts[k]
            < all.len() && keep(all_starts[k]) && (k > 0 ==> all_starts[k] >= to) by {
            if k > 0 {
                assert(all_starts[k] == starts[k - 1]);
                assert(later(starts[k - 1]));
            }
        }
        assert forall|i: int| 0 <= i < all.len() && #[trigger] keep(i) implies all_starts.contains(
            i,
        ) by {
            if i == from {
                assert(all_starts[0] == i);
            } else if i < to {
                assert(!"commit "@.is_prefix_of(all[i]));
            } else {
                assert(later(i));
                let k = choose|k: int| 0 <= k < starts.len() && starts[k] == i;
                assert(all_starts[k + 1] == i);
            }
        }
        assert forall|j: int, k: int| 0 <= j < k < all_starts.len() implies #[trigger] all_starts[j]
            < #[trigger] all_starts[k] by {
            assert(all_starts[k] == starts[k - 1]);
            if j > 0 {
                assert(all_starts[j] == starts[j - 1]);
            }
        }
        assert(positions(all_starts, all.len() as int, keep));
        if from == 0 {
            assert forall|i: int| 0 <= i < all.len() && #[trigger] plain(i) implies all_starts.contains(
                i,
            ) by {
                assert(keep(i));
            }
            assert(positions(all_starts, all.len() as int, plain));
        }
        if to < all.len() {
            assert(later(to));
            let k = choose|k: int| 0 <= k < starts.len() && starts[k] == to;
            assert(later(starts[0]));
            if k > 0 {
                assert(starts[0] < starts[k]);
            }
            assert(starts[0] == to);
        } else if starts.len() > 0 {
            assert(later(starts[0]));
        }
        assert(commit_end(all_starts, 0, all.len() as int) == to);
        if room > 0 {
            let entry = log_entry(all, from, to);
            let all_entries = seq![entry] + entries;
            lemma_message(all, from + 1, to);
            assert(tells_commit(entry, all, from, to));
            assert forall|k: int| 0 <= k < all_entries.len() implies tells_commit(
                #[trigger] all_entries[k],
                all,
                all_starts[k],
                commit_end(all_starts, k, all.len() as int),
            ) by {
                if k > 0 {
                    assert(all_entries[k] == entries[k - 1]);
                    assert(all_starts[k] == starts[k - 1]);
                    assert(commit_end(all_starts, k, all.len() as int) == commit_end(
                        starts,
                        k - 1,
                        all.len() as int,
                    ));
                }
            }
            assert(all_entries.drop_first() =~= entries);
            assert(all_entries.flatten() =~= entry + entries.flatten());
            (all_starts, all_entries)
        } else {
            (all_starts, Seq::empty())
        }
    }
}

/// A line looks like a change, a trace or an exit status by one of these beginnings or parts;
/// the latter five are found in capitals too.
pub proof fn traces_are_these(line: Seq<char>)
    ensures
        is_trace(line) <==> {
            ||| line.len() > 0 && (line[0] == '+' || line[0] == '-' || line[0] == '>')
            ||| occurs_in("Caused by:"@, line)
            ||| occurs_in("Traceback"@, line)
            ||| occurs_in("  File \""@, line)
            ||| occurs_in("at "@, lower(line))
            ||| occurs_in("exit code"@, lower(line))
            ||| occurs_in("status:"@, lower(line))
            ||| occurs_in("returned"@, lower(line))
            ||| occurs_in("exited"@, lower(line))
        },
{
    reveal_strlit("+");
    reveal_strlit("-");
    reveal_strlit(">");
    assert("+"@ =~= seq!['+']);
    assert("-"@ =~= seq!['-']);
    assert(">"@ =~= seq!['>']);
    if line.len() > 0 {
        assert(line.subrange(0, 1) =~= seq![line[0]]);
        assert(seq![line[0]][0] == line[0]);
        assert(seq!['+'][0] == '+' && seq!['-'][0] == '-' && seq!['>'][0] == '>');
    }
}

/// A line is telling by a word of trouble, a verdict or a count of results.
pub proof fn telling_lines_are_these(line: Seq<char>)
    ensures
        is_telling(line) <==> {
            ||| matches_in(
                r"(?i)(error|enoent|fatal|panic|warning|warn|fail|reject|denied|refused|forbidden)"@,
                line,
            )
            ||| matches_in(r"\b(PASS|FAIL|ok|not ok)\b"@, line)
            ||| matches_in(
                r"(?i)\b\d+\s+(passed|failed|error|warning|test|tests|file|files)\b"@,
                line,
            )
        },
{
}

/// Whatever lines of a diff are marked as statistics or alerts, exactly these are kept, and of
/// the headers and changed lines those in front of which fewer than thirty others stand.
pub proof fn marked_diff_lines_are_kept(
    all: Seq<Seq<char>>,
    stats: Seq<bool>,
    alerts: Seq<bool>,
)
    requires
        stats.len() == all.len(),
        alerts.len() == all.len(),
    ensures
        keeps_exactly(
            marked(all, diff_marks(all, stats, alerts)),
            all,
            |i: int|
                stats[i] || alerts[i] || ("diff --git"@.is_prefix_of(all[i])
                    || "@@"@.is_prefix_of(all[i]) || "+"@.is_prefix_of(all[i])
                    || "-"@.is_prefix_of(all[i])) && all.take(i).filter(
                    |line: Seq<char>|
                        "diff --git"@.is_prefix_of(line) || "@@"@.is_prefix_of(line)
                            || "+"@.is_prefix_of(line) || "-"@.is_prefix_of(line),
                ).len() < 30,
        ),
{
    let marks = diff_marks(all, stats, alerts);
    let changed = |line: Seq<char>|
        "diff --git"@.is_prefix_of(line) || "@@"@.is_prefix_of(line) || "+"@.is_prefix_of(line)
            || "-"@.is_prefix_of(line);
    assert(change() =~= changed);
    let keep = |i: int|
        stats[i] || alerts[i] || ("diff --git"@.is_prefix_of(all[i]) || "@@"@.is_prefix_of(all[i])
            || "+"@.is_prefix_of(all[i]) || "-"@.is_prefix_of(all[i])) && all.take(i).filter(
            |line: Seq<char>|
                "diff --git"@.is_prefix_of(line) || "@@"@.is_prefix_of(line)
                    || "+"@.is_prefix_of(line) || "-"@.is_prefix_of(line),
        ).len() < 30;
    assert forall|i: int| 0 <= i < all.len() implies #[trigger] keep(i) == marks[i] by {
        count_is_that_of_lines(all, change(), i);
    }
    marked_keeps_exactly(all, marks, keep);
}

/// Whatever lines of `cargo` are marked as diagnostics, exactly these are kept, the reports,
/// and of the lines that say what is compiled the first five.
pub proof fn marked_cargo_lines_are_kept(all: Seq<Seq<char>>, diagnostics: Seq<bool>)
    requires
        diagnostics.len() == all.len(),
    ensures
        keeps_exactly(
            marked(all, cargo_marks(all, diagnostics)),
            all,
            |i: int|
                if "Compiling"@.is_prefix_of(all[i]) {
                    all.take(i).filter(|line: Seq<char>| "Compiling"@.is_prefix_of(line)).len() < 5
                } else {
                    diagnostics[i] || occurs_in("test result:"@, all[i])
                        || "Finished"@.is_prefix_of(all[i]) || "Running"@.is_prefix_of(all[i])
                },
        ),
{
    let marks = cargo_marks(all, diagnostics);
    let compiles = |line: Seq<char>| "Compiling"@.is_prefix_of(line);
    assert(compiling() =~= compiles);
    let keep = |i: int|
        if "Compiling"@.is_prefix_of(all[i]) {
            all.take(i).filter(|line: Seq<char>| "Compiling"@.is_prefix_of(line)).len() < 5
        } else {
            diagnostics[i] || occurs_in("test result:"@, all[i]) || "Finished"@.is_prefix_of(all[i])
                || "Running"@.is_prefix_of(all[i])
        };
    assert forall|i: int| 0 <= i < all.len() implies #[trigger] keep(i) == marks[i] by {
        count_is_that_of_lines(all, compiling(), i);
    }
    marked_keeps_exactly(all, marks, keep);
}

/// Whatever lines of an output are marked, exactly these are kept, the first fifteen and the
/// last ten.
pub proof fn marked_lines_and_ends_are_kept(all: Seq<Seq<char>>, signals: Seq<bool>)
    requires
        signals.len() == all.len(),
    ensures
        keeps_exactly(
            marked(all, general_marks(all, signals)),
            all,
            |i: int| i < 15 || i + 10 >= all.len() || signals[i],
        ),
{
    marked_keeps_exactly(
        all,
        general_marks(all, signals),
        |i: int| i < 15 || i + 10 >= all.len() || signals[i],
    );
}

} // verus!
