//! The output of `git`.

use vstd::prelude::*;

use super::patterns::{matches_in, Patterns, DIFF_ALERT, DIFF_STAT};
use crate::number::{decimal, push_decimal};
use crate::select::{
    count_set, find_first, first_set, join_if_any, joined_if_any, keep_marked, mark_lines, marked,
    marks_of, nonblank, nonblank_line,
};
use crate::text::{
    contains, lemma_texts_push, lines, lines_of, occurs_in, optional_text, starts_with, texts,
    trim, trim_end, trimmed, trimmed_end,
};

verus! {

/// How many changed files a status lists.
pub const LISTED_CHANGES: usize = 20;

/// How many commits a log keeps.
pub const KEPT_COMMITS: usize = 15;

/// How many headers and changed lines a diff keeps.
pub const KEPT_CHANGES: usize = 30;

/// Whether `line` tells where the working tree stands.
pub open spec fn is_status_head(line: Seq<char>) -> bool {
    "On branch"@.is_prefix_of(line) || "HEAD detached"@.is_prefix_of(line)
}

/// [`is_status_head`], as a test of lines.
pub open spec fn status_head() -> spec_fn(Seq<char>) -> bool {
    |line: Seq<char>| is_status_head(line)
}

/// Whether `line` names a changed file.
pub open spec fn is_status_change(line: Seq<char>) -> bool {
    ||| "\t"@.is_prefix_of(line)
    ||| occurs_in("modified:"@, line)
    ||| occurs_in("new file:"@, line)
    ||| occurs_in("deleted:"@, line)
    ||| occurs_in("renamed:"@, line)
    ||| occurs_in("both modified:"@, line)
}

/// [`is_status_change`], as a test of lines.
pub open spec fn status_change() -> spec_fn(Seq<char>) -> bool {
    |line: Seq<char>| is_status_change(line)
}

/// The line that sums up a status: the first that tells where the working tree stands, or
/// else the first that is not blank.
pub open spec fn status_summary(all: Seq<Seq<char>>) -> Option<Seq<char>> {
    match first_set(marks_of(all, status_head()), 0) {
        Some(i) => Some(all[i]),
        None => match first_set(marks_of(all, nonblank()), 0) {
            Some(i) => Some(all[i]),
            None => None,
        },
    }
}

/// The first `n` of `changes`, each without white space at its end and on a line of its own.
pub open spec fn change_list(changes: Seq<Seq<char>>, n: int) -> Seq<char>
    decreases n,
{
    if n <= 0 {
        seq![]
    } else {
        change_list(changes, n - 1) + trimmed_end(changes[n - 1]).push('\n')
    }
}

/// What a list of `count` changed files says of those that it does not list.
pub open spec fn unlisted_note(count: nat) -> Seq<char> {
    if count > LISTED_CHANGES {
        "[... "@ + decimal((count - LISTED_CHANGES) as nat) + " more files]"@
    } else {
        seq![]
    }
}

/// A status in short: the summary, the number of changed files, and the first of them.
pub open spec fn status_report(summary: Seq<char>, changes: Seq<Seq<char>>) -> Seq<char> {
    let listed = if changes.len() < LISTED_CHANGES {
        changes.len() as int
    } else {
        LISTED_CHANGES as int
    };
    trimmed_end(
        summary.push('\n') + "Changed files: "@ + decimal(changes.len()).push('\n') + change_list(
            changes,
            listed,
        ) + unlisted_note(changes.len()),
    )
}

/// The output of `git status` in short. There is nothing to say of a blank output.
pub open spec fn git_status_of(output: Seq<char>) -> Option<Seq<char>> {
    let all = lines_of(output);
    match status_summary(all) {
        Some(summary) => Some(status_report(summary, marked(all, marks_of(all, status_change())))),
        None => None,
    }
}

fn status_head_line(line: &String) -> (holds: bool)
    ensures
        holds == is_status_head(line@),
{
    starts_with(line.as_str(), "On branch") || starts_with(line.as_str(), "HEAD detached")
}

fn status_change_line(line: &String) -> (holds: bool)
    ensures
        holds == is_status_change(line@),
{
    let line = line.as_str();
    starts_with(line, "\t") || contains(line, "modified:") || contains(line, "new file:")
        || contains(line, "deleted:") || contains(line, "renamed:") || contains(
        line,
        "both modified:",
    )
}

/// Shortens the output of `git status`.
pub fn compress_git_status(output: &str) -> (result: Option<String>)
    ensures
        optional_text(result) == git_status_of(output@),
{
    let all = lines(output);
    let heads = mark_lines(&all, status_head_line, Ghost(status_head()));
    let summary = match find_first(&heads) {
        Some(i) => i,
        None => {
            let nonblanks = mark_lines(&all, nonblank_line, Ghost(nonblank()));
            match find_first(&nonblanks) {
                Some(i) => i,
                None => return None,
            }
        },
    };
    let marks = mark_lines(&all, status_change_line, Ghost(status_change()));
    let changes = keep_marked(&all, &marks);
    let ghost listing = texts(changes@);
    let count = changes.len();

    let mut out = all[summary].clone();
    out.push('\n');
    out.append("Changed files: ");
    push_decimal(&mut out, count as u64);
    out.push('\n');
    let listed = if count < LISTED_CHANGES {
        count
    } else {
        LISTED_CHANGES
    };
    let ghost head = out@;
    for i in 0..listed
        invariant
            listed <= changes.len(),
            listing == texts(changes@),
            out@ == head + change_list(listing, i as int),
    {
        let line = trim_end(changes[i].as_str());
        out.append(line.as_str());
        out.push('\n');
        assert(out@ =~= head + change_list(listing, i + 1));
    }
    if count > LISTED_CHANGES {
        out.append("[... ");
        push_decimal(&mut out, (count - LISTED_CHANGES) as u64);
        out.append(" more files]");
    }
    proof {
        assert(out@ =~= texts(all@)[summary as int].push('\n') + "Changed files: "@ + decimal(
            listing.len(),
        ).push('\n') + change_list(listing, listed as int) + unlisted_note(listing.len()));
    }
    Some(trim_end(out.as_str()))
}

/// Whether `line` opens a commit.
pub open spec fn is_commit(line: Seq<char>) -> bool {
    "commit "@.is_prefix_of(line)
}

/// Whether `line` belongs to the message of a commit.
pub open spec fn is_message(line: Seq<char>) -> bool {
    let text = trimmed(line);
    text.len() > 0 && !"Author:"@.is_prefix_of(text) && !"Date:"@.is_prefix_of(text)
}

/// How many lines from `from` on open no commit.
pub open spec fn body_len(all: Seq<Seq<char>>, from: int) -> nat
    decreases all.len() - from,
{
    if from >= all.len() || is_commit(all[from]) {
        0
    } else {
        1 + body_len(all, from + 1)
    }
}

/// The first line of a message from `from` up to `to`, without white space around it.
pub open spec fn message_of(all: Seq<Seq<char>>, from: int, to: int) -> Option<Seq<char>>
    decreases to - from,
{
    if to <= from {
        None
    } else if message_of(all, from, to - 1) is Some {
        message_of(all, from, to - 1)
    } else if is_message(all[to - 1]) {
        Some(trimmed(all[to - 1]))
    } else {
        None
    }
}

/// The commit that opens at `from` and ends in front of `to`, in short.
pub open spec fn log_entry(all: Seq<Seq<char>>, from: int, to: int) -> Seq<Seq<char>> {
    match message_of(all, from + 1, to) {
        Some(message) => seq![all[from], "    "@ + message],
        None => seq![all[from]],
    }
}

/// The commits from `from` on, in short, and no more than `room` of them.
pub open spec fn log_entries(all: Seq<Seq<char>>, from: int, room: int) -> Seq<Seq<char>>
    decreases room, all.len() - from,
{
    if from >= all.len() || room <= 0 {
        seq![]
    } else if !is_commit(all[from]) {
        log_entries(all, from + 1, room)
    } else {
        let to = from + 1 + body_len(all, from + 1);
        log_entry(all, from, to) + log_entries(all, to, room - 1)
    }
}

/// The output of `git log` in short: the first commits, each with the first line of its
/// message.
pub open spec fn git_log_of(output: Seq<char>) -> Option<Seq<char>> {
    joined_if_any(log_entries(lines_of(output), 0, KEPT_COMMITS as int))
}

/// Shortens the output of `git log`.
pub fn compress_git_log(output: &str) -> (result: Option<String>)
    ensures
        optional_text(result) == git_log_of(output@),
{
    let lines = lines(output);
    let ghost all = texts(lines@);
    let mut i: usize = 0;
    let mut kept: usize = 0;
    let mut out: Vec<String> = Vec::new();
    assert(texts(out@) + log_entries(all, 0, KEPT_COMMITS as int) =~= log_entries(
        all,
        0,
        KEPT_COMMITS as int,
    ));
    while i < lines.len() && kept < KEPT_COMMITS
        invariant
            all == texts(lines@),
            i <= lines.len(),
            kept <= KEPT_COMMITS,
            texts(out@) + log_entries(all, i as int, KEPT_COMMITS - kept) == log_entries(
                all,
                0,
                KEPT_COMMITS as int,
            ),
        decreases lines.len() - i,
    {
        if !starts_with(lines[i].as_str(), "commit ") {
            i = i + 1;
            continue;
        }
        let ghost before = texts(out@);
        proof {
            lemma_texts_push(out@, lines@[i as int]);
        }
        out.push(lines[i].clone());
        kept = kept + 1;

        let mut j: usize = i + 1;
        let mut message: Option<String> = None;
        while j < lines.len() && !starts_with(lines[j].as_str(), "commit ")
            invariant
                all == texts(lines@),
                i < j <= lines.len(),
                i + 1 + body_len(all, i + 1) == j + body_len(all, j as int),
                optional_text(message) == message_of(all, i + 1, j as int),
            decreases lines.len() - j,
        {
            let trimmed_line = trim(lines[j].as_str());
            if !trimmed_line.as_str().is_empty() && !starts_with(trimmed_line.as_str(), "Author:")
                && !starts_with(trimmed_line.as_str(), "Date:") && message.is_none() {
                message = Some(trimmed_line);
            }
            j = j + 1;
        }
        if let Some(message) = message {
            let mut line = "    ".to_owned();
            line.append(message.as_str());
            proof {
                lemma_texts_push(out@, line);
            }
            out.push(line);
        }
        proof {
            let rest = log_entries(all, j as int, KEPT_COMMITS - kept);
            assert(texts(out@) =~= before + log_entry(all, i as int, j as int));
            assert(before + (log_entry(all, i as int, j as int) + rest) =~= texts(out@) + rest);
        }
        i = j;
    }
    assert(texts(out@) + Seq::<Seq<char>>::empty() =~= texts(out@));
    join_if_any(&out)
}

/// Whether `line` is a header of a diff or a changed line.
pub open spec fn is_change(line: Seq<char>) -> bool {
    ||| "diff --git"@.is_prefix_of(line)
    ||| "@@"@.is_prefix_of(line)
    ||| "+"@.is_prefix_of(line)
    ||| "-"@.is_prefix_of(line)
}

/// [`is_change`], as a test of lines.
pub open spec fn change() -> spec_fn(Seq<char>) -> bool {
    |line: Seq<char>| is_change(line)
}

/// Whether a line belongs to the statistics of a diff, as a test of lines.
pub open spec fn diff_stat() -> spec_fn(Seq<char>) -> bool {
    |line: Seq<char>| matches_in(DIFF_STAT@, line)
}

/// Whether a line is a changed line that speaks of trouble, as a test of lines.
pub open spec fn diff_alert() -> spec_fn(Seq<char>) -> bool {
    |line: Seq<char>| matches_in(DIFF_ALERT@, line)
}

/// Which lines of a diff are kept: its statistics, what speaks of trouble, and the first
/// headers and changed lines.
pub open spec fn diff_marks(
    all: Seq<Seq<char>>,
    stats: Seq<bool>,
    alerts: Seq<bool>,
) -> Seq<bool> {
    let changes = marks_of(all, change());
    Seq::new(
        all.len(),
        |i: int| stats[i] || alerts[i] || changes[i] && count_set(changes, i) < KEPT_CHANGES,
    )
}

/// The output of `git diff` in short.
pub open spec fn git_diff_of(output: Seq<char>) -> Option<Seq<char>> {
    let all = lines_of(output);
    joined_if_any(
        marked(all, diff_marks(all, marks_of(all, diff_stat()), marks_of(all, diff_alert()))),
    )
}

fn change_line(line: &String) -> (holds: bool)
    ensures
        holds == is_change(line@),
{
    let line = line.as_str();
    starts_with(line, "diff --git") || starts_with(line, "@@") || starts_with(line, "+")
        || starts_with(line, "-")
}

/// Keeps the telling lines of a diff. `stats` and `alerts` mark its statistics and the changed
/// lines that speak of trouble.
pub fn keep_diff_lines(all: &Vec<String>, stats: &Vec<bool>, alerts: &Vec<bool>) -> (kept: Vec<
    String,
>)
    requires
        stats.len() == all.len(),
        alerts.len() == all.len(),
    ensures
        texts(kept@) == marked(texts(all@), diff_marks(texts(all@), stats@, alerts@)),
{
    let changes = mark_lines(all, change_line, Ghost(change()));
    let ghost wanted = diff_marks(texts(all@), stats@, alerts@);
    let mut marks: Vec<bool> = Vec::new();
    let mut count: usize = 0;
    for i in 0..all.len()
        invariant
            stats.len() == all.len(),
            alerts.len() == all.len(),
            changes@ == marks_of(texts(all@), change()),
            wanted == diff_marks(texts(all@), stats@, alerts@),
            count == if count_set(changes@, i as int) < KEPT_CHANGES {
                count_set(changes@, i as int)
            } else {
                KEPT_CHANGES as nat
            },
            marks@ == wanted.take(i as int),
    {
        let mut keep = stats[i] || alerts[i];
        if changes[i] && count < KEPT_CHANGES {
            keep = true;
            count = count + 1;
        }
        marks.push(keep);
        assert(marks@ =~= wanted.take(i + 1));
    }
    assert(marks@ =~= wanted);
    keep_marked(all, &marks)
}

/// Shortens the output of `git diff`.
pub fn compress_git_diff(patterns: &Patterns, output: &str) -> (result: Option<String>)
    ensures
        optional_text(result) == git_diff_of(output@),
{
    let all = lines(output);
    let is_stat = |line: &String| -> (found: bool)
        ensures
            found == matches_in(DIFF_STAT@, line@),
        {
            patterns.is_diff_stat(line.as_str())
        };
    let is_alert = |line: &String| -> (found: bool)
        ensures
            found == matches_in(DIFF_ALERT@, line@),
        {
            patterns.is_diff_alert(line.as_str())
        };
    let stats = mark_lines(&all, is_stat, Ghost(diff_stat()));
    let alerts = mark_lines(&all, is_alert, Ghost(diff_alert()));
    join_if_any(&keep_diff_lines(&all, &stats, &alerts))
}

} // verus!
