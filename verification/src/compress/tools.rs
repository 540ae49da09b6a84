//! The output of build tools and of listings.

use vstd::prelude::*;

use super::patterns::{matches_in, Patterns, CARGO_ERROR, CARGO_WARNING};
use crate::number::{decimal, push_decimal};
use crate::select::{
    copy_lines, count_set, find_last, has_line, join_if_any, joined_if_any, keep_marked, last_set,
    mark_lines, marked, marks_of, nonblank, nonblank_line,
};
use crate::text::{
    contains, join_lines, joined, lemma_texts_push, lines, lines_of, lower, occurs_in,
    optional_text, starts_with, texts, to_ascii_lowercase,
};

verus! {

/// How many `Compiling` lines are kept.
pub const KEPT_COMPILING: usize = 5;

/// How many lines at the end of a log are kept.
pub const KEPT_LOG_TAIL: usize = 20;

/// How many entries of a listing are kept.
pub const KEPT_ENTRIES: usize = 30;

/// `kept` with the last line of `all` that is not blank behind it, unless it is there already.
pub open spec fn with_last_line(kept: Seq<Seq<char>>, all: Seq<Seq<char>>) -> Seq<Seq<char>> {
    match last_set(marks_of(all, nonblank()), all.len() as int) {
        Some(i) => if kept.contains(all[i]) {
            kept
        } else {
            kept.push(all[i])
        },
        None => kept,
    }
}

/// Adds the last line that is not blank, unless it is there already.
fn add_last_line(kept: Vec<String>, all: &Vec<String>) -> (result: Vec<String>)
    ensures
        texts(result@) == with_last_line(texts(kept@), texts(all@)),
{
    let mut kept = kept;
    let nonblanks = mark_lines(all, nonblank_line, Ghost(nonblank()));
    if let Some(i) = find_last(&nonblanks) {
        if !has_line(&kept, &all[i]) {
            proof {
                lemma_texts_push(kept@, all@[i as int]);
            }
            kept.push(all[i].clone());
        }
    }
    kept
}

/// Whether `line` is an error or a warning of `npm`.
pub open spec fn is_npm_problem(line: Seq<char>) -> bool {
    occurs_in("ERR!"@, line) || occurs_in("WARN"@, line)
}

/// [`is_npm_problem`], as a test of lines.
pub open spec fn npm_problem() -> spec_fn(Seq<char>) -> bool {
    |line: Seq<char>| is_npm_problem(line)
}

/// The output of `npm` in short: its errors and warnings, and its last line.
pub open spec fn npm_of(output: Seq<char>) -> Option<Seq<char>> {
    let all = lines_of(output);
    joined_if_any(with_last_line(marked(all, marks_of(all, npm_problem())), all))
}

fn npm_problem_line(line: &String) -> (holds: bool)
    ensures
        holds == is_npm_problem(line@),
{
    contains(line.as_str(), "ERR!") || contains(line.as_str(), "WARN")
}

/// Shortens the output of `npm`.
pub fn compress_npm(output: &str) -> (result: Option<String>)
    ensures
        optional_text(result) == npm_of(output@),
{
    let all = lines(output);
    let marks = mark_lines(&all, npm_problem_line, Ghost(npm_problem()));
    let kept = keep_marked(&all, &marks);
    join_if_any(&add_last_line(kept, &all))
}

/// Whether `line` speaks of an error, in capitals or not.
pub open spec fn is_make_error(line: Seq<char>) -> bool {
    occurs_in("error"@, lower(line))
}

/// [`is_make_error`], as a test of lines.
pub open spec fn make_error() -> spec_fn(Seq<char>) -> bool {
    |line: Seq<char>| is_make_error(line)
}

/// The output of `make` in short: what speaks of an error, and its last line.
pub open spec fn make_of(output: Seq<char>) -> Option<Seq<char>> {
    let all = lines_of(output);
    joined_if_any(with_last_line(marked(all, marks_of(all, make_error())), all))
}

fn make_error_line(line: &String) -> (holds: bool)
    ensures
        holds == is_make_error(line@),
{
    contains(to_ascii_lowercase(line.as_str()).as_str(), "error")
}

/// Shortens the output of `make` and `cmake`.
pub fn compress_make(output: &str) -> (result: Option<String>)
    ensures
        optional_text(result) == make_of(output@),
{
    let all = lines(output);
    let marks = mark_lines(&all, make_error_line, Ghost(make_error()));
    let kept = keep_marked(&all, &marks);
    join_if_any(&add_last_line(kept, &all))
}

/// Whether `line` says that a crate is being compiled.
pub open spec fn is_compiling(line: Seq<char>) -> bool {
    "Compiling"@.is_prefix_of(line)
}

/// [`is_compiling`], as a test of lines.
pub open spec fn compiling() -> spec_fn(Seq<char>) -> bool {
    |line: Seq<char>| is_compiling(line)
}

/// Whether `line` reports on a build or a run of tests as a whole.
pub open spec fn is_cargo_report(line: Seq<char>) -> bool {
    ||| occurs_in("test result:"@, line)
    ||| "Finished"@.is_prefix_of(line)
    ||| "Running"@.is_prefix_of(line)
}

/// Whether a line is an error or a warning of the compiler, as a test of lines.
pub open spec fn cargo_diagnostic() -> spec_fn(Seq<char>) -> bool {
    |line: Seq<char>| matches_in(CARGO_ERROR@, line) || matches_in(CARGO_WARNING@, line)
}

/// Which lines of `cargo` are kept: the first that say what is compiled, and of the others
/// diagnostics and reports.
pub open spec fn cargo_marks(all: Seq<Seq<char>>, diagnostics: Seq<bool>) -> Seq<bool> {
    let compilings = marks_of(all, compiling());
    Seq::new(
        all.len(),
        |i: int|
            if compilings[i] {
                count_set(compilings, i) < KEPT_COMPILING
            } else {
                diagnostics[i] || is_cargo_report(all[i])
            },
    )
}

/// The output of `cargo` in short.
pub open spec fn cargo_of(output: Seq<char>) -> Option<Seq<char>> {
    let all = lines_of(output);
    joined_if_any(marked(all, cargo_marks(all, marks_of(all, cargo_diagnostic()))))
}

fn compiling_line(line: &String) -> (holds: bool)
    ensures
        holds == is_compiling(line@),
{
    starts_with(line.as_str(), "Compiling")
}

fn cargo_report_line(line: &String) -> (holds: bool)
    ensures
        holds == is_cargo_report(line@),
{
    let line = line.as_str();
    contains(line, "test result:") || starts_with(line, "Finished") || starts_with(line, "Running")
}

/// Keeps the telling lines of `cargo`. `diagnostics` marks the errors and warnings of the
/// compiler.
pub fn keep_cargo_lines(all: &Vec<String>, diagnostics: &Vec<bool>) -> (kept: Vec<String>)
    requires
        diagnostics.len() == all.len(),
    ensures
        texts(kept@) == marked(texts(all@), cargo_marks(texts(all@), diagnostics@)),
{
    let compilings = mark_lines(all, compiling_line, Ghost(compiling()));
    let ghost wanted = cargo_marks(texts(all@), diagnostics@);
    let mut marks: Vec<bool> = Vec::new();
    let mut count: usize = 0;
    for i in 0..all.len()
        invariant
            diagnostics.len() == all.len(),
            compilings@ == marks_of(texts(all@), compiling()),
            wanted == cargo_marks(texts(all@), diagnostics@),
            count == if count_set(compilings@, i as int) < KEPT_COMPILING {
                count_set(compilings@, i as int)
            } else {
                KEPT_COMPILING as nat
            },
            marks@ == wanted.take(i as int),
    {
        let mut keep = false;
        if compilings[i] {
            if count < KEPT_COMPILING {
                keep = true;
                count = count + 1;
            }
        } else {
            keep = diagnostics[i] || cargo_report_line(&all[i]);
        }
        marks.push(keep);
        assert(marks@ =~= wanted.take(i + 1));
    }
    assert(marks@ =~= wanted);
    keep_marked(all, &marks)
}

/// Shortens the output of `cargo`.
pub fn compress_cargo(patterns: &Patterns, output: &str) -> (result: Option<String>)
    ensures
        optional_text(result) == cargo_of(output@),
{
    let all = lines(output);
    let is_diagnostic = |line: &String| -> (found: bool)
        ensures
            found == (matches_in(CARGO_ERROR@, line@) || matches_in(CARGO_WARNING@, line@)),
        {
            patterns.is_cargo_diagnostic(line.as_str())
        };
    let diagnostics = mark_lines(&all, is_diagnostic, Ghost(cargo_diagnostic()));
    join_if_any(&keep_cargo_lines(&all, &diagnostics))
}

/// Whether `line` tells how an installation by `pip` went.
pub open spec fn is_pip_report(line: Seq<char>) -> bool {
    ||| occurs_in("Successfully installed"@, line)
    ||| occurs_in("error"@, lower(line))
    ||| occurs_in("failed"@, lower(line))
}

/// [`is_pip_report`], as a test of lines.
pub open spec fn pip_report() -> spec_fn(Seq<char>) -> bool {
    |line: Seq<char>| is_pip_report(line)
}

/// The output of `pip` in short.
pub open spec fn pip_of(output: Seq<char>) -> Option<Seq<char>> {
    let all = lines_of(output);
    joined_if_any(marked(all, marks_of(all, pip_report())))
}

fn pip_report_line(line: &String) -> (holds: bool)
    ensures
        holds == is_pip_report(line@),
{
    let lower_line = to_ascii_lowercase(line.as_str());
    contains(line.as_str(), "Successfully installed") || contains(lower_line.as_str(), "error")
        || contains(lower_line.as_str(), "failed")
}

/// Shortens the output of `pip`.
pub fn compress_pip(output: &str) -> (result: Option<String>)
    ensures
        optional_text(result) == pip_of(output@),
{
    let all = lines(output);
    let marks = mark_lines(&all, pip_report_line, Ghost(pip_report()));
    join_if_any(&keep_marked(&all, &marks))
}

/// Whether `line` of a log speaks of trouble, in capitals or not.
pub open spec fn is_log_trouble(line: Seq<char>) -> bool {
    ||| occurs_in("error"@, lower(line))
    ||| occurs_in("warn"@, lower(line))
    ||| occurs_in("fatal"@, lower(line))
}

/// Which lines of a log are kept: those at its end, and those that speak of trouble.
pub open spec fn docker_marks(all: Seq<Seq<char>>) -> Seq<bool> {
    Seq::new(all.len(), |i: int| i >= all.len() - KEPT_LOG_TAIL || is_log_trouble(all[i]))
}

/// The output of `docker logs` in short.
pub open spec fn docker_of(output: Seq<char>) -> Option<Seq<char>> {
    let all = lines_of(output);
    if all.len() == 0 {
        None
    } else {
        Some(joined(marked(all, docker_marks(all))))
    }
}

fn log_trouble_line(line: &String) -> (holds: bool)
    ensures
        holds == is_log_trouble(line@),
{
    let lower_line = to_ascii_lowercase(line.as_str());
    contains(lower_line.as_str(), "error") || contains(lower_line.as_str(), "warn") || contains(
        lower_line.as_str(),
        "fatal",
    )
}

/// Shortens the output of `docker logs`.
pub fn compress_docker_logs(output: &str) -> (result: Option<String>)
    ensures
        optional_text(result) == docker_of(output@),
{
    let all = lines(output);
    if all.len() == 0 {
        return None;
    }
    let ghost wanted = docker_marks(texts(all@));
    let tail_start = all.len().saturating_sub(KEPT_LOG_TAIL);
    let mut marks: Vec<bool> = Vec::new();
    for i in 0..all.len()
        invariant
            tail_start == if all.len() > KEPT_LOG_TAIL {
                all.len() - KEPT_LOG_TAIL
            } else {
                0
            },
            wanted == docker_marks(texts(all@)),
            marks@ == wanted.take(i as int),
    {
        marks.push(i >= tail_start || log_trouble_line(&all[i]));
        assert(marks@ =~= wanted.take(i + 1));
    }
    assert(marks@ =~= wanted);
    Some(join_lines(&keep_marked(&all, &marks)))
}

/// A listing in short: its first entries and, where there are more, how many there are.
pub open spec fn listing_of(output: Seq<char>) -> Option<Seq<char>> {
    let all = lines_of(output);
    if all.len() == 0 {
        None
    } else if all.len() <= KEPT_ENTRIES {
        Some(joined(all))
    } else {
        Some(
            joined(all.take(KEPT_ENTRIES as int)).push('\n') + "[... "@ + decimal(all.len())
                + " total entries]"@,
        )
    }
}

/// Shortens the output of `ls` and `find`.
pub fn compress_ls_find(output: &str) -> (result: Option<String>)
    ensures
        optional_text(result) == listing_of(output@),
{
    let all = lines(output);
    if all.len() == 0 {
        return None;
    }
    let total = all.len();
    if total <= KEPT_ENTRIES {
        return Some(join_lines(&all));
    }
    let mut rendered = join_lines(&copy_lines(&all, 0, KEPT_ENTRIES));
    rendered.push('\n');
    rendered.append("[... ");
    push_decimal(&mut rendered, total as u64);
    rendered.append(" total entries]");
    Some(rendered)
}

} // verus!
