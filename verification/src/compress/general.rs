//! Output of any command: keeping what is telling, and a hard cap.

use vstd::prelude::*;

use super::patterns::{matches_in, Patterns, SIGNAL, TEST_RUNNER, WORD_COUNT};
use crate::number::{decimal, push_decimal};
use crate::select::{copy_lines, keep_marked, mark_lines, marked, marks_of};
use crate::text::{
    chars_of, contains, join_lines, joined, lemma_texts_push, lines, lines_of, lower, occurs_in,
    same_text, starts_with, texts, to_ascii_lowercase, trim, trimmed,
};

verus! {

/// How many lines at the front are kept.
pub const KEPT_HEAD: usize = 15;

/// How many lines at the end are kept.
pub const KEPT_TAIL: usize = 10;

/// How many similar lines in a row are folded into one.
pub const FOLDED_RUN: usize = 3;

/// How many lines at the front stay under the hard cap.
pub const CAPPED_HEAD: usize = 30;

/// How many lines at the end stay under the hard cap.
pub const CAPPED_TAIL: usize = 10;

/// Whether `line` holds a telling word, a verdict or a count of results.
pub open spec fn is_telling(line: Seq<char>) -> bool {
    ||| matches_in(SIGNAL@, line)
    ||| matches_in(TEST_RUNNER@, line)
    ||| matches_in(WORD_COUNT@, line)
}

/// Whether `line` looks like a change, a trace or an exit status.
pub open spec fn is_trace(line: Seq<char>) -> bool {
    ||| "+"@.is_prefix_of(line)
    ||| "-"@.is_prefix_of(line)
    ||| ">"@.is_prefix_of(line)
    ||| occurs_in("Caused by:"@, line)
    ||| occurs_in("Traceback"@, line)
    ||| occurs_in("  File \""@, line)
    ||| occurs_in("at "@, lower(line))
    ||| occurs_in("exit code"@, lower(line))
    ||| occurs_in("status:"@, lower(line))
    ||| occurs_in("returned"@, lower(line))
    ||| occurs_in("exited"@, lower(line))
}

/// Whether `line` is worth keeping, as a test of lines.
pub open spec fn signal_line() -> spec_fn(Seq<char>) -> bool {
    |line: Seq<char>| is_telling(line) || is_trace(line)
}

/// Whether `line` looks like a change, a trace or an exit status.
pub fn is_trace_line(line: &str) -> (holds: bool)
    ensures
        holds == is_trace(line@),
{
    if starts_with(line, "+") || starts_with(line, "-") || starts_with(line, ">") || contains(
        line,
        "Caused by:",
    ) || contains(line, "Traceback") || contains(line, "  File \"") {
        return true;
    }
    let lower_line = to_ascii_lowercase(line);
    let lower_line = lower_line.as_str();
    contains(lower_line, "at ") || contains(lower_line, "exit code") || contains(
        lower_line,
        "status:",
    ) || contains(lower_line, "returned") || contains(lower_line, "exited")
}

/// Whether `line` is worth keeping.
pub fn is_signal_line(patterns: &Patterns, line: &str) -> (holds: bool)
    ensures
        holds == (is_telling(line@) || is_trace(line@)),
{
    patterns.is_telling(line) || is_trace_line(line)
}

/// An ASCII digit as `#`; any other character as it is.
pub open spec fn masked(ch: char) -> char {
    if '0' <= ch <= '9' {
        '#'
    } else {
        ch
    }
}

/// What similar lines have in common: their text without white space around it, whatever its
/// digits.
pub open spec fn normalized(line: Seq<char>) -> Seq<char> {
    trimmed(line).map_values(|ch: char| masked(ch))
}

/// What similar lines have in common.
pub fn normalize_for_similarity(line: &str) -> (key: String)
    ensures
        key@ == normalized(line@),
{
    let chars = chars_of(trim(line).as_str());
    let mut key = String::new();
    for i in 0..chars.len()
        invariant
            chars@ == trimmed(line@),
            key@ == normalized(line@).take(i as int),
    {
        let ch = chars[i];
        if '0' <= ch && ch <= '9' {
            key.push('#');
        } else {
            key.push(ch);
        }
        assert(key@ =~= normalized(line@).take(i + 1));
    }
    assert(key@ =~= normalized(line@));
    key
}

/// How many lines from `from` on are similar to `key`.
pub open spec fn run_len(all: Seq<Seq<char>>, from: int, key: Seq<char>) -> nat
    decreases all.len() - from,
{
    if from >= all.len() || normalized(all[from]) != key {
        0
    } else {
        1 + run_len(all, from + 1, key)
    }
}

/// The line that stands for `n` similar ones.
pub open spec fn repeat_note(n: nat) -> Seq<char> {
    "[... repeated "@ + decimal(n) + " similar lines ...]"@
}

/// What is left of the lines from `from` up to `to`, which are similar.
pub open spec fn folded_run(all: Seq<Seq<char>>, from: int, to: int) -> Seq<Seq<char>> {
    if to - from >= FOLDED_RUN {
        seq![all[from], repeat_note((to - from) as nat)]
    } else {
        all.subrange(from, to)
    }
}

/// Where the run of similar lines that begins at `from` ends.
pub open spec fn run_end(all: Seq<Seq<char>>, from: int) -> int {
    from + 1 + run_len(all, from + 1, normalized(all[from]))
}

/// The lines from `from` on, with each longest run of similar lines folded.
pub open spec fn folded(all: Seq<Seq<char>>, from: int) -> Seq<Seq<char>>
    decreases
            (if from < all.len() {
                all.len() - from
            } else {
                0
            }),
{
    if from >= all.len() {
        seq![]
    } else {
        folded_run(all, from, run_end(all, from)) + folded(all, run_end(all, from))
    }
}

/// Folds each longest run of similar lines.
pub fn dedup_similar(lines: &Vec<String>) -> (out: Vec<String>)
    ensures
        texts(out@) == folded(texts(lines@), 0),
{
    let ghost all = texts(lines@);
    let mut out: Vec<String> = Vec::new();
    let mut i: usize = 0;
    assert(texts(out@) + folded(all, 0) =~= folded(all, 0));
    while i < lines.len()
        invariant
            all == texts(lines@),
            i <= lines.len(),
            texts(out@) + folded(all, i as int) == folded(all, 0),
        decreases lines.len() - i,
    {
        let key = normalize_for_similarity(lines[i].as_str());
        let mut end: usize = i + 1;
        while end < lines.len() && same_text(
            normalize_for_similarity(lines[end].as_str()).as_str(),
            key.as_str(),
        )
            invariant
                all == texts(lines@),
                i < end <= lines.len(),
                key@ == normalized(all[i as int]),
                run_end(all, i as int) == end + run_len(all, end as int, key@),
            decreases lines.len() - end,
        {
            end = end + 1;
        }
        let ghost before = texts(out@);
        let ghost rest = folded(all, end as int);
        if end - i >= FOLDED_RUN {
            let mut note = "[... repeated ".to_owned();
            push_decimal(&mut note, (end - i) as u64);
            note.append(" similar lines ...]");
            proof {
                lemma_texts_push(out@, lines@[i as int]);
                lemma_texts_push(out@.push(lines@[i as int]), note);
            }
            out.push(lines[i].clone());
            out.push(note);
            assert(texts(out@) =~= before + folded_run(all, i as int, end as int));
        } else {
            for j in i..end
                invariant
                    all == texts(lines@),
                    end <= lines.len(),
                    i <= j <= end,
                    texts(out@) == before + all.subrange(i as int, j as int),
            {
                proof {
                    lemma_texts_push(out@, lines@[j as int]);
                }
                out.push(lines[j].clone());
                assert(texts(out@) =~= before + all.subrange(i as int, j + 1));
            }
        }
        assert(before + (folded_run(all, i as int, end as int) + rest) =~= texts(out@) + rest);
        i = end;
    }
    assert(texts(out@) + Seq::<Seq<char>>::empty() =~= texts(out@));
    out
}

/// Which lines of an output are kept: those at its front and end, and those worth keeping.
pub open spec fn general_marks(all: Seq<Seq<char>>, signals: Seq<bool>) -> Seq<bool> {
    Seq::new(all.len(), |i: int| i < KEPT_HEAD || i >= all.len() - KEPT_TAIL || signals[i])
}

/// An output reduced to what is telling.
pub open spec fn telling_of(output: Seq<char>) -> Seq<char> {
    let all = lines_of(output);
    joined(folded(marked(all, general_marks(all, marks_of(all, signal_line()))), 0))
}

/// Keeps the lines at the front and end, and those that `signals` marks.
pub fn keep_telling_lines(all: &Vec<String>, signals: &Vec<bool>) -> (kept: Vec<String>)
    requires
        signals.len() == all.len(),
    ensures
        texts(kept@) == marked(texts(all@), general_marks(texts(all@), signals@)),
{
    let ghost wanted = general_marks(texts(all@), signals@);
    let tail_start = all.len().saturating_sub(KEPT_TAIL);
    let mut marks: Vec<bool> = Vec::new();
    for i in 0..all.len()
        invariant
            signals.len() == all.len(),
            tail_start == if all.len() > KEPT_TAIL {
                all.len() - KEPT_TAIL
            } else {
                0
            },
            wanted == general_marks(texts(all@), signals@),
            marks@ == wanted.take(i as int),
    {
        marks.push(i < KEPT_HEAD || i >= tail_start || signals[i]);
        assert(marks@ =~= wanted.take(i + 1));
    }
    assert(marks@ =~= wanted);
    keep_marked(all, &marks)
}

/// Reduces an output to what is telling.
pub fn tier2_compress(patterns: &Patterns, output: &str) -> (result: String)
    ensures
        result@ == telling_of(output@),
{
    let all = lines(output);
    let is_signal = |line: &String| -> (holds: bool)
        ensures
            holds == (is_telling(line@) || is_trace(line@)),
        {
            is_signal_line(patterns, line.as_str())
        };
    let signals = mark_lines(&all, is_signal, Ghost(signal_line()));
    let kept = keep_telling_lines(&all, &signals);
    join_lines(&dedup_similar(&kept))
}

/// The lines that stay under the hard cap.
pub open spec fn capped_lines(all: Seq<Seq<char>>) -> Seq<Seq<char>> {
    if all.len() > CAPPED_HEAD + CAPPED_TAIL {
        all.take(CAPPED_HEAD as int).push("[... hard-capped output ...]"@) + all.skip(
            all.len() - CAPPED_TAIL,
        )
    } else if all.len() > CAPPED_HEAD {
        all.take(CAPPED_HEAD as int)
    } else {
        all
    }
}

/// What the hard cap says of the output that it cut.
pub open spec fn cap_note(original_lines: nat, original_tokens: nat) -> Seq<char> {
    "\n[... original "@ + decimal(original_lines) + " lines / ~"@ + decimal(original_tokens)
        + " tok ...]"@
}

/// An output under the hard cap. An empty output stays empty.
pub open spec fn capped_of(
    output: Seq<char>,
    original_lines: nat,
    original_tokens: nat,
) -> Seq<char> {
    let all = lines_of(output);
    if all.len() == 0 {
        seq![]
    } else {
        joined(capped_lines(all)) + cap_note(original_lines, original_tokens)
    }
}

/// Puts an output under the hard cap.
pub fn tier3_compress(output: &str, original_lines: usize, original_tokens: usize) -> (result:
    String)
    ensures
        result@ == capped_of(output@, original_lines as nat, original_tokens as nat),
{
    let lines = lines(output);
    if lines.len() == 0 {
        return String::new();
    }
    let ghost all = texts(lines@);
    let head_count = if lines.len() < CAPPED_HEAD {
        lines.len()
    } else {
        CAPPED_HEAD
    };
    let mut out = copy_lines(&lines, 0, head_count);
    let tail_start = lines.len().saturating_sub(CAPPED_TAIL);
    if tail_start > head_count {
        let marker = "[... hard-capped output ...]".to_owned();
        proof {
            lemma_texts_push(out@, marker);
        }
        out.push(marker);
        let ghost front = texts(out@);
        for i in tail_start..lines.len()
            invariant
                all == texts(lines@),
                tail_start <= lines.len(),
                texts(out@) == front + all.subrange(tail_start as int, i as int),
        {
            proof {
                lemma_texts_push(out@, lines@[i as int]);
            }
            out.push(lines[i].clone());
            assert(texts(out@) =~= front + all.subrange(tail_start as int, i + 1));
        }
    }
    assert(texts(out@) =~= capped_lines(all));
    let mut rendered = join_lines(&out);
    let ghost body = rendered@;
    rendered.append("\n[... original ");
    push_decimal(&mut rendered, original_lines as u64);
    rendered.append(" lines / ~");
    push_decimal(&mut rendered, original_tokens as u64);
    rendered.append(" tok ...]");
    assert(rendered@ =~= body + cap_note(original_lines as nat, original_tokens as nat));
    rendered
}

} // verus!
