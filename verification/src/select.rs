//! Picking lines by marks: a mark per line says whether the line is picked.

use vstd::prelude::*;

use crate::text::{
    is_white_space, join_lines, joined, lemma_texts_push, optional_text, texts, trim, trimmed,
    trimmed_is_not_empty, trimmed_takes_off_white_space,
};

verus! {

/// The marks that a test gives to `lines`.
pub open spec fn marks_of(
    lines: Seq<Seq<char>>,
    test: spec_fn(Seq<char>) -> bool,
) -> Seq<bool> {
    Seq::new(lines.len(), |i: int| test(lines[i]))
}

/// The lines whose mark is set, in order.
pub open spec fn marked(lines: Seq<Seq<char>>, marks: Seq<bool>) -> Seq<Seq<char>>
    decreases lines.len(),
{
    if lines.len() == 0 {
        seq![]
    } else if marks[lines.len() - 1] {
        marked(lines.drop_last(), marks).push(lines.last())
    } else {
        marked(lines.drop_last(), marks)
    }
}

/// How many of the first `n` marks are set.
pub open spec fn count_set(marks: Seq<bool>, n: int) -> nat
    decreases n,
{
    if n <= 0 {
        0
    } else if marks[n - 1] {
        count_set(marks, n - 1) + 1
    } else {
        count_set(marks, n - 1)
    }
}

/// The first set mark at `from` or behind it.
pub open spec fn first_set(marks: Seq<bool>, from: int) -> Option<int>
    decreases marks.len() - from,
{
    if from >= marks.len() {
        None
    } else if marks[from] {
        Some(from)
    } else {
        first_set(marks, from + 1)
    }
}

/// The last set mark in front of `to`.
pub open spec fn last_set(marks: Seq<bool>, to: int) -> Option<int>
    decreases to,
{
    if to <= 0 {
        None
    } else if marks[to - 1] {
        Some(to - 1)
    } else {
        last_set(marks, to - 1)
    }
}

/// Marks each line by a test.
pub(crate) fn mark_lines(
    lines: &Vec<String>,
    test: impl Fn(&String) -> bool,
    Ghost(spec_test): Ghost<spec_fn(Seq<char>) -> bool>,
) -> (marks: Vec<bool>)
    requires
        forall|line: &String| call_requires(test, (line,)),
        forall|line: &String, holds: bool|
            call_ensures(test, (line,), holds) ==> holds == spec_test(line@),
    ensures
        marks@ == marks_of(texts(lines@), spec_test),
{
    let mut marks: Vec<bool> = Vec::new();
    for i in 0..lines.len()
        invariant
            forall|line: &String| call_requires(test, (line,)),
            forall|line: &String, holds: bool|
                call_ensures(test, (line,), holds) ==> holds == spec_test(line@),
            marks@ == marks_of(texts(lines@), spec_test).take(i as int),
    {
        marks.push(test(&lines[i]));
        assert(marks@ =~= marks_of(texts(lines@), spec_test).take(i + 1));
    }
    marks
}

/// The lines whose mark is set, in order.
pub fn keep_marked(lines: &Vec<String>, marks: &Vec<bool>) -> (kept: Vec<String>)
    requires
        marks.len() == lines.len(),
    ensures
        texts(kept@) == marked(texts(lines@), marks@),
{
    let ghost all = texts(lines@);
    let mut kept: Vec<String> = Vec::new();
    for i in 0..lines.len()
        invariant
            all == texts(lines@),
            marks.len() == lines.len(),
            texts(kept@) == marked(all.take(i as int), marks@),
    {
        assert(all.take(i + 1).drop_last() =~= all.take(i as int));
        if marks[i] {
            proof {
                lemma_texts_push(kept@, lines@[i as int]);
            }
            kept.push(lines[i].clone());
        }
    }
    assert(all.take(all.len() as int) =~= all);
    kept
}

/// The first set mark.
pub fn find_first(marks: &Vec<bool>) -> (found: Option<usize>)
    ensures
        match found {
            Some(i) => i < marks.len() && first_set(marks@, 0) == Some(i as int),
            None => first_set(marks@, 0) is None,
        },
{
    for i in 0..marks.len()
        invariant
            first_set(marks@, 0) == first_set(marks@, i as int),
    {
        if marks[i] {
            return Some(i);
        }
    }
    None
}

/// The last set mark.
pub fn find_last(marks: &Vec<bool>) -> (found: Option<usize>)
    ensures
        match found {
            Some(i) => i < marks.len() && last_set(marks@, marks@.len() as int) == Some(i as int),
            None => last_set(marks@, marks@.len() as int) is None,
        },
{
    let mut to = marks.len();
    while to > 0
        invariant
            to <= marks.len(),
            last_set(marks@, marks@.len() as int) == last_set(marks@, to as int),
        decreases to,
    {
        if marks[to - 1] {
            return Some(to - 1);
        }
        to = to - 1;
    }
    None
}

/// Whether `line` holds more than white space.
pub open spec fn is_nonblank(line: Seq<char>) -> bool {
    trimmed(line).len() > 0
}

/// [`is_nonblank`], as a test of lines.
pub open spec fn nonblank() -> spec_fn(Seq<char>) -> bool {
    |line: Seq<char>| is_nonblank(line)
}

/// Lines joined, if there are any.
pub open spec fn joined_if_any(kept: Seq<Seq<char>>) -> Option<Seq<char>> {
    if kept.len() == 0 {
        None
    } else {
        Some(joined(kept))
    }
}

/// Whether `line` holds more than white space.
pub fn nonblank_line(line: &String) -> (holds: bool)
    ensures
        holds == is_nonblank(line@),
{
    !trim(line.as_str()).as_str().is_empty()
}

/// Joins `kept`, if there is anything in it.
pub fn join_if_any(kept: &Vec<String>) -> (result: Option<String>)
    ensures
        optional_text(result) == joined_if_any(texts(kept@)),
{
    if kept.len() == 0 {
        None
    } else {
        Some(join_lines(kept))
    }
}

/// The lines from `from` up to `to`.
pub fn copy_lines(all: &Vec<String>, from: usize, to: usize) -> (part: Vec<String>)
    requires
        from <= to <= all.len(),
    ensures
        texts(part@) == texts(all@).subrange(from as int, to as int),
{
    let mut part: Vec<String> = Vec::new();
    for i in from..to
        invariant
            from <= to <= all.len(),
            texts(part@) == texts(all@).subrange(from as int, i as int),
    {
        proof {
            lemma_texts_push(part@, all@[i as int]);
        }
        part.push(all[i].clone());
        assert(texts(part@) =~= texts(all@).subrange(from as int, i + 1));
    }
    part
}

/// Whether `line` is among `all`.
pub fn has_line(all: &Vec<String>, line: &String) -> (found: bool)
    ensures
        found == texts(all@).contains(line@),
{
    for i in 0..all.len()
        invariant
            forall|j: int| 0 <= j < i ==> texts(all@)[j] != line@,
    {
        if all[i] == *line {
            assert(texts(all@)[i as int] == line@);
            return true;
        }
    }
    false
}

/// Whether `part` is left of `all` when some lines are taken out.
pub open spec fn is_part_of(part: Seq<Seq<char>>, all: Seq<Seq<char>>) -> bool
    decreases all.len(),
{
    if part.len() == 0 {
        true
    } else if all.len() == 0 {
        false
    } else {
        ||| part.last() == all.last() && is_part_of(part.drop_last(), all.drop_last())
        ||| is_part_of(part, all.drop_last())
    }
}

/// Picking by marks only takes lines out: what is picked keeps its order and is not changed.
pub proof fn marked_is_part(all: Seq<Seq<char>>, marks: Seq<bool>)
    ensures
        is_part_of(marked(all, marks), all),
        marked(all, marks).len() <= all.len(),
    decreases all.len(),
{
    if all.len() > 0 {
        marked_is_part(all.drop_last(), marks);
        let before = marked(all.drop_last(), marks);
        assert(before.push(all.last()).drop_last() =~= before);
    }
}

/// Picking by marks loses none of the lines whose mark is set.
pub proof fn marked_keeps_set(all: Seq<Seq<char>>, marks: Seq<bool>, i: int)
    requires
        0 <= i < all.len(),
        marks[i],
    ensures
        marked(all, marks).contains(all[i]),
    decreases all.len(),
{
    let before = marked(all.drop_last(), marks);
    if i == all.len() - 1 {
        assert(before.push(all.last())[before.len() as int] == all[i]);
    } else {
        marked_keeps_set(all.drop_last(), marks, i);
        let at = choose|at: int| 0 <= at < before.len() && before[at] == all[i];
        assert(before.push(all.last())[at] == all[i]);
    }
}

/// Marks that are not set pick nothing.
pub proof fn marked_ends_with_last_set(all: Seq<Seq<char>>, marks: Seq<bool>, n: int)
    requires
        0 <= n <= all.len(),
        forall|j: int| n <= j < all.len() ==> !marks[j],
    ensures
        marked(all, marks) == marked(all.take(n), marks),
    decreases all.len(),
{
    if n == all.len() {
        assert(all.take(n) =~= all);
    } else {
        marked_ends_with_last_set(all.drop_last(), marks, n);
        assert(all.drop_last().take(n) =~= all.take(n));
    }
}

/// What is left of the first lines when some are taken out is left of all the lines too.
pub proof fn part_of_first_lines(part: Seq<Seq<char>>, all: Seq<Seq<char>>, n: int)
    requires
        0 <= n <= all.len(),
        is_part_of(part, all.take(n)),
    ensures
        is_part_of(part, all),
    decreases all.len(),
{
    if n == all.len() {
        assert(all.take(n) =~= all);
    } else {
        assert(all.drop_last().take(n) =~= all.take(n));
        part_of_first_lines(part, all.drop_last(), n);
    }
}

/// The last set mark is set, and no mark behind it is.
pub proof fn last_set_is_last(marks: Seq<bool>, to: int)
    requires
        0 <= to <= marks.len(),
    ensures
        match last_set(marks, to) {
            Some(i) => 0 <= i < to && marks[i] && forall|j: int| i < j < to ==> !marks[j],
            None => forall|j: int| 0 <= j < to ==> !marks[j],
        },
    decreases to,
{
    if to > 0 && !marks[to - 1] {
        last_set_is_last(marks, to - 1);
    }
}

/// The first set mark is set, and no mark in front of it is.
pub proof fn first_set_is_first(marks: Seq<bool>, from: int)
    requires
        0 <= from <= marks.len(),
    ensures
        match first_set(marks, from) {
            Some(i) => from <= i < marks.len() && marks[i] && forall|j: int|
                from <= j < i ==> !marks[j],
            None => forall|j: int| from <= j < marks.len() ==> !marks[j],
        },
    decreases marks.len() - from,
{
    if from < marks.len() && !marks[from] {
        first_set_is_first(marks, from + 1);
    }
}

/// Whether `at` holds exactly the positions in front of `n` that `keep` holds of, in order.
pub open spec fn positions(at: Seq<int>, n: int, keep: spec_fn(int) -> bool) -> bool {
    &&& forall|k: int| 0 <= k < at.len() ==> 0 <= #[trigger] at[k] < n && keep(at[k])
    &&& forall|j: int, k: int| 0 <= j < k < at.len() ==> #[trigger] at[j] < #[trigger] at[k]
    &&& forall|i: int| 0 <= i < n && #[trigger] keep(i) ==> at.contains(i)
}

/// Whether `part` is made of the lines of `all` at the positions `at`.
pub open spec fn taken_at(part: Seq<Seq<char>>, all: Seq<Seq<char>>, at: Seq<int>) -> bool {
    &&& part.len() == at.len()
    &&& forall|k: int| 0 <= k < at.len() ==> #[trigger] part[k] == all[at[k]]
}

/// Whether `part` is made of exactly those lines of `all` at whose position `keep` holds, in
/// order.
pub open spec fn keeps_exactly(
    part: Seq<Seq<char>>,
    all: Seq<Seq<char>>,
    keep: spec_fn(int) -> bool,
) -> bool {
    exists|at: Seq<int>|
        #[trigger] positions(at, all.len() as int, keep) && taken_at(part, all, at)
}

/// Picking by marks keeps exactly the lines whose mark is set.
pub proof fn marked_keeps_exactly(
    all: Seq<Seq<char>>,
    marks: Seq<bool>,
    keep: spec_fn(int) -> bool,
)
    requires
        forall|i: int| 0 <= i < all.len() ==> #[trigger] keep(i) == marks[i],
    ensures
        keeps_exactly(marked(all, marks), all, keep),
{
    let at = lemma_marked_positions(all, marks, keep);
}

proof fn lemma_marked_positions(
    all: Seq<Seq<char>>,
    marks: Seq<bool>,
    keep: spec_fn(int) -> bool,
) -> (at: Seq<int>)
    requires
        forall|i: int| 0 <= i < all.len() ==> #[trigger] keep(i) == marks[i],
    ensures
        positions(at, all.len() as int, keep),
        taken_at(marked(all, marks), all, at),
    decreases all.len(),
{
    if all.len() == 0 {
        Seq::empty()
    } else {
        let n = all.len() - 1;
        let before = lemma_marked_positions(all.drop_last(), marks, keep);
        if marks[n] {
            let at = before.push(n);
            assert(keep(n));
            assert forall|i: int| 0 <= i < all.len() && #[trigger] keep(i) implies at.contains(
                i,
            ) by {
                if i < n {
                    assert(before.contains(i));
                    let k = choose|k: int| 0 <= k < before.len() && before[k] == i;
                    assert(at[k] == i);
                } else {
                    assert(at[before.len() as int] == n);
                }
            }
            at
        } else {
            assert(!keep(n));
            before
        }
    }
}

/// A test gives each line its own mark.
pub proof fn mark_is_the_test_of_its_line(
    all: Seq<Seq<char>>,
    test: spec_fn(Seq<char>) -> bool,
    i: int,
)
    requires
        0 <= i < all.len(),
    ensures
        marks_of(all, test).len() == all.len(),
        marks_of(all, test)[i] == test(all[i]),
{
}

/// Counting set marks counts the lines that pass the test.
pub proof fn count_is_that_of_lines(
    all: Seq<Seq<char>>,
    test: spec_fn(Seq<char>) -> bool,
    n: int,
)
    requires
        0 <= n <= all.len(),
    ensures
        count_set(marks_of(all, test), n) == all.take(n).filter(test).len(),
    decreases n,
{
    reveal(Seq::filter);
    if n > 0 {
        count_is_that_of_lines(all, test, n - 1);
        assert(all.take(n).drop_last() =~= all.take(n - 1));
    } else {
        assert(all.take(0) =~= Seq::<Seq<char>>::empty());
    }
}

/// A line is blank exactly where it is white space throughout.
pub proof fn blank_is_all_white_space(line: Seq<char>)
    ensures
        is_nonblank(line) <==> exists|i: int|
            0 <= i < line.len() && !is_white_space(#[trigger] line[i]),
        nonblank()(line) == is_nonblank(line),
{
    if exists|i: int| 0 <= i < line.len() && !is_white_space(#[trigger] line[i]) {
        let i = choose|i: int| 0 <= i < line.len() && !is_white_space(#[trigger] line[i]);
        trimmed_is_not_empty(line, i);
    }
    trimmed_takes_off_white_space(line);
    if trimmed(line).len() > 0 {
        let (front, back) = choose|front: Seq<char>, back: Seq<char>|
            line == #[trigger] (front + trimmed(line) + back) && (forall|i: int|
                0 <= i < front.len() ==> is_white_space(#[trigger] front[i])) && (forall|i: int|
                0 <= i < back.len() ==> is_white_space(#[trigger] back[i]));
        assert(line[front.len() as int] == trimmed(line)[0]);
    }
}

/// Lines are joined where there are any; no lines give nothing.
pub proof fn no_lines_give_nothing(kept: Seq<Seq<char>>)
    ensures
        joined_if_any(kept) == if kept.len() == 0 {
            None
        } else {
            Some(joined(kept))
        },
{
}

/// Whether `result` is those lines of `all` at whose position `keep` holds, joined; without
/// such a line it is nothing.
pub open spec fn selects(
    result: Option<Seq<char>>,
    all: Seq<Seq<char>>,
    keep: spec_fn(int) -> bool,
) -> bool {
    exists|part: Seq<Seq<char>>|
        #[trigger] keeps_exactly(part, all, keep) && result == if part.len() == 0 {
            None
        } else {
            Some(joined(part))
        }
}

} // verus!
