//! What holds of shortened output as a whole.

use vstd::prelude::*;

use super::general::{
    capped_lines, folded, general_marks, normalized, run_end, run_len, CAPPED_HEAD, CAPPED_TAIL,
    KEPT_HEAD, KEPT_TAIL,
};
use super::git::{body_len, diff_alert, diff_marks, diff_stat, log_entries};
use super::tools::{
    cargo_diagnostic, cargo_marks, docker_marks, is_make_error, is_npm_problem, make_error,
    npm_problem, pip_report, with_last_line,
};
use super::{
    answer_of, by_family, command_family, compressed_of, tokens_of, with_footer, Family,
    HookInputView, BASH, LONG_OUTPUT, LONG_READ, SHORT_OUTPUT,
};
use crate::select::{
    is_nonblank, is_part_of, last_set, last_set_is_last, marked, marked_ends_with_last_set,
    marked_is_part, marked_keeps_set, marks_of, nonblank, part_of_first_lines,
};
use crate::text::{
    joined, lines_of, lower, lower_twice, occurs_at, trimmed, trimmed_is_not_empty, trimmed_lower,
    trimmed_twice,
};

verus! {

/// Short output is left alone: that of a command, and that of any other tool.
pub proof fn short_output_is_left_alone(
    tool_name: Seq<char>,
    command: Option<Seq<char>>,
    output: Seq<char>,
)
    ensures
        tool_name == BASH@ && tokens_of(output) < SHORT_OUTPUT ==> compressed_of(
            tool_name,
            command,
            output,
        ) is None,
        tool_name != BASH@ && tokens_of(output) <= LONG_READ ==> compressed_of(
            tool_name,
            command,
            output,
        ) is None,
{
}

/// Long output of a command is always shortened, whatever the command.
pub proof fn long_output_is_shortened(command: Option<Seq<char>>, output: Seq<char>)
    requires
        tokens_of(output) > LONG_OUTPUT,
    ensures
        compressed_of(BASH@, command, output) is Some,
{
    assert(LONG_OUTPUT >= SHORT_OUTPUT);
}

/// Output of an unknown command that is not long is left alone.
pub proof fn unknown_command_needs_long_output(command: Option<Seq<char>>, output: Seq<char>)
    requires
        command matches Some(command) ==> command_family(command) == Family::Other,
        tokens_of(output) <= LONG_OUTPUT,
    ensures
        compressed_of(BASH@, command, output) is None,
{
}

/// What a tool that runs no command was given for a command does not matter.
pub proof fn only_bash_has_a_command(
    tool_name: Seq<char>,
    command: Option<Seq<char>>,
    other: Option<Seq<char>>,
    output: Seq<char>,
)
    requires
        tool_name != BASH@,
    ensures
        compressed_of(tool_name, command, output) == compressed_of(tool_name, other, output),
{
}

/// Shortened output always ends with the footer, and the footer tells the size of the whole
/// output and of what stands above it.
pub proof fn shortened_output_has_footer(
    tool_name: Seq<char>,
    command: Option<Seq<char>>,
    output: Seq<char>,
)
    ensures
        compressed_of(tool_name, command, output) matches Some(result) ==> exists|body: Seq<char>|
            result == #[trigger] with_footer(body, lines_of(output).len(), tokens_of(output)),
{
}

/// Input that does not tell the tool or its output gets no answer.
pub proof fn incomplete_input_has_no_answer(input: HookInputView)
    requires
        input.tool_name is None || input.tool_output is None,
    ensures
        answer_of(input) is None,
{
}

/// The general reduction keeps lines as they are and in order, and loses neither the lines
/// that are worth keeping nor those at the front and end.
pub proof fn general_reduction_keeps_lines(all: Seq<Seq<char>>, signals: Seq<bool>, i: int)
    requires
        signals.len() == all.len(),
        0 <= i < all.len(),
        signals[i] || i < KEPT_HEAD || i >= all.len() - KEPT_TAIL,
    ensures
        is_part_of(marked(all, general_marks(all, signals)), all),
        marked(all, general_marks(all, signals)).contains(all[i]),
{
    marked_is_part(all, general_marks(all, signals));
    marked_keeps_set(all, general_marks(all, signals), i);
}

/// A run of similar lines ends where the lines end, at the latest.
pub proof fn lemma_run_len(all: Seq<Seq<char>>, from: int, key: Seq<char>)
    requires
        from <= all.len(),
    ensures
        from + run_len(all, from, key) <= all.len(),
    decreases all.len() - from,
{
    if from < all.len() && normalized(all[from]) == key {
        lemma_run_len(all, from + 1, key);
    }
}

/// Folding runs of similar lines never makes lines more.
pub proof fn folding_never_grows(all: Seq<Seq<char>>, from: int)
    requires
        0 <= from <= all.len(),
    ensures
        folded(all, from).len() <= all.len() - from,
    decreases all.len() - from,
{
    if from < all.len() {
        lemma_run_len(all, from + 1, normalized(all[from]));
        folding_never_grows(all, run_end(all, from));
    }
}

/// The lines of a run are all similar to its first.
proof fn lemma_run_similar(all: Seq<Seq<char>>, from: int, key: Seq<char>, i: int)
    requires
        from <= i < from + run_len(all, from, key),
    ensures
        normalized(all[i]) == key,
    decreases i - from,
{
    if from < i {
        lemma_run_similar(all, from + 1, key, i);
    }
}

/// Lines of which no three in a row are similar are not folded.
pub proof fn folding_needs_three(all: Seq<Seq<char>>, from: int)
    requires
        0 <= from <= all.len(),
        forall|i: int|
            from <= i < all.len() - 2 && normalized(all[i]) == normalized(#[trigger] all[i + 1])
                ==> normalized(all[i]) != normalized(all[i + 2]),
    ensures
        folded(all, from) == all.skip(from),
    decreases all.len() - from,
{
    if from < all.len() {
        let key = normalized(all[from]);
        let end = run_end(all, from);
        lemma_run_len(all, from + 1, key);
        if end - from >= 3 {
            lemma_run_similar(all, from + 1, key, from + 1);
            lemma_run_similar(all, from + 1, key, from + 2);
        }
        folding_needs_three(all, end);
        assert(all.subrange(from, end) + all.skip(end) =~= all.skip(from));
    } else {
        assert(all.skip(from) =~= Seq::<Seq<char>>::empty());
    }
}

/// Under the hard cap there are no more lines than those kept at the front and end, and a
/// mark between them; the front is that of the output.
pub proof fn cap_bounds_lines(all: Seq<Seq<char>>)
    ensures
        capped_lines(all).len() <= CAPPED_HEAD + 1 + CAPPED_TAIL,
        all.len() <= CAPPED_HEAD ==> capped_lines(all) == all,
        all.len() > CAPPED_HEAD ==> capped_lines(all).take(CAPPED_HEAD as int) == all.take(
            CAPPED_HEAD as int,
        ),
        all.len() > CAPPED_HEAD + CAPPED_TAIL ==> capped_lines(all).skip(CAPPED_HEAD + 1)
            == all.skip(all.len() - CAPPED_TAIL),
{
    if all.len() > CAPPED_HEAD {
        assert(capped_lines(all).take(CAPPED_HEAD as int) =~= all.take(CAPPED_HEAD as int));
    }
    if all.len() > CAPPED_HEAD + CAPPED_TAIL {
        assert(capped_lines(all).skip(CAPPED_HEAD + 1) =~= all.skip(all.len() - CAPPED_TAIL));
    }
}

/// A log in short has at most two lines for each commit that it keeps.
pub proof fn log_bounds_lines(all: Seq<Seq<char>>, from: int, room: int)
    requires
        room >= 0,
    ensures
        log_entries(all, from, room).len() <= 2 * room,
    decreases room, all.len() - from,
{
    if from < all.len() && room > 0 {
        log_bounds_lines(all, from + 1, room);
        log_bounds_lines(all, from + 1 + body_len(all, from + 1), room - 1);
    }
}

/// A command is recognized whatever its capitals and the white space around it.
pub proof fn command_is_recognized_despite_case_and_padding(command: Seq<char>)
    ensures
        command_family(lower(command)) == command_family(command),
        command_family(trimmed(command)) == command_family(command),
{
    trimmed_lower(command);
    lower_twice(trimmed(command));
    trimmed_twice(command);
}

/// A line that a tool complains in is not blank.
pub proof fn lemma_complaints_are_not_blank(line: Seq<char>)
    ensures
        is_npm_problem(line) ==> is_nonblank(line),
        is_make_error(line) ==> is_nonblank(line),
{
    reveal_strlit("ERR!");
    reveal_strlit("WARN");
    reveal_strlit("error");
    if is_npm_problem(line) {
        let at = choose|at: int| occurs_at("ERR!"@, line, at) || occurs_at("WARN"@, line, at);
        if occurs_at("ERR!"@, line, at) {
            assert(line.subrange(at, at + 4)[0] == 'E');
        } else {
            assert(line.subrange(at, at + 4)[0] == 'W');
        }
        trimmed_is_not_empty(line, at);
    }
    if is_make_error(line) {
        let at = choose|at: int| occurs_at("error"@, lower(line), at);
        assert(lower(line).subrange(at, at + 5)[0] == 'e');
        trimmed_is_not_empty(line, at);
    }
}

/// Adding the last line that is not blank behind picked lines that are not blank does not
/// break their order.
pub proof fn last_line_keeps_order(all: Seq<Seq<char>>, test: spec_fn(Seq<char>) -> bool)
    requires
        forall|line: Seq<char>| #[trigger] test(line) ==> is_nonblank(line),
    ensures
        is_part_of(with_last_line(marked(all, marks_of(all, test)), all), all),
{
    let marks = marks_of(all, test);
    let kept = marked(all, marks);
    marked_is_part(all, marks);
    last_set_is_last(marks_of(all, nonblank()), all.len() as int);
    if let Some(i) = last_set(marks_of(all, nonblank()), all.len() as int) {
        if !kept.contains(all[i]) {
            if marks[i] {
                marked_keeps_set(all, marks, i);
            }
            assert forall|j: int| i <= j < all.len() implies !marks[j] by {
                if i < j && marks[j] {
                    assert(test(all[j]));
                    assert(marks_of(all, nonblank())[j]);
                }
            }
            marked_ends_with_last_set(all, marks, i);
            marked_is_part(all.take(i), marks);
            assert(all.take(i + 1).drop_last() =~= all.take(i));
            assert(kept.push(all[i]).drop_last() =~= kept);
            assert(is_part_of(kept.push(all[i]), all.take(i + 1)));
            part_of_first_lines(kept.push(all[i]), all, i + 1);
        }
    }
}

/// Whether the output of a command is shortened by taking lines out alone.
pub open spec fn only_takes_lines_out(family: Family) -> bool {
    ||| family == Family::GitDiff
    ||| family == Family::Npm
    ||| family == Family::Cargo
    ||| family == Family::PipInstall
    ||| family == Family::DockerLogs
    ||| family == Family::MakeOrCmake
}

/// The lines of a diff, of the build tools and of a log are not changed, not added to and not
/// put in another order: they are shortened by taking lines out.
pub proof fn known_output_only_loses_lines(family: Family, output: Seq<char>)
    requires
        only_takes_lines_out(family),
    ensures
        by_family(family, output) matches Some(result) ==> exists|part: Seq<Seq<char>>|
            #[trigger] is_part_of(part, lines_of(output)) && result == joined(part),
{
    let all = lines_of(output);
    match family {
        Family::GitDiff => {
            marked_is_part(
                all,
                diff_marks(all, marks_of(all, diff_stat()), marks_of(all, diff_alert())),
            );
        },
        Family::Cargo => {
            marked_is_part(all, cargo_marks(all, marks_of(all, cargo_diagnostic())));
        },
        Family::PipInstall => {
            marked_is_part(all, marks_of(all, pip_report()));
        },
        Family::DockerLogs => {
            marked_is_part(all, docker_marks(all));
        },
        Family::Npm => {
            assert forall|line: Seq<char>| #[trigger] npm_problem()(line) implies is_nonblank(
                line,
            ) by {
                lemma_complaints_are_not_blank(line);
            }
            last_line_keeps_order(all, npm_problem());
        },
        Family::MakeOrCmake => {
            assert forall|line: Seq<char>| #[trigger] make_error()(line) implies is_nonblank(
                line,
            ) by {
                lemma_complaints_are_not_blank(line);
            }
            last_line_keeps_order(all, make_error());
        },
        _ => {},
    }
}

} // verus!
