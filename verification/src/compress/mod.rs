//! A hook that shortens the output of tools before it is passed on.
//!
//! What a known command prints is reduced to the lines that matter for it. Any other long
//! output is reduced to its ends and its telling lines. What is still too long is cut to a
//! hard cap. Short output is left alone.

use vstd::prelude::*;
use vstd::utf8::encode_utf8;

use self::general::{capped_of, telling_of, tier2_compress, tier3_compress};
use self::git::{
    compress_git_diff, compress_git_log, compress_git_status, git_diff_of, git_log_of,
    git_status_of,
};
use self::patterns::Patterns;
use self::tools::{
    cargo_of, compress_cargo, compress_docker_logs, compress_ls_find, compress_make, compress_npm,
    compress_pip, docker_of, listing_of, make_of, npm_of, pip_of,
};
use crate::number::{decimal, push_decimal};
use crate::select::copy_lines;
use crate::text::{
    join_lines, joined, lines, lines_of, lower, optional_text, same_text, starts_with, texts,
    to_ascii_lowercase, trim, trimmed,
};

pub mod general;
pub mod git;
pub mod laws;
pub mod line_laws;
pub mod patterns;
pub mod size_laws;
pub mod tools;

verus! {

/// The tool whose output is that of a command.
pub const BASH: &'static str = "Bash";

/// Output of a command with fewer tokens is left alone.
pub const SHORT_OUTPUT: usize = 500;

/// Output of an unknown command is shortened only above this many tokens.
pub const LONG_OUTPUT: usize = 1500;

/// Output with more tokens falls under the hard cap where shortening does not help.
pub const HUGE_OUTPUT: usize = 5000;

/// How many tokens shortened output may have without falling under the hard cap.
pub const CAP: usize = 1500;

/// Output of other tools is shortened only above this many tokens.
pub const LONG_READ: usize = 1000;

/// How many lines of the output of other tools are kept.
pub const KEPT_READ_LINES: usize = 100;

/// About how many tokens a text has: one for every four bytes.
pub open spec fn tokens_of(text: Seq<char>) -> nat {
    encode_utf8(text).len() / 4
}

/// About how many tokens a text has.
pub fn estimate_tokens(text: &str) -> (tokens: usize)
    ensures
        tokens == tokens_of(text@),
{
    text.as_bytes().len() / 4
}

/// What is written under shortened output.
pub open spec fn footer(
    original_lines: nat,
    original_tokens: nat,
    compressed_tokens: nat,
) -> Seq<char> {
    "\n\n[Compressed by hook: "@ + decimal(original_lines) + " lines / ~"@ + decimal(
        original_tokens,
    ) + " tok → ~"@ + decimal(compressed_tokens) + " tok]"@
}

/// `compressed` with the footer under it.
pub open spec fn with_footer(
    compressed: Seq<char>,
    original_lines: nat,
    original_tokens: nat,
) -> Seq<char> {
    compressed + footer(original_lines, original_tokens, tokens_of(compressed))
}

/// Writes the footer under shortened output.
pub fn append_footer(compressed: String, original_lines: usize, original_tokens: usize) -> (result:
    String)
    ensures
        result@ == with_footer(compressed@, original_lines as nat, original_tokens as nat),
{
    let compressed_tokens = estimate_tokens(compressed.as_str());
    let ghost body = compressed@;
    let mut result = compressed;
    result.append("\n\n[Compressed by hook: ");
    push_decimal(&mut result, original_lines as u64);
    result.append(" lines / ~");
    push_decimal(&mut result, original_tokens as u64);
    result.append(" tok → ~");
    push_decimal(&mut result, compressed_tokens as u64);
    result.append(" tok]");
    assert(result@ =~= with_footer(body, original_lines as nat, original_tokens as nat));
    result
}

/// The commands whose output is known.
#[derive(Clone, Copy, PartialEq, Eq, Structural, Debug)]
pub enum Family {
    GitStatus,
    GitLog,
    GitDiff,
    Npm,
    Cargo,
    PipInstall,
    DockerLogs,
    LsOrFind,
    MakeOrCmake,
    Other,
}

/// Which command a command line runs, by how it begins.
pub open spec fn family_of(command: Seq<char>) -> Family {
    if "git status"@.is_prefix_of(command) || command == "git"@ {
        Family::GitStatus
    } else if "git log"@.is_prefix_of(command) {
        Family::GitLog
    } else if "git diff"@.is_prefix_of(command) {
        Family::GitDiff
    } else if "npm install"@.is_prefix_of(command) || "npm run"@.is_prefix_of(command) {
        Family::Npm
    } else if "cargo build"@.is_prefix_of(command) || "cargo test"@.is_prefix_of(command) {
        Family::Cargo
    } else if "pip install"@.is_prefix_of(command) {
        Family::PipInstall
    } else if "docker logs"@.is_prefix_of(command) {
        Family::DockerLogs
    } else if "ls"@.is_prefix_of(command) || "find"@.is_prefix_of(command) {
        Family::LsOrFind
    } else if "make"@.is_prefix_of(command) || "cmake"@.is_prefix_of(command) {
        Family::MakeOrCmake
    } else {
        Family::Other
    }
}

/// Whether a command line runs `git status`.
pub fn is_git_status(command: &str) -> (holds: bool)
    ensures
        holds == ("git status"@.is_prefix_of(command@) || command@ == "git"@),
{
    starts_with(command, "git status") || same_text(command, "git")
}

/// Whether a command line runs `git log`.
pub fn is_git_log(command: &str) -> (holds: bool)
    ensures
        holds == "git log"@.is_prefix_of(command@),
{
    starts_with(command, "git log")
}

/// Whether a command line runs `git diff`.
pub fn is_git_diff(command: &str) -> (holds: bool)
    ensures
        holds == "git diff"@.is_prefix_of(command@),
{
    starts_with(command, "git diff")
}

/// Whether a command line runs `npm install` or `npm run`.
pub fn is_npm(command: &str) -> (holds: bool)
    ensures
        holds == ("npm install"@.is_prefix_of(command@) || "npm run"@.is_prefix_of(command@)),
{
    starts_with(command, "npm install") || starts_with(command, "npm run")
}

/// Whether a command line runs `cargo build` or `cargo test`.
pub fn is_cargo(command: &str) -> (holds: bool)
    ensures
        holds == ("cargo build"@.is_prefix_of(command@) || "cargo test"@.is_prefix_of(command@)),
{
    starts_with(command, "cargo build") || starts_with(command, "cargo test")
}

/// Whether a command line runs `pip install`.
pub fn is_pip_install(command: &str) -> (holds: bool)
    ensures
        holds == "pip install"@.is_prefix_of(command@),
{
    starts_with(command, "pip install")
}

/// Whether a command line runs `docker logs`.
pub fn is_docker_logs(command: &str) -> (holds: bool)
    ensures
        holds == "docker logs"@.is_prefix_of(command@),
{
    starts_with(command, "docker logs")
}

/// Whether a command line begins with `ls` or `find`.
pub fn is_ls_or_find(command: &str) -> (holds: bool)
    ensures
        holds == ("ls"@.is_prefix_of(command@) || "find"@.is_prefix_of(command@)),
{
    starts_with(command, "ls") || starts_with(command, "find")
}

/// Whether a command line begins with `make` or `cmake`.
pub fn is_make_or_cmake(command: &str) -> (holds: bool)
    ensures
        holds == ("make"@.is_prefix_of(command@) || "cmake"@.is_prefix_of(command@)),
{
    starts_with(command, "make") || starts_with(command, "cmake")
}

/// Output of a command in short, by what is known of the command.
pub open spec fn by_family(family: Family, output: Seq<char>) -> Option<Seq<char>> {
    match family {
        Family::GitStatus => git_status_of(output),
        Family::GitLog => git_log_of(output),
        Family::GitDiff => git_diff_of(output),
        Family::Npm => npm_of(output),
        Family::Cargo => cargo_of(output),
        Family::PipInstall => pip_of(output),
        Family::DockerLogs => docker_of(output),
        Family::LsOrFind => listing_of(output),
        Family::MakeOrCmake => make_of(output),
        Family::Other => None,
    }
}

/// Which command a command line runs, whatever its white space around and its capitals.
pub open spec fn command_family(command: Seq<char>) -> Family {
    family_of(lower(trimmed(command)))
}

/// Shortens the output of a known command.
pub fn tier1_compress(patterns: &Patterns, command: &str, output: &str) -> (result: Option<String>)
    ensures
        optional_text(result) == by_family(command_family(command@), output@),
{
    let command = to_ascii_lowercase(trim(command).as_str());
    let command = command.as_str();
    if is_git_status(command) {
        return compress_git_status(output);
    }
    if is_git_log(command) {
        return compress_git_log(output);
    }
    if is_git_diff(command) {
        return compress_git_diff(patterns, output);
    }
    if is_npm(command) {
        return compress_npm(output);
    }
    if is_cargo(command) {
        return compress_cargo(patterns, output);
    }
    if is_pip_install(command) {
        return compress_pip(output);
    }
    if is_docker_logs(command) {
        return compress_docker_logs(output);
    }
    if is_ls_or_find(command) {
        return compress_ls_find(output);
    }
    if is_make_or_cmake(command) {
        return compress_make(output);
    }
    None
}

/// What is written where the output of a tool breaks off.
pub open spec fn read_note(total: nat, original_tokens: nat) -> Seq<char> {
    "[... truncated read output: "@ + decimal(total) + " lines / ~"@ + decimal(original_tokens)
        + " tok]"@
}

/// Output of a tool that runs no command, in short: its first lines and its size. Output that
/// is not long is left alone.
pub open spec fn read_output_of(output: Seq<char>) -> Option<Seq<char>> {
    let all = lines_of(output);
    let kept = if all.len() < KEPT_READ_LINES {
        all
    } else {
        all.take(KEPT_READ_LINES as int)
    };
    if tokens_of(output) <= LONG_READ || all.len() == 0 {
        None
    } else {
        Some(joined(kept).push('\n') + read_note(all.len(), tokens_of(output)))
    }
}

/// Shortens the output of a tool that runs no command.
pub fn compress_read_output(output: &str) -> (result: Option<String>)
    ensures
        optional_text(result) == read_output_of(output@),
{
    let original_tokens = estimate_tokens(output);
    if original_tokens <= LONG_READ {
        return None;
    }
    let all = lines(output);
    if all.len() == 0 {
        return None;
    }
    let total = all.len();
    let kept = if total < KEPT_READ_LINES {
        total
    } else {
        KEPT_READ_LINES
    };
    let mut rendered = join_lines(&copy_lines(&all, 0, kept));
    rendered.push('\n');
    let ghost body = rendered@;
    rendered.append("[... truncated read output: ");
    push_decimal(&mut rendered, total as u64);
    rendered.append(" lines / ~");
    push_decimal(&mut rendered, original_tokens as u64);
    rendered.append(" tok]");
    proof {
        assert(rendered@ =~= body + read_note(total as nat, original_tokens as nat));
        assert(texts(all@).subrange(0, total as int) =~= texts(all@));
    }
    Some(rendered)
}

/// Shortened output of a command, under the hard cap where it is still too long, with the
/// footer.
pub open spec fn finished(compressed: Seq<char>, output: Seq<char>) -> Seq<char> {
    let original_lines = lines_of(output).len();
    let original_tokens = tokens_of(output);
    if original_tokens > HUGE_OUTPUT && tokens_of(compressed) > CAP {
        with_footer(
            capped_of(output, original_lines, original_tokens),
            original_lines,
            original_tokens,
        )
    } else {
        with_footer(compressed, original_lines, original_tokens)
    }
}

/// Puts shortened output of a command under the hard cap where it is still too long, and
/// writes the footer.
pub fn finish(compressed: String, output: &str) -> (result: String)
    ensures
        result@ == finished(compressed@, output@),
{
    let original_tokens = estimate_tokens(output);
    let original_lines = lines(output).len();
    let compressed = if original_tokens > HUGE_OUTPUT && estimate_tokens(compressed.as_str())
        > CAP {
        tier3_compress(output, original_lines, original_tokens)
    } else {
        compressed
    };
    append_footer(compressed, original_lines, original_tokens)
}

/// What is passed on in place of the output of a tool, if anything is. `command` is the
/// command line that the tool ran.
pub open spec fn compressed_of(
    tool_name: Seq<char>,
    command: Option<Seq<char>>,
    output: Seq<char>,
) -> Option<Seq<char>> {
    let known = match command {
        Some(command) => by_family(command_family(command), output),
        None => None,
    };
    if tool_name != BASH@ {
        match read_output_of(output) {
            Some(compressed) => Some(
                with_footer(compressed, lines_of(output).len(), tokens_of(output)),
            ),
            None => None,
        }
    } else if tokens_of(output) < SHORT_OUTPUT {
        None
    } else if known is Some {
        Some(finished(known->0, output))
    } else if tokens_of(output) > LONG_OUTPUT {
        Some(finished(telling_of(output), output))
    } else {
        None
    }
}

/// Shortens the output of a tool, where that is worth while.
pub fn compress(patterns: &Patterns, tool_name: &str, command: Option<&str>, output: &str) -> (result:
    Option<String>)
    ensures
        optional_text(result) == compressed_of(
            tool_name@,
            (match command {
                Some(command) => Some(command@),
                None => None,
            }),
            output@,
        ),
{
    let original_tokens = estimate_tokens(output);
    if !same_text(tool_name, BASH) {
        return match compress_read_output(output) {
            Some(compressed) => Some(
                append_footer(compressed, lines(output).len(), original_tokens),
            ),
            None => None,
        };
    }
    if original_tokens < SHORT_OUTPUT {
        return None;
    }
    if let Some(command) = command {
        if let Some(compressed) = tier1_compress(patterns, command, output) {
            return Some(finish(compressed, output));
        }
    }
    if original_tokens > LONG_OUTPUT {
        return Some(finish(tier2_compress(patterns, output), output));
    }
    None
}

/// What the hook learns of the use of a tool; each part may be missing.
pub struct HookInput {
    pub tool_name: Option<String>,
    /// The command line that the tool ran.
    pub command: Option<String>,
    pub tool_output: Option<String>,
}

/// What the hook answers.
pub struct HookOutput {
    pub updated_tool_output: String,
}

/// The text of a [`HookInput`].
pub struct HookInputView {
    pub tool_name: Option<Seq<char>>,
    pub command: Option<Seq<char>>,
    pub tool_output: Option<Seq<char>>,
}

impl View for HookInput {
    type V = HookInputView;

    open spec fn view(&self) -> HookInputView {
        HookInputView {
            tool_name: optional_text(self.tool_name),
            command: optional_text(self.command),
            tool_output: optional_text(self.tool_output),
        }
    }
}

/// What the hook answers, if it answers at all. Input that does not tell the tool and its
/// output gets no answer.
pub open spec fn answer_of(input: HookInputView) -> Option<Seq<char>> {
    match (input.tool_name, input.tool_output) {
        (Some(tool_name), Some(output)) => compressed_of(tool_name, input.command, output),
        _ => None,
    }
}

/// Answers the use of a tool. `input` is absent where it is malformed, which gets no answer.
pub fn process_input(patterns: &Patterns, input: Option<HookInput>) -> (answer: Option<HookOutput>)
    ensures
        input is None ==> answer is None,
        input matches Some(input) ==> match answer {
            Some(answer) => answer_of(input@) == Some(answer.updated_tool_output@),
            None => answer_of(input@) is None,
        },
{
    let input = match input {
        Some(input) => input,
        None => return None,
    };
    let tool_name = match input.tool_name {
        Some(tool_name) => tool_name,
        None => return None,
    };
    let tool_output = match input.tool_output {
        Some(tool_output) => tool_output,
        None => return None,
    };
    let compressed = match input.command {
        Some(command) => compress(
            patterns,
            tool_name.as_str(),
            Some(command.as_str()),
            tool_output.as_str(),
        ),
        None => compress(patterns, tool_name.as_str(), None, tool_output.as_str()),
    };
    match compressed {
        Some(updated_tool_output) => Some(HookOutput { updated_tool_output }),
        None => None,
    }
}

} // verus!
