//! When output is shortened, by what, and what is written about its size.

use vstd::prelude::*;
use vstd::utf8::encode_utf8;

use super::general::{capped_of, telling_of};
use super::git::{git_diff_of, git_log_of, git_status_of};
use super::tools::{cargo_of, docker_of, listing_of, make_of, npm_of, pip_of};
use super::{
    answer_of, by_family, command_family, compressed_of, finished, read_output_of, tokens_of,
    with_footer, HookInput, HookInputView,
};
use crate::number::decimal;
use crate::text::{joined, lines_of, lower, trimmed};

verus! {

/// A token is four bytes; fewer that are left over do not count.
pub proof fn token_is_four_bytes(text: Seq<char>)
    ensures
        4 * tokens_of(text) <= encode_utf8(text).len() < 4 * tokens_of(text) + 4,
{
}

/// Shortened output stands above its footer as it is, and the footer tells the lines and
/// tokens of the whole output and the tokens of the shortened one, in this order.
pub proof fn footer_tells_sizes(compressed: Seq<char>, original_lines: nat, original_tokens: nat)
    ensures
        with_footer(compressed, original_lines, original_tokens) == compressed
            + "\n\n[Compressed by hook: "@ + decimal(original_lines) + " lines / ~"@ + decimal(
            original_tokens,
        ) + " tok → ~"@ + decimal(encode_utf8(compressed).len() / 4) + " tok]"@,
{
    assert(with_footer(compressed, original_lines, original_tokens) =~= compressed
        + "\n\n[Compressed by hook: "@ + decimal(original_lines) + " lines / ~"@ + decimal(
        original_tokens,
    ) + " tok → ~"@ + decimal(encode_utf8(compressed).len() / 4) + " tok]"@);
}

/// Under the hard cap an output of more than forty lines keeps its first thirty and its last
/// ten, with a mark between them; one of more than thirty lines keeps its first thirty; a
/// shorter one keeps all. Its size is told below. Empty output stays empty.
pub proof fn cap_keeps_both_ends(output: Seq<char>, original_lines: nat, original_tokens: nat)
    ensures
        ({
            let all = lines_of(output);
            let note = "\n[... original "@ + decimal(original_lines) + " lines / ~"@ + decimal(
                original_tokens,
            ) + " tok ...]"@;
            let capped = capped_of(output, original_lines, original_tokens);
            &&& all.len() == 0 ==> capped.len() == 0
            &&& 0 < all.len() <= 30 ==> capped == joined(all) + note
            &&& 30 < all.len() <= 40 ==> capped == joined(all.take(30)) + note
            &&& all.len() > 40 ==> capped == joined(
                all.take(30) + seq!["[... hard-capped output ...]"@] + all.skip(all.len() - 10),
            ) + note
        }),
{
    let all = lines_of(output);
    if all.len() > 40 {
        assert(all.take(30).push("[... hard-capped output ...]"@) =~= all.take(30) + seq![
            "[... hard-capped output ...]"@,
        ]);
    }
}

/// A listing of up to thirty entries is kept as it is. Of a longer one the first thirty are
/// kept, and it is told how many there are.
pub proof fn listing_keeps_first_entries(output: Seq<char>)
    ensures
        ({
            let all = lines_of(output);
            &&& all.len() == 0 ==> listing_of(output) is None
            &&& 0 < all.len() <= 30 ==> listing_of(output) == Some(joined(all))
            &&& all.len() > 30 ==> listing_of(output) == Some(
                joined(all.take(30)) + "\n[... "@ + decimal(all.len()) + " total entries]"@,
            )
        }),
{
    let all = lines_of(output);
    reveal_strlit("\n[... ");
    reveal_strlit("[... ");
    assert(joined(all.take(30)).push('\n') + "[... "@ =~= joined(all.take(30)) + "\n[... "@);
}

/// What a tool that runs no command gives is left alone up to a thousand tokens. Of more the
/// first hundred lines are kept, and its size is told.
pub proof fn read_output_keeps_first_lines(output: Seq<char>)
    ensures
        ({
            let all = lines_of(output);
            let bytes = encode_utf8(output).len();
            let kept = if all.len() < 100 {
                all
            } else {
                all.take(100)
            };
            &&& bytes < 4004 ==> read_output_of(output) is None
            &&& bytes >= 4004 ==> read_output_of(output) == Some(
                joined(kept) + "\n[... truncated read output: "@ + decimal(all.len())
                    + " lines / ~"@ + decimal(bytes / 4) + " tok]"@,
            )
        }),
{
    let all = lines_of(output);
    let kept = if all.len() < 100 {
        all
    } else {
        all.take(100)
    };
    if output.len() == 0 {
        assert(encode_utf8(output).len() == 0);
    } else {
        assert(all.len() > 0);
    }
    reveal_strlit("\n[... truncated read output: ");
    reveal_strlit("[... truncated read output: ");
    let rest = decimal(all.len()) + " lines / ~"@ + decimal(tokens_of(output)) + " tok]"@;
    assert(joined(kept).push('\n') + "[... truncated read output: "@ =~= joined(kept)
        + "\n[... truncated read output: "@);
    if encode_utf8(output).len() >= 4004 {
        assert(read_output_of(output)->0 =~= joined(kept) + "\n[... truncated read output: "@
            + decimal(all.len()) + " lines / ~"@ + decimal(encode_utf8(output).len() / 4)
            + " tok]"@);
    }
}

/// What a command printed is cut to the hard cap exactly where it has more than five thousand
/// tokens and more than fifteen hundred are left of it; either way the footer is written.
pub proof fn cap_is_for_what_stays_long(compressed: Seq<char>, output: Seq<char>)
    ensures
        ({
            let lines = lines_of(output).len();
            let tokens = encode_utf8(output).len() / 4;
            finished(compressed, output) == with_footer(
                if encode_utf8(output).len() >= 20004 && encode_utf8(compressed).len() >= 6004 {
                    capped_of(output, lines, tokens)
                } else {
                    compressed
                },
                lines,
                tokens,
            )
        }),
{
}

proof fn lemma_prefix(prefix: Seq<char>, text: Seq<char>)
    ensures
        prefix.is_prefix_of(text) ==> forall|i: int|
            0 <= i < prefix.len() ==> text[i] == #[trigger] prefix[i],
{
    if prefix.is_prefix_of(text) {
        assert forall|i: int| 0 <= i < prefix.len() implies text[i] == #[trigger] prefix[i] by {
            assert(text.subrange(0, prefix.len() as int)[i] == prefix[i]);
        }
    }
}

/// A command is known by how it begins, once white space around it is taken off and its
/// capitals are made small; what it printed is then shortened in the way made for it. No other
/// command is known.
pub proof fn commands_are_known_by_their_beginning(command: Seq<char>, output: Seq<char>)
    ensures
        ({
            let line = lower(trimmed(command));
            let result = by_family(command_family(command), output);
            let git_status = "git status"@.is_prefix_of(line) || line == "git"@;
            let git_log = "git log"@.is_prefix_of(line);
            let git_diff = "git diff"@.is_prefix_of(line);
            let npm = "npm install"@.is_prefix_of(line) || "npm run"@.is_prefix_of(line);
            let cargo = "cargo build"@.is_prefix_of(line) || "cargo test"@.is_prefix_of(line);
            let pip = "pip install"@.is_prefix_of(line);
            let docker = "docker logs"@.is_prefix_of(line);
            let listing = "ls"@.is_prefix_of(line) || "find"@.is_prefix_of(line);
            let make = "make"@.is_prefix_of(line) || "cmake"@.is_prefix_of(line);
            &&& git_status ==> result == git_status_of(output)
            &&& git_log ==> result == git_log_of(output)
            &&& git_diff ==> result == git_diff_of(output)
            &&& npm ==> result == npm_of(output)
            &&& cargo ==> result == cargo_of(output)
            &&& pip ==> result == pip_of(output)
            &&& docker ==> result == docker_of(output)
            &&& listing ==> result == listing_of(output)
            &&& make ==> result == make_of(output)
            &&& !(git_status || git_log || git_diff || npm || cargo || pip || docker || listing
                || make) ==> result is None
        }),
{
    let line = lower(trimmed(command));
    reveal_strlit("git status");
    reveal_strlit("git");
    reveal_strlit("git log");
    reveal_strlit("git diff");
    reveal_strlit("npm install");
    reveal_strlit("npm run");
    reveal_strlit("cargo build");
    reveal_strlit("cargo test");
    reveal_strlit("pip install");
    reveal_strlit("docker logs");
    reveal_strlit("ls");
    reveal_strlit("find");
    reveal_strlit("make");
    reveal_strlit("cmake");
    lemma_prefix("git status"@, line);
    lemma_prefix("git log"@, line);
    lemma_prefix("git diff"@, line);
    lemma_prefix("npm install"@, line);
    lemma_prefix("npm run"@, line);
    lemma_prefix("cargo build"@, line);
    lemma_prefix("cargo test"@, line);
    lemma_prefix("pip install"@, line);
    lemma_prefix("docker logs"@, line);
    lemma_prefix("ls"@, line);
    lemma_prefix("find"@, line);
    lemma_prefix("make"@, line);
    lemma_prefix("cmake"@, line);
    assert("git status"@[0] == 'g' && "git status"@[4] == 's');
    assert("git"@[0] == 'g');
    assert("git log"@[0] == 'g' && "git log"@[4] == 'l');
    assert("git diff"@[0] == 'g' && "git diff"@[4] == 'd');
    assert("npm install"@[0] == 'n' && "npm run"@[0] == 'n');
    assert("cargo build"@[0] == 'c' && "cargo build"@[1] == 'a');
    assert("cargo test"@[0] == 'c' && "cargo test"@[1] == 'a');
    assert("pip install"@[0] == 'p');
    assert("docker logs"@[0] == 'd');
    assert("ls"@[0] == 'l' && "find"@[0] == 'f');
    assert("make"@[0] == 'm');
    assert("cmake"@[0] == 'c' && "cmake"@[1] == 'm');
}

/// What a command printed is left alone below five hundred tokens. From there on a known
/// command has it shortened in its own way; where that gives nothing, and for any other
/// command, it is reduced to what is telling, but only above fifteen hundred tokens.
pub proof fn command_output_is_shortened_by_size(command: Option<Seq<char>>, output: Seq<char>)
    ensures
        ({
            let bytes = encode_utf8(output).len();
            let result = compressed_of("Bash"@, command, output);
            let known = match command {
                Some(command) => by_family(command_family(command), output),
                None => None,
            };
            &&& bytes < 2000 ==> result is None
            &&& bytes >= 2000 ==> (known matches Some(compressed) ==> result == Some(
                finished(compressed, output),
            ))
            &&& 2000 <= bytes < 6004 && known is None ==> result is None
            &&& bytes >= 6004 && known is None ==> result == Some(
                finished(telling_of(output), output),
            )
        }),
{
}

/// What any other tool gives is shortened as read output, whatever is said of a command, and
/// the footer is written.
pub proof fn other_output_is_shortened_as_read(
    tool_name: Seq<char>,
    command: Option<Seq<char>>,
    output: Seq<char>,
)
    requires
        tool_name != "Bash"@,
    ensures
        read_output_of(output) is None ==> compressed_of(tool_name, command, output) is None,
        read_output_of(output) matches Some(compressed) ==> compressed_of(
            tool_name,
            command,
            output,
        ) == Some(
            with_footer(compressed, lines_of(output).len(), encode_utf8(output).len() / 4),
        ),
{
}

/// The answer to the use of a tool is its output in short, and there is none without a tool
/// and its output.
pub proof fn answer_is_the_output_in_short(
    tool_name: Seq<char>,
    command: Option<Seq<char>>,
    output: Seq<char>,
)
    ensures
        answer_of(
            HookInputView { tool_name: Some(tool_name), command, tool_output: Some(output) },
        ) == compressed_of(tool_name, command, output),
        answer_of(
            HookInputView { tool_name: None, command, tool_output: Some(output) },
        ) is None,
        answer_of(
            HookInputView { tool_name: Some(tool_name), command, tool_output: None },
        ) is None,
        answer_of(HookInputView { tool_name: None, command, tool_output: None }) is None,
{
}

/// What the hook learns is seen as it is.
pub proof fn input_views_are_faithful(input: HookInput)
    ensures
        input@.tool_name is Some <==> input.tool_name is Some,
        input.tool_name matches Some(text) ==> input@.tool_name == Some(text@),
        input@.command is Some <==> input.command is Some,
        input.command matches Some(text) ==> input@.command == Some(text@),
        input@.tool_output is Some <==> input.tool_output is Some,
        input.tool_output matches Some(text) ==> input@.tool_output == Some(text@),
{
}

} // verus!
