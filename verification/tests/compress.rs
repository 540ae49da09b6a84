use hooks::compress::general::{
    dedup_similar, is_signal_line, is_trace_line, keep_telling_lines, normalize_for_similarity,
    tier2_compress, tier3_compress,
};
use hooks::compress::git::{
    compress_git_diff, compress_git_log, compress_git_status, keep_diff_lines,
};
use hooks::compress::patterns::{
    usable, Patterns, CARGO_ERROR, CARGO_WARNING, DIFF_ALERT, DIFF_STAT, SIGNAL, TEST_RUNNER,
    WORD_COUNT,
};
use hooks::compress::tools::{
    compress_cargo, compress_docker_logs, compress_ls_find, compress_make, compress_npm,
    compress_pip, keep_cargo_lines,
};
use hooks::compress::{
    append_footer, compress, compress_read_output, estimate_tokens, finish, is_cargo,
    is_docker_logs, is_git_diff, is_git_log, is_git_status, is_ls_or_find, is_make_or_cmake,
    is_npm, is_pip_install, process_input, tier1_compress, HookInput,
};

fn patterns() -> Patterns {
    Patterns::compile().expect("the patterns compile")
}

fn owned(words: &[&str]) -> Vec<String> {
    words.iter().map(|word| word.to_string()).collect()
}

fn hook_input(tool_name: &str, command: Option<&str>, output: &str) -> HookInput {
    HookInput {
        tool_name: Some(tool_name.to_string()),
        command: if tool_name == "Bash" {
            Some(command.unwrap_or("").to_string())
        } else {
            None
        },
        tool_output: Some(output.to_string()),
    }
}

fn run_hook(input: HookInput) -> Option<String> {
    process_input(&patterns(), Some(input)).map(|answer| answer.updated_tool_output)
}

#[test]
fn pass_through_small_output() {
    let input = hook_input("Bash", Some("git status"), "small output");
    assert_eq!(None, run_hook(input));
}

#[test]
fn tier1_git_status_compression() {
    let mut body = String::from("On branch main\nChanges not staged for commit:\n");
    for i in 0..80 {
        body.push_str(&format!("\tmodified:   src/file_{i}.rs\n"));
    }

    let output = run_hook(hook_input("Bash", Some("git status"), &body))
        .expect("compressed output expected");

    assert!(output.contains("On branch main"));
    assert!(output.contains("Changed files: 80"));
    assert!(output.contains("file_0.rs"));
    assert!(!output.contains("file_40.rs"));
    assert!(output.contains("Compressed by hook"));
}

#[test]
fn tier1_npm_install_compression() {
    let mut body = String::new();
    for i in 0..400 {
        body.push_str(&format!("fetching package {i}\n"));
    }
    body.push_str("npm WARN deprecated package-x@1.0.0\n");
    body.push_str("npm ERR! code ERESOLVE\n");
    body.push_str("added 32 packages, and audited 32 packages in 1s\n");

    let output = run_hook(hook_input("Bash", Some("npm install"), &body))
        .expect("compressed output expected");

    assert!(output.contains("npm WARN"));
    assert!(output.contains("npm ERR!"));
    assert!(output.contains("added 32 packages"));
    assert!(!output.contains("fetching package 12"));
}

#[test]
fn tier1_cargo_build_compression() {
    let mut body = String::new();
    for i in 0..300 {
        body.push_str(&format!("Compiling crate_{i} v0.1.0\n"));
    }
    body.push_str("warning: unused import: `foo`\n");
    body.push_str("error[E0425]: cannot find value `x` in this scope\n");
    body.push_str("Finished dev [unoptimized + debuginfo] target(s) in 3.21s\n");

    let output = run_hook(hook_input("Bash", Some("cargo build"), &body))
        .expect("compressed output expected");

    assert!(output.contains("error[E0425]"));
    assert!(output.contains("warning:"));
    assert!(output.contains("Finished dev"));
    assert!(!output.contains("crate_299"));
}

#[test]
fn tier2_generic_large_output_compression() {
    let mut body = String::new();
    for i in 0..900 {
        body.push_str(&format!("line {i}: normal output\n"));
    }
    for i in 0..6 {
        body.push_str(&format!("ERROR connection refused attempt {i}\n"));
    }
    body.push_str("Traceback (most recent call last):\n");
    body.push_str("  File \"main.py\", line 3, in <module>\n");
    body.push_str("status: exited with code 1\n");

    let output = run_hook(hook_input("Bash", Some("custom_command --long"), &body))
        .expect("compressed output expected");

    assert!(output.contains("ERROR connection refused"));
    assert!(output.contains("Traceback"));
    assert!(output.contains("status: exited with code 1"));
    assert!(output.contains("[... repeated"));
}

#[test]
fn tier3_hard_cap_fallback() {
    let mut body = String::new();
    for i in 0..80 {
        let marker = char::from(b'a' + (i % 26) as u8);
        let huge_line = format!("{}{}", marker.to_string().repeat(800), "tail");
        body.push_str(&format!("{i}: {huge_line}\n"));
    }

    let output = run_hook(hook_input("Bash", Some("unknowncmd"), &body))
        .expect("compressed output expected");

    assert!(output.contains("[... hard-capped output ...]"));
    assert!(output.contains("original 80 lines"));
    assert!(output.contains("Compressed by hook"));
}

#[test]
fn read_tool_handling() {
    let mut body = String::new();
    for i in 0..600 {
        body.push_str(&format!("line {i} long long long\n"));
    }

    let output =
        run_hook(hook_input("Read", None, &body)).expect("compressed output expected");

    assert!(output.contains("line 0 long long long"));
    assert!(output.contains("line 99 long long long"));
    assert!(!output.contains("line 200 long long long"));
    assert!(output.contains("truncated read output"));
}

#[test]
fn malformed_input_passes_through_silently() {
    let patterns = patterns();
    assert!(process_input(&patterns, None).is_none());
    let empty = HookInput { tool_name: None, command: None, tool_output: None };
    assert!(process_input(&patterns, Some(empty)).is_none());
}

#[test]
fn input_without_tool_or_output_has_no_answer() {
    let patterns = patterns();
    let long = "x".repeat(8000);
    let no_tool = HookInput {
        tool_name: None,
        command: Some("ls".to_string()),
        tool_output: Some(long),
    };
    assert!(process_input(&patterns, Some(no_tool)).is_none());
    let no_output = HookInput {
        tool_name: Some("Bash".to_string()),
        command: Some("ls".to_string()),
        tool_output: None,
    };
    assert!(process_input(&patterns, Some(no_output)).is_none());
}

#[test]
fn patterns_need_every_part() {
    let sources = [
        WORD_COUNT, TEST_RUNNER, SIGNAL, DIFF_ALERT, DIFF_STAT, CARGO_ERROR, CARGO_WARNING,
    ];
    let build = |missing: Option<usize>| {
        let part = |i: usize| {
            if missing == Some(i) {
                None
            } else {
                usable(regex::Regex::new(sources[i]))
            }
        };
        Patterns::from_compiled(part(0), part(1), part(2), part(3), part(4), part(5), part(6))
    };
    let patterns = build(None).expect("all parts are there");
    assert!(patterns.is_diff_stat("3 files changed") && !patterns.is_diff_stat("x"));
    assert!(patterns.is_diff_alert("+ a Warning") && !patterns.is_diff_alert("a warning"));
    assert!(patterns.is_cargo_diagnostic("error[E1]") && patterns.is_cargo_diagnostic("warning:"));
    assert!(!patterns.is_cargo_diagnostic("error: x"));
    assert!(patterns.is_telling("PASS") && patterns.is_telling("2 tests"));
    for i in 0..sources.len() {
        assert!(build(Some(i)).is_none());
    }
}

#[test]
fn patterns_that_do_not_compile_are_unusable() {
    assert!(usable(regex::Regex::new("(")).is_none());
    assert_eq!(usable(regex::Regex::new("a+")).unwrap().as_str(), "a+");
}

#[test]
fn tokens_are_four_bytes_each() {
    assert_eq!(estimate_tokens(""), 0);
    assert_eq!(estimate_tokens("abc"), 0);
    assert_eq!(estimate_tokens("abcdefgh"), 2);
    assert_eq!(estimate_tokens("\u{e9}\u{e9}"), 1);
}

#[test]
fn footer_tells_sizes() {
    assert_eq!(
        append_footer("12345678".to_string(), 40, 600),
        "12345678\n\n[Compressed by hook: 40 lines / ~600 tok \u{2192} ~2 tok]"
    );
}

#[test]
fn commands_are_recognized_by_their_beginning() {
    assert!(is_git_status("git status -s") && is_git_status("git") && !is_git_status("git add"));
    assert!(is_git_log("git log --oneline") && !is_git_log("git"));
    assert!(is_git_diff("git diff HEAD") && !is_git_diff("diff"));
    assert!(is_npm("npm install x") && is_npm("npm run build") && !is_npm("npm test"));
    assert!(is_cargo("cargo build") && is_cargo("cargo test") && !is_cargo("cargo doc"));
    assert!(is_pip_install("pip install x") && !is_pip_install("pip list"));
    assert!(is_docker_logs("docker logs x") && !is_docker_logs("docker ps"));
    assert!(is_ls_or_find("ls -la") && is_ls_or_find("find .") && is_ls_or_find("lsof"));
    assert!(is_make_or_cmake("make all") && is_make_or_cmake("cmake .") && !is_make_or_cmake("am"));
}

#[test]
fn commands_are_recognized_despite_case_and_padding() {
    let patterns = patterns();
    let listing = "a\nb";
    for command in ["ls", "LS", "  ls -la\n", "Find ."] {
        assert_eq!(tier1_compress(&patterns, command, listing), Some(listing.to_string()));
    }
    assert_eq!(tier1_compress(&patterns, "echo ls", listing), None);
}

#[test]
fn git_status_in_short() {
    let output = "noise\nOn branch main\n\tnew file:   a  \n  deleted: b\nrest\n";
    assert_eq!(
        compress_git_status(output).unwrap(),
        "On branch main\nChanged files: 2\n\tnew file:   a\n  deleted: b"
    );
    assert_eq!(
        compress_git_status("\n  clean tree \n").unwrap(),
        "  clean tree \nChanged files: 0"
    );
    assert_eq!(compress_git_status(" \n\n "), None);
    assert_eq!(compress_git_status(""), None);
}

#[test]
fn git_status_lists_twenty_files() {
    let mut output = String::from("HEAD detached at 1234\n");
    for i in 0..23 {
        output.push_str(&format!("\tf{i}\n"));
    }
    let result = compress_git_status(&output).unwrap();
    assert!(result.starts_with("HEAD detached at 1234\nChanged files: 23\n\tf0\n\tf1\n"));
    assert!(result.ends_with("\tf19\n[... 3 more files]"));
}

#[test]
fn git_log_in_short() {
    let output = "preamble\ncommit 1\nAuthor: a\nDate:   d\n\n    First line\n    more\n\
                  commit 2\nAuthor: b\ncommit 3\n    Third\n";
    assert_eq!(
        compress_git_log(output).unwrap(),
        "commit 1\n    First line\ncommit 2\ncommit 3\n    Third"
    );
    assert_eq!(compress_git_log("no history\n"), None);
}

#[test]
fn git_log_keeps_fifteen_commits() {
    let mut output = String::new();
    for i in 0..20 {
        output.push_str(&format!("commit {i}\n    message {i}\n"));
    }
    let result = compress_git_log(&output).unwrap();
    assert_eq!(result.lines().count(), 30);
    assert!(result.ends_with("commit 14\n    message 14"));
}

#[test]
fn git_diff_in_short() {
    let patterns = patterns();
    let output = " a.rs | 4 ++\n 1 file changed, 2 insertions(+)\ndiff --git a b\n@@ -1 +1 @@\n \
                  context\n+added\n-removed";
    assert_eq!(
        compress_git_diff(&patterns, output).unwrap(),
        " a.rs | 4 ++\n 1 file changed, 2 insertions(+)\ndiff --git a b\n@@ -1 +1 @@\n+added\n\
         -removed"
    );
    assert_eq!(compress_git_diff(&patterns, "context only"), None);
    assert_eq!(compress_git_diff(&patterns, ""), None);
}

#[test]
fn git_diff_keeps_thirty_changes_and_all_alerts() {
    let patterns = patterns();
    let mut output = String::new();
    for i in 0..40 {
        output.push_str(&format!("+line {i}\n"));
    }
    output.push_str("+late ERROR\n");
    let result = compress_git_diff(&patterns, &output).unwrap();
    assert_eq!(result.lines().count(), 31);
    assert!(result.ends_with("+line 29\n+late ERROR"));
}

#[test]
fn diff_lines_are_kept_by_marks() {
    let all = owned(&["x", "+y", "z", "w"]);
    let kept = keep_diff_lines(
        &all,
        &vec![true, false, false, false],
        &vec![false, false, true, false],
    );
    assert_eq!(kept, owned(&["x", "+y", "z"]));
}

#[test]
fn npm_in_short() {
    assert_eq!(
        compress_npm("x\nnpm WARN a\nnpm ERR! b\ndone\n\n").unwrap(),
        "npm WARN a\nnpm ERR! b\ndone"
    );
    assert_eq!(compress_npm("npm WARN a\n \n").unwrap(), "npm WARN a");
    assert_eq!(compress_npm(" \n\n"), None);
    assert_eq!(compress_npm(""), None);
}

#[test]
fn cargo_in_short() {
    let patterns = patterns();
    let mut output = String::new();
    for i in 0..7 {
        output.push_str(&format!("Compiling c{i}\n"));
    }
    output.push_str("note: x\nerror[E0001]: y\nwarning: z\ntest result: ok\nRunning t\n");
    assert_eq!(
        compress_cargo(&patterns, &output).unwrap(),
        "Compiling c0\nCompiling c1\nCompiling c2\nCompiling c3\nCompiling c4\n\
         error[E0001]: y\nwarning: z\ntest result: ok\nRunning t"
    );
    assert_eq!(compress_cargo(&patterns, "error: no code\n"), None);
}

#[test]
fn cargo_lines_are_kept_by_marks() {
    let all = owned(&["Compiling a", "plain", "marked", "Finished b"]);
    let kept = keep_cargo_lines(&all, &vec![false, false, true, false]);
    assert_eq!(kept, owned(&["Compiling a", "marked", "Finished b"]));
}

#[test]
fn pip_in_short() {
    assert_eq!(
        compress_pip("Collecting x\nERROR: y\nbuild Failed\nSuccessfully installed x\n").unwrap(),
        "ERROR: y\nbuild Failed\nSuccessfully installed x"
    );
    assert_eq!(compress_pip("successfully installed x\n"), None);
}

#[test]
fn docker_logs_in_short() {
    let mut output = String::from("plain\nWARNING early\nplain\n");
    for i in 0..20 {
        output.push_str(&format!("tail {i}\n"));
    }
    let result = compress_docker_logs(&output).unwrap();
    assert_eq!(result.lines().count(), 21);
    assert!(result.starts_with("WARNING early\ntail 0\n"));
    assert_eq!(compress_docker_logs("one\ntwo").unwrap(), "one\ntwo");
    assert_eq!(compress_docker_logs(""), None);
}

#[test]
fn listings_in_short() {
    let entries: Vec<String> = (0..31).map(|i| format!("e{i}")).collect();
    assert_eq!(compress_ls_find(&entries[..30].join("\n")).unwrap(), entries[..30].join("\n"));
    assert_eq!(
        compress_ls_find(&entries.join("\n")).unwrap(),
        format!("{}\n[... 31 total entries]", entries[..30].join("\n"))
    );
    assert_eq!(compress_ls_find(""), None);
}

#[test]
fn make_in_short() {
    assert_eq!(
        compress_make("cc a.c\na.c: Error: x\nmake: *** failed\n").unwrap(),
        "a.c: Error: x\nmake: *** failed"
    );
    assert_eq!(compress_make("cc a.c\nmake: *** error 1\n").unwrap(), "make: *** error 1");
    assert_eq!(compress_make("\n"), None);
}

#[test]
fn signal_lines() {
    let patterns = patterns();
    for line in [
        "Permission DENIED",
        "test a ... ok",
        "12 passed",
        "+added",
        "-removed",
        "> quoted",
        "Caused by: x",
        "Traceback",
        "  File \"x\"",
        "look AT this",
        "Exit Code 3",
        "status: x",
        "returned 1",
        "exited",
    ] {
        assert!(is_signal_line(&patterns, line), "{}", line);
    }
    assert!(!is_signal_line(&patterns, "booking a book"));
    assert!(!is_signal_line(&patterns, "12 passengers"));
    assert!(is_trace_line("exited") && !is_trace_line("error"));
}

#[test]
fn similar_lines_differ_in_digits_and_padding() {
    assert_eq!(normalize_for_similarity("  try 12 of 3\t"), "try ## of #");
    assert_eq!(normalize_for_similarity("\u{661}"), "\u{661}");
}

#[test]
fn three_similar_lines_are_folded() {
    let lines = owned(&["a 1", "a 2", "b", "c 1", "c 2", " c 3", "b"]);
    assert_eq!(
        dedup_similar(&lines),
        owned(&["a 1", "a 2", "b", "c 1", "[... repeated 3 similar lines ...]", "b"])
    );
    assert_eq!(dedup_similar(&Vec::new()), Vec::<String>::new());
}

#[test]
fn ends_and_marked_lines_are_kept() {
    let all: Vec<String> = (0..40).map(|i| format!("l{i}")).collect();
    let mut signals = vec![false; 40];
    signals[20] = true;
    let kept = keep_telling_lines(&all, &signals);
    assert_eq!(kept.len(), 26);
    assert_eq!(kept[14], "l14");
    assert_eq!(kept[15], "l20");
    assert_eq!(kept[16], "l30");
}

#[test]
fn general_reduction_of_empty_output_is_empty() {
    assert_eq!(tier2_compress(&patterns(), ""), "");
}

#[test]
fn hard_cap_keeps_both_ends() {
    let line = |i: usize| format!("l{i}");
    let text = |n: usize| (0..n).map(line).collect::<Vec<String>>().join("\n");
    assert_eq!(tier3_compress("", 0, 0), "");
    assert_eq!(
        tier3_compress("a\nb", 2, 7),
        "a\nb\n[... original 2 lines / ~7 tok ...]"
    );
    assert_eq!(
        tier3_compress(&text(40), 40, 9),
        format!("{}\n[... original 40 lines / ~9 tok ...]", text(30))
    );
    let capped = tier3_compress(&text(41), 41, 9);
    assert_eq!(capped.lines().count(), 42);
    assert!(capped.contains("l29\n[... hard-capped output ...]\nl31\n"));
    assert!(capped.ends_with("l40\n[... original 41 lines / ~9 tok ...]"));
}

#[test]
fn read_output_is_cut_after_a_hundred_lines() {
    assert_eq!(compress_read_output(&"x".repeat(4003)), None);
    let long = "x".repeat(4004);
    assert_eq!(
        compress_read_output(&long).unwrap(),
        format!("{long}\n[... truncated read output: 1 lines / ~1001 tok]")
    );
    assert!(compress_read_output(&"\n".repeat(4004)).unwrap().ends_with("4004 lines / ~1001 tok]"));
}

#[test]
fn cap_applies_to_huge_output_only() {
    let huge = "x".repeat(20004);
    let wordy = "y".repeat(6004);
    let capped = finish(wordy.clone(), &huge);
    assert!(capped.starts_with(&format!("{huge}\n[... original 1 lines / ~5001 tok ...]")));
    let not_huge = "x".repeat(20000);
    assert!(finish(wordy.clone(), &not_huge).starts_with(&format!("{wordy}\n\n[Compressed")));
    let brief = "y".repeat(6003);
    assert!(finish(brief.clone(), &huge).starts_with(&format!("{brief}\n\n[Compressed")));
}

#[test]
fn unknown_commands_need_long_output() {
    let patterns = patterns();
    assert_eq!(compress(&patterns, "Bash", Some("unknown"), &"x".repeat(6003)), None);
    assert_eq!(compress(&patterns, "Bash", None, &"x".repeat(6003)), None);
    assert!(compress(&patterns, "Bash", Some("unknown"), &"x".repeat(6004)).is_some());
    assert!(compress(&patterns, "Bash", None, &"x".repeat(6004)).is_some());
}

#[test]
fn known_commands_need_output_that_is_not_short() {
    let patterns = patterns();
    assert_eq!(compress(&patterns, "Bash", Some("ls"), &"x".repeat(1999)), None);
    assert!(compress(&patterns, "Bash", Some("ls"), &"x".repeat(2000)).is_some());
}

#[test]
fn other_tools_have_no_command() {
    let patterns = patterns();
    let long = "x\n".repeat(3000);
    assert_eq!(
        compress(&patterns, "Read", Some("ls"), &long),
        compress(&patterns, "Read", None, &long)
    );
    assert_eq!(compress(&patterns, "bash", Some("ls"), &"x".repeat(4003)), None);
}
