use hooks::command_hook::{
    after_tool_use_command_hook, command_from_argv, command_hook, describe_failure,
    AfterToolUseHookOutput, Exit, ExitStatus, Hook, HookKind, HookResult, Launch, ProcessOutput,
    Start, Stdio,
};

fn strings(words: &[&str]) -> Vec<String> {
    words.iter().map(|word| word.to_string()).collect()
}

fn launched(hook: &Hook, payload: Option<&str>) -> Launch {
    match hook.start::<String>(payload.map(|json| json.to_string())) {
        Start::Launch(launch) => launch,
        Start::Finished(_) => panic!("a launch was expected"),
    }
}

fn output(success: bool, code: Option<i32>, stdout: &[u8], stderr: &[u8]) -> ProcessOutput {
    ProcessOutput {
        status: ExitStatus { success, code },
        stdout: stdout.to_vec(),
        stderr: stderr.to_vec(),
    }
}

fn finished(hook: &Hook, outcome: Result<ProcessOutput, String>) -> HookResult<String> {
    match hook.exited(outcome) {
        Exit::Finished(result) => result,
        Exit::ReadOutput(_) => panic!("a result was expected"),
    }
}

fn abort_message(result: HookResult<String>) -> String {
    match result {
        HookResult::FailedAbort(message) => message,
        _ => panic!("an abort was expected"),
    }
}

fn plain(words: &[&str]) -> Hook {
    command_hook(strings(words), "before".to_string())
}

fn after(words: &[&str]) -> Hook {
    after_tool_use_command_hook(strings(words), "after".to_string())
}

#[test]
fn hooks_keep_name_and_argv() {
    let hook = plain(&["check", "--fast"]);
    assert_eq!(hook.name, "before");
    assert_eq!(hook.argv, strings(&["check", "--fast"]));
    assert_eq!(hook.kind, HookKind::Command);
    let hook = after(&["shorten"]);
    assert_eq!(hook.name, "after");
    assert_eq!(hook.argv, strings(&["shorten"]));
    assert_eq!(hook.kind, HookKind::AfterToolUse);
}

#[test]
fn argv_spells_program_and_arguments() {
    let command = command_from_argv(&strings(&["sh", "-c", "exit 3"])).unwrap();
    assert_eq!(command.program, "sh");
    assert_eq!(command.args, strings(&["-c", "exit 3"]));
    let command = command_from_argv(&strings(&["true"])).unwrap();
    assert_eq!(command.program, "true");
    assert!(command.args.is_empty());
}

#[test]
fn argv_without_program_spells_no_command() {
    assert!(command_from_argv(&Vec::new()).is_none());
    assert!(command_from_argv(&strings(&["", "arg"])).is_none());
    assert!(command_from_argv(&strings(&[" "])).is_some());
}

#[test]
fn no_command_is_success() {
    for hook in [plain(&[]), after(&[]), plain(&[""]), after(&["", "x"])] {
        assert!(matches!(
            hook.start::<String>(Some("{}".to_string())),
            Start::Finished(HookResult::Success)
        ));
    }
}

#[test]
fn payload_is_the_last_argument() {
    let launch = launched(&plain(&["check", "--fast"]), Some("{\"a\":1}"));
    assert_eq!(launch.command.program, "check");
    assert_eq!(launch.command.args, strings(&["--fast", "{\"a\":1}"]));
    let launch = launched(&after(&["shorten"]), Some("{}"));
    assert_eq!(launch.command.args, strings(&["{}"]));
}

#[test]
fn payload_that_does_not_serialize_is_left_out() {
    let launch = launched(&plain(&["check", "--fast"]), None);
    assert_eq!(launch.command.program, "check");
    assert_eq!(launch.command.args, strings(&["--fast"]));
}

#[test]
fn only_the_hook_after_tool_use_wants_output() {
    let launch = launched(&plain(&["check"]), None);
    assert_eq!(launch.stdin, Stdio::Null);
    assert_eq!(launch.stdout, Stdio::Null);
    let launch = launched(&after(&["shorten"]), None);
    assert_eq!(launch.stdin, Stdio::Null);
    assert_eq!(launch.stdout, Stdio::Piped);
}

#[test]
fn exit_code_zero_is_success() {
    let result = finished(&plain(&["check"]), Ok(output(true, Some(0), b"ignored", b"noise")));
    assert!(matches!(result, HookResult::Success));
}

#[test]
fn other_exit_codes_abort() {
    for hook in [plain(&["check"]), after(&["shorten"])] {
        let result = finished(&hook, Ok(output(false, Some(2), b"", b"not allowed\n")));
        assert_eq!(abort_message(result), "hook exited with code 2: not allowed\n");
    }
}

#[test]
fn missing_exit_code_is_minus_one() {
    let result = finished(&plain(&["check"]), Ok(output(false, None, b"", b"killed")));
    assert_eq!(abort_message(result), "hook exited with code -1: killed");
}

#[test]
fn command_that_cannot_run_lets_the_operation_go_on() {
    for hook in [plain(&["check"]), after(&["shorten"])] {
        match finished(&hook, Err("no such file".to_string())) {
            HookResult::FailedContinue(error) => assert_eq!(error, "no such file"),
            _ => panic!("the error was expected"),
        }
    }
}

#[test]
fn stderr_is_decoded_as_utf8() {
    let hook = plain(&["check"]);
    let message = |stderr: &[u8]| {
        abort_message(finished(&hook, Ok(output(false, Some(1), b"", stderr))))
    };
    assert_eq!(message("r\u{e9}fus\u{e9}".as_bytes()), "hook exited with code 1: r\u{e9}fus\u{e9}");
    assert_eq!(message(b"a\xffb"), "hook exited with code 1: a\u{fffd}b");
    assert_eq!(message(b""), "hook exited with code 1: ");
}

#[test]
fn successful_output_is_read_after_tool_use() {
    let hook = after(&["shorten"]);
    match hook.exited::<String>(Ok(output(true, Some(0), b"{\"x\":\xff}", b""))) {
        Exit::ReadOutput(text) => assert_eq!(text, "{\"x\":\u{fffd}}"),
        Exit::Finished(_) => panic!("output to read was expected"),
    }
}

#[test]
fn replacement_is_handed_on() {
    let decoded = AfterToolUseHookOutput { updated_tool_output: Some("shorter".to_string()) };
    match AfterToolUseHookOutput::result::<String>(Some(decoded)) {
        HookResult::SuccessWithModifiedOutput(text) => assert_eq!(text, "shorter"),
        _ => panic!("a replacement was expected"),
    }
}

#[test]
fn output_without_replacement_is_success() {
    let decoded = AfterToolUseHookOutput { updated_tool_output: None };
    assert!(matches!(
        AfterToolUseHookOutput::result::<String>(Some(decoded)),
        HookResult::Success
    ));
}

#[test]
fn malformed_output_is_success() {
    assert!(matches!(AfterToolUseHookOutput::result::<String>(None), HookResult::Success));
}

#[test]
fn failure_messages_tell_any_code() {
    assert_eq!(describe_failure(Some(0), "x"), "hook exited with code 0: x");
    assert_eq!(describe_failure(Some(101), "x"), "hook exited with code 101: x");
    assert_eq!(describe_failure(Some(-7), "x"), "hook exited with code -7: x");
    assert_eq!(
        describe_failure(Some(i32::MIN), "x"),
        "hook exited with code -2147483648: x"
    );
    assert_eq!(
        describe_failure(Some(i32::MAX), "x"),
        "hook exited with code 2147483647: x"
    );
}
