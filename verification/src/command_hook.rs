//! Hooks that hand their payload to a command and judge the operation by how the command ends.
//!
//! A run has up to three decisions, each a function here: what to start
//! ([`Hook::start`]), what the end of the process means ([`Hook::exited`]), and, for a hook
//! that may replace a tool's output, what the decoded output means
//! ([`AfterToolUseHookOutput::result`]). Starting the process, waiting for it, and turning
//! values into JSON and back are left to the caller.

use vstd::prelude::*;
use vstd::utf8::{decode_utf8, valid_utf8};

use crate::number::{push_signed_decimal, signed_decimal};
use crate::text::{lemma_texts_push, optional_text, texts};

verus! {

/// What a hook does with the output of a command that succeeded.
#[derive(Clone, Copy, PartialEq, Eq, Structural, Debug)]
pub enum HookKind {
    /// Only the exit status counts; standard output is discarded.
    Command,
    /// Standard output may carry a replacement for the output of a tool.
    AfterToolUse,
}

/// A named hook that runs the command that `argv` spells.
pub struct Hook {
    pub name: String,
    pub kind: HookKind,
    pub argv: Vec<String>,
}

/// Where a standard stream of the command leads.
#[derive(Clone, Copy, PartialEq, Eq, Structural, Debug)]
pub enum Stdio {
    /// Nowhere: reads see the end of the stream, writes are dropped.
    Null,
    /// Into a pipe that is collected until the process ends.
    Piped,
}

/// A program and its arguments.
pub struct Command {
    pub program: String,
    pub args: Vec<String>,
}

/// A command with its standard input and output, ready to be started. Its standard error is
/// always collected.
pub struct Launch {
    pub command: Command,
    pub stdin: Stdio,
    pub stdout: Stdio,
}

/// How a process ended: whether it counts as success, and its exit code where it has one.
#[derive(Clone, Copy, PartialEq, Eq, Structural, Debug)]
pub struct ExitStatus {
    pub success: bool,
    pub code: Option<i32>,
}

/// What is left of a process that ended.
pub struct ProcessOutput {
    pub status: ExitStatus,
    pub stdout: Vec<u8>,
    pub stderr: Vec<u8>,
}

/// What a command prints to replace the output of a tool.
pub struct AfterToolUseHookOutput {
    pub updated_tool_output: Option<String>,
}

/// What a hook says about the operation it watches. `E` is the error of a command that could
/// not be started or waited for.
pub enum HookResult<E> {
    /// The operation goes on.
    Success,
    /// The operation goes on, with this text in place of the output of the tool.
    SuccessWithModifiedOutput(String),
    /// The hook failed and the operation must stop; the text says why.
    FailedAbort(String),
    /// The hook failed and the operation goes on all the same.
    FailedContinue(E),
}

/// The first decision of a run.
pub enum Start<E> {
    /// There is nothing to run.
    Finished(HookResult<E>),
    /// This is to be started.
    Launch(Launch),
}

/// The decision at the end of the process.
pub enum Exit<E> {
    /// The run is over.
    Finished(HookResult<E>),
    /// This text is to be decoded as an [`AfterToolUseHookOutput`].
    ReadOutput(String),
}

/// The text of a [`Command`].
pub struct CommandView {
    pub program: Seq<char>,
    pub args: Seq<Seq<char>>,
}

/// The text of a [`Launch`].
pub struct LaunchView {
    pub command: CommandView,
    pub stdin: Stdio,
    pub stdout: Stdio,
}

/// The bytes of a [`ProcessOutput`].
pub struct ProcessOutputView {
    pub status: ExitStatus,
    pub stdout: Seq<u8>,
    pub stderr: Seq<u8>,
}

/// The text of a [`HookResult`].
pub enum HookResultView<E> {
    Success,
    SuccessWithModifiedOutput(Seq<char>),
    FailedAbort(Seq<char>),
    FailedContinue(E),
}

/// The text of a [`Start`].
pub enum StartView<E> {
    Finished(HookResultView<E>),
    Launch(LaunchView),
}

/// The text of an [`Exit`].
pub enum ExitView<E> {
    Finished(HookResultView<E>),
    ReadOutput(Seq<char>),
}

impl View for Command {
    type V = CommandView;

    open spec fn view(&self) -> CommandView {
        CommandView { program: self.program@, args: texts(self.args@) }
    }
}

impl View for Launch {
    type V = LaunchView;

    open spec fn view(&self) -> LaunchView {
        LaunchView {
            command: self.command@,
            stdin: self.stdin,
            stdout: self.stdout,
        }
    }
}

impl View for ProcessOutput {
    type V = ProcessOutputView;

    open spec fn view(&self) -> ProcessOutputView {
        ProcessOutputView { status: self.status, stdout: self.stdout@, stderr: self.stderr@ }
    }
}

impl View for AfterToolUseHookOutput {
    type V = Option<Seq<char>>;

    open spec fn view(&self) -> Option<Seq<char>> {
        optional_text(self.updated_tool_output)
    }
}

impl<E> View for HookResult<E> {
    type V = HookResultView<E>;

    open spec fn view(&self) -> HookResultView<E> {
        match *self {
            HookResult::Success => HookResultView::Success,
            HookResult::SuccessWithModifiedOutput(text) =>
                HookResultView::SuccessWithModifiedOutput(text@),
            HookResult::FailedAbort(text) => HookResultView::FailedAbort(text@),
            HookResult::FailedContinue(error) => HookResultView::FailedContinue(error),
        }
    }
}

impl<E> View for Start<E> {
    type V = StartView<E>;

    open spec fn view(&self) -> StartView<E> {
        match *self {
            Start::Finished(result) => StartView::Finished(result@),
            Start::Launch(launch) => StartView::Launch(launch@),
        }
    }
}

impl<E> View for Exit<E> {
    type V = ExitView<E>;

    open spec fn view(&self) -> ExitView<E> {
        match *self {
            Exit::Finished(result) => ExitView::Finished(result@),
            Exit::ReadOutput(text) => ExitView::ReadOutput(text@),
        }
    }
}

impl ExitStatus {
    /// A status is a success exactly where its exit code is zero; a process that a signal
    /// ended has no code and is no success.
    pub open spec fn wf(self) -> bool {
        self.success <==> self.code == Some(0i32)
    }
}

/// The outcome of running a command, by its bytes.
pub open spec fn outcome_view<E>(outcome: Result<ProcessOutput, E>) -> Result<
    ProcessOutputView,
    E,
> {
    match outcome {
        Ok(output) => Ok(output@),
        Err(error) => Err(error),
    }
}

/// What a decoder made of a text: nothing where it is malformed, and otherwise the
/// replacement that it carries, if any.
pub open spec fn decoded_view(decoded: Option<AfterToolUseHookOutput>) -> Option<
    Option<Seq<char>>,
> {
    match decoded {
        Some(output) => Some(output@),
        None => None,
    }
}

/// The text that `String::from_utf8_lossy` makes of `bytes`.
pub uninterp spec fn utf8_lossy(bytes: Seq<u8>) -> Seq<char>;

/// `String::from_utf8_lossy`: the result depends on the bytes alone, and is their decoding
/// where they are well-formed UTF-8. How ill-formed parts are replaced is left unsaid.
#[verifier::external_body]
fn decode_lossy(bytes: &Vec<u8>) -> (text: String)
    ensures
        text@ == utf8_lossy(bytes@),
        valid_utf8(bytes@) ==> text@ == decode_utf8(bytes@),
{
    String::from_utf8_lossy(bytes).into_owned()
}

/// The command that `argv` spells: its first element is the program, the others are the
/// arguments. Without a program name there is none.
pub open spec fn command_of(argv: Seq<Seq<char>>) -> Option<CommandView> {
    if argv.len() == 0 || argv[0].len() == 0 {
        None
    } else {
        Some(CommandView { program: argv[0], args: argv.skip(1) })
    }
}

/// `args` with the payload, where there is one, behind them.
pub open spec fn with_payload(args: Seq<Seq<char>>, payload: Option<Seq<char>>) -> Seq<Seq<char>> {
    match payload {
        Some(json) => args.push(json),
        None => args,
    }
}

/// Where the standard output of a hook's command leads.
pub open spec fn stdout_of(kind: HookKind) -> Stdio {
    match kind {
        HookKind::Command => Stdio::Null,
        HookKind::AfterToolUse => Stdio::Piped,
    }
}

/// What a hook does first, given its payload as JSON where it could be serialized.
pub open spec fn start_of<E>(
    kind: HookKind,
    argv: Seq<Seq<char>>,
    payload: Option<Seq<char>>,
) -> StartView<E> {
    match command_of(argv) {
        None => StartView::Finished(HookResultView::Success),
        Some(command) => StartView::Launch(
            LaunchView {
                command: CommandView {
                    program: command.program,
                    args: with_payload(command.args, payload),
                },
                stdin: Stdio::Null,
                stdout: stdout_of(kind),
            },
        ),
    }
}

/// The message of a hook whose command failed. A process without an exit code counts as -1.
pub open spec fn failure_message(code: Option<i32>, stderr: Seq<char>) -> Seq<char> {
    let code = match code {
        Some(code) => code as int,
        None => -1,
    };
    "hook exited with code "@ + signed_decimal(code) + ": "@ + stderr
}

/// What the end of the process means to a hook.
pub open spec fn exit_of<E>(kind: HookKind, outcome: Result<ProcessOutputView, E>) -> ExitView<E> {
    match outcome {
        Err(error) => ExitView::Finished(HookResultView::FailedContinue(error)),
        Ok(output) => if !output.status.success {
            ExitView::Finished(
                HookResultView::FailedAbort(
                    failure_message(output.status.code, utf8_lossy(output.stderr)),
                ),
            )
        } else if kind == HookKind::AfterToolUse {
            ExitView::ReadOutput(utf8_lossy(output.stdout))
        } else {
            ExitView::Finished(HookResultView::Success)
        },
    }
}

/// What the decoded output of a command means.
pub open spec fn decoded_of<E>(decoded: Option<Option<Seq<char>>>) -> HookResultView<E> {
    match decoded {
        Some(Some(text)) => HookResultView::SuccessWithModifiedOutput(text),
        _ => HookResultView::Success,
    }
}

/// The result of a whole run: `outcome` is what becomes of the command if it is started, and
/// `decode` what the decoder makes of a text.
pub open spec fn run_of<E>(
    kind: HookKind,
    argv: Seq<Seq<char>>,
    payload: Option<Seq<char>>,
    outcome: Result<ProcessOutputView, E>,
    decode: spec_fn(Seq<char>) -> Option<Option<Seq<char>>>,
) -> HookResultView<E> {
    match start_of::<E>(kind, argv, payload) {
        StartView::Finished(result) => result,
        StartView::Launch(_) => match exit_of(kind, outcome) {
            ExitView::Finished(result) => result,
            ExitView::ReadOutput(text) => decoded_of(decode(text)),
        },
    }
}

/// A hook that lets the exit status of a command decide: success lets the operation go on,
/// failure stops it. The command gets the payload as its last argument.
pub fn command_hook(argv: Vec<String>, name: String) -> (hook: Hook)
    ensures
        hook.name == name,
        hook.argv == argv,
        hook.kind == HookKind::Command,
{
    Hook { name, kind: HookKind::Command, argv }
}

/// A hook like [`command_hook`] whose command may also print a replacement for the output of
/// the tool that was used.
pub fn after_tool_use_command_hook(argv: Vec<String>, name: String) -> (hook: Hook)
    ensures
        hook.name == name,
        hook.argv == argv,
        hook.kind == HookKind::AfterToolUse,
{
    Hook { name, kind: HookKind::AfterToolUse, argv }
}

/// The command that `argv` spells, if it spells one.
pub fn command_from_argv(argv: &Vec<String>) -> (command: Option<Command>)
    ensures
        match command {
            Some(command) => command_of(texts(argv@)) == Some(command@),
            None => command_of(texts(argv@)) is None,
        },
{
    if argv.len() == 0 || argv[0].as_str().is_empty() {
        return None;
    }
    let mut args: Vec<String> = Vec::new();
    for i in 1..argv.len()
        invariant
            argv.len() >= 1,
            texts(args@) == texts(argv@).subrange(1, i as int),
    {
        proof {
            lemma_texts_push(args@, argv[i as int]);
        }
        args.push(argv[i].clone());
        assert(texts(args@) =~= texts(argv@).subrange(1, i + 1));
    }
    Some(Command { program: argv[0].clone(), args })
}

/// The message of a hook whose command failed.
pub fn describe_failure(code: Option<i32>, stderr: &str) -> (message: String)
    ensures
        message@ == failure_message(code, stderr@),
{
    let code: i32 = match code {
        Some(code) => code,
        None => -1,
    };
    let mut message = "hook exited with code ".to_owned();
    push_signed_decimal(&mut message, code);
    message.append(": ");
    message.append(stderr);
    message
}

impl Hook {
    /// Decides what to run. `payload` is the payload as JSON; it is absent where it could not
    /// be serialized, and the command then runs without it.
    pub fn start<E>(&self, payload: Option<String>) -> (start: Start<E>)
        ensures
            start@ == start_of::<E>(self.kind, texts(self.argv@), optional_text(payload)),
    {
        let mut command = match command_from_argv(&self.argv) {
            Some(command) => command,
            None => return Start::Finished(HookResult::Success),
        };
        if let Some(json) = payload {
            proof {
                lemma_texts_push(command.args@, json);
            }
            command.args.push(json);
        }
        let stdout = match self.kind {
            HookKind::Command => Stdio::Null,
            HookKind::AfterToolUse => Stdio::Piped,
        };
        Start::Launch(Launch { command, stdin: Stdio::Null, stdout })
    }

    /// Decides what the end of the process means. `outcome` is an error where the process
    /// could not be started or waited for.
    pub fn exited<E>(&self, outcome: Result<ProcessOutput, E>) -> (exit: Exit<E>)
        ensures
            exit@ == exit_of(self.kind, outcome_view(outcome)),
            outcome matches Ok(output) ==> {
                &&& !output.status.success && valid_utf8(output.stderr@) ==> exit@
                    == ExitView::<E>::Finished(
                    HookResultView::FailedAbort(
                        failure_message(output.status.code, decode_utf8(output.stderr@)),
                    ),
                )
                &&& output.status.success && self.kind == HookKind::AfterToolUse && valid_utf8(
                    output.stdout@,
                ) ==> exit@ == ExitView::<E>::ReadOutput(decode_utf8(output.stdout@))
            },
    {
        let output = match outcome {
            Ok(output) => output,
            Err(error) => return Exit::Finished(HookResult::FailedContinue(error)),
        };
        if output.status.success {
            match self.kind {
                HookKind::Command => Exit::Finished(HookResult::Success),
                HookKind::AfterToolUse => Exit::ReadOutput(decode_lossy(&output.stdout)),
            }
        } else {
            let stderr = decode_lossy(&output.stderr);
            Exit::Finished(
                HookResult::FailedAbort(describe_failure(output.status.code, stderr.as_str())),
            )
        }
    }
}

impl AfterToolUseHookOutput {
    /// The result of a run whose output was decoded to `decoded`; it is absent where the
    /// output is malformed, which is no failure.
    pub fn result<E>(decoded: Option<AfterToolUseHookOutput>) -> (result: HookResult<E>)
        ensures
            result@ == decoded_of::<E>(decoded_view(decoded)),
    {
        if let Some(output) = decoded {
            if let Some(modified) = output.updated_tool_output {
                return HookResult::SuccessWithModifiedOutput(modified);
            }
        }
        HookResult::Success
    }
}

/// An `argv` that spells no command is no obstacle: nothing is started, and the hook succeeds.
pub proof fn no_command_succeeds<E>(
    kind: HookKind,
    argv: Seq<Seq<char>>,
    payload: Option<Seq<char>>,
    outcome: Result<ProcessOutputView, E>,
    decode: spec_fn(Seq<char>) -> Option<Option<Seq<char>>>,
)
    requires
        argv.len() == 0 || argv[0].len() == 0,
    ensures
        start_of::<E>(kind, argv, payload) == StartView::<E>::Finished(HookResultView::Success),
        run_of(kind, argv, payload, outcome, decode) == HookResultView::<E>::Success,
{
}

/// A command that is started is `argv` itself, with the payload, where it could be
/// serialized, as its last argument. It reads nothing, and its standard output is wanted only
/// where the hook may use it.
pub proof fn payload_is_last_argument<E>(
    kind: HookKind,
    argv: Seq<Seq<char>>,
    payload: Option<Seq<char>>,
)
    requires
        argv.len() > 0 && argv[0].len() > 0,
    ensures
        start_of::<E>(kind, argv, payload) matches StartView::Launch(launch) && {
            &&& seq![launch.command.program] + launch.command.args == with_payload(argv, payload)
            &&& payload matches Some(json) ==> launch.command.args.last() == json
            &&& launch.stdin == Stdio::Null
            &&& launch.stdout == Stdio::Piped <==> kind == HookKind::AfterToolUse
        },
{
    assert(seq![argv[0]] + argv.skip(1) =~= argv);
    if let Some(json) = payload {
        assert(seq![argv[0]] + argv.skip(1).push(json) =~= argv.push(json));
    }
}

/// A plain command hook goes by the exit code: zero lets the operation go on, anything else stops it.
pub proof fn command_hook_follows_exit_code<E>(
    argv: Seq<Seq<char>>,
    payload: Option<Seq<char>>,
    output: ProcessOutputView,
    decode: spec_fn(Seq<char>) -> Option<Option<Seq<char>>>,
)
    requires
        argv.len() > 0 && argv[0].len() > 0,
        output.status.wf(),
    ensures
        output.status.code == Some(0i32) ==> run_of(
            HookKind::Command,
            argv,
            payload,
            Ok::<ProcessOutputView, E>(output),
            decode,
        ) == HookResultView::<E>::Success,
        output.status.code != Some(0i32) ==> run_of(
            HookKind::Command,
            argv,
            payload,
            Ok::<ProcessOutputView, E>(output),
            decode,
        ) is FailedAbort,
{
}

/// A hook stops the operation exactly where its command ran and failed, and the message then
/// tells the exit code and what the command wrote to standard error.
pub proof fn abort_iff_command_failed<E>(
    kind: HookKind,
    argv: Seq<Seq<char>>,
    payload: Option<Seq<char>>,
    outcome: Result<ProcessOutputView, E>,
    decode: spec_fn(Seq<char>) -> Option<Option<Seq<char>>>,
)
    ensures
        run_of(kind, argv, payload, outcome, decode) is FailedAbort <==> {
            &&& argv.len() > 0 && argv[0].len() > 0
            &&& outcome matches Ok(output)
            &&& !output.status.success
        },
        run_of(kind, argv, payload, outcome, decode) matches HookResultView::FailedAbort(message)
            ==> message == failure_message(
            outcome->Ok_0.status.code,
            utf8_lossy(outcome->Ok_0.stderr),
        ),
{
}

/// A hook whose command cannot be run hands on the error and lets the operation go on; no
/// other run ends so.
pub proof fn continue_iff_command_not_run<E>(
    kind: HookKind,
    argv: Seq<Seq<char>>,
    payload: Option<Seq<char>>,
    outcome: Result<ProcessOutputView, E>,
    decode: spec_fn(Seq<char>) -> Option<Option<Seq<char>>>,
)
    ensures
        run_of(kind, argv, payload, outcome, decode) is FailedContinue <==> argv.len() > 0
            && argv[0].len() > 0 && outcome is Err,
        run_of(kind, argv, payload, outcome, decode) matches HookResultView::FailedContinue(error)
            ==> outcome == Err::<ProcessOutputView, E>(error),
{
}

/// The output of a tool is replaced exactly where the hook is made for it, its command
/// succeeded, and what the command printed decodes to a replacement; the replacement is then
/// handed on as it is.
pub proof fn modified_iff_replacement_decoded<E>(
    kind: HookKind,
    argv: Seq<Seq<char>>,
    payload: Option<Seq<char>>,
    outcome: Result<ProcessOutputView, E>,
    decode: spec_fn(Seq<char>) -> Option<Option<Seq<char>>>,
    text: Seq<char>,
)
    ensures
        run_of(kind, argv, payload, outcome, decode) == (
        HookResultView::<E>::SuccessWithModifiedOutput(text)) <==> {
            &&& kind == HookKind::AfterToolUse
            &&& argv.len() > 0 && argv[0].len() > 0
            &&& outcome matches Ok(output)
            &&& output.status.success
            &&& decode(utf8_lossy(output.stdout)) == Some(Some(text))
        },
{
}

/// The two hooks judge alike: on the same command and outcome they end the same way, but
/// where a plain command hook succeeds the other may also replace the output of the tool.
pub proof fn hooks_judge_alike<E>(
    argv: Seq<Seq<char>>,
    payload: Option<Seq<char>>,
    outcome: Result<ProcessOutputView, E>,
    decode: spec_fn(Seq<char>) -> Option<Option<Seq<char>>>,
)
    ensures
        ({
            let plain = run_of(HookKind::Command, argv, payload, outcome, decode);
            let after = run_of(HookKind::AfterToolUse, argv, payload, outcome, decode);
            ||| after == plain
            ||| plain is Success && after is SuccessWithModifiedOutput
        }),
{
}

/// The result of a run goes by how the command ends, not by the payload it was given.
pub proof fn result_ignores_payload<E>(
    kind: HookKind,
    argv: Seq<Seq<char>>,
    payload: Option<Seq<char>>,
    other: Option<Seq<char>>,
    outcome: Result<ProcessOutputView, E>,
    decode: spec_fn(Seq<char>) -> Option<Option<Seq<char>>>,
)
    ensures
        run_of(kind, argv, payload, outcome, decode) == run_of(
            kind,
            argv,
            other,
            outcome,
            decode,
        ),
{
}

/// Whether a hook starts anything goes by the first element of `argv` alone: where it is there
/// and not empty, `argv` is started, followed by the payload; otherwise nothing is.
pub proof fn start_goes_by_argv<E>(
    kind: HookKind,
    argv: Seq<Seq<char>>,
    payload: Option<Seq<char>>,
)
    ensures
        argv.len() == 0 || argv[0].len() == 0 ==> start_of::<E>(kind, argv, payload)
            == StartView::<E>::Finished(HookResultView::Success),
        argv.len() > 0 && argv[0].len() > 0 ==> (start_of::<E>(
            kind,
            argv,
            payload,
        ) matches StartView::Launch(launch) && {
            &&& seq![launch.command.program] + launch.command.args == match payload {
                Some(json) => argv.push(json),
                None => argv,
            }
            &&& launch.stdin == Stdio::Null
            &&& kind == HookKind::Command ==> launch.stdout == Stdio::Null
            &&& kind == HookKind::AfterToolUse ==> launch.stdout == Stdio::Piped
        }),
{
    if argv.len() > 0 && argv[0].len() > 0 {
        payload_is_last_argument::<E>(kind, argv, payload);
    }
}

/// A command is spelled by every `argv` whose first element is not empty, and is that `argv`.
pub proof fn command_is_argv(argv: Seq<Seq<char>>)
    ensures
        argv.len() == 0 || argv[0].len() == 0 ==> command_of(argv) is None,
        argv.len() > 0 && argv[0].len() > 0 ==> (command_of(argv) matches Some(command) && seq![
            command.program,
        ] + command.args == argv),
{
    if argv.len() > 0 && argv[0].len() > 0 {
        assert(seq![argv[0]] + argv.skip(1) =~= argv);
    }
}

/// A process that was not run hands on its error, whatever the hook.
pub proof fn error_is_handed_on<E>(kind: HookKind, error: E)
    ensures
        exit_of(kind, Err::<ProcessOutputView, E>(error)) == ExitView::Finished(
            HookResultView::FailedContinue(error),
        ),
{
}

/// A process that failed stops the operation, whatever the hook and whatever it printed, and
/// its exit code and standard error are told.
pub proof fn failed_process_aborts<E>(kind: HookKind, output: ProcessOutputView)
    requires
        !output.status.success,
    ensures
        exit_of(kind, Ok::<ProcessOutputView, E>(output)) matches ExitView::Finished(
            HookResultView::FailedAbort(message),
        ) && {
            &&& output.status.code matches Some(code) ==> message == "hook exited with code "@
                + signed_decimal(code as int) + ": "@ + utf8_lossy(output.stderr)
            &&& output.status.code is None ==> message == "hook exited with code -1: "@
                + utf8_lossy(output.stderr)
        },
{
    if output.status.code is None {
        failure_without_code(utf8_lossy(output.stderr));
    }
}

/// A process that a signal ended is reported with the exit code -1.
pub proof fn failure_without_code(stderr: Seq<char>)
    ensures
        failure_message(None, stderr) == "hook exited with code -1: "@ + stderr,
{
    reveal_strlit("hook exited with code ");
    reveal_strlit(": ");
    reveal_strlit("hook exited with code -1: ");
    assert(signed_decimal(-1) =~= seq!['-', '1']);
    assert(failure_message(None, stderr) =~= "hook exited with code -1: "@ + stderr);
}

/// A process that succeeded ends a plain command hook with success, and otherwise has all its
/// standard output read.
pub proof fn successful_process_is_success<E>(output: ProcessOutputView)
    requires
        output.status.success,
    ensures
        exit_of(HookKind::Command, Ok::<ProcessOutputView, E>(output)) == ExitView::<E>::Finished(
            HookResultView::Success,
        ),
        exit_of(HookKind::AfterToolUse, Ok::<ProcessOutputView, E>(output))
            == ExitView::<E>::ReadOutput(utf8_lossy(output.stdout)),
{
}

/// A decoded replacement is handed on as it is; without one, or where nothing decodes, the
/// hook succeeds all the same.
pub proof fn replacement_is_handed_on<E>(text: Seq<char>)
    ensures
        decoded_of::<E>(Some(Some(text))) == HookResultView::<E>::SuccessWithModifiedOutput(text),
        decoded_of::<E>(Some(None)) == HookResultView::<E>::Success,
        decoded_of::<E>(None) == HookResultView::<E>::Success,
{
}

/// A result is told apart from every other by what stands in it.
pub proof fn result_views_are_faithful<E>(text: String, error: E)
    ensures
        HookResult::<E>::Success@ == HookResultView::<E>::Success,
        HookResult::<E>::SuccessWithModifiedOutput(text)@
            == HookResultView::<E>::SuccessWithModifiedOutput(text@),
        HookResult::<E>::FailedAbort(text)@ == HookResultView::<E>::FailedAbort(text@),
        HookResult::<E>::FailedContinue(error)@ == HookResultView::<E>::FailedContinue(error),
{
}

/// A decision is told apart from every other by what stands in it.
pub proof fn decision_views_are_faithful<E>(result: HookResult<E>, launch: Launch, text: String)
    ensures
        Start::<E>::Finished(result)@ == StartView::<E>::Finished(result@),
        Start::<E>::Launch(launch)@ == StartView::<E>::Launch(launch@),
        Exit::<E>::Finished(result)@ == ExitView::<E>::Finished(result@),
        Exit::<E>::ReadOutput(text)@ == ExitView::<E>::ReadOutput(text@),
        launch@.command.program == launch.command.program@,
        launch@.command.args.len() == launch.command.args@.len(),
        forall|i: int|
            0 <= i < launch.command.args@.len() ==> #[trigger] launch@.command.args[i]
                == launch.command.args@[i]@,
        launch@.stdin == launch.stdin,
        launch@.stdout == launch.stdout,
{
}

/// What goes into a decision is seen as it is.
pub proof fn outcome_views_are_faithful<E>(
    output: ProcessOutput,
    error: E,
    decoded: AfterToolUseHookOutput,
)
    ensures
        outcome_view(Err::<ProcessOutput, E>(error)) == Err::<ProcessOutputView, E>(error),
        outcome_view(Ok::<ProcessOutput, E>(output)) == Ok::<ProcessOutputView, E>(output@),
        output@.status == output.status,
        output@.stdout == output.stdout@,
        output@.stderr == output.stderr@,
        decoded_view(None) is None,
        decoded_view(Some(decoded)) == Some(decoded@),
        decoded.updated_tool_output is None ==> decoded@ is None,
        decoded.updated_tool_output matches Some(text) ==> decoded@ == Some(text@),
{
}

} // verus!
