//! Runs of the tools: the command lines, and what their outcomes mean.
use crate::diagnostics;
use crate::diagnostics::Diagnostic;
use crate::document::text_from_utf8;
use crate::json::{parse_json, Json};
use crate::text;
use crate::tools::{plan_spawn, PhpTool, SpawnPlan};
use vstd::prelude::*;
use vstd::string::*;
use vstd::utf8::*;

verus! {

/// How many linting processes run at once.
pub const MAX_PROCESSES: usize = 4;

/// How long a linting process may take to read a document, in seconds.
pub const WRITE_TIMEOUT_SECONDS: u64 = 5;

/// How long linting may take, in seconds.
pub const LINT_TIMEOUT_SECONDS: u64 = 10;

/// How long fixing may take, in seconds.
pub const FIX_TIMEOUT_SECONDS: u64 = 30;

/// Whether a coding standard is the path of a file rather than a name.
pub open spec fn is_file(standard: Seq<char>) -> bool {
    ||| text::stands_at("/"@, standard, 0)
    ||| text::stands_at("./"@, standard, 0)
    ||| text::stands_at(".xml"@, standard, standard.len() - ".xml"@.len())
}

/// Whether a coding standard is the path of a file.
pub fn looks_like_file(standard: &str) -> (r: bool)
    ensures
        r == is_file(standard@),
{
    text::begins_with(standard, "/") || text::begins_with(standard, "./") || text::finishes_with(
        standard,
        ".xml",
    )
}

/// Whether a coding standard is set that names a file which is not there.
pub open spec fn standard_missing(standard: Option<Seq<char>>, exists_on_disk: bool) -> bool {
    standard is Some && is_file(standard->0) && !exists_on_disk
}

/// The coding standard that a tool is told to use: the one that is set, unless it names a file
/// which is not there.
pub open spec fn effective_standard(standard: Option<Seq<char>>, exists_on_disk: bool) -> Option<
    Seq<char>,
> {
    if standard_missing(standard, exists_on_disk) {
        None
    } else {
        standard
    }
}

/// An argument that is left out where it has no value.
pub open spec fn optional_flag(flag: Seq<char>, value: Option<Seq<char>>) -> Seq<Seq<char>> {
    match value {
        Some(value) => seq![flag + value],
        None => seq![],
    }
}

/// The arguments for linting a document that is read from the standard input.
pub open spec fn phpcs_args(standard: Option<Seq<char>>, stdin_path: Option<Seq<char>>) -> Seq<
    Seq<char>,
> {
    seq!["--report=json"@, "--no-colors"@, "-q"@] + optional_flag("--standard="@, standard)
        + optional_flag("--stdin-path="@, stdin_path) + seq!["-"@]
}

/// The arguments for fixing a document that is read from the standard input, all of it or what one
/// sniff finds.
pub open spec fn phpcbf_args(
    standard: Option<Seq<char>>,
    sniff: Option<Seq<char>>,
    stdin_path: Option<Seq<char>>,
) -> Seq<Seq<char>> {
    seq!["--no-colors"@, "-q"@] + optional_flag("--standard="@, standard) + optional_flag(
        "--sniffs="@,
        sniff,
    ) + optional_flag("--stdin-path="@, stdin_path) + seq!["-"@]
}

fn push_arg(args: &mut Vec<String>, arg: &str)
    ensures
        text::texts(final(args)@) == text::texts(old(args)@) + seq![arg@],
{
    args.push(arg.to_string());
    assert(text::texts(args@) =~= text::texts(old(args)@) + seq![arg@]);
}

fn push_flag(args: &mut Vec<String>, flag: &str, value: Option<&str>)
    ensures
        text::texts(final(args)@) == text::texts(old(args)@) + optional_flag(
            flag@,
            text::optional(value),
        ),
{
    if let Some(value) = value {
        args.push(flag.to_string().concat(value));
    }
    assert(text::texts(args@) =~= text::texts(old(args)@) + optional_flag(
        flag@,
        text::optional(value),
    ));
}

/// The coding standard that a tool is told to use.
pub fn standard_to_use<'a>(standard: Option<&'a str>, exists_on_disk: bool) -> (r: Option<&'a str>)
    ensures
        text::optional(r) == effective_standard(text::optional(standard), exists_on_disk),
{
    match standard {
        Some(s) => if looks_like_file(s) && !exists_on_disk {
            None
        } else {
            Some(s)
        },
        None => None,
    }
}

/// The arguments for linting.
pub fn phpcs_arguments(standard: Option<&str>, stdin_path: Option<&str>) -> (r: Vec<String>)
    ensures
        text::texts(r@) == phpcs_args(text::optional(standard), text::optional(stdin_path)),
{
    let mut args: Vec<String> = Vec::new();
    push_arg(&mut args, "--report=json");
    push_arg(&mut args, "--no-colors");
    push_arg(&mut args, "-q");
    assert(text::texts(args@) =~= seq!["--report=json"@, "--no-colors"@, "-q"@]);
    push_flag(&mut args, "--standard=", standard);
    push_flag(&mut args, "--stdin-path=", stdin_path);
    push_arg(&mut args, "-");
    args
}

/// The arguments for fixing.
pub fn phpcbf_arguments(standard: Option<&str>, sniff: Option<&str>, stdin_path: Option<&str>) -> (r:
    Vec<String>)
    ensures
        text::texts(r@) == phpcbf_args(
            text::optional(standard),
            text::optional(sniff),
            text::optional(stdin_path),
        ),
{
    let mut args: Vec<String> = Vec::new();
    push_arg(&mut args, "--no-colors");
    push_arg(&mut args, "-q");
    assert(text::texts(args@) =~= seq!["--no-colors"@, "-q"@]);
    push_flag(&mut args, "--standard=", standard);
    push_flag(&mut args, "--sniffs=", sniff);
    push_flag(&mut args, "--stdin-path=", stdin_path);
    push_arg(&mut args, "-");
    args
}

/// A command line.
#[derive(Debug)]
pub struct ToolCommand {
    pub program: String,
    pub args: Vec<String>,
}

/// What a command line holds.
#[verifier::ext_equal]
pub struct CommandView {
    pub program: Seq<char>,
    pub args: Seq<Seq<char>>,
}

impl View for ToolCommand {
    type V = CommandView;

    open spec fn view(&self) -> CommandView {
        CommandView { program: self.program@, args: text::texts(self.args@) }
    }
}

/// Whether a command line runs a tool with the given arguments.
pub open spec fn runs_tool(
    command: CommandView,
    tool_path: Seq<char>,
    is_windows: bool,
    args: Seq<Seq<char>>,
) -> bool {
    exists|extension: Option<Seq<char>>| #[trigger]
        crate::tools::extension_of(tool_path, extension) && command == ({
            let plan = crate::tools::spawn_plan(tool_path, extension, is_windows);
            CommandView { program: plan.program, args: plan.prefix_args + args }
        })
}

/// The command line that runs a tool with the given arguments.
pub fn build_tool_command(tool_path: &str, is_windows: bool, args: Vec<String>) -> (r: ToolCommand)
    ensures
        runs_tool(r@, tool_path@, is_windows, text::texts(args@)),
{
    let plan: SpawnPlan = plan_spawn(tool_path, is_windows);
    let mut all: Vec<String> = plan.prefix_args;
    let mut own: Vec<String> = args;
    all.append(&mut own);
    assert(text::texts(all@) =~= text::texts(plan.prefix_args@) + text::texts(args@));
    ToolCommand { program: plan.program, args: all }
}

/// What became of a run of a tool.
#[derive(Debug)]
pub enum ToolOutcome {
    /// The process could not be started.
    NotStarted,
    /// The document could not be handed over.
    NotWritten,
    /// Handing over the document took too long.
    WriteTimedOut,
    /// The process could not be waited for.
    Failed,
    /// The process took too long.
    TimedOut,
    /// The process ended: with its exit code, if it has one, and with what it printed.
    Finished { exit_code: Option<i32>, stdout: Vec<u8> },
}

/// What happened to a process.
#[derive(Debug)]
pub enum RunEvent {
    /// Whether it was started.
    Started(bool),
    /// The document was handed over.
    Written,
    /// The document could not be handed over.
    WriteFailed,
    /// Handing over the document took too long.
    WriteTimedOut,
    /// It ended.
    Finished { exit_code: Option<i32>, stdout: Vec<u8> },
    /// It could not be waited for.
    WaitFailed,
    /// It took too long.
    WaitTimedOut,
}

/// What is to be done next with a process.
#[derive(Debug)]
pub enum RunAction {
    /// Hand over the document, within some seconds if there is a limit.
    Write(Option<u64>),
    /// Wait for the end, for some seconds.
    Wait(u64),
    /// Stop the process; the run has the given outcome.
    Kill(ToolOutcome),
    /// Nothing; the run has the given outcome.
    End(ToolOutcome),
}

/// What is to be done after an event of a process. Linting is limited in how long it may take to
/// read the document, and a process that does not read it is stopped.
pub open spec fn run_step(tool: PhpTool, event: RunEvent) -> RunAction {
    match event {
        RunEvent::Started(false) => RunAction::End(ToolOutcome::NotStarted),
        RunEvent::Started(true) => RunAction::Write(
            match tool {
                PhpTool::Phpcs => Some(WRITE_TIMEOUT_SECONDS),
                PhpTool::Phpcbf => None,
            },
        ),
        RunEvent::Written => RunAction::Wait(
            match tool {
                PhpTool::Phpcs => LINT_TIMEOUT_SECONDS,
                PhpTool::Phpcbf => FIX_TIMEOUT_SECONDS,
            },
        ),
        RunEvent::WriteFailed => RunAction::Kill(ToolOutcome::NotWritten),
        RunEvent::WriteTimedOut => RunAction::Kill(ToolOutcome::WriteTimedOut),
        RunEvent::Finished { exit_code, stdout } => RunAction::End(
            ToolOutcome::Finished { exit_code, stdout },
        ),
        RunEvent::WaitFailed => RunAction::End(ToolOutcome::Failed),
        RunEvent::WaitTimedOut => RunAction::Kill(ToolOutcome::TimedOut),
    }
}

/// What is to be done after an event of a process. The first event is whether it was started.
pub fn run_next(tool: PhpTool, event: RunEvent) -> (r: RunAction)
    ensures
        r == run_step(tool, event),
{
    match event {
        RunEvent::Started(false) => RunAction::End(ToolOutcome::NotStarted),
        RunEvent::Started(true) => match tool {
            PhpTool::Phpcs => RunAction::Write(Some(WRITE_TIMEOUT_SECONDS)),
            PhpTool::Phpcbf => RunAction::Write(None),
        },
        RunEvent::Written => match tool {
            PhpTool::Phpcs => RunAction::Wait(LINT_TIMEOUT_SECONDS),
            PhpTool::Phpcbf => RunAction::Wait(FIX_TIMEOUT_SECONDS),
        },
        RunEvent::WriteFailed => RunAction::Kill(ToolOutcome::NotWritten),
        RunEvent::WriteTimedOut => RunAction::Kill(ToolOutcome::WriteTimedOut),
        RunEvent::Finished { exit_code, stdout } => RunAction::End(
            ToolOutcome::Finished { exit_code, stdout },
        ),
        RunEvent::WaitFailed => RunAction::End(ToolOutcome::Failed),
        RunEvent::WaitTimedOut => RunAction::Kill(ToolOutcome::TimedOut),
    }
}

/// Why a run of a tool has no result.
#[derive(Debug, Clone, Copy, PartialEq, Eq, Structural)]
pub enum ToolError {
    NotStarted,
    NotWritten,
    WriteTimedOut,
    Failed,
    TimedOut,
    /// The tool reports that it failed.
    ExitCode(i32),
    /// What the tool printed is not UTF-8.
    InvalidUtf8,
}

/// The text of some bytes, in which what is not UTF-8 is replaced.
pub uninterp spec fn lossy_text(bytes: Seq<u8>) -> Seq<char>;

/// `String::from_utf8_lossy` gives the text that the bytes encode, and replaces in it what is not
/// UTF-8. What it gives depends on the bytes alone.
#[verifier::external_body]
fn text_from_utf8_lossy(bytes: &[u8]) -> (r: String)
    ensures
        r@ == lossy_text(bytes@),
        valid_utf8(bytes@) ==> r@ == decode_utf8(bytes@),
{
    String::from_utf8_lossy(bytes).into_owned()
}

/// What linting printed, or why it has no result. The exit code does not matter.
pub open spec fn lint_output(outcome: ToolOutcome) -> Result<Seq<char>, ToolError> {
    match outcome {
        ToolOutcome::NotStarted => Err(ToolError::NotStarted),
        ToolOutcome::NotWritten => Err(ToolError::NotWritten),
        ToolOutcome::WriteTimedOut => Err(ToolError::WriteTimedOut),
        ToolOutcome::Failed => Err(ToolError::Failed),
        ToolOutcome::TimedOut => Err(ToolError::TimedOut),
        ToolOutcome::Finished { exit_code, stdout } => Ok(lossy_text(stdout@)),
    }
}

/// What linting printed, or why it has no result.
pub fn phpcs_output(outcome: &ToolOutcome) -> (r: Result<String, ToolError>)
    ensures
        match r {
            Ok(s) => lint_output(*outcome) == Ok::<Seq<char>, ToolError>(s@),
            Err(e) => lint_output(*outcome) == Err::<Seq<char>, ToolError>(e),
        },
        *outcome matches ToolOutcome::Finished { exit_code, stdout } ==> valid_utf8(stdout@) ==> (
        r matches Ok(s) && s@ == decode_utf8(stdout@)),
{
    match outcome {
        ToolOutcome::NotStarted => Err(ToolError::NotStarted),
        ToolOutcome::NotWritten => Err(ToolError::NotWritten),
        ToolOutcome::WriteTimedOut => Err(ToolError::WriteTimedOut),
        ToolOutcome::Failed => Err(ToolError::Failed),
        ToolOutcome::TimedOut => Err(ToolError::TimedOut),
        ToolOutcome::Finished { exit_code: _, stdout } => Ok(text_from_utf8_lossy(stdout)),
    }
}

/// The exit code of a process; -1 where it has none.
pub open spec fn code_of(exit_code: Option<i32>) -> i32 {
    match exit_code {
        Some(code) => code,
        None => -1i32,
    }
}

/// The fixed text, or why there is none. The tool reports with 0 that there was nothing to fix,
/// with 1 that all was fixed and with 2 that some was; any greater exit code is a failure.
pub open spec fn fix_output(outcome: ToolOutcome) -> Result<Seq<char>, ToolError> {
    match outcome {
        ToolOutcome::NotStarted => Err(ToolError::NotStarted),
        ToolOutcome::NotWritten => Err(ToolError::NotWritten),
        ToolOutcome::WriteTimedOut => Err(ToolError::WriteTimedOut),
        ToolOutcome::Failed => Err(ToolError::Failed),
        ToolOutcome::TimedOut => Err(ToolError::TimedOut),
        ToolOutcome::Finished { exit_code, stdout } => if code_of(exit_code) > 2 {
            Err(ToolError::ExitCode(code_of(exit_code)))
        } else if valid_utf8(stdout@) {
            Ok(decode_utf8(stdout@))
        } else {
            Err(ToolError::InvalidUtf8)
        },
    }
}

/// The fixed text, or why there is none.
pub fn phpcbf_output(outcome: ToolOutcome) -> (r: Result<String, ToolError>)
    ensures
        match r {
            Ok(s) => fix_output(outcome) == Ok::<Seq<char>, ToolError>(s@),
            Err(e) => fix_output(outcome) == Err::<Seq<char>, ToolError>(e),
        },
{
    match outcome {
        ToolOutcome::NotStarted => Err(ToolError::NotStarted),
        ToolOutcome::NotWritten => Err(ToolError::NotWritten),
        ToolOutcome::WriteTimedOut => Err(ToolError::WriteTimedOut),
        ToolOutcome::Failed => Err(ToolError::Failed),
        ToolOutcome::TimedOut => Err(ToolError::TimedOut),
        ToolOutcome::Finished { exit_code, stdout } => {
            let code: i32 = match exit_code {
                Some(code) => code,
                None => -1,
            };
            if code > 2 {
                Err(ToolError::ExitCode(code))
            } else {
                match text_from_utf8(stdout) {
                    Some(s) => Ok(s),
                    None => Err(ToolError::InvalidUtf8),
                }
            }
        },
    }
}

/// Whether a linter could not work with its configuration, by its exit code, by what it printed and
/// by the report in it, if it is one. It reports with codes up to 2 what it found. Where it does not
/// get as far as the document it says so in place of a report, and ends with a greater one. A linter
/// that breaks down ends with such a code too, but says nothing of the kind.
pub open spec fn rejects_config(
    exit_code: Option<i32>,
    output: Seq<char>,
    report: Option<crate::json::JsonView>,
) -> bool {
    &&& code_of(exit_code) > 2
    &&& text::stands_at("ERROR:"@, output, 0)
    &&& !(report is Some && report->0.get("files"@) is Some)
}

/// Whether a linter could not work with its configuration, by its exit code, by what it printed and
/// by the report in it, if it is one.
pub fn is_config_rejected(exit_code: Option<i32>, output: &str, report: &Option<Json>) -> (r: bool)
    ensures
        r == rejects_config(
            exit_code,
            output@,
            match *report {
                Some(j) => Some(j@),
                None => None,
            },
        ),
{
    let code: i32 = match exit_code {
        Some(code) => code,
        None => -1,
    };
    let reported: bool = match report {
        Some(j) => j.get("files").is_some(),
        None => false,
    };
    code > 2 && text::begins_with(output, "ERROR:") && !reported
}

/// Whether a lint run could not work with its configuration.
pub open spec fn config_error(outcome: ToolOutcome) -> bool {
    match outcome {
        ToolOutcome::Finished { exit_code, stdout } => rejects_config(
            exit_code,
            lossy_text(stdout@),
            crate::json::parsed_json(lossy_text(stdout@)),
        ),
        _ => false,
    }
}

/// Whether a lint run could not work with its configuration.
pub fn is_config_error(outcome: &ToolOutcome) -> (r: bool)
    ensures
        r == config_error(*outcome),
{
    match outcome {
        ToolOutcome::Finished { exit_code, stdout } => {
            let output: String = text_from_utf8_lossy(stdout);
            let report: Option<Json> = parse_json(&output);
            is_config_rejected(*exit_code, &output, &report)
        },
        _ => false,
    }
}

/// The findings of a lint run on a document, or why it has no result.
pub open spec fn lint_findings(
    outcome: ToolOutcome,
    content: Option<Seq<char>>,
    uri: Seq<char>,
) -> Result<Seq<diagnostics::DiagnosticView>, ToolError> {
    match lint_output(outcome) {
        Ok(output) => Ok(diagnostics::findings_of_output(output, content, uri)),
        Err(e) => Err(e),
    }
}

/// The findings of a lint run on a document, or why it has no result.
pub fn diagnostics_of_run(outcome: &ToolOutcome, content: Option<&str>, uri: &str) -> (r: Result<
    Vec<Diagnostic>,
    ToolError,
>)
    ensures
        match r {
            Ok(v) => lint_findings(*outcome, text::optional(content), uri@) == Ok::<
                Seq<diagnostics::DiagnosticView>,
                ToolError,
            >(diagnostics::diagnostics_view(v@)),
            Err(e) => lint_findings(*outcome, text::optional(content), uri@) == Err::<
                Seq<diagnostics::DiagnosticView>,
                ToolError,
            >(e),
        },
{
    match phpcs_output(outcome) {
        Ok(output) => Ok(diagnostics::diagnostics_of_output(&output, content, uri)),
        Err(e) => Err(e),
    }
}

/// A tool is never told to use a file that is not there, and always told to use a standard that
/// is a name or a file that is there.
pub proof fn law_missing_standard_is_left_out(standard: Option<Seq<char>>, exists_on_disk: bool)
    ensures
        standard_missing(standard, exists_on_disk) ==> effective_standard(standard, exists_on_disk)
            is None,
        !standard_missing(standard, exists_on_disk) ==> effective_standard(standard, exists_on_disk)
            == standard,
        standard matches Some(s) && !is_file(s) ==> effective_standard(standard, exists_on_disk)
            == standard,
{
}

/// Linting and fixing go by the same standard and the same file.
pub proof fn law_lint_and_fix_agree(
    standard: Option<Seq<char>>,
    sniff: Option<Seq<char>>,
    stdin_path: Option<Seq<char>>,
)
    ensures
        standard matches Some(s) ==> phpcs_args(standard, stdin_path).contains("--standard="@ + s)
            && phpcbf_args(standard, sniff, stdin_path).contains("--standard="@ + s),
        stdin_path matches Some(p) ==> phpcs_args(standard, stdin_path).contains(
            "--stdin-path="@ + p,
        ) && phpcbf_args(standard, sniff, stdin_path).contains("--stdin-path="@ + p),
        phpcs_args(standard, stdin_path).last() == "-"@,
        phpcbf_args(standard, sniff, stdin_path).last() == "-"@,
{
    let lint = phpcs_args(standard, stdin_path);
    let fix = phpcbf_args(standard, sniff, stdin_path);
    if let Some(s) = standard {
        assert(lint[3] == "--standard="@ + s);
        assert(fix[2] == "--standard="@ + s);
    }
    if let Some(p) = stdin_path {
        assert(lint[lint.len() - 2] == "--stdin-path="@ + p);
        assert(fix[fix.len() - 2] == "--stdin-path="@ + p);
    }
}

/// Every wait for a process is limited, that for linting to ten seconds, and a process that takes
/// too long is stopped and has no result.
pub proof fn law_runs_are_limited(tool: PhpTool, event: RunEvent)
    ensures
        run_step(tool, event) matches RunAction::Wait(seconds) ==> seconds <= 30,
        run_step(PhpTool::Phpcs, RunEvent::Written) == RunAction::Wait(10),
        run_step(tool, RunEvent::WaitTimedOut) == RunAction::Kill(ToolOutcome::TimedOut),
        lint_output(ToolOutcome::TimedOut) == Err::<Seq<char>, ToolError>(ToolError::TimedOut),
        fix_output(ToolOutcome::TimedOut) == Err::<Seq<char>, ToolError>(ToolError::TimedOut),
{
}

/// The exit code of a lint run hides nothing: every run that ended has the findings of what it
/// printed, and two runs that printed the same have the same findings.
pub proof fn law_exit_code_hides_no_findings(
    exit_code: Option<i32>,
    other_code: Option<i32>,
    stdout: Vec<u8>,
    content: Option<Seq<char>>,
    uri: Seq<char>,
)
    ensures
        lint_findings(ToolOutcome::Finished { exit_code, stdout }, content, uri) == Ok::<
            Seq<diagnostics::DiagnosticView>,
            ToolError,
        >(diagnostics::findings_of_output(lossy_text(stdout@), content, uri)),
        lint_findings(ToolOutcome::Finished { exit_code, stdout }, content, uri) == lint_findings(
            ToolOutcome::Finished { exit_code: other_code, stdout },
            content,
            uri,
        ),
{
}

/// A lint run that did not end has no findings but a reason, and one that ended has no reason to fail.
pub proof fn law_lint_fails_only_without_an_end(
    outcome: ToolOutcome,
    content: Option<Seq<char>>,
    uri: Seq<char>,
)
    ensures
        lint_findings(outcome, content, uri) is Ok <==> outcome is Finished,
        outcome is NotStarted ==> lint_findings(outcome, content, uri) == Err::<
            Seq<diagnostics::DiagnosticView>,
            ToolError,
        >(ToolError::NotStarted),
        outcome is NotWritten ==> lint_findings(outcome, content, uri) == Err::<
            Seq<diagnostics::DiagnosticView>,
            ToolError,
        >(ToolError::NotWritten),
        outcome is WriteTimedOut ==> lint_findings(outcome, content, uri) == Err::<
            Seq<diagnostics::DiagnosticView>,
            ToolError,
        >(ToolError::WriteTimedOut),
        outcome is Failed ==> lint_findings(outcome, content, uri) == Err::<
            Seq<diagnostics::DiagnosticView>,
            ToolError,
        >(ToolError::Failed),
        outcome is TimedOut ==> lint_findings(outcome, content, uri) == Err::<
            Seq<diagnostics::DiagnosticView>,
            ToolError,
        >(ToolError::TimedOut),
{
}

/// The fixer has a result if and only if it ended, with no code or one up to 2, and printed UTF-8: the
/// text that it printed. A greater code is a failure, whatever it printed.
pub proof fn law_fix_gives_what_was_printed(exit_code: Option<i32>, stdout: Vec<u8>)
    ensures
        ({
            let result = fix_output(ToolOutcome::Finished { exit_code, stdout });
            let success = exit_code is None || exit_code->0 <= 2;
            &&& result is Ok <==> success && valid_utf8(stdout@)
            &&& result matches Ok(s) ==> s == decode_utf8(stdout@)
            &&& !success ==> result == Err::<Seq<char>, ToolError>(ToolError::ExitCode(exit_code->0))
            &&& success && !valid_utf8(stdout@) ==> result == Err::<Seq<char>, ToolError>(
                ToolError::InvalidUtf8,
            )
        }),
{
}

/// Without an end the fixer has no result.
pub proof fn law_fix_fails_without_an_end(outcome: ToolOutcome)
    ensures
        !(outcome is Finished) ==> fix_output(outcome) is Err,
        outcome is TimedOut ==> fix_output(outcome) == Err::<Seq<char>, ToolError>(
            ToolError::TimedOut,
        ),
        outcome is NotStarted ==> fix_output(outcome) == Err::<Seq<char>, ToolError>(
            ToolError::NotStarted,
        ),
        outcome is NotWritten ==> fix_output(outcome) == Err::<Seq<char>, ToolError>(
            ToolError::NotWritten,
        ),
{
}

/// A coding standard that starts neither with `/` nor with `./` and does not end in `.xml` is passed
/// on whatever is on disk. One that does is passed on where it is on disk, and left out where it is
/// not.
pub proof fn law_standard_by_its_characters(s: Seq<char>, exists_on_disk: bool)
    ensures
        ({
            let file = {
                ||| s.len() >= 1 && s[0] == '/'
                ||| s.len() >= 2 && s[0] == '.' && s[1] == '/'
                ||| s.len() >= 4 && s[s.len() - 4] == '.' && s[s.len() - 3] == 'x' && s[s.len() - 2]
                    == 'm' && s[s.len() - 1] == 'l'
            };
            &&& !file || exists_on_disk ==> effective_standard(Some(s), exists_on_disk) == Some(s)
            &&& file && !exists_on_disk ==> effective_standard(Some(s), exists_on_disk) is None
            &&& standard_missing(Some(s), exists_on_disk) == (file && !exists_on_disk)
        }),
        effective_standard(None, exists_on_disk) is None,
        !standard_missing(None, exists_on_disk),
{
    reveal_strlit("/");
    reveal_strlit("./");
    reveal_strlit(".xml");
    let n = s.len() as int;
    if n >= 1 {
        let one = s.subrange(0, 1);
        assert(one[0] == s[0]);
        if s[0] == '/' {
            assert(one =~= "/"@);
        }
        if one == "/"@ {
            assert(one[0] == '/');
        }
    }
    if n >= 2 {
        let two = s.subrange(0, 2);
        assert(two[0] == s[0] && two[1] == s[1]);
        if s[0] == '.' && s[1] == '/' {
            assert(two =~= "./"@);
        }
        if two == "./"@ {
            assert(two[0] == '.' && two[1] == '/');
        }
    }
    if n >= 4 {
        let four = s.subrange(n - 4, n);
        assert(four[0] == s[n - 4] && four[1] == s[n - 3] && four[2] == s[n - 2] && four[3] == s[n
            - 1]);
        if s[n - 4] == '.' && s[n - 3] == 'x' && s[n - 2] == 'm' && s[n - 1] == 'l' {
            assert(four =~= ".xml"@);
        }
        if four == ".xml"@ {
            assert(four[0] == '.' && four[1] == 'x' && four[2] == 'm' && four[3] == 'l');
        }
    }
}

/// A linter is asked for a report in JSON, without colours and progress, about what it reads from the
/// standard input; it is told the standard and the file if and only if they are known, each once.
pub proof fn law_lint_arguments(standard: Seq<char>, path: Seq<char>)
    ensures
        phpcs_args(Some(standard), Some(path)) == seq![
            "--report=json"@,
            "--no-colors"@,
            "-q"@,
            "--standard="@ + standard,
            "--stdin-path="@ + path,
            "-"@,
        ],
        phpcs_args(None, Some(path)) == phpcs_args(Some(standard), Some(path)).remove(3),
        phpcs_args(Some(standard), None) == phpcs_args(Some(standard), Some(path)).remove(4),
        phpcs_args(None, None) == phpcs_args(Some(standard), Some(path)).remove(4).remove(3),
{
    assert(phpcs_args(Some(standard), Some(path)) =~= seq![
        "--report=json"@,
        "--no-colors"@,
        "-q"@,
        "--standard="@ + standard,
        "--stdin-path="@ + path,
        "-"@,
    ]);
    assert(phpcs_args(None, Some(path)) =~= phpcs_args(Some(standard), Some(path)).remove(3));
    assert(phpcs_args(Some(standard), None) =~= phpcs_args(Some(standard), Some(path)).remove(4));
    assert(phpcs_args(None, None) =~= phpcs_args(Some(standard), Some(path)).remove(4).remove(3));
}

/// A fixer is told what the linter is told but for the report, and one sniff where it is for one.
pub proof fn law_fix_arguments(
    standard: Option<Seq<char>>,
    sniff: Seq<char>,
    path: Option<Seq<char>>,
)
    ensures
        phpcbf_args(standard, None, path) == phpcs_args(standard, path).remove(0),
        phpcbf_args(standard, Some(sniff), path).contains("--sniffs="@ + sniff),
        phpcbf_args(standard, Some(sniff), path).remove(
            if standard is Some {
                3
            } else {
                2
            },
        ) == phpcbf_args(standard, None, path),
{
    let all = phpcbf_args(standard, Some(sniff), path);
    let at: int = if standard is Some {
        3
    } else {
        2
    };
    assert(phpcbf_args(standard, None, path) =~= phpcs_args(standard, path).remove(0));
    assert(all[at] == "--sniffs="@ + sniff);
    assert(all.remove(at) =~= phpcbf_args(standard, None, path));
}

/// A process that was started gets the document, one that got it is waited for, and one that ended
/// has ended as it did. Whatever goes wrong before that is no end.
pub proof fn law_runs_take_their_course(tool: PhpTool, event: RunEvent)
    ensures
        event matches RunEvent::Started(true) ==> run_step(tool, event) is Write,
        event is Written ==> run_step(tool, event) is Wait,
        event matches RunEvent::Finished { exit_code, stdout } ==> run_step(tool, event)
            == RunAction::End(ToolOutcome::Finished { exit_code, stdout }),
        event matches RunEvent::Started(false) ==> run_step(tool, event) == RunAction::End(
            ToolOutcome::NotStarted,
        ),
        event is WriteFailed ==> run_step(tool, event) == RunAction::Kill(ToolOutcome::NotWritten),
        event is WriteTimedOut ==> run_step(tool, event) == RunAction::Kill(
            ToolOutcome::WriteTimedOut,
        ),
        event is WaitFailed ==> run_step(tool, event) == RunAction::End(ToolOutcome::Failed),
        run_step(PhpTool::Phpcs, RunEvent::Started(true)) == RunAction::Write(Some(5)),
        run_step(PhpTool::Phpcbf, RunEvent::Started(true)) == RunAction::Write(None),
        run_step(PhpTool::Phpcbf, RunEvent::Written) == RunAction::Wait(30),
{
}

/// A configuration is at fault if and only if the linter ended with a code over 2 and printed, in
/// place of a report, a text that starts with `ERROR:`.
pub proof fn law_configuration_at_fault(
    exit_code: Option<i32>,
    output: Seq<char>,
    report: Option<crate::json::JsonView>,
)
    ensures
        rejects_config(exit_code, output, report) ==> exit_code is Some && exit_code->0 > 2
            && output.len() >= 6 && output[0] == 'E' && output[1] == 'R' && output[2] == 'R'
            && output[3] == 'O' && output[4] == 'R' && output[5] == ':',
        exit_code is Some && exit_code->0 > 2 && report is None && output.len() >= 6 && output[0]
            == 'E' && output[1] == 'R' && output[2] == 'R' && output[3] == 'O' && output[4] == 'R'
            && output[5] == ':' ==> rejects_config(exit_code, output, report),
        report matches Some(r) && r.get("files"@) is Some ==> !rejects_config(
            exit_code,
            output,
            report,
        ),
{
    reveal_strlit("ERROR:");
    let word = "ERROR:"@;
    if output.len() >= 6 {
        let start = output.subrange(0, 6);
        assert(start[0] == output[0] && start[1] == output[1] && start[2] == output[2] && start[3]
            == output[3] && start[4] == output[4] && start[5] == output[5]);
        if output[0] == 'E' && output[1] == 'R' && output[2] == 'R' && output[3] == 'O' && output[4]
            == 'R' && output[5] == ':' {
            assert(start =~= word);
        }
        if start == word {
            assert(start[0] == word[0] && start[1] == word[1] && start[2] == word[2] && start[3]
                == word[3] && start[4] == word[4] && start[5] == word[5]);
        }
    }
}

/// Of runs, only those that ended may show a fault in the configuration.
pub proof fn law_only_ended_runs_show_faults(outcome: ToolOutcome)
    ensures
        config_error(outcome) ==> outcome is Finished,
        outcome matches ToolOutcome::Finished { exit_code, stdout } ==> config_error(outcome)
            == rejects_config(
            exit_code,
            lossy_text(stdout@),
            crate::json::parsed_json(lossy_text(stdout@)),
        ),
{
}

/// A report that speaks of no files does not excuse the configuration.
pub proof fn law_fault_with_another_report(
    exit_code: Option<i32>,
    output: Seq<char>,
    report: crate::json::JsonView,
)
    requires
        report.get("files"@) is None,
    ensures
        rejects_config(exit_code, output, Some(report)) == rejects_config(exit_code, output, None),
{
}

/// A tool gets its own arguments, whole and in order, behind whatever starts it; where the system is
/// not Windows nothing else starts it.
pub proof fn law_tool_gets_its_arguments(
    command: CommandView,
    tool_path: Seq<char>,
    is_windows: bool,
    args: Seq<Seq<char>>,
)
    requires
        runs_tool(command, tool_path, is_windows, args),
    ensures
        command.args.len() >= args.len(),
        command.args.skip(command.args.len() - args.len()) == args,
        !is_windows ==> command.program == tool_path && command.args == args,
        ({
            let before = command.args.len() - args.len();
            ||| command.program == tool_path && before == 0
            ||| command.program == "cmd"@ && before == 2 && command.args[0] == "/C"@
                && command.args[1] == tool_path
            ||| command.program == "php"@ && before == 1 && command.args[0] == tool_path
        }),
{
    assert(command.args.skip(command.args.len() - args.len()) =~= args);
    assert(!is_windows ==> command.args =~= args);
}

} // verus!
