//! The decisions around one run of the program under test: what to start,
//! and what verdict the process's fate amounts to. Starting the process is
//! left to the caller.

use crate::path::{parent_dir, parent_path, path_bytes, path_from, path_shown, path_text};
use crate::test_types::{
    opt_text, resolved, CaseView, Host, MarcoTestCase, ResultView, TestResult,
};
use crate::text::{trim, trimmed};
use crate::util::{
    command_of, command_view, output_matches, outputs_agree, parse_shell_cmd, shell_split, texts,
};
use std::path::PathBuf;
use vstd::prelude::*;
use vstd::utf8::encode_utf8;

verus! {

/// The text that `String::from_utf8_lossy` reads from `bytes`.
pub uninterp spec fn lossy_text(bytes: Seq<u8>) -> Seq<char>;

/// `String::from_utf8_lossy`: the text that the bytes encode, with each
/// invalid sequence replaced by U+FFFD. The text is a function of the bytes
/// alone.
#[verifier::external_body]
fn decode_lossy(bytes: &Vec<u8>) -> (r: String)
    ensures
        r@ == lossy_text(bytes@),
{
    String::from_utf8_lossy(bytes).into_owned()
}

/// A process to start: the program, its arguments, the directory to start
/// it in, and what to write to its standard input before closing it
/// (`None`: close it at once).
#[derive(Clone, Debug, PartialEq, Eq)]
pub struct Invocation {
    pub program: String,
    pub args: Vec<String>,
    pub dir: PathBuf,
    pub stdin: Option<String>,
}

pub struct InvocationView {
    pub program: Seq<char>,
    pub args: Seq<Seq<char>>,
    /// The bytes of the directory's path.
    pub dir: Seq<u8>,
    pub stdin: Option<Seq<char>>,
}

impl View for Invocation {
    type V = InvocationView;

    open spec fn view(&self) -> InvocationView {
        InvocationView {
            program: self.program@,
            args: texts(self.args@),
            dir: path_bytes(self.dir),
            stdin: opt_text(self.stdin),
        }
    }
}

/// What became of a process that was to be started.
#[derive(Clone, Debug, PartialEq, Eq)]
pub enum Outcome {
    /// The process could not be started.
    SpawnFailed { cause: String },
    /// The input could not be written to the process.
    WriteFailed { cause: String },
    /// The process could not be waited for.
    WaitFailed { cause: String },
    /// The process ran to its end and wrote these bytes.
    Exited { stdout: Vec<u8>, stderr: Vec<u8> },
}

pub enum OutcomeView {
    SpawnFailed { cause: Seq<char> },
    WriteFailed { cause: Seq<char> },
    WaitFailed { cause: Seq<char> },
    Exited { stdout: Seq<u8>, stderr: Seq<u8> },
}

impl View for Outcome {
    type V = OutcomeView;

    open spec fn view(&self) -> OutcomeView {
        match *self {
            Outcome::SpawnFailed { cause } => OutcomeView::SpawnFailed { cause: cause@ },
            Outcome::WriteFailed { cause } => OutcomeView::WriteFailed { cause: cause@ },
            Outcome::WaitFailed { cause } => OutcomeView::WaitFailed { cause: cause@ },
            Outcome::Exited { stdout, stderr } => OutcomeView::Exited {
                stdout: stdout@,
                stderr: stderr@,
            },
        }
    }
}

/// The result of a test that failed before any output could be compared:
/// no actual output, and the reason as its error.
pub open spec fn failure(test: CaseView, error: Seq<char>) -> ResultView {
    ResultView {
        name: test.header.name,
        file: test.file,
        passed: false,
        actual: Seq::empty(),
        expected: trimmed(test.expected_output),
        error: Some(error),
    }
}

/// The directory a test's process starts in, by the bytes of its path: the
/// one that holds the document, or `.` where the document's path names none.
pub open spec fn working_dir(file: PathBuf) -> Seq<u8> {
    match parent_path(path_bytes(file)) {
        Some(dir) => dir,
        None => encode_utf8("."@),
    }
}

/// What is written to the process: the test's input, unless it is empty.
pub open spec fn stdin_of(test: CaseView) -> Option<Seq<char>> {
    if test.input_data.len() > 0 {
        Some(test.input_data)
    } else {
        None
    }
}

/// The process to start for a test on `host`, or the failed result where
/// none can be started, given the program and arguments that the command
/// line of a Unix host was split into.
///
/// Without a runner the test fails. On Windows the command goes, as one
/// argument, to a shell that reads no profile. Elsewhere the command's first
/// word is the program and the other words its arguments, and a command
/// without them fails the test.
pub open spec fn planned_given(
    test: CaseView,
    host: Host,
    command: Option<(Seq<char>, Seq<Seq<char>>)>,
) -> Result<InvocationView, ResultView> {
    match test.header.runner {
        None => Err(failure(test, "no runner command provided"@)),
        Some(cfg) => {
            let cmd = resolved(cfg, host);
            if host == Host::Windows {
                Ok(
                    InvocationView {
                        program: "powershell"@,
                        args: seq!["-NoProfile"@, "-Command"@, cmd],
                        dir: working_dir(test.file),
                        stdin: stdin_of(test),
                    },
                )
            } else {
                match command {
                    Some((program, args)) => Ok(
                        InvocationView {
                            program,
                            args,
                            dir: working_dir(test.file),
                            stdin: stdin_of(test),
                        },
                    ),
                    None => Err(failure(test, "malformed runner command: "@ + cmd)),
                }
            }
        },
    }
}

/// The process to start for a test on `host`, or the failed result where
/// none can be started.
pub open spec fn planned(test: CaseView, host: Host) -> Result<InvocationView, ResultView> {
    match test.header.runner {
        None => planned_given(test, host, None),
        Some(cfg) => planned_given(test, host, command_of(shell_split(resolved(cfg, host)))),
    }
}

pub open spec fn plan_view(plan: Result<Invocation, TestResult>) -> Result<
    InvocationView,
    ResultView,
> {
    match plan {
        Ok(invocation) => Ok(invocation@),
        Err(result) => Err(result@),
    }
}

/// `parts`, each followed by `sep` but the last.
pub open spec fn joined(parts: Seq<Seq<char>>, sep: Seq<char>) -> Seq<char>
    decreases parts.len(),
{
    if parts.len() == 0 {
        Seq::empty()
    } else if parts.len() == 1 {
        parts[0]
    } else {
        joined(parts.drop_last(), sep) + sep + parts.last()
    }
}

/// The error of a test whose process could not be started.
pub open spec fn spawn_error(cause: Seq<char>, invocation: InvocationView) -> Seq<char> {
    "runner spawn error: "@ + cause + " (prog: "@ + invocation.program + ", args: ["@ + joined(
        invocation.args,
        ", "@,
    ) + "], dir: "@ + path_shown(invocation.dir) + ")"@
}

/// The result of a test whose process ran to its end, given whether its
/// output passed: the trimmed output, followed on failure by what the
/// process wrote to its standard error, if that is more than white space.
pub open spec fn verdict_of(test: CaseView, actual: Seq<char>, stderr: Seq<char>, passed: bool)
    -> ResultView {
    ResultView {
        name: test.header.name,
        file: test.file,
        passed,
        actual: if !passed && trimmed(stderr).len() > 0 {
            actual + "\n[stderr:"@ + trimmed(stderr) + "]"@
        } else {
            actual
        },
        expected: trimmed(test.expected_output),
        error: if passed {
            None
        } else {
            Some("output did not match expected"@)
        },
    }
}

/// The result of a test whose process wrote `stdout` and `stderr`.
pub open spec fn judged(test: CaseView, stdout: Seq<char>, stderr: Seq<char>) -> ResultView {
    verdict_of(
        test,
        trimmed(stdout),
        stderr,
        outputs_agree(trimmed(test.expected_output), trimmed(stdout)),
    )
}

/// The result of a test, given what became of its process.
pub open spec fn concluded(test: CaseView, invocation: InvocationView, outcome: OutcomeView)
    -> ResultView {
    match outcome {
        OutcomeView::SpawnFailed { cause } => failure(test, spawn_error(cause, invocation)),
        OutcomeView::WriteFailed { cause } => failure(
            test,
            "failed writing to child stdin: "@ + cause,
        ),
        OutcomeView::WaitFailed { cause } => failure(test, "failed waiting on child: "@ + cause),
        OutcomeView::Exited { stdout, stderr } => judged(
            test,
            lossy_text(stdout),
            lossy_text(stderr),
        ),
    }
}

/// A result carries an error exactly when the test did not pass, whatever
/// became of the process.
pub proof fn lemma_error_exactly_on_failure(
    test: CaseView,
    invocation: InvocationView,
    outcome: OutcomeView,
)
    ensures
        concluded(test, invocation, outcome).error is Some <==> !concluded(
            test,
            invocation,
            outcome,
        ).passed,
{
}

/// A test for which no process can be started has failed, with an error.
pub proof fn lemma_unplanned_test_has_failed(test: CaseView, host: Host)
    ensures
        planned(test, host) matches Err(result) ==> !result.passed && result.error is Some
            && result.actual.len() == 0,
        test.header.runner is None ==> planned(test, host) == Err::<InvocationView, ResultView>(
            failure(test, "no runner command provided"@),
        ),
{
}

/// Running a test again changes nothing as long as the program writes the
/// same bytes: the verdict and the reported output are the same.
pub proof fn lemma_same_output_same_verdict(
    test: CaseView,
    invocation: InvocationView,
    first: OutcomeView,
    second: OutcomeView,
)
    requires
        first matches OutcomeView::Exited { stdout, stderr } && second == (OutcomeView::Exited {
            stdout,
            stderr,
        }),
    ensures
        concluded(test, invocation, first).passed == concluded(test, invocation, second).passed,
        concluded(test, invocation, first).actual == concluded(test, invocation, second).actual,
{
}

/// A process that writes exactly what is expected passes its test, and its
/// output is reported as it was expected.
pub proof fn lemma_expected_output_passes(test: CaseView, stdout: Seq<char>, stderr: Seq<char>)
    requires
        trimmed(stdout) == trimmed(test.expected_output),
    ensures
        judged(test, stdout, stderr).passed,
        judged(test, stdout, stderr).actual == trimmed(test.expected_output),
        judged(test, stdout, stderr).error is None,
{
    crate::util::lemma_outputs_agree_reflexive(trimmed(stdout));
}

fn fail(test: &MarcoTestCase, error: String) -> (r: TestResult)
    ensures
        r@ == failure(test@, error@),
{
    TestResult {
        name: test.header.name.clone(),
        file: test.file.clone(),
        passed: false,
        actual: String::new(),
        expected: String::from_str(trim(test.expected_output.as_str())),
        error: Some(error),
    }
}

fn working_dir_of(file: &PathBuf) -> (r: PathBuf)
    ensures
        path_bytes(r) == working_dir(*file),
{
    match parent_dir(file) {
        Some(dir) => dir,
        None => path_from("."),
    }
}

fn stdin_for(test: &MarcoTestCase) -> (r: Option<String>)
    ensures
        opt_text(r) == stdin_of(test@),
{
    if test.input_data.as_str().is_empty() {
        None
    } else {
        Some(test.input_data.clone())
    }
}

fn join(parts: &Vec<String>, sep: &str) -> (r: String)
    ensures
        r@ == joined(texts(parts@), sep@),
{
    let mut out = String::new();
    let mut i: usize = 0;
    while i < parts.len()
        invariant
            i <= parts.len(),
            out@ == joined(texts(parts@).take(i as int), sep@),
        decreases parts.len() - i,
    {
        proof {
            let next = texts(parts@).take(i + 1);
            assert(next.drop_last() =~= texts(parts@).take(i as int));
            assert(next.last() == parts@[i as int]@);
            if i == 0 {
                assert(next.len() == 1);
                assert(out@ + parts@[0]@ =~= parts@[0]@);
            }
        }
        if i > 0 {
            out.append(sep);
        }
        out.append(parts[i].as_str());
        i = i + 1;
    }
    proof {
        assert(texts(parts@).take(parts@.len() as int) =~= texts(parts@));
    }
    out
}

/// Decides what to start for a test on a Unix or Windows host, from the
/// program and arguments that the runner's command line was split into
/// (read on a Unix host only).
pub fn prepare_from(test: &MarcoTestCase, host: Host, command: Option<(String, Vec<String>)>) -> (r:
    Result<Invocation, TestResult>)
    ensures
        plan_view(r) == planned_given(test@, host, command_view(command)),
{
    match &test.header.runner {
        None => Err(fail(test, String::from_str("no runner command provided"))),
        Some(cfg) => {
            let cmd = cfg.for_current_platform(host);
            match host {
                Host::Windows => {
                    let mut args: Vec<String> = Vec::new();
                    args.push(String::from_str("-NoProfile"));
                    args.push(String::from_str("-Command"));
                    args.push(String::from_str(cmd));
                    assert(texts(args@) =~= seq!["-NoProfile"@, "-Command"@, cmd@]);
                    Ok(
                        Invocation {
                            program: String::from_str("powershell"),
                            args,
                            dir: working_dir_of(&test.file),
                            stdin: stdin_for(test),
                        },
                    )
                },
                Host::Unix => match command {
                    Some((program, args)) => Ok(
                        Invocation {
                            program,
                            args,
                            dir: working_dir_of(&test.file),
                            stdin: stdin_for(test),
                        },
                    ),
                    None => {
                        let mut error = String::from_str("malformed runner command: ");
                        error.append(cmd);
                        Err(fail(test, error))
                    },
                },
            }
        },
    }
}

/// Decides what to start for a test on `host`: the process, or the failed
/// result of a test that has no runner or whose command cannot be split.
pub fn prepare(test: &MarcoTestCase, host: Host) -> (r: Result<Invocation, TestResult>)
    ensures
        plan_view(r) == planned(test@, host),
{
    match &test.header.runner {
        None => prepare_from(test, host, None),
        Some(cfg) => {
            let command = match host {
                Host::Windows => None,
                Host::Unix => parse_shell_cmd(cfg.for_current_platform(host)),
            };
            prepare_from(test, host, command)
        },
    }
}

/// The result of a test whose output was compared: `actual` is the trimmed
/// output, `passed` what the comparison found.
pub fn verdict(test: &MarcoTestCase, actual: &str, stderr: &str, passed: bool) -> (r: TestResult)
    ensures
        r@ == verdict_of(test@, actual@, stderr@, passed),
{
    let errors = trim(stderr);
    let mut shown = String::from_str(actual);
    if !passed && !errors.is_empty() {
        shown.append("\n[stderr:");
        shown.append(errors);
        shown.append("]");
    }
    TestResult {
        name: test.header.name.clone(),
        file: test.file.clone(),
        passed,
        actual: shown,
        expected: String::from_str(trim(test.expected_output.as_str())),
        error: if passed {
            None
        } else {
            Some(String::from_str("output did not match expected"))
        },
    }
}

/// Judges what a process wrote against what the test expects.
pub fn judge(test: &MarcoTestCase, stdout: &str, stderr: &str) -> (r: TestResult)
    ensures
        r@ == judged(test@, stdout@, stderr@),
{
    let actual = trim(stdout);
    let expected = trim(test.expected_output.as_str());
    let passed = output_matches(expected, actual);
    verdict(test, actual, stderr, passed)
}

/// Turns what became of a test's process into the test's result.
pub fn conclude(test: &MarcoTestCase, invocation: &Invocation, outcome: &Outcome) -> (r: TestResult)
    ensures
        r@ == concluded(test@, invocation@, outcome@),
        r.passed <==> r.error is None,
{
    match outcome {
        Outcome::SpawnFailed { cause } => {
            let mut error = String::from_str("runner spawn error: ");
            error.append(cause.as_str());
            error.append(" (prog: ");
            error.append(invocation.program.as_str());
            error.append(", args: [");
            error.append(join(&invocation.args, ", ").as_str());
            error.append("], dir: ");
            error.append(path_text(&invocation.dir).as_str());
            error.append(")");
            fail(test, error)
        },
        Outcome::WriteFailed { cause } => {
            let mut error = String::from_str("failed writing to child stdin: ");
            error.append(cause.as_str());
            fail(test, error)
        },
        Outcome::WaitFailed { cause } => {
            let mut error = String::from_str("failed waiting on child: ");
            error.append(cause.as_str());
            fail(test, error)
        },
        Outcome::Exited { stdout, stderr } => {
            let out = decode_lossy(stdout);
            let err = decode_lossy(stderr);
            judge(test, out.as_str(), err.as_str())
        },
    }
}

} // verus!
