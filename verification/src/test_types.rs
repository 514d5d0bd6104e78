//! The records that travel from a test document to a test report.

use std::path::PathBuf;
use vstd::prelude::*;

verus! {

/// The family of operating system a command is resolved for.
#[derive(Clone, Copy, Debug, PartialEq, Eq, Structural)]
pub enum Host {
    Windows,
    Unix,
}

/// How to start the program under test: one command for every host, or one
/// per family of host with a common fallback.
#[derive(Debug, PartialEq, Eq)]
pub enum RunnerConfig {
    Simple(String),
    Platform { windows: Option<String>, unix: Option<String>, default: Option<String> },
}

pub enum RunnerView {
    Simple(Seq<char>),
    Platform { windows: Option<Seq<char>>, unix: Option<Seq<char>>, default: Option<Seq<char>> },
}

/// The text of an optional string.
pub open spec fn opt_text(o: Option<String>) -> Option<Seq<char>> {
    match o {
        Some(s) => Some(s@),
        None => None,
    }
}

impl View for RunnerConfig {
    type V = RunnerView;

    open spec fn view(&self) -> RunnerView {
        match *self {
            RunnerConfig::Simple(cmd) => RunnerView::Simple(cmd@),
            RunnerConfig::Platform { windows, unix, default } => RunnerView::Platform {
                windows: opt_text(windows),
                unix: opt_text(unix),
                default: opt_text(default),
            },
        }
    }
}

/// The command used when a per-host configuration names none.
pub open spec fn fallback_command() -> Seq<char> {
    "echo"@
}

/// The command a configuration stands for on `host`: a simple command as it
/// is; otherwise the host's own entry, else the default entry, else the
/// fallback.
pub open spec fn resolved(cfg: RunnerView, host: Host) -> Seq<char> {
    match cfg {
        RunnerView::Simple(cmd) => cmd,
        RunnerView::Platform { windows, unix, default } => {
            let own = if host == Host::Windows {
                windows
            } else {
                unix
            };
            match own {
                Some(cmd) => cmd,
                None => match default {
                    Some(cmd) => cmd,
                    None => fallback_command(),
                },
            }
        },
    }
}

fn clone_opt(o: &Option<String>) -> (r: Option<String>)
    ensures
        r == *o,
{
    match o {
        Some(s) => Some(s.clone()),
        None => None,
    }
}

impl Clone for RunnerConfig {
    fn clone(&self) -> (r: Self)
        ensures
            r == *self,
    {
        match self {
            RunnerConfig::Simple(cmd) => RunnerConfig::Simple(cmd.clone()),
            RunnerConfig::Platform { windows, unix, default } => RunnerConfig::Platform {
                windows: clone_opt(windows),
                unix: clone_opt(unix),
                default: clone_opt(default),
            },
        }
    }
}

impl RunnerConfig {
    /// The command to run on `host`.
    pub fn for_current_platform(&self, host: Host) -> (cmd: &str)
        ensures
            cmd@ == resolved(self@, host),
    {
        match self {
            RunnerConfig::Simple(cmd) => cmd.as_str(),
            RunnerConfig::Platform { windows, unix, default } => {
                let own = match host {
                    Host::Windows => windows,
                    Host::Unix => unix,
                };
                match own {
                    Some(cmd) => cmd.as_str(),
                    None => match default {
                        Some(cmd) => cmd.as_str(),
                        None => "echo",
                    },
                }
            },
        }
    }
}

/// A configuration that names no command at all resolves to the fallback
/// command on every host.
pub proof fn lemma_unconfigured_runner_falls_back(host: Host)
    ensures
        resolved(RunnerView::Platform { windows: None, unix: None, default: None }, host)
            == fallback_command(),
{
}

/// Whether a configuration names no empty command.
pub open spec fn names_no_empty_command(cfg: RunnerView) -> bool {
    match cfg {
        RunnerView::Simple(cmd) => cmd.len() > 0,
        RunnerView::Platform { windows, unix, default } => {
            &&& windows matches Some(cmd) ==> cmd.len() > 0
            &&& unix matches Some(cmd) ==> cmd.len() > 0
            &&& default matches Some(cmd) ==> cmd.len() > 0
        },
    }
}

/// A configuration that names no empty command resolves to a command that
/// is not empty, on every host.
pub proof fn lemma_resolved_command_is_not_empty(cfg: RunnerView, host: Host)
    requires
        names_no_empty_command(cfg),
    ensures
        resolved(cfg, host).len() > 0,
{
    reveal_strlit("echo");
}

/// What a document says about all of its tests.
#[derive(Debug, PartialEq, Eq)]
pub struct TestHeader {
    pub name: String,
    pub author: Option<String>,
    pub runner: Option<RunnerConfig>,
    pub passing: Option<bool>,
    pub date: Option<String>,
}

pub struct HeaderView {
    pub name: Seq<char>,
    pub author: Option<Seq<char>>,
    pub runner: Option<RunnerView>,
    pub passing: Option<bool>,
    pub date: Option<Seq<char>>,
}

impl View for TestHeader {
    type V = HeaderView;

    open spec fn view(&self) -> HeaderView {
        HeaderView {
            name: self.name@,
            author: opt_text(self.author),
            runner: match self.runner {
                Some(cfg) => Some(cfg@),
                None => None,
            },
            passing: self.passing,
            date: opt_text(self.date),
        }
    }
}

impl Clone for TestHeader {
    fn clone(&self) -> (r: Self)
        ensures
            r == *self,
    {
        TestHeader {
            name: self.name.clone(),
            author: clone_opt(&self.author),
            runner: match &self.runner {
                Some(cfg) => Some(cfg.clone()),
                None => None,
            },
            passing: self.passing,
            date: clone_opt(&self.date),
        }
    }
}

/// One test of a document: what to feed the program and what to expect back.
#[derive(Debug, PartialEq, Eq)]
pub struct MarcoTestCase {
    pub header: TestHeader,
    pub file: PathBuf,
    pub input_data: String,
    pub expected_output: String,
    /// The line at which the input block starts, 0 when it is not known.
    pub block_start_line: usize,
}

pub struct CaseView {
    pub header: HeaderView,
    pub file: PathBuf,
    pub input_data: Seq<char>,
    pub expected_output: Seq<char>,
    pub block_start_line: usize,
}

impl View for MarcoTestCase {
    type V = CaseView;

    open spec fn view(&self) -> CaseView {
        CaseView {
            header: self.header@,
            file: self.file,
            input_data: self.input_data@,
            expected_output: self.expected_output@,
            block_start_line: self.block_start_line,
        }
    }
}

impl Clone for MarcoTestCase {
    fn clone(&self) -> (r: Self)
        ensures
            r == *self,
    {
        MarcoTestCase {
            header: self.header.clone(),
            file: self.file.clone(),
            input_data: self.input_data.clone(),
            expected_output: self.expected_output.clone(),
            block_start_line: self.block_start_line,
        }
    }
}

/// The views of a list of test cases, in order.
pub open spec fn case_views(cases: Seq<MarcoTestCase>) -> Seq<CaseView> {
    cases.map_values(|c: MarcoTestCase| c@)
}

/// The verdict on one test case.
#[derive(Debug, PartialEq, Eq)]
pub struct TestResult {
    pub name: String,
    pub file: PathBuf,
    pub passed: bool,
    pub actual: String,
    pub expected: String,
    pub error: Option<String>,
}

pub struct ResultView {
    pub name: Seq<char>,
    pub file: PathBuf,
    pub passed: bool,
    pub actual: Seq<char>,
    pub expected: Seq<char>,
    pub error: Option<Seq<char>>,
}

impl View for TestResult {
    type V = ResultView;

    open spec fn view(&self) -> ResultView {
        ResultView {
            name: self.name@,
            file: self.file,
            passed: self.passed,
            actual: self.actual@,
            expected: self.expected@,
            error: opt_text(self.error),
        }
    }
}

} // verus!
