//! The options of a run.

use vstd::prelude::*;

verus! {

/// The options of a run, as given on the command line.
#[derive(Clone, Debug, PartialEq, Eq)]
pub struct Args {
    /// A glob pattern, or one file, to take the test documents from.
    pub input: String,
    /// The command to run tests with where a document names none.
    pub runner: Option<String>,
    /// The largest number of threads to run tests on.
    pub threads: Option<usize>,
    /// Whether to say more about the run.
    pub verbose: bool,
}

/// The pattern that finds the test documents when none is given.
pub open spec fn default_input() -> Seq<char> {
    "**/*.marco.md"@
}

impl Args {
    /// Fills in the input pattern where it was left empty.
    pub fn set_defaults(self) -> (r: Self)
        ensures
            r.input@ == if self.input@.len() == 0 {
                default_input()
            } else {
                self.input@
            },
            r.runner == self.runner,
            r.threads == self.threads,
            r.verbose == self.verbose,
    {
        let mut args = self;
        if args.input.as_str().is_empty() {
            args.input = String::from_str("**/*.marco.md");
        }
        args
    }
}

} // verus!
