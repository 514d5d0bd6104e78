//! The options of a run that writes its result to a file.

use crate::path::{path_bytes, replace_extension, with_extension};
use std::path::PathBuf;
use vstd::prelude::*;

verus! {

/// Where to read from and where to write to.
#[derive(Clone, Debug, PartialEq, Eq)]
pub struct Args {
    pub input_file: PathBuf,
    pub output_file: Option<PathBuf>,
}

impl Args {
    /// Names the output file after the input file, with the extension `o`,
    /// where none is given.
    pub fn set_defaults(self) -> (r: Self)
        ensures
            r.input_file == self.input_file,
            match self.output_file {
                Some(path) => r.output_file == Some(path),
                None => r.output_file matches Some(path) && path_bytes(path) == with_extension(
                    path_bytes(self.input_file),
                    "o"@,
                ),
            },
    {
        let mut args = self;
        if args.output_file.is_none() {
            proof {
                reveal_strlit("o");
            }
            args.output_file = Some(replace_extension(&args.input_file, "o"));
        }
        args
    }
}

} // verus!
