//! A runner of tests that are written down in documents: test cases are
//! taken from a document's headings and code blocks, each is run against a
//! program, and what the program writes is compared with what the document
//! expects.

pub mod cli;
pub mod config;
pub mod parser;
pub mod path;
pub mod report;
pub mod runner;
pub mod test_types;
pub mod text;
pub mod util;
