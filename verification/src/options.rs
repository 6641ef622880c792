//! The options of a run of the compiler.

use crate::text::push_signed_decimal;
use crate::text::signed_decimal;
use vstd::prelude::*;
use vstd::string::StringExecFns;

verus! {

/// What the command line asks for.
#[derive(Debug, Clone)]
pub struct Options {
    pub input: String,
    pub output: String,
    pub include_paths: Vec<String>,
    pub verbose: bool,
}

/// The status with which the parsing of the command line failed.
#[derive(Debug, Clone, Copy, PartialEq, Eq, Structural)]
pub struct ArgParseError(pub i32);

/// The message of the error.
pub open spec fn arg_error_text(code: i32) -> Seq<char> {
    "Encountered error while parsing arguments: "@ + signed_decimal(code as int)
}

impl ArgParseError {
    pub fn message(&self) -> (m: String)
        ensures
            m@ == arg_error_text(self.0),
    {
        let mut m = String::from_str("Encountered error while parsing arguments: ");
        push_signed_decimal(&mut m, self.0 as isize);
        m
    }
}

/// Whether the run reports what it does.
pub fn is_verbose(options: &Options) -> (verbose: bool)
    ensures
        verbose == options.verbose,
{
    options.verbose
}

} // verus!
