//! From a module to the assembly text that is written out.

use crate::ast::Module;
use crate::error::{CompileError, Failure};
use crate::module::{emit_root_module, root_module_text};
use regex::Regex;
use vstd::prelude::*;
use vstd::string::StringExecFns;

verus! {

/// The type `regex::Regex`, a compiled regular expression, taken as opaque.
#[verifier::external_type_specification]
#[verifier::external_body]
pub struct ExRegex(regex::Regex);

/// The type `regex::Error`, the reason for which a pattern did not compile, taken as opaque.
#[verifier::external_type_specification]
#[verifier::external_body]
pub struct ExRegexError(regex::Error);

/// Whether `Regex::new` accepts the pattern: whether it is a regular
/// expression that compiles within the size that the crate allows.
pub uninterp spec fn regex_compiles(pattern: Seq<char>) -> bool;

/// The pattern that a regular expression was made from.
pub uninterp spec fn regex_source(re: Regex) -> Seq<char>;

/// The text `text` with each match of the pattern `pattern`, from the left
/// and without overlap, replaced by the expansion of `replacement`.
pub uninterp spec fn regex_replaced(pattern: Seq<char>, text: Seq<char>, replacement: Seq<char>) -> Seq<
    char,
>;

/// `Regex::new` compiles a pattern with the options that the crate sets by
/// itself. Whether it succeeds depends on the pattern alone, and the compiled
/// expression keeps the pattern that it was made from.
#[verifier::external_body]
fn new_regex(pattern: &str) -> (r: Result<Regex, regex::Error>)
    ensures
        r is Ok <==> regex_compiles(pattern@),
        r matches Ok(re) ==> regex_source(re) == pattern@,
{
    Regex::new(pattern)
}

/// `Regex::replace_all` replaces every match of the expression in the text,
/// from the left and without overlap. Of an expression that `Regex::new`
/// made, the result is a function of the pattern, the text and the
/// replacement.
#[verifier::external_body]
fn replace_all(re: &Regex, text: &str, replacement: &str) -> (r: String)
    ensures
        r@ == regex_replaced(regex_source(*re), text@, replacement@),
{
    re.replace_all(text, replacement).into_owned()
}

/// A regular expression that was compiled from a pattern. There is no way
/// to make one but `Pattern::new`.
pub struct Pattern {
    re: Regex,
}

impl Pattern {
    /// The pattern that the expression was compiled from.
    pub closed spec fn source(&self) -> Seq<char> {
        regex_source(self.re)
    }

    /// Compiles the pattern; `None` for a pattern that does not compile.
    pub fn new(pattern: &str) -> (r: Option<Pattern>)
        ensures
            r is Some <==> regex_compiles(pattern@),
            r matches Some(p) ==> p.source() == pattern@,
    {
        match new_regex(pattern) {
            Ok(re) => Some(Pattern { re }),
            Err(_) => None,
        }
    }

    /// The text with every match of the expression replaced.
    pub fn replace_all(&self, text: &str, replacement: &str) -> (r: String)
        ensures
            r@ == regex_replaced(self.source(), text@, replacement@),
    {
        replace_all(&self.re, text, replacement)
    }
}

/// The pattern of a run of blank lines: a line break, white space, and a line break.
pub const BLANK_LINES: &'static str = "(\\n|\\r\\n)\\s*(\\n|\\r\\n)";

/// What the collapsing of blank lines makes of a text: each run of blank
/// lines becomes one line break; the text stays as it is where the pattern
/// of blank lines does not compile.
pub open spec fn collapsed(text: Seq<char>) -> Seq<char> {
    if regex_compiles(BLANK_LINES@) {
        regex_replaced(BLANK_LINES@, text, "\n"@)
    } else {
        text
    }
}

/// The text with its blank lines collapsed by the compiled pattern; the text
/// as it is where the pattern did not compile.
pub fn collapse_with(compiled: Option<Pattern>, text: String) -> (r: String)
    ensures
        match compiled {
            Some(pattern) => r@ == regex_replaced(pattern.source(), text@, "\n"@),
            None => r@ == text@,
        },
{
    match compiled {
        Some(pattern) => pattern.replace_all(text.as_str(), "\n"),
        None => text,
    }
}

/// Collapses each run of blank lines of the text into one line break.
pub fn collapse_blank_lines(text: String) -> (r: String)
    ensures
        r@ == collapsed(text@),
{
    collapse_with(Pattern::new(BLANK_LINES), text)
}

/// Compiles the root module `m` to the assembly text that is written out:
/// the text of the program with its blank lines collapsed.
pub fn compile(m: &Module) -> (r: Result<String, CompileError>)
    ensures
        match r {
            Ok(text) => root_module_text(*m) matches Ok(raw) && text@ == collapsed(raw),
            Err(e) => root_module_text(*m) == Err::<Seq<char>, Failure>(e@),
        },
{
    match emit_root_module(m) {
        Ok(text) => Ok(collapse_blank_lines(text)),
        Err(e) => Err(e),
    }
}

} // verus!
