//! Small helpers on plain values that the program around the merge uses.

use vstd::prelude::*;
use regex::Regex;

verus! {

/// A compiled regular expression of the `regex` crate. Opaque to the proofs.
#[verifier::external_type_specification]
#[verifier::external_body]
pub struct ExRegex(regex::Regex);

/// The error with which the `regex` crate refuses a pattern. Opaque to the proofs.
#[verifier::external_type_specification]
#[verifier::external_body]
pub struct ExRegexError(regex::Error);

/// Whether `regex::Regex::new` accepts the pattern with these characters:
/// its syntax is valid and the compiled expression is within the default
/// size limit.
pub uninterp spec fn pattern_compiles(pattern: Seq<char>) -> bool;

/// Calls `regex::Regex::new`. Not proved: that it succeeds exactly on the
/// patterns for which `pattern_compiles` stands, that is, that success
/// depends on the characters of the pattern alone.
#[verifier::external_body]
fn regex_new(pattern: &str) -> (r: Result<Regex, regex::Error>)
    ensures
        r is Ok <==> pattern_compiles(pattern@),
{
    Regex::new(pattern)
}

/// The message of a `regex::Error`, as its `Display` writes it. Nothing is
/// claimed of the text.
#[verifier::external_body]
fn regex_error_text(e: &regex::Error) -> (r: String) {
    format!("{}", e)
}

/// Compiles a pattern. Gives the compiled expression where the pattern
/// compiles, and the message of the refusal where it does not.
pub fn get_regex(pattern: &str) -> (r: Result<Regex, String>)
    ensures
        r is Ok <==> pattern_compiles(pattern@),
{
    match regex_new(pattern) {
        Ok(re) => Ok(re),
        Err(e) => Err(regex_error_text(&e)),
    }
}

/// The value of a setting that was looked up: the value found, or the backup
/// where none was found.
pub fn value_or_backup(found: Option<String>, backup: &str) -> (r: String)
    ensures
        r@ == match found {
            Some(v) => v@,
            None => backup@,
        },
{
    match found {
        Some(v) => v,
        None => backup.to_owned(),
    }
}

} // verus!
