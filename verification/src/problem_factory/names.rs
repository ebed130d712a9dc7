//! Names of problems in the paths of instance and configuration files.
use vstd::prelude::*;

use crate::problem_factory::{named, Problems};

verus! {

/// The text in small letters, as `str::to_lowercase` gives it.
pub uninterp spec fn lowercase_of(text: Seq<char>) -> Seq<char>;

/// The text in capitals, as `str::to_uppercase` gives it.
pub uninterp spec fn uppercase_of(text: Seq<char>) -> Seq<char>;

/// `needle` occurs in `haystack`, as a run of neighbouring characters.
pub open spec fn occurs_in(needle: Seq<char>, haystack: Seq<char>) -> bool {
    exists|at: int|
        0 <= at <= haystack.len() - needle.len() && #[trigger] haystack.subrange(
            at,
            at + needle.len(),
        ) == needle
}

/// `text` begins with `head`.
pub open spec fn begins_with(text: Seq<char>, head: Seq<char>) -> bool {
    head.len() <= text.len() && text.subrange(0, head.len() as int) == head
}

/// `str::to_lowercase`: each character replaced by its lowercase
/// equivalent. The result depends on the text alone; the contract gives it
/// its name and claims nothing more.
#[verifier::external_body]
fn lowercase(text: &str) -> (lower: String)
    ensures
        lower@ == lowercase_of(text@),
{
    text.to_lowercase()
}

/// `str::to_uppercase`: each character replaced by its uppercase
/// equivalent. The result depends on the text alone; the contract gives it
/// its name and claims nothing more.
#[verifier::external_body]
fn uppercase(text: &str) -> (upper: String)
    ensures
        upper@ == uppercase_of(text@),
{
    text.to_uppercase()
}

/// `str::contains` with a string pattern: true exactly if the pattern
/// matches a sub-slice of the text.
#[verifier::external_body]
fn contains_text(haystack: &str, needle: &str) -> (found: bool)
    ensures
        found == occurs_in(needle@, haystack@),
{
    haystack.contains(needle)
}

/// `str::starts_with` with a string pattern: true exactly if the pattern
/// matches a prefix of the text.
#[verifier::external_body]
fn starts_with_text(text: &str, head: &str) -> (found: bool)
    ensures
        found == begins_with(text@, head@),
{
    text.starts_with(head)
}

/// Tells whether a path mentions the problem: whether the problem's name,
/// in small letters, occurs in it.
pub fn path_mentions(path: &str, problem_name: &str) -> (mentions: bool)
    ensures
        mentions == occurs_in(lowercase_of(problem_name@), path@),
{
    let lower = lowercase(problem_name);
    contains_text(path, lower.as_str())
}

/// Tells whether a file is named after the problem: whether its name begins
/// with the problem's name in small letters.
pub fn named_after(file_name: &str, problem_name: &str) -> (after: bool)
    ensures
        after == begins_with(file_name@, lowercase_of(problem_name@)),
{
    let lower = lowercase(problem_name);
    starts_with_text(file_name, lower.as_str())
}

/// The problem that goes by `name`, in capitals or small letters, if there
/// is one.
pub fn problem_named(name: &str) -> (problem: Option<Problems>)
    ensures
        problem == named(uppercase_of(name@)),
{
    let upper = uppercase(name);
    Problems::from_name(&upper)
}

} // verus!
