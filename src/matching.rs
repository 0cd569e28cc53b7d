//! Regular expressions and JSON documents, as the line assertions use them.
use assert_json_diff::{CompareMode, Config};
use vstd::prelude::*;
use vstd::string::StringExecFns;

verus! {

/// `regex::Regex`, opaque: a compiled regular expression.
#[verifier::external_type_specification]
#[verifier::external_body]
pub struct ExRegex(regex::Regex);

/// `regex::Error`, opaque: why a pattern was refused.
#[verifier::external_type_specification]
#[verifier::external_body]
pub struct ExRegexError(regex::Error);

/// `serde_json::Value`, opaque: a parsed JSON document.
#[verifier::external_type_specification]
#[verifier::external_body]
pub struct ExJsonValue(serde_json::Value);

/// `serde_json::Error`, opaque: why a text was not read as JSON.
#[verifier::external_type_specification]
#[verifier::external_body]
pub struct ExJsonError(serde_json::Error);

/// Whether `regex::Regex::new` accepts `pattern`.
pub uninterp spec fn pattern_compiles(pattern: Seq<char>) -> bool;

/// Whether the regular expression compiled from `pattern` matches somewhere in `text`.
pub uninterp spec fn pattern_matches(pattern: Seq<char>, text: Seq<char>) -> bool;

/// Whether `serde_json::from_str` reads `text` as one JSON value.
pub uninterp spec fn json_parses(text: Seq<char>) -> bool;

/// The document that `serde_json::from_str` reads from `text`, when it reads one.
pub uninterp spec fn json_value_of(text: Seq<char>) -> serde_json::Value;

/// Whether `assert_json_diff`'s inclusive comparison finds every field of `expected`, with
/// its value, in `actual`.
pub uninterp spec fn json_included(actual: serde_json::Value, expected: serde_json::Value) -> bool;

/// Relies on `regex::Regex::new`: whether it succeeds depends on the pattern alone.
#[verifier::external_body]
fn compile_pattern(pattern: &str) -> (r: Result<regex::Regex, regex::Error>)
    ensures
        r is Ok <==> pattern_compiles(pattern@),
{
    regex::Regex::new(pattern)
}

/// A compiled regular expression together with the pattern it was compiled from; `new` is
/// the only way to build one.
pub struct Pattern {
    source: String,
    compiled: regex::Regex,
}

/// Relies on `regex::Regex::is_match`. `p.compiled` is the expression that `Pattern::new`
/// compiled from `p.source`: the fields are private and `new` is the only constructor.
#[verifier::external_body]
fn regex_is_match(p: &Pattern, text: &str) -> (r: bool)
    ensures
        r == pattern_matches(p.source@, text@),
{
    p.compiled.is_match(text)
}

/// Relies on `regex::Error`'s `Display`: a description of why the pattern was refused.
#[verifier::external_body]
fn regex_error_text(e: &regex::Error) -> (r: String) {
    e.to_string()
}

/// Relies on `serde_json::from_str`: whether it succeeds, and the document it reads, depend
/// on the text alone.
#[verifier::external_body]
pub(crate) fn parse_json(text: &str) -> (r: Result<serde_json::Value, serde_json::Error>)
    ensures
        r is Ok <==> json_parses(text@),
        r is Ok ==> r->Ok_0 == json_value_of(text@),
{
    serde_json::from_str(text)
}

/// Relies on `serde_json::Error`'s `Display`: a description of why the text was refused.
#[verifier::external_body]
pub(crate) fn json_error_text(e: &serde_json::Error) -> (r: String) {
    e.to_string()
}

/// Relies on `assert_json_diff::assert_json_matches_no_panic` in inclusive mode: `Ok` when
/// every field of `expected` is found with its value in `actual`, else the differences. It
/// panics only when an argument cannot be serialised, which a `serde_json::Value` always can.
/// The outcome depends on the two documents alone.
#[verifier::external_body]
pub(crate) fn json_includes(actual: &serde_json::Value, expected: &serde_json::Value) -> (r: Result<
    (),
    String,
>)
    ensures
        r is Ok <==> json_included(*actual, *expected),
{
    assert_json_diff::assert_json_matches_no_panic(actual, expected, Config::new(CompareMode::Inclusive))
}

impl Pattern {
    /// The pattern compiled, if `regex` accepts it; else the reason it gave.
    pub fn new(source: &str) -> (r: Result<Pattern, String>)
        ensures
            r is Ok <==> pattern_compiles(source@),
            r is Ok ==> r->Ok_0.source() == source@,
    {
        match compile_pattern(source) {
            Ok(compiled) => Ok(Pattern { source: String::from_str(source), compiled }),
            Err(e) => Err(regex_error_text(&e)),
        }
    }

    /// The pattern the expression was compiled from.
    pub closed spec fn source(&self) -> Seq<char> {
        self.source@
    }

    /// Whether the expression matches somewhere in `text`.
    pub fn is_match(&self, text: &str) -> (r: bool)
        ensures
            r == pattern_matches(self.source(), text@),
    {
        regex_is_match(self, text)
    }
}

} // verus!
