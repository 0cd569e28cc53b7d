//! Frozen snapshots of captured output, line iteration over them, and the failures that
//! assertions on lines report.
use std::sync::Arc;
use vstd::prelude::*;
use vstd::string::StringExecFns;

use crate::lines::{lines_of, split_lines, views_of};
use crate::matching::{
    json_error_text, json_included, json_includes, json_parses, json_value_of, parse_json,
    pattern_compiles, pattern_matches, Pattern,
};

verus! {

/// Relies on `Arc::clone`: the new pointer refers to the same text.
#[verifier::external_body]
fn share_text(text: &Arc<String>) -> (r: Arc<String>)
    ensures
        r@ == text@,
{
    Arc::clone(text)
}

/// A failed assertion on captured output. Every variant carries the full captured text.
#[derive(Debug)]
pub enum LogAssertionError {
    /// A line was asked for, but the output had ended.
    MissingLine { output: String },
    /// The output was expected to have ended, but `line` followed.
    ExtraLine { line: String, output: String },
    /// A line differed from the text expected.
    LineMismatch { expected: String, actual: String, output: String },
    /// `pattern` is not a regular expression; `reason` says why.
    InvalidPattern { pattern: String, reason: String, output: String },
    /// A line did not match `pattern`.
    PatternMismatch { pattern: String, line: String, output: String },
    /// A line is not a JSON document; `reason` says why.
    InvalidJson { reason: String, line: String, output: String },
    /// A JSON line lacks fields of the expected document; `differences` lists them.
    JsonMismatch { differences: String, line: String, output: String },
}

pub open spec fn missing_line_text() -> Seq<char> {
    "There is no further log output, although at least another line was expected.\n"@
}

pub open spec fn full_output_text() -> Seq<char> {
    "Full log output:\n"@
}

impl LogAssertionError {
    /// The texts the failure carries, in the order of its fields.
    pub open spec fn fields(&self) -> Seq<Seq<char>> {
        match self {
            LogAssertionError::MissingLine { output } => seq![output@],
            LogAssertionError::ExtraLine { line, output } => seq![line@, output@],
            LogAssertionError::LineMismatch { expected, actual, output } => seq![
                expected@,
                actual@,
                output@,
            ],
            LogAssertionError::InvalidPattern { pattern, reason, output } => seq![
                pattern@,
                reason@,
                output@,
            ],
            LogAssertionError::PatternMismatch { pattern, line, output } => seq![
                pattern@,
                line@,
                output@,
            ],
            LogAssertionError::InvalidJson { reason, line, output } => seq![
                reason@,
                line@,
                output@,
            ],
            LogAssertionError::JsonMismatch { differences, line, output } => seq![
                differences@,
                line@,
                output@,
            ],
        }
    }

    /// The full captured text that the failure carries.
    pub open spec fn captured(&self) -> Seq<char> {
        self.fields().last()
    }

    /// The diagnostic for the failure; it always ends with the full captured text.
    pub open spec fn spec_message(&self) -> Seq<char> {
        match self {
            LogAssertionError::MissingLine { output } => missing_line_text() + full_output_text()
                + output@,
            LogAssertionError::ExtraLine { line, output } =>
                "We expect no further log output, but there is at least one more line:\n"@
                + line@ + "\n"@ + full_output_text() + output@,
            LogAssertionError::LineMismatch { expected, actual, output } =>
                "A log line didn't match what we expected.\nExpected: "@ + expected@
                + "\nActual: "@ + actual@ + "\n"@ + full_output_text() + output@,
            LogAssertionError::InvalidPattern { pattern, reason, output } => "`"@ + pattern@
                + "` is not a valid regular expression: "@ + reason@ + "\n"@
                + full_output_text() + output@,
            LogAssertionError::PatternMismatch { pattern, line, output } => "`"@ + pattern@
                + "` did not match on `"@ + line@ + "`\n"@ + full_output_text() + output@,
            LogAssertionError::InvalidJson { reason, line, output } =>
                "Failed to parse log line as JSON: "@ + reason@ + "\n\nLog line:\n"@ + line@
                + "\n\n"@ + full_output_text() + output@,
            LogAssertionError::JsonMismatch { differences, line, output } =>
                "The JSON log record doesn't include the expected fields: "@ + differences@
                + "\n\nLog record:\n"@ + line@ + "\n\n"@ + full_output_text() + output@,
        }
    }

    /// The diagnostic for the failure, ending with the full captured text.
    pub fn message(&self) -> (r: String)
        ensures
            r@ == self.spec_message(),
    {
        let mut m = String::new();
        match self {
            LogAssertionError::MissingLine { output } => {
                m.append("There is no further log output, although at least another line was expected.\n");
                m.append("Full log output:\n");
                m.append(output.as_str());
            },
            LogAssertionError::ExtraLine { line, output } => {
                m.append("We expect no further log output, but there is at least one more line:\n");
                m.append(line.as_str());
                m.append("\n");
                m.append("Full log output:\n");
                m.append(output.as_str());
            },
            LogAssertionError::LineMismatch { expected, actual, output } => {
                m.append("A log line didn't match what we expected.\nExpected: ");
                m.append(expected.as_str());
                m.append("\nActual: ");
                m.append(actual.as_str());
                m.append("\n");
                m.append("Full log output:\n");
                m.append(output.as_str());
            },
            LogAssertionError::InvalidPattern { pattern, reason, output } => {
                m.append("`");
                m.append(pattern.as_str());
                m.append("` is not a valid regular expression: ");
                m.append(reason.as_str());
                m.append("\n");
                m.append("Full log output:\n");
                m.append(output.as_str());
            },
            LogAssertionError::PatternMismatch { pattern, line, output } => {
                m.append("`");
                m.append(pattern.as_str());
                m.append("` did not match on `");
                m.append(line.as_str());
                m.append("`\n");
                m.append("Full log output:\n");
                m.append(output.as_str());
            },
            LogAssertionError::InvalidJson { reason, line, output } => {
                m.append("Failed to parse log line as JSON: ");
                m.append(reason.as_str());
                m.append("\n\nLog line:\n");
                m.append(line.as_str());
                m.append("\n\n");
                m.append("Full log output:\n");
                m.append(output.as_str());
            },
            LogAssertionError::JsonMismatch { differences, line, output } => {
                m.append("The JSON log record doesn't include the expected fields: ");
                m.append(differences.as_str());
                m.append("\n\nLog record:\n");
                m.append(line.as_str());
                m.append("\n\n");
                m.append("Full log output:\n");
                m.append(output.as_str());
            },
        }
        m
    }
}

/// Asking for a line past the end fails with a diagnostic that says there is no further log
/// output and ends with the whole captured text, empty or not.
pub proof fn lemma_missing_line_diagnostic(output: Seq<char>)
    ensures
        ({
            let m = missing_line_text() + full_output_text() + output;
            &&& m.subrange(9, 30) == "no further log output"@
            &&& m.subrange(m.len() - output.len(), m.len() as int) == output
        }),
{
    reveal_strlit("There is no further log output, although at least another line was expected.\n");
    reveal_strlit("Full log output:\n");
    reveal_strlit("no further log output");
    let m = missing_line_text() + full_output_text() + output;
    assert(m.subrange(9, 30) =~= "no further log output"@);
    assert(m.subrange(m.len() - output.len(), m.len() as int) =~= output);
}

/// A frozen copy of captured text. Copies of it share the text; it never changes.
pub struct LogOutput {
    text: Arc<String>,
}

impl View for LogOutput {
    type V = Seq<char>;

    closed spec fn view(&self) -> Seq<char> {
        self.text@
    }
}

impl LogOutput {
    pub fn new(s: String) -> (r: Self)
        ensures
            r@ == s@,
    {
        LogOutput { text: Arc::new(s) }
    }

    /// Another handle on the same text.
    pub fn share(&self) -> (r: Self)
        ensures
            r@ == self@,
    {
        LogOutput { text: share_text(&self.text) }
    }

    /// The lines of the text, in order, from the first.
    pub fn lines(&self) -> (r: LogLines)
        ensures
            r.output() == self@,
            r.position() == 0,
            r.remaining() == lines_of(self@),
    {
        let lines = split_lines(self.text.as_str());
        LogLines { output: self.share(), lines, next: 0 }
    }

    /// The whole text.
    pub fn text(&self) -> (r: &str)
        ensures
            r@ == self@,
    {
        self.text.as_str()
    }
}

/// The lines of a snapshot, handed out one at a time.
pub struct LogLines {
    output: LogOutput,
    lines: Vec<String>,
    next: usize,
}

impl LogLines {
    #[verifier::type_invariant]
    spec fn well_formed(&self) -> bool {
        &&& views_of(self.lines@) == lines_of(self.output@)
        &&& self.next <= self.lines@.len()
    }

    /// The text of the snapshot the lines come from.
    pub closed spec fn output(&self) -> Seq<char> {
        self.output@
    }

    /// How many lines have been handed out.
    pub closed spec fn position(&self) -> nat {
        let n = lines_of(self.output@).len();
        if self.next <= n {
            self.next as nat
        } else {
            n
        }
    }

    /// No more lines are handed out than the snapshot has.
    pub proof fn lemma_position_in_bounds(&self)
        ensures
            self.position() <= lines_of(self.output()).len(),
    {
    }

    /// The lines not handed out yet.
    pub open spec fn remaining(&self) -> Seq<Seq<char>> {
        lines_of(self.output()).skip(self.position() as int)
    }

    /// The next line, if any is left.
    pub fn next(&mut self) -> (r: Option<LogLine>)
        ensures
            final(self).output() == old(self).output(),
            old(self).remaining().len() > 0 ==> {
                &&& r is Some
                &&& r->Some_0.line() == old(self).remaining()[0]
                &&& r->Some_0.output() == old(self).output()
                &&& final(self).position() == old(self).position() + 1
            },
            old(self).remaining().len() == 0 ==> r is None && final(self).position()
                == old(self).position(),
    {
        proof {
            use_type_invariant(&*self);
        }
        if self.next < self.lines.len() {
            let line = self.lines[self.next].clone();
            let output = self.output.share();
            proof {
                assert(views_of(self.lines@)[self.next as int] == self.lines@[self.next as int]@);
            }
            self.next = self.next + 1;
            Some(LogLine { line, output })
        } else {
            None
        }
    }

    /// The next line; a failure carrying the whole text if there is none.
    pub fn next_some(&mut self) -> (r: Result<LogLine, LogAssertionError>)
        ensures
            final(self).output() == old(self).output(),
            old(self).remaining().len() > 0 ==> {
                &&& r is Ok
                &&& r->Ok_0.line() == old(self).remaining()[0]
                &&& r->Ok_0.output() == old(self).output()
                &&& final(self).position() == old(self).position() + 1
            },
            old(self).remaining().len() == 0 ==> {
                &&& r is Err
                &&& r->Err_0 is MissingLine
                &&& r->Err_0.fields() == seq![old(self).output()]
                &&& final(self).position() == old(self).position()
            },
    {
        match self.next() {
            Some(line) => Ok(line),
            None => Err(LogAssertionError::MissingLine { output: self.output.text().to_owned() }),
        }
    }

    /// Nothing if all lines have been handed out; otherwise a failure that carries the
    /// next line and the whole text.
    pub fn end(&mut self) -> (r: Result<(), LogAssertionError>)
        ensures
            final(self).output() == old(self).output(),
            r is Ok <==> old(self).remaining().len() == 0,
            r is Err ==> {
                &&& r->Err_0 is ExtraLine
                &&& r->Err_0.fields() == seq![old(self).remaining()[0], old(self).output()]
                &&& final(self).position() == old(self).position() + 1
            },
            r is Ok ==> final(self).position() == old(self).position(),
    {
        match self.next() {
            Some(line) => Err(
                LogAssertionError::ExtraLine { line: line.line, output: line.output.text().to_owned() },
            ),
            None => Ok(()),
        }
    }
}

/// One line of a snapshot, with the snapshot it belongs to.
pub struct LogLine {
    line: String,
    output: LogOutput,
}

impl LogLine {
    /// The text of the line.
    pub closed spec fn line(&self) -> Seq<char> {
        self.line@
    }

    /// The text of the snapshot the line belongs to.
    pub closed spec fn output(&self) -> Seq<char> {
        self.output@
    }

    /// The text of the line.
    pub fn text(&self) -> (r: &str)
        ensures
            r@ == self.line(),
    {
        self.line.as_str()
    }

    /// Nothing if the line is exactly `other`; otherwise a failure that carries both and
    /// the whole text.
    pub fn assert_eq(&self, other: &str) -> (r: Result<(), LogAssertionError>)
        ensures
            r is Ok <==> self.line() == other@,
            r is Err ==> {
                &&& r->Err_0 is LineMismatch
                &&& r->Err_0.fields() == seq![other@, self.line(), self.output()]
            },
    {
        let expected = String::from_str(other);
        if self.line == expected {
            Ok(())
        } else {
            Err(
                LogAssertionError::LineMismatch {
                    expected,
                    actual: self.line.clone(),
                    output: self.output.text().to_owned(),
                },
            )
        }
    }

    /// The outcome of matching the line against `pattern`, given whether it matched.
    pub fn pattern_verdict(&self, pattern: &str, matched: bool) -> (r: Result<
        (),
        LogAssertionError,
    >)
        ensures
            r is Ok <==> matched,
            r is Err ==> {
                &&& r->Err_0 is PatternMismatch
                &&& r->Err_0.fields() == seq![pattern@, self.line(), self.output()]
            },
    {
        if matched {
            Ok(())
        } else {
            Err(
                LogAssertionError::PatternMismatch {
                    pattern: String::from_str(pattern),
                    line: self.line.clone(),
                    output: self.output.text().to_owned(),
                },
            )
        }
    }

    /// Nothing if the regular expression `regex` matches somewhere in the line; otherwise
    /// a failure that carries the pattern, the line and the whole text.
    pub fn assert_regex_match(&self, regex: &str) -> (r: Result<(), LogAssertionError>)
        ensures
            !pattern_compiles(regex@) ==> {
                &&& r is Err
                &&& r->Err_0 is InvalidPattern
                &&& r->Err_0.fields()[0] == regex@
                &&& r->Err_0.captured() == self.output()
            },
            pattern_compiles(regex@) ==> {
                &&& r is Ok <==> pattern_matches(regex@, self.line())
                &&& r is Err ==> r->Err_0 is PatternMismatch && r->Err_0.fields() == seq![
                    regex@,
                    self.line(),
                    self.output(),
                ]
            },
    {
        match Pattern::new(regex) {
            Ok(p) => {
                let matched = p.is_match(self.line.as_str());
                self.pattern_verdict(regex, matched)
            },
            Err(reason) => Err(
                LogAssertionError::InvalidPattern {
                    pattern: String::from_str(regex),
                    reason,
                    output: self.output.text().to_owned(),
                },
            ),
        }
    }

    /// The outcome of comparing the line, read as JSON, with an expected document, given
    /// what the inclusive comparison reported.
    pub fn json_verdict(&self, comparison: Result<(), String>) -> (r: Result<
        (),
        LogAssertionError,
    >)
        ensures
            r is Ok <==> comparison is Ok,
            r is Err ==> {
                &&& r->Err_0 is JsonMismatch
                &&& r->Err_0.fields() == seq![comparison->Err_0@, self.line(), self.output()]
            },
    {
        match comparison {
            Ok(()) => Ok(()),
            Err(differences) => Err(
                LogAssertionError::JsonMismatch {
                    differences,
                    line: self.line.clone(),
                    output: self.output.text().to_owned(),
                },
            ),
        }
    }

    /// Nothing if the line is a JSON document that holds every field of `expected` with its
    /// value (it may hold more); otherwise a failure that carries the reason, the line and
    /// the whole text.
    pub fn assert_json_include(&self, expected: serde_json::Value) -> (r: Result<
        (),
        LogAssertionError,
    >)
        ensures
            !json_parses(self.line()) ==> {
                &&& r is Err
                &&& r->Err_0 is InvalidJson
                &&& r->Err_0.fields()[1] == self.line()
                &&& r->Err_0.captured() == self.output()
            },
            json_parses(self.line()) ==> (r is Ok <==> json_included(
                json_value_of(self.line()),
                expected,
            )),
            json_parses(self.line()) ==> (r is Err ==> {
                &&& r->Err_0 is JsonMismatch
                &&& r->Err_0.fields()[1] == self.line()
                &&& r->Err_0.captured() == self.output()
            }),
    {
        match parse_json(self.line.as_str()) {
            Ok(actual) => {
                let comparison = json_includes(&actual, &expected);
                self.json_verdict(comparison)
            },
            Err(e) => Err(
                LogAssertionError::InvalidJson {
                    reason: json_error_text(&e),
                    line: self.line.clone(),
                    output: self.output.text().to_owned(),
                },
            ),
        }
    }
}

} // verus!
