//! Structured lexical diagnostics.
//!
//! The scanner reports malformed input by recording a [`Diagnostic`] and
//! continuing; nothing here aborts a scan.  Writing the records to a stream
//! is left to unverified callers.

use vstd::prelude::*;

verus! {

/// One recorded error report, as contracts see it.
pub struct SpecDiagnostic {
    pub line: int,
    pub context: Seq<char>,
    pub message: Seq<char>,
}

/// One recorded error report: the 1-based source line on which the problem
/// was detected, an optional context, and a human-readable message.
#[derive(Debug, Clone, PartialEq)]
pub struct Diagnostic {
    pub line: i32,
    pub context: String,
    pub message: String,
}

impl View for Diagnostic {
    type V = SpecDiagnostic;

    open spec fn view(&self) -> SpecDiagnostic {
        SpecDiagnostic {
            line: self.line as int,
            context: self.context@,
            message: self.message@,
        }
    }
}

/// Builds a full error report for the given line.
pub fn report(line: i32, context: &str, message: &str) -> (d: Diagnostic)
    ensures
        d@ == (SpecDiagnostic { line: line as int, context: context@, message: message@ }),
{
    Diagnostic { line, context: context.to_owned(), message: message.to_owned() }
}

/// Builds an error report with no context, as the scanner issues them.
pub fn error(line: i32, message: &str) -> (d: Diagnostic)
    ensures
        d@ == (SpecDiagnostic {
            line: line as int,
            context: Seq::<char>::empty(),
            message: message@,
        }),
{
    proof {
        reveal_strlit("");
    }
    let d = report(line, "", message);
    proof {
        assert(d@.context =~= Seq::<char>::empty());
    }
    d
}

} // verus!
