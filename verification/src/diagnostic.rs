//! Errors reported to the author of a document.
use vstd::prelude::*;

use crate::text::{chars_of, decimal, push_decimal, push_str, string_of};

verus! {

/// An error in a document: the line it was found on (counting from 1) and
/// what is wrong.
#[derive(Debug, Clone, PartialEq, Eq)]
pub struct Diagnostic {
    pub line: usize,
    pub message: String,
}

/// What a [`Diagnostic`] says.
pub struct DiagnosticModel {
    pub line: usize,
    pub message: Seq<char>,
}

impl View for Diagnostic {
    type V = DiagnosticModel;

    open spec fn view(&self) -> DiagnosticModel {
        DiagnosticModel { line: self.line, message: self.message@ }
    }
}

/// The diagnostic for `message` on `line`.
pub open spec fn fault(line: usize, message: Seq<char>) -> DiagnosticModel {
    DiagnosticModel { line, message }
}

/// The model of an outcome: the successful value mapped by `m`, or the
/// diagnostic's model.
pub open spec fn outcome<T, M>(r: Result<T, Diagnostic>, m: spec_fn(T) -> M) -> Result<
    M,
    DiagnosticModel,
> {
    match r {
        Ok(v) => Ok(m(v)),
        Err(e) => Err(e@),
    }
}

/// The model of a step of a reader of lines: the successful value mapped by
/// `m`, or the diagnostic's model, each with the position `pos` reached.
pub open spec fn outcome_at<T, M>(r: Result<T, Diagnostic>, m: spec_fn(T) -> M, pos: int) -> Result<
    (M, int),
    (DiagnosticModel, int),
> {
    match r {
        Ok(v) => Ok((m(v), pos)),
        Err(e) => Err((e@, pos)),
    }
}

/// How a diagnostic is shown: `line N: message`.
pub open spec fn spec_describe(d: DiagnosticModel) -> Seq<char> {
    "line "@ + decimal(d.line as nat) + ": "@ + d.message
}

impl Diagnostic {
    pub fn new(line: usize, message: &Vec<char>) -> (d: Diagnostic)
        ensures
            d@ == fault(line, message@),
    {
        Diagnostic { line, message: string_of(message) }
    }

    /// A diagnostic whose message is the literal `message`.
    pub fn at(line: usize, message: &str) -> (d: Diagnostic)
        ensures
            d@ == fault(line, message@),
    {
        let m = chars_of(message);
        Diagnostic::new(line, &m)
    }

    /// The diagnostic as a line of text, `line N: message`.
    pub fn describe(&self) -> (s: String)
        ensures
            s@ == spec_describe(self@),
    {
        let mut out: Vec<char> = Vec::new();
        push_str(&mut out, "line ");
        push_decimal(&mut out, self.line);
        push_str(&mut out, ": ");
        let m = chars_of(self.message.as_str());
        crate::text::push_all(&mut out, &m);
        string_of(&out)
    }
}

} // verus!
