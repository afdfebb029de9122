//! Vitamins: a Ruby-like document language that compiles to LaTeX.
//!
//! A document is read line by line (`parser`), its inline content and math
//! are parsed and rendered (`inline`, `math`), and the whole is emitted as a
//! LaTeX file (`emit`). Every step states its result exactly, over the
//! models in `syntax`.
pub mod cli;
pub mod diagnostic;
pub mod emit;
pub mod features;
pub mod inline;
pub mod laws;
pub mod lex;
pub mod located;
pub mod math;
pub mod meaning;
pub mod parser;
pub mod scan;
pub mod shape;
pub mod syntax;
pub mod text;

pub use diagnostic::Diagnostic;
pub use parser::parse;
pub use syntax::Document;

use vstd::prelude::*;

use crate::diagnostic::{outcome, DiagnosticModel};
use crate::emit::{emit_document, spec_emit_document};
use crate::parser::spec_parse;
use crate::text::string_of;

verus! {

/// What a source text compiles to: the LaTeX of the document it parses to,
/// or the first error.
pub open spec fn spec_compile(source: Seq<char>) -> Result<Seq<char>, DiagnosticModel> {
    match spec_parse(source) {
        Ok(doc) => Ok(spec_emit_document(doc)),
        Err(e) => Err(e),
    }
}

/// Compiles a Vitamins source text to LaTeX.
pub fn compile_to_latex(source: &str) -> (r: Result<String, diagnostic::Diagnostic>)
    ensures
        outcome(r, |s: String| s@) == spec_compile(source@),
{
    let document = parse(source)?;
    let latex = emit_document(&document);
    Ok(string_of(&latex))
}

} // verus!
