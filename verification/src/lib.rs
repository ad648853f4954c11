//! A build-time markdown document compiler.
//!
//! The compiler turns a markdown source document into an ordered sequence of
//! rendering instructions (the body) together with a flat, 1-indexed list of
//! extracted "demo" code fragments.  A code fence whose info-string is exactly
//! the recognized demo tag is removed from the body, numbered in document
//! order, and replaced in place by a placeholder carrying its index, so that
//! the body and the demo list together losslessly reconstruct the original
//! document order.

pub mod ast;
pub mod block;
pub mod emit;
pub mod inline;
pub mod laws;
pub mod text;

use vstd::prelude::*;
use crate::ast::{BodyInstruction, CompileError, CompileErrV, DemoEntry, DemoV, InstrV};
use crate::block::{parse_markdown, spec_parse};
use crate::emit::{spec_split, split_and_emit, split_res_view};

verus! {

/// The info-string that marks a code fence as an extractable demo.
pub open spec fn demo_tag() -> Seq<char> {
    "demo"@
}

/// The result of compiling a whole document: the blocks of the parsed text,
/// split into body instructions and the ordered demo list, with demo indices
/// counted from 1; or the first error.
pub open spec fn spec_compile(s: Seq<char>) -> Result<(Seq<InstrV>, Seq<DemoV>), CompileErrV> {
    match spec_parse(s) {
        Err(e) => Err(CompileErrV::Parse(e)),
        Ok(blocks) => spec_split(blocks, 0),
    }
}

/// Compiles a markdown document into the body instruction sequence and the
/// ordered, 1-indexed demo list.
///
/// The result is exactly `spec_compile` of the document text.  Compilation
/// is all-or-nothing: a structural markdown error or a demo whose source is
/// not a well-formed function body yields an error and no partial output.
pub fn compile(text: &str) -> (r: Result<(Vec<BodyInstruction>, Vec<DemoEntry>), CompileError>)
    ensures
        split_res_view(r) == spec_compile(text@),
{
    match parse_markdown(text) {
        Err(e) => Err(CompileError::Parse(e)),
        Ok(blocks) => split_and_emit(blocks),
    }
}

} // verus!
