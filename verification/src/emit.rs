//! The body/demo splitter and emitter: one linear pass over the parsed
//! blocks.  A code fence whose info-string is exactly the demo tag is removed
//! from the body, numbered starting at 1 in document order, validated as a
//! function body, and replaced by a placeholder instruction; every other
//! block is translated to its rendering instruction.

use vstd::prelude::*;
use vstd::string::StringExecFns;
use crate::ast::{
    Block, BlockV, BodyInstruction, CompileError, CompileErrV, DemoEntry, DemoV, InstrV,
    blocks_view, block_view, instrs_view, instr_view, demos_view, compile_err_view,
};
use crate::demo_tag;

verus! {

/// The error text, if any, that the demo-source parser yields for the given
/// source text; a source mapped to `None` is a well-formed function body.
pub uninterp spec fn demo_parse_error(source: Seq<char>) -> Option<Seq<char>>;

/// Relies on `syn::parse_str::<syn::ItemFn>`: whether a function item whose
/// body is the given text parses, and the error text when it does not,
/// depend on the text alone.
#[verifier::external_body]
fn check_demo_source(source: &String) -> (r: Option<String>)
    ensures
        match demo_parse_error(source@) {
            Some(m) => r matches Some(msg) && msg@ == m,
            None => r is None,
        },
{
    let wrapped = format!("fn demo() {{ {} }}", source);
    match syn::parse_str::<syn::ItemFn>(&wrapped) {
        Ok(_) => None,
        Err(err) => Some(err.to_string()),
    }
}

/// A demo is a code fence whose info-string is exactly the demo tag:
/// case-sensitive, no trailing modifiers.
pub open spec fn is_demo(b: BlockV) -> bool {
    match b {
        BlockV::CodeFence { info, source } => info == demo_tag(),
        _ => false,
    }
}

pub open spec fn demo_source_of(b: BlockV) -> Seq<char> {
    match b {
        BlockV::CodeFence { info, source } => source,
        _ => Seq::empty(),
    }
}

/// The fixed per-variant translation of a non-demo block.
pub open spec fn emit_instr(b: BlockV) -> InstrV {
    match b {
        BlockV::Heading { level, content } => InstrV::Heading { level, content },
        BlockV::Paragraph { content } => InstrV::Paragraph { content },
        BlockV::List { ordered, items } => InstrV::List { ordered, items },
        BlockV::CodeFence { info, source } => InstrV::CodeBlock { info, text: source },
        BlockV::ThematicBreak => InstrV::Divider,
        BlockV::RawHtml { text } => InstrV::RawContent { text },
    }
}

/// The body instructions and demo list of `blocks`, with demo indices
/// continuing from `count`: the i-th demo of the document gets index i,
/// counting from 1, and leaves exactly one placeholder at its position.
/// A demo whose source is not a well-formed function body is a fatal error
/// naming its index and the parser's text.
pub open spec fn spec_split(blocks: Seq<BlockV>, count: int) -> Result<
    (Seq<InstrV>, Seq<DemoV>),
    CompileErrV,
>
    decreases blocks.len(),
{
    if blocks.len() == 0 {
        Ok((Seq::empty(), Seq::empty()))
    } else if is_demo(blocks[0]) {
        match demo_parse_error(demo_source_of(blocks[0])) {
            Some(msg) => Err(CompileErrV::DemoSource { index: count + 1, message: msg }),
            None => match spec_split(blocks.drop_first(), count + 1) {
                Err(e) => Err(e),
                Ok(r) => Ok(
                    (
                        seq![InstrV::DemoPlaceholder { index: count + 1 }] + r.0,
                        seq![DemoV { index: count + 1, source: demo_source_of(blocks[0]) }] + r.1,
                    ),
                ),
            },
        }
    } else {
        match spec_split(blocks.drop_first(), count) {
            Err(e) => Err(e),
            Ok(r) => Ok((seq![emit_instr(blocks[0])] + r.0, r.1)),
        }
    }
}

pub open spec fn split_res_view(
    r: Result<(Vec<BodyInstruction>, Vec<DemoEntry>), CompileError>,
) -> Result<(Seq<InstrV>, Seq<DemoV>), CompileErrV> {
    match r {
        Ok(p) => Ok((instrs_view(p.0@), demos_view(p.1@))),
        Err(e) => Err(compile_err_view(e)),
    }
}

/// Splits the parsed blocks into the body instruction sequence and the
/// ordered demo list, exactly as `spec_split` with the counter at 0.
pub fn split_and_emit(blocks: Vec<Block>) -> (r: Result<
    (Vec<BodyInstruction>, Vec<DemoEntry>),
    CompileError,
>)
    ensures
        split_res_view(r) == spec_split(blocks_view(blocks@), 0),
{
    let _ = blocks.len();
    split_rec(blocks, 0)
}

fn split_rec(blocks: Vec<Block>, count: usize) -> (r: Result<
    (Vec<BodyInstruction>, Vec<DemoEntry>),
    CompileError,
>)
    requires
        count + blocks@.len() <= usize::MAX,
    ensures
        split_res_view(r) == spec_split(blocks_view(blocks@), count as int),
    decreases blocks@.len(), 0int,
{
    let n = blocks.len();
    if n == 0 {
        let body: Vec<BodyInstruction> = Vec::new();
        let demos: Vec<DemoEntry> = Vec::new();
        proof {
            assert(blocks_view(blocks@) =~= Seq::<BlockV>::empty());
            assert(instrs_view(body@) =~= Seq::<InstrV>::empty());
            assert(demos_view(demos@) =~= Seq::<DemoV>::empty());
        }
        Ok((body, demos))
    } else {
        let ghost orig = blocks@;
        let mut rest = blocks;
        let b = rest.remove(0);
        proof {
            assert(rest@ =~= orig.drop_first());
            assert(blocks_view(rest@) =~= blocks_view(orig).drop_first());
            assert(blocks_view(orig)[0] == block_view(b));
        }
        match b {
            Block::CodeFence { info, source } => {
                let tag = String::from_str("demo");
                if info == tag {
                    match check_demo_source(&source) {
                        Some(message) => Err(
                            CompileError::DemoSource { index: count + 1, message },
                        ),
                        None => match split_rec(rest, count + 1) {
                            Err(e) => Err(e),
                            Ok((mut body, mut demos)) => {
                                let ghost ob = body@;
                                let ghost od = demos@;
                                let ghost src = source@;
                                body.insert(0, BodyInstruction::DemoPlaceholder { index: count + 1 });
                                demos.insert(0, DemoEntry { index: count + 1, source });
                                proof {
                                    assert(instrs_view(body@) =~= seq![
                                        InstrV::DemoPlaceholder { index: count as int + 1 },
                                    ] + instrs_view(ob));
                                    assert(demos_view(demos@) =~= seq![
                                        DemoV { index: count as int + 1, source: src },
                                    ] + demos_view(od));
                                }
                                Ok((body, demos))
                            },
                        },
                    }
                } else {
                    split_tail(BodyInstruction::CodeBlock { info, text: source }, rest, count)
                }
            },
            Block::Heading { level, content } => {
                split_tail(BodyInstruction::Heading { level, content }, rest, count)
            },
            Block::Paragraph { content } => {
                split_tail(BodyInstruction::Paragraph { content }, rest, count)
            },
            Block::List { ordered, items } => {
                split_tail(BodyInstruction::List { ordered, items }, rest, count)
            },
            Block::ThematicBreak => split_tail(BodyInstruction::Divider, rest, count),
            Block::RawHtml { text } => split_tail(BodyInstruction::RawContent { text }, rest, count),
        }
    }
}

/// Emits one translated non-demo instruction, then splits the remaining
/// blocks with the counter unchanged.
fn split_tail(instr: BodyInstruction, rest: Vec<Block>, count: usize) -> (r: Result<
    (Vec<BodyInstruction>, Vec<DemoEntry>),
    CompileError,
>)
    requires
        count + rest@.len() <= usize::MAX,
    ensures
        split_res_view(r) == (match spec_split(blocks_view(rest@), count as int) {
            Ok(p) => Ok::<(Seq<InstrV>, Seq<DemoV>), CompileErrV>(
                (seq![instr_view(instr)] + p.0, p.1),
            ),
            Err(e) => Err(e),
        }),
    decreases rest@.len(), 1int,
{
    match split_rec(rest, count) {
        Err(e) => Err(e),
        Ok((mut body, demos)) => {
            let ghost ob = body@;
            body.insert(0, instr);
            proof {
                assert(body@ =~= seq![instr] + ob);
                assert(instrs_view(seq![instr] + ob) =~= seq![instr_view(instr)] + instrs_view(ob));
            }
            Ok((body, demos))
        },
    }
}

} // verus!
