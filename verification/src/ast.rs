//! Data model of the compiler: executable block/inline/instruction types and
//! their mathematical models used by the contracts.

use vstd::prelude::*;

verus! {

broadcast use vstd::std_specs::vec::group_vec_axioms;

// ---------------------------------------------------------------------------
// Executable data model
// ---------------------------------------------------------------------------

/// Inline content within a text-bearing block: a tree of formatting spans.
#[derive(Debug, PartialEq, Eq)]
pub enum InlineSpan {
    Text(String),
    Emphasis(Vec<InlineSpan>),
    Strong(Vec<InlineSpan>),
    CodeSpan(String),
    Link { label: String, target: String },
}

/// A top-level structural unit of a markdown document, in document order.
#[derive(Debug, PartialEq, Eq)]
pub enum Block {
    Heading { level: u8, content: Vec<InlineSpan> },
    Paragraph { content: Vec<InlineSpan> },
    List { ordered: bool, items: Vec<Vec<InlineSpan>> },
    CodeFence { info: String, source: String },
    ThematicBreak,
    RawHtml { text: String },
}

/// One emitted rendering instruction of the body: either the translation of a
/// non-demo block, or a placeholder standing in for an extracted demo.
#[derive(Debug, PartialEq, Eq)]
pub enum BodyInstruction {
    Heading { level: u8, content: Vec<InlineSpan> },
    Paragraph { content: Vec<InlineSpan> },
    List { ordered: bool, items: Vec<Vec<InlineSpan>> },
    CodeBlock { info: String, text: String },
    Divider,
    RawContent { text: String },
    DemoPlaceholder { index: usize },
}

/// An extracted demo fence: its raw source text and its 1-based position
/// index, assigned strictly in document order.
#[derive(Debug, PartialEq, Eq)]
pub struct DemoEntry {
    pub index: usize,
    pub source: String,
}

/// Malformed markdown structure: the message and the offending line (1-based).
#[derive(Debug, PartialEq, Eq)]
pub struct ParseError {
    pub message: String,
    pub line: usize,
}

/// Any failure of a compile call.  Compilation is all-or-nothing: no partial
/// body or demo list is ever returned.
#[derive(Debug, PartialEq, Eq)]
pub enum CompileError {
    /// Malformed markdown structure.
    Parse(ParseError),
    /// A demo fence whose source does not parse as the body of a function:
    /// the 1-based index of the failing demo and the underlying parser text.
    DemoSource { index: usize, message: String },
}

// ---------------------------------------------------------------------------
// Mathematical model
// ---------------------------------------------------------------------------

#[verifier::ext_equal]
pub enum SpanV {
    Text(Seq<char>),
    Emphasis(Seq<SpanV>),
    Strong(Seq<SpanV>),
    CodeSpan(Seq<char>),
    Link { label: Seq<char>, target: Seq<char> },
}

#[verifier::ext_equal]
pub enum BlockV {
    Heading { level: int, content: Seq<SpanV> },
    Paragraph { content: Seq<SpanV> },
    List { ordered: bool, items: Seq<Seq<SpanV>> },
    CodeFence { info: Seq<char>, source: Seq<char> },
    ThematicBreak,
    RawHtml { text: Seq<char> },
}

#[verifier::ext_equal]
pub enum InstrV {
    Heading { level: int, content: Seq<SpanV> },
    Paragraph { content: Seq<SpanV> },
    List { ordered: bool, items: Seq<Seq<SpanV>> },
    CodeBlock { info: Seq<char>, text: Seq<char> },
    Divider,
    RawContent { text: Seq<char> },
    DemoPlaceholder { index: int },
}

#[verifier::ext_equal]
pub struct DemoV {
    pub index: int,
    pub source: Seq<char>,
}

#[verifier::ext_equal]
pub struct ParseErrV {
    pub message: Seq<char>,
    pub line: int,
}

#[verifier::ext_equal]
pub enum CompileErrV {
    Parse(ParseErrV),
    DemoSource { index: int, message: Seq<char> },
}

// ---------------------------------------------------------------------------
// Views
// ---------------------------------------------------------------------------

pub open spec fn span_view(s: InlineSpan) -> SpanV
    decreases s,
{
    match s {
        InlineSpan::Text(t) => SpanV::Text(t@),
        InlineSpan::Emphasis(v) => SpanV::Emphasis(spans_view(v@)),
        InlineSpan::Strong(v) => SpanV::Strong(spans_view(v@)),
        InlineSpan::CodeSpan(t) => SpanV::CodeSpan(t@),
        InlineSpan::Link { label, target } => SpanV::Link { label: label@, target: target@ },
    }
}

pub open spec fn spans_view(v: Seq<InlineSpan>) -> Seq<SpanV>
    decreases v,
{
    if v.len() == 0 {
        Seq::empty()
    } else {
        seq![span_view(v[0])] + spans_view(v.drop_first())
    }
}

pub broadcast proof fn lemma_spans_view_len(v: Seq<InlineSpan>)
    ensures
        (#[trigger] spans_view(v)).len() == v.len(),
    decreases v,
{
    if v.len() > 0 {
        lemma_spans_view_len(v.drop_first());
    }
}

pub broadcast proof fn lemma_spans_view_index(v: Seq<InlineSpan>, i: int)
    requires
        0 <= i < v.len(),
    ensures
        #[trigger] spans_view(v)[i] == span_view(v[i]),
    decreases v,
{
    lemma_spans_view_len(v);
    if i > 0 {
        lemma_spans_view_len(v.drop_first());
        lemma_spans_view_index(v.drop_first(), i - 1);
    }
}

pub broadcast group group_spans_view {
    lemma_spans_view_len,
    lemma_spans_view_index,
}

pub open spec fn items_view(v: Seq<Vec<InlineSpan>>) -> Seq<Seq<SpanV>> {
    Seq::new(v.len(), |i: int| spans_view(v[i]@))
}

pub open spec fn block_view(b: Block) -> BlockV {
    match b {
        Block::Heading { level, content } => BlockV::Heading {
            level: level as int,
            content: spans_view(content@),
        },
        Block::Paragraph { content } => BlockV::Paragraph { content: spans_view(content@) },
        Block::List { ordered, items } => BlockV::List { ordered, items: items_view(items@) },
        Block::CodeFence { info, source } => BlockV::CodeFence { info: info@, source: source@ },
        Block::ThematicBreak => BlockV::ThematicBreak,
        Block::RawHtml { text } => BlockV::RawHtml { text: text@ },
    }
}

pub open spec fn blocks_view(v: Seq<Block>) -> Seq<BlockV> {
    Seq::new(v.len(), |i: int| block_view(v[i]))
}

pub open spec fn instr_view(ins: BodyInstruction) -> InstrV {
    match ins {
        BodyInstruction::Heading { level, content } => InstrV::Heading {
            level: level as int,
            content: spans_view(content@),
        },
        BodyInstruction::Paragraph { content } => InstrV::Paragraph {
            content: spans_view(content@),
        },
        BodyInstruction::List { ordered, items } => InstrV::List {
            ordered,
            items: items_view(items@),
        },
        BodyInstruction::CodeBlock { info, text } => InstrV::CodeBlock {
            info: info@,
            text: text@,
        },
        BodyInstruction::Divider => InstrV::Divider,
        BodyInstruction::RawContent { text } => InstrV::RawContent { text: text@ },
        BodyInstruction::DemoPlaceholder { index } => InstrV::DemoPlaceholder {
            index: index as int,
        },
    }
}

pub open spec fn instrs_view(v: Seq<BodyInstruction>) -> Seq<InstrV> {
    Seq::new(v.len(), |i: int| instr_view(v[i]))
}

pub open spec fn demo_view(d: DemoEntry) -> DemoV {
    DemoV { index: d.index as int, source: d.source@ }
}

pub open spec fn demos_view(v: Seq<DemoEntry>) -> Seq<DemoV> {
    Seq::new(v.len(), |i: int| demo_view(v[i]))
}

pub open spec fn parse_err_view(e: ParseError) -> ParseErrV {
    ParseErrV { message: e.message@, line: e.line as int }
}

pub open spec fn compile_err_view(e: CompileError) -> CompileErrV {
    match e {
        CompileError::Parse(p) => CompileErrV::Parse(parse_err_view(p)),
        CompileError::DemoSource { index, message } => CompileErrV::DemoSource {
            index: index as int,
            message: message@,
        },
    }
}

impl View for InlineSpan {
    type V = SpanV;

    open spec fn view(&self) -> SpanV {
        span_view(*self)
    }
}

impl View for Block {
    type V = BlockV;

    open spec fn view(&self) -> BlockV {
        block_view(*self)
    }
}

impl View for BodyInstruction {
    type V = InstrV;

    open spec fn view(&self) -> InstrV {
        instr_view(*self)
    }
}

impl View for DemoEntry {
    type V = DemoV;

    open spec fn view(&self) -> DemoV {
        demo_view(*self)
    }
}

impl View for ParseError {
    type V = ParseErrV;

    open spec fn view(&self) -> ParseErrV {
        parse_err_view(*self)
    }
}

impl View for CompileError {
    type V = CompileErrV;

    open spec fn view(&self) -> CompileErrV {
        compile_err_view(*self)
    }
}

} // verus!
