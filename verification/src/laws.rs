//! The laws of the compiler: round-trip ordering, idempotence, non-demo
//! fences left untouched, fence balance, and the fatal-demo-source error,
//! each stated over the specification functions the public contracts use.

use vstd::prelude::*;
use crate::ast::{BlockV, BodyInstruction, CompileError, CompileErrV, DemoEntry, DemoV, InstrV};
use crate::block::{
    find_fence_close, fence_width, heading_text, html_run, is_fence_open, is_heading, is_html,
    is_olist, is_thematic, is_ulist, list_items, list_run, spec_blocks, text_block_run,
};
use crate::emit::{demo_parse_error, demo_source_of, emit_instr, is_demo, spec_split, split_res_view};
use crate::block::spec_parse;
use crate::inline::spec_inline;
use crate::text::{is_blank_line, join_range, run_len, spec_lines};
use crate::demo_tag;
use crate::spec_compile;

verus! {

// ---------------------------------------------------------------------------
// Counting and replaying demos
// ---------------------------------------------------------------------------

/// The number of demo-tagged fences among `blocks`.
pub open spec fn count_demos(blocks: Seq<BlockV>) -> nat
    decreases blocks.len(),
{
    if blocks.len() == 0 {
        0
    } else {
        (if is_demo(blocks[0]) {
            1nat
        } else {
            0nat
        }) + count_demos(blocks.drop_first())
    }
}

/// The block one body instruction renders back to, with a placeholder
/// replaced by the demo fence it stands for; `base` is the counter value at
/// the start of the body.
pub open spec fn replay_instr(ins: InstrV, demos: Seq<DemoV>, base: int) -> BlockV {
    match ins {
        InstrV::DemoPlaceholder { index } => BlockV::CodeFence {
            info: demo_tag(),
            source: demos[index - base - 1].source,
        },
        InstrV::Heading { level, content } => BlockV::Heading { level, content },
        InstrV::Paragraph { content } => BlockV::Paragraph { content },
        InstrV::List { ordered, items } => BlockV::List { ordered, items },
        InstrV::CodeBlock { info, text } => BlockV::CodeFence { info, source: text },
        InstrV::Divider => BlockV::ThematicBreak,
        InstrV::RawContent { text } => BlockV::RawHtml { text },
    }
}

/// The body replayed in order, each placeholder substituted by its demo.
pub open spec fn replay(body: Seq<InstrV>, demos: Seq<DemoV>, base: int) -> Seq<BlockV> {
    Seq::new(body.len(), |i: int| replay_instr(body[i], demos, base))
}

proof fn lemma_count_demos_take(blocks: Seq<BlockV>, j: int)
    requires
        1 <= j <= blocks.len(),
    ensures
        count_demos(blocks.take(j)) == (if is_demo(blocks[0]) {
            1int
        } else {
            0int
        }) + count_demos(blocks.drop_first().take(j - 1)),
{
    assert(blocks.take(j).drop_first() =~= blocks.drop_first().take(j - 1));
    assert(blocks.take(j)[0] == blocks[0]);
    assert(blocks.take(j).len() == j);
}

// ---------------------------------------------------------------------------
// Structure of a successful split
// ---------------------------------------------------------------------------

/// A non-demo block is never extracted and never increments the demo
/// counter; the body has exactly one instruction per block, in order; the
/// k-th demo fence, counting from 1, leaves the placeholder carrying index
/// `count + k` at its own position; and the demo list carries consecutive
/// indices starting at `count + 1`.
pub proof fn lemma_split_structure(blocks: Seq<BlockV>, count: int)
    ensures
        spec_split(blocks, count) matches Ok(r) ==> {
            &&& r.0.len() == blocks.len()
            &&& r.1.len() == count_demos(blocks)
            &&& forall|j: int|
                0 <= j < blocks.len() && !is_demo(#[trigger] blocks[j]) ==> r.0[j] == emit_instr(
                    blocks[j],
                )
            &&& forall|j: int|
                0 <= j < blocks.len() && is_demo(#[trigger] blocks[j]) ==> r.0[j]
                    == InstrV::DemoPlaceholder {
                    index: count + 1 + count_demos(blocks.take(j)),
                }
            &&& forall|j: int|
                0 <= j < r.1.len() ==> (#[trigger] r.1[j]).index == count + 1 + j
            &&& forall|j: int|
                0 <= j < blocks.len() && is_demo(#[trigger] blocks[j]) ==> count_demos(
                    blocks.take(j),
                ) < r.1.len() && r.1[count_demos(blocks.take(j)) as int] == DemoV {
                    index: count + 1 + count_demos(blocks.take(j)),
                    source: demo_source_of(blocks[j]),
                }
        },
    decreases blocks.len(),
{
    if blocks.len() > 0 {
        let rest = blocks.drop_first();
        let head_demo = is_demo(blocks[0]);
        let headcount: int = if head_demo {
            count + 1
        } else {
            count
        };
        lemma_split_structure(rest, headcount);
        assert forall|j: int| 1 <= j <= blocks.len() implies count_demos(blocks.take(j)) == (
        if head_demo {
            1int
        } else {
            0int
        }) + count_demos(rest.take(j - 1)) by {
            lemma_count_demos_take(blocks, j);
        }
        assert(blocks.take(0) =~= Seq::<BlockV>::empty());
        assert(forall|j: int| 1 <= j < blocks.len() ==> #[trigger] rest[j - 1] == blocks[j]);
        match spec_split(blocks, count) {
            Ok(r) => match spec_split(rest, headcount) {
                Ok(rp) => {
                    if head_demo {
                        assert(r.0 == seq![InstrV::DemoPlaceholder { index: count + 1 }] + rp.0);
                        assert(r.1 == seq![
                            DemoV { index: count + 1, source: demo_source_of(blocks[0]) },
                        ] + rp.1);
                    } else {
                        assert(r.0 == seq![emit_instr(blocks[0])] + rp.0);
                        assert(r.1 == rp.1);
                    }
                    assert forall|j: int|
                        0 <= j < blocks.len() && !is_demo(#[trigger] blocks[j]) implies r.0[j]
                        == emit_instr(blocks[j]) by {
                        if j >= 1 {
                            assert(rest[j - 1] == blocks[j]);
                            assert(r.0[j] == rp.0[j - 1]);
                        }
                    }
                    assert forall|j: int|
                        0 <= j < blocks.len() && is_demo(#[trigger] blocks[j]) implies r.0[j]
                        == InstrV::DemoPlaceholder {
                        index: count + 1 + count_demos(blocks.take(j)),
                    } by {
                        if j >= 1 {
                            assert(rest[j - 1] == blocks[j]);
                            assert(r.0[j] == rp.0[j - 1]);
                        }
                    }
                    assert forall|j: int| 0 <= j < r.1.len() implies (#[trigger] r.1[j]).index
                        == count + 1 + j by {
                        if head_demo {
                            if j >= 1 {
                                assert(r.1[j] == rp.1[j - 1]);
                            }
                        } else {
                            assert(r.1[j] == rp.1[j]);
                        }
                    }
                    assert forall|j: int|
                        0 <= j < blocks.len() && is_demo(#[trigger] blocks[j]) implies count_demos(
                        blocks.take(j),
                    ) < r.1.len() && r.1[count_demos(blocks.take(j)) as int] == DemoV {
                        index: count + 1 + count_demos(blocks.take(j)),
                        source: demo_source_of(blocks[j]),
                    } by {
                        if j >= 1 {
                            assert(rest[j - 1] == blocks[j]);
                            let cd = count_demos(rest.take(j - 1)) as int;
                            if head_demo {
                                assert(r.1[1 + cd] == rp.1[cd]);
                            }
                        }
                    }
                },
                Err(_) => {},
            },
            Err(_) => {},
        }
    }
}

// ---------------------------------------------------------------------------
// Round-trip ordering
// ---------------------------------------------------------------------------

/// Round-trip ordering: when the split succeeds on a document with k demos,
/// the demo list has length k with indices `count + 1 .. count + k` in
/// document order, and replaying the body while substituting each
/// placeholder with its indexed demo yields the blocks in exactly the
/// original document order.
pub proof fn lemma_split_round_trip(blocks: Seq<BlockV>, count: int)
    ensures
        spec_split(blocks, count) matches Ok(r) ==> {
            &&& r.1.len() == count_demos(blocks)
            &&& forall|j: int|
                0 <= j < r.1.len() ==> (#[trigger] r.1[j]).index == count + 1 + j
            &&& replay(r.0, r.1, count) == blocks
        },
{
    lemma_split_structure(blocks, count);
    match spec_split(blocks, count) {
        Ok(r) => {
            assert forall|j: int| 0 <= j < blocks.len() implies replay(r.0, r.1, count)[j]
                == blocks[j] by {
                if is_demo(blocks[j]) {
                    let cd = count_demos(blocks.take(j)) as int;
                    assert(r.0[j] == InstrV::DemoPlaceholder { index: count + 1 + cd });
                    assert(r.1[cd].source == demo_source_of(blocks[j]));
                }
            }
            assert(replay(r.0, r.1, count) =~= blocks);
        },
        Err(_) => {},
    }
}

// ---------------------------------------------------------------------------
// Fatal demo source
// ---------------------------------------------------------------------------

/// Position `j` holds a demo fence whose source fails to parse.
pub open spec fn has_bad_demo(blocks: Seq<BlockV>, j: int) -> bool {
    0 <= j < blocks.len() && is_demo(blocks[j]) && demo_parse_error(demo_source_of(blocks[j])) is Some
}

pub open spec fn no_bad_demo_before(blocks: Seq<BlockV>, j: int) -> bool {
    forall|k: int| 0 <= k < j ==> !has_bad_demo(blocks, k)
}

/// Fatal demo source: the split fails exactly when some demo's source fails
/// to parse; the error names the first failing demo's 1-based index and
/// carries the underlying parser text, and nothing else is returned.
pub proof fn lemma_split_error(blocks: Seq<BlockV>, count: int)
    ensures
        (spec_split(blocks, count) is Err) <==> exists|j: int| has_bad_demo(blocks, j),
        forall|j: int|
            #[trigger] has_bad_demo(blocks, j) && no_bad_demo_before(blocks, j) ==> match demo_parse_error(
                demo_source_of(blocks[j]),
            ) {
                Some(m) => spec_split(blocks, count) == Err::<(Seq<InstrV>, Seq<DemoV>), CompileErrV>(
                    CompileErrV::DemoSource {
                        index: count + 1 + count_demos(blocks.take(j)),
                        message: m,
                    },
                ),
                None => false,
            },
    decreases blocks.len(),
{
    if blocks.len() > 0 {
        let rest = blocks.drop_first();
        let headcount: int = if is_demo(blocks[0]) {
            count + 1
        } else {
            count
        };
        lemma_split_error(rest, headcount);
        assert(forall|j: int| 1 <= j < blocks.len() ==> #[trigger] rest[j - 1] == blocks[j]);
        assert(forall|j: int|
            1 <= j < blocks.len() ==> (has_bad_demo(blocks, j) <==> #[trigger] has_bad_demo(
                rest,
                j - 1,
            )));
        assert forall|j: int| 1 <= j <= blocks.len() implies count_demos(blocks.take(j)) == (
        if is_demo(blocks[0]) {
            1int
        } else {
            0int
        }) + count_demos(rest.take(j - 1)) by {
            lemma_count_demos_take(blocks, j);
        }
        assert(blocks.take(0) =~= Seq::<BlockV>::empty());
        if (exists|j: int| has_bad_demo(blocks, j)) {
            let jw = choose|j: int| has_bad_demo(blocks, j);
            if has_bad_demo(blocks, 0) {
                assert(spec_split(blocks, count) is Err);
            } else {
                assert(has_bad_demo(rest, jw - 1));
            }
        }
        if spec_split(blocks, count) is Err {
            if !has_bad_demo(blocks, 0) && demo_parse_error(demo_source_of(blocks[0])) is None
                || !is_demo(blocks[0]) {
                assert(spec_split(rest, headcount) is Err);
                let jw = choose|j: int| has_bad_demo(rest, j);
                assert(has_bad_demo(blocks, jw + 1));
            }
        }
        assert forall|j: int|
            #[trigger] has_bad_demo(blocks, j) && no_bad_demo_before(blocks, j) implies match demo_parse_error(
            demo_source_of(blocks[j]),
        ) {
            Some(m) => spec_split(blocks, count) == Err::<(Seq<InstrV>, Seq<DemoV>), CompileErrV>(
                CompileErrV::DemoSource {
                    index: count + 1 + count_demos(blocks.take(j)),
                    message: m,
                },
            ),
            None => false,
        } by {
            if j == 0 {
                assert(count_demos(blocks.take(0)) == 0);
            } else {
                assert(!has_bad_demo(blocks, 0));
                assert(has_bad_demo(rest, j - 1));
                assert forall|k: int| 0 <= k < j - 1 implies !has_bad_demo(rest, k) by {
                    assert(!has_bad_demo(blocks, k + 1));
                }
                assert(no_bad_demo_before(rest, j - 1));
            }
        }
    }
}

// ---------------------------------------------------------------------------
// Fence balance
// ---------------------------------------------------------------------------

/// The scan position after the block starting at `from`, or `None` when the
/// scanner fails there.
pub open spec fn step_next(lines: Seq<Seq<char>>, from: int) -> Option<int> {
    let line = lines[from];
    if is_blank_line(line) {
        Some(from + 1)
    } else if is_heading(line) {
        if spec_inline(heading_text(line), 0) is Ok {
            Some(from + 1)
        } else {
            None
        }
    } else if is_fence_open(line) {
        match find_fence_close(lines, from + 1, fence_width(line)) {
            Some(j) => Some(j + 1),
            None => None,
        }
    } else if is_thematic(line) {
        Some(from + 1)
    } else if is_ulist(line) || is_olist(line) {
        let ordered = is_olist(line);
        if list_items(lines, from, list_run(lines, from, ordered), ordered) is Ok {
            Some(from + list_run(lines, from, ordered))
        } else {
            None
        }
    } else if is_html(line) {
        Some(from + html_run(lines, from))
    } else {
        if spec_inline(join_range(lines, from, from + text_block_run(lines, from)), 0) is Ok {
            Some(from + text_block_run(lines, from))
        } else {
            None
        }
    }
}

/// Whether the block scanner, started at `from`, eventually stands at `i`.
pub open spec fn reaches(lines: Seq<Seq<char>>, from: int, i: int) -> bool
    decreases i - from,
{
    if from >= i {
        from == i
    } else {
        match step_next(lines, from) {
            None => false,
            Some(nxt) => if nxt <= from || nxt > i {
                false
            } else {
                reaches(lines, nxt, i)
            },
        }
    }
}

proof fn lemma_step_err(lines: Seq<Seq<char>>, from: int)
    requires
        0 <= from < lines.len(),
        step_next(lines, from) is None,
    ensures
        spec_blocks(lines, from) is Err,
{
}

proof fn lemma_step_propagates(lines: Seq<Seq<char>>, from: int, nxt: int)
    requires
        0 <= from < lines.len(),
        0 <= nxt <= lines.len(),
        step_next(lines, from) == Some(nxt),
        spec_blocks(lines, nxt) is Err,
    ensures
        spec_blocks(lines, from) is Err,
{
    let line = lines[from];
    if is_blank_line(line) {
        assert(nxt == from + 1);
        assert(spec_blocks(lines, from) == spec_blocks(lines, from + 1));
    } else if is_heading(line) {
        assert(nxt == from + 1);
    } else if is_fence_open(line) {
        match find_fence_close(lines, from + 1, fence_width(line)) {
            Some(j) => {
                assert(nxt == j + 1);
            },
            None => {
                assert(false);
            },
        }
    } else if is_thematic(line) {
        assert(nxt == from + 1);
    } else if is_ulist(line) || is_olist(line) {
        let ordered = is_olist(line);
        assert(nxt == from + list_run(lines, from, ordered));
    } else if is_html(line) {
        assert(nxt == from + html_run(lines, from));
    } else {
        assert(nxt == from + text_block_run(lines, from));
    }
}

proof fn lemma_reaches_err(lines: Seq<Seq<char>>, from: int, i: int)
    requires
        0 <= from <= i < lines.len(),
        reaches(lines, from, i),
        spec_blocks(lines, i) is Err,
    ensures
        spec_blocks(lines, from) is Err,
    decreases i - from,
{
    if from < i {
        match step_next(lines, from) {
            Some(nxt) => {
                lemma_reaches_err(lines, nxt, i);
                lemma_step_propagates(lines, from, nxt);
            },
            None => {
                assert(false);
            },
        }
    }
}

/// Fence balance: an opening fence the scanner reaches, with no closing line
/// anywhere after it, makes the whole scan fail — never a silently truncated
/// result.
pub proof fn lemma_fence_balance(lines: Seq<Seq<char>>, i: int)
    requires
        0 <= i < lines.len(),
        reaches(lines, 0, i),
        is_fence_open(lines[i]),
        find_fence_close(lines, i + 1, fence_width(lines[i])) is None,
    ensures
        spec_blocks(lines, 0) is Err,
{
    assert(run_len(lines[i], 0, '`') >= 3);
    assert(lines[i][0] == '`');
    assert(!is_blank_line(lines[i]));
    assert(run_len(lines[i], 0, '#') == 0);
    assert(!is_heading(lines[i]));
    assert(step_next(lines, i) is None);
    lemma_step_err(lines, i);
    lemma_reaches_err(lines, 0, i);
}

/// Fence balance at the document level: a document whose scanner reaches an
/// opening fence that no later line closes yields a parse error, never a
/// silently truncated result.
pub proof fn lemma_parse_fence_balance(s: Seq<char>, i: int)
    requires
        0 <= i < spec_lines(s, 0).len(),
        reaches(spec_lines(s, 0), 0, i),
        is_fence_open(spec_lines(s, 0)[i]),
        find_fence_close(spec_lines(s, 0), i + 1, fence_width(spec_lines(s, 0)[i])) is None,
    ensures
        spec_parse(s) is Err,
{
    lemma_fence_balance(spec_lines(s, 0), i);
}

// ---------------------------------------------------------------------------
// Idempotence
// ---------------------------------------------------------------------------

/// Idempotence: compiling the same document twice yields structurally
/// identical body/demo-list pairs.
pub proof fn lemma_compile_idempotent(
    s: Seq<char>,
    r1: Result<(Vec<BodyInstruction>, Vec<DemoEntry>), CompileError>,
    r2: Result<(Vec<BodyInstruction>, Vec<DemoEntry>), CompileError>,
)
    requires
        split_res_view(r1) == spec_compile(s),
        split_res_view(r2) == spec_compile(s),
    ensures
        split_res_view(r1) == split_res_view(r2),
{
}

} // verus!
