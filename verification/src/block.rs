//! Block parsing: a document, split into lines, is scanned once into a
//! sequence of blocks.  Headings, fenced code blocks, thematic breaks, list
//! runs, raw passthrough runs and blank-line-separated paragraphs are
//! recognized; text-bearing blocks get their inline content parsed.

use vstd::prelude::*;
use vstd::string::StrSliceExecFns;
use vstd::string::StringExecFns;
use crate::ast::{
    Block, BlockV, InlineSpan, ParseError, ParseErrV, SpanV, blocks_view, block_view, items_view,
    spans_view, parse_err_view, group_spans_view,
};
use crate::inline::{spec_inline, parse_inline_at};
use crate::text::{
    run_len, char_run, is_blank_line, is_blank, digit_run, digit_run_at, join_range, join_lines,
    lines_deep, spec_lines, split_lines_at,
};

verus! {

broadcast use group_spans_view;

// ---------------------------------------------------------------------------
// Line classification
// ---------------------------------------------------------------------------

pub open spec fn heading_level(line: Seq<char>) -> nat {
    run_len(line, 0, '#')
}

/// One to six `#`, then a space, then the heading text.
pub open spec fn is_heading(line: Seq<char>) -> bool {
    1 <= heading_level(line) <= 6 && heading_level(line) < line.len() && line[heading_level(
        line,
    ) as int] == ' '
}

pub open spec fn heading_text(line: Seq<char>) -> Seq<char> {
    line.subrange(heading_level(line) as int + 1, line.len() as int)
}

pub open spec fn fence_width(line: Seq<char>) -> nat {
    run_len(line, 0, '`')
}

/// Three or more backticks open a fence; the rest of the line is the
/// info-string.
pub open spec fn is_fence_open(line: Seq<char>) -> bool {
    fence_width(line) >= 3
}

pub open spec fn fence_info(line: Seq<char>) -> Seq<char> {
    line.subrange(fence_width(line) as int, line.len() as int)
}

/// A closing fence is a line of nothing but backticks, at least as many as
/// the opening fence had.
pub open spec fn closes_fence(line: Seq<char>, width: nat) -> bool {
    fence_width(line) == line.len() && line.len() >= width
}

/// Three or more dashes and nothing else.
pub open spec fn is_thematic(line: Seq<char>) -> bool {
    line.len() >= 3 && run_len(line, 0, '-') == line.len()
}

pub open spec fn is_ulist(line: Seq<char>) -> bool {
    line.len() >= 2 && line[0] == '-' && line[1] == ' '
}

pub open spec fn olist_width(line: Seq<char>) -> nat {
    digit_run(line, 0)
}

pub open spec fn is_olist(line: Seq<char>) -> bool {
    olist_width(line) >= 1 && olist_width(line) + 1 < line.len() && line[olist_width(
        line,
    ) as int] == '.' && line[olist_width(line) as int + 1] == ' '
}

pub open spec fn is_list_item(line: Seq<char>, ordered: bool) -> bool {
    if ordered {
        is_olist(line)
    } else {
        is_ulist(line)
    }
}

pub open spec fn item_text(line: Seq<char>, ordered: bool) -> Seq<char> {
    if ordered {
        line.subrange(olist_width(line) as int + 2, line.len() as int)
    } else {
        line.subrange(2, line.len() as int)
    }
}

pub open spec fn is_html(line: Seq<char>) -> bool {
    line.len() >= 1 && line[0] == '<'
}

/// A line that continues a paragraph: non-blank and not the start of any
/// other block form.
pub open spec fn is_text_line(line: Seq<char>) -> bool {
    &&& !is_blank_line(line)
    &&& !is_heading(line)
    &&& !is_fence_open(line)
    &&& !is_thematic(line)
    &&& !is_ulist(line)
    &&& !is_olist(line)
    &&& !is_html(line)
}

// ---------------------------------------------------------------------------
// Executable classifiers
// ---------------------------------------------------------------------------

fn heading_level_at(line: &str) -> (r: usize)
    ensures
        r == heading_level(line@),
        r <= line@.len(),
{
    let _ = line.unicode_len();
    char_run(line, 0, '#')
}

fn is_heading_x(line: &str) -> (r: bool)
    ensures
        r == is_heading(line@),
{
    let h = heading_level_at(line);
    let n = line.unicode_len();
    1 <= h && h <= 6 && h < n && line.get_char(h) == ' '
}

fn fence_width_at(line: &str) -> (r: usize)
    ensures
        r == fence_width(line@),
        r <= line@.len(),
{
    let _ = line.unicode_len();
    char_run(line, 0, '`')
}

fn is_fence_open_x(line: &str) -> (r: bool)
    ensures
        r == is_fence_open(line@),
{
    fence_width_at(line) >= 3
}

fn closes_fence_x(line: &str, width: usize) -> (r: bool)
    ensures
        r == closes_fence(line@, width as nat),
{
    let w = fence_width_at(line);
    let n = line.unicode_len();
    w == n && n >= width
}

fn is_thematic_x(line: &str) -> (r: bool)
    ensures
        r == is_thematic(line@),
{
    let n = line.unicode_len();
    n >= 3 && char_run(line, 0, '-') == n
}

fn is_ulist_x(line: &str) -> (r: bool)
    ensures
        r == is_ulist(line@),
{
    let n = line.unicode_len();
    n >= 2 && line.get_char(0) == '-' && line.get_char(1) == ' '
}

fn is_olist_x(line: &str) -> (r: bool)
    ensures
        r == is_olist(line@),
{
    let n = line.unicode_len();
    let d = digit_run_at(line, 0);
    1 <= d && d < n && d + 1 < n && line.get_char(d) == '.' && line.get_char(d + 1) == ' '
}

fn is_html_x(line: &str) -> (r: bool)
    ensures
        r == is_html(line@),
{
    let n = line.unicode_len();
    n >= 1 && line.get_char(0) == '<'
}

fn is_text_line_x(line: &str) -> (r: bool)
    ensures
        r == is_text_line(line@),
{
    is_blank(line) == false && !is_heading_x(line) && !is_fence_open_x(line) && !is_thematic_x(
        line,
    ) && !is_ulist_x(line) && !is_olist_x(line) && !is_html_x(line)
}

fn item_text_x<'a>(line: &'a str, ordered: bool) -> (r: &'a str)
    requires
        is_list_item(line@, ordered),
    ensures
        r@ == item_text(line@, ordered),
{
    let n = line.unicode_len();
    if ordered {
        let d = digit_run_at(line, 0);
        line.substring_char(d + 2, n)
    } else {
        line.substring_char(2, n)
    }
}

// ---------------------------------------------------------------------------
// Runs of lines
// ---------------------------------------------------------------------------

pub open spec fn list_run(lines: Seq<Seq<char>>, from: int, ordered: bool) -> nat
    decreases lines.len() - from,
{
    if from < 0 || from >= lines.len() || !is_list_item(lines[from], ordered) {
        0
    } else {
        1 + list_run(lines, from + 1, ordered)
    }
}

pub proof fn lemma_list_run(lines: Seq<Seq<char>>, from: int, ordered: bool)
    requires
        0 <= from <= lines.len(),
    ensures
        from + list_run(lines, from, ordered) <= lines.len(),
    decreases lines.len() - from,
{
    if from < lines.len() && is_list_item(lines[from], ordered) {
        lemma_list_run(lines, from + 1, ordered);
    }
}

pub open spec fn html_run(lines: Seq<Seq<char>>, from: int) -> nat
    decreases lines.len() - from,
{
    if from < 0 || from >= lines.len() || !is_html(lines[from]) {
        0
    } else {
        1 + html_run(lines, from + 1)
    }
}

pub proof fn lemma_html_run(lines: Seq<Seq<char>>, from: int)
    requires
        0 <= from <= lines.len(),
    ensures
        from + html_run(lines, from) <= lines.len(),
    decreases lines.len() - from,
{
    if from < lines.len() && is_html(lines[from]) {
        lemma_html_run(lines, from + 1);
    }
}

pub open spec fn text_block_run(lines: Seq<Seq<char>>, from: int) -> nat
    decreases lines.len() - from,
{
    if from < 0 || from >= lines.len() || !is_text_line(lines[from]) {
        0
    } else {
        1 + text_block_run(lines, from + 1)
    }
}

pub proof fn lemma_text_block_run(lines: Seq<Seq<char>>, from: int)
    requires
        0 <= from <= lines.len(),
    ensures
        from + text_block_run(lines, from) <= lines.len(),
    decreases lines.len() - from,
{
    if from < lines.len() && is_text_line(lines[from]) {
        lemma_text_block_run(lines, from + 1);
    }
}

fn list_run_at(lines: &Vec<String>, from: usize, ordered: bool) -> (r: usize)
    requires
        from <= lines@.len(),
    ensures
        r == list_run(lines_deep(lines@), from as int, ordered),
        from + r <= lines@.len(),
    decreases lines@.len() - from,
{
    if from >= lines.len() {
        0
    } else {
        let line = lines[from].as_str();
        let item = if is_olist_x(line) {
            ordered
        } else if is_ulist_x(line) {
            !ordered
        } else {
            false
        };
        if item {
            1 + list_run_at(lines, from + 1, ordered)
        } else {
            0
        }
    }
}

fn html_run_at(lines: &Vec<String>, from: usize) -> (r: usize)
    requires
        from <= lines@.len(),
    ensures
        r == html_run(lines_deep(lines@), from as int),
        from + r <= lines@.len(),
    decreases lines@.len() - from,
{
    if from >= lines.len() {
        0
    } else if is_html_x(lines[from].as_str()) {
        1 + html_run_at(lines, from + 1)
    } else {
        0
    }
}

fn text_block_run_at(lines: &Vec<String>, from: usize) -> (r: usize)
    requires
        from <= lines@.len(),
    ensures
        r == text_block_run(lines_deep(lines@), from as int),
        from + r <= lines@.len(),
    decreases lines@.len() - from,
{
    if from >= lines.len() {
        0
    } else if is_text_line_x(lines[from].as_str()) {
        1 + text_block_run_at(lines, from + 1)
    } else {
        0
    }
}

/// The first line at or after `from` that closes a fence of the given width.
pub open spec fn find_fence_close(lines: Seq<Seq<char>>, from: int, width: nat) -> Option<int>
    decreases lines.len() - from,
{
    if from < 0 || from >= lines.len() {
        None
    } else if closes_fence(lines[from], width) {
        Some(from)
    } else {
        find_fence_close(lines, from + 1, width)
    }
}

pub proof fn lemma_find_fence_close(lines: Seq<Seq<char>>, from: int, width: nat)
    requires
        0 <= from <= lines.len(),
    ensures
        match find_fence_close(lines, from, width) {
            Some(j) => from <= j < lines.len() && closes_fence(lines[j], width),
            None => forall|k: int| from <= k < lines.len() ==> !closes_fence(lines[k], width),
        },
    decreases lines.len() - from,
{
    if from < lines.len() && !closes_fence(lines[from], width) {
        lemma_find_fence_close(lines, from + 1, width);
    }
}

fn find_fence_close_at(lines: &Vec<String>, from: usize, width: usize) -> (r: Option<usize>)
    requires
        from <= lines@.len(),
    ensures
        find_fence_close(lines_deep(lines@), from as int, width as nat) == match r {
            Some(j) => Some(j as int),
            None => None::<int>,
        },
    decreases lines@.len() - from,
{
    if from >= lines.len() {
        None
    } else if closes_fence_x(lines[from].as_str(), width) {
        Some(from)
    } else {
        find_fence_close_at(lines, from + 1, width)
    }
}

// ---------------------------------------------------------------------------
// List items
// ---------------------------------------------------------------------------

/// The inline content of `n` consecutive list-item lines starting at `from`.
pub open spec fn list_items(lines: Seq<Seq<char>>, from: int, n: nat, ordered: bool) -> Result<
    Seq<Seq<SpanV>>,
    (),
>
    decreases n,
{
    if n == 0 {
        Ok(Seq::empty())
    } else {
        match spec_inline(item_text(lines[from], ordered), 0) {
            Err(e) => Err(e),
            Ok(spans) => match list_items(lines, from + 1, (n - 1) as nat, ordered) {
                Err(e) => Err(e),
                Ok(rest) => Ok(seq![spans] + rest),
            },
        }
    }
}

fn collect_items(lines: &Vec<String>, from: usize, n: usize, ordered: bool) -> (r: Result<
    Vec<Vec<InlineSpan>>,
    (),
>)
    requires
        from + n <= lines@.len(),
        forall|k: int|
            from <= k < from + n ==> is_list_item(#[trigger] lines_deep(lines@)[k], ordered),
    ensures
        match r {
            Ok(v) => list_items(lines_deep(lines@), from as int, n as nat, ordered)
                == Ok::<Seq<Seq<SpanV>>, ()>(items_view(v@)),
            Err(e) => list_items(lines_deep(lines@), from as int, n as nat, ordered) is Err,
        },
    decreases n,
{
    if n == 0 {
        let v: Vec<Vec<InlineSpan>> = Vec::new();
        proof {
            assert(items_view(v@) =~= Seq::<Seq<SpanV>>::empty());
        }
        Ok(v)
    } else {
        let _ = lines.len();
        assert(is_list_item(lines_deep(lines@)[from as int], ordered));
        let text = item_text_x(lines[from].as_str(), ordered);
        match parse_inline_at(text, 0) {
            Err(e) => Err(e),
            Ok(spans) => match collect_items(lines, from + 1, n - 1, ordered) {
                Err(e) => Err(e),
                Ok(mut rest) => {
                    let ghost orig = rest@;
                    rest.insert(0, spans);
                    proof {
                        assert(rest@ =~= seq![spans] + orig);
                        assert(items_view(seq![spans] + orig) =~= seq![spans_view(spans@)]
                            + items_view(orig));
                    }
                    Ok(rest)
                },
            },
        }
    }
}

// ---------------------------------------------------------------------------
// The block scanner
// ---------------------------------------------------------------------------

pub open spec fn msg_unterminated() -> Seq<char> {
    "unterminated code fence"@
}

pub open spec fn msg_bad_link() -> Seq<char> {
    "malformed link syntax"@
}

/// Prepends a block to a scan result, keeping an error as it is.
pub open spec fn cons_block(x: BlockV, r: Result<Seq<BlockV>, ParseErrV>) -> Result<
    Seq<BlockV>,
    ParseErrV,
> {
    match r {
        Ok(v) => Ok(seq![x] + v),
        Err(e) => Err(e),
    }
}

/// The blocks of the document from line `from` on.  Errors carry the 1-based
/// number of the offending line: the opening line of an unterminated fence,
/// or the first line of a block whose inline content is malformed.
pub open spec fn spec_blocks(lines: Seq<Seq<char>>, from: int) -> Result<Seq<BlockV>, ParseErrV>
    decreases lines.len() - from,
    when 0 <= from <= lines.len()
{
    if from >= lines.len() {
        Ok(Seq::empty())
    } else {
        let line = lines[from];
        if is_blank_line(line) {
            spec_blocks(lines, from + 1)
        } else if is_heading(line) {
            match spec_inline(heading_text(line), 0) {
                Err(_) => Err(ParseErrV { message: msg_bad_link(), line: from + 1 }),
                Ok(spans) => cons_block(
                    BlockV::Heading { level: heading_level(line) as int, content: spans },
                    spec_blocks(lines, from + 1),
                ),
            }
        } else if is_fence_open(line) {
            match find_fence_close(lines, from + 1, fence_width(line)) {
                None => Err(ParseErrV { message: msg_unterminated(), line: from + 1 }),
                Some(j) => {
                    proof {
                        lemma_find_fence_close(lines, from + 1, fence_width(line));
                    }
                    cons_block(
                        BlockV::CodeFence {
                            info: fence_info(line),
                            source: join_range(lines, from + 1, j),
                        },
                        spec_blocks(lines, j + 1),
                    )
                },
            }
        } else if is_thematic(line) {
            cons_block(BlockV::ThematicBreak, spec_blocks(lines, from + 1))
        } else if is_ulist(line) || is_olist(line) {
            let ordered = is_olist(line);
            let n = list_run(lines, from, ordered);
            proof {
                lemma_list_run(lines, from, ordered);
            }
            match list_items(lines, from, n, ordered) {
                Err(_) => Err(ParseErrV { message: msg_bad_link(), line: from + 1 }),
                Ok(items) => cons_block(
                    BlockV::List { ordered, items },
                    spec_blocks(lines, from + n),
                ),
            }
        } else if is_html(line) {
            let n = html_run(lines, from);
            proof {
                lemma_html_run(lines, from);
            }
            cons_block(
                BlockV::RawHtml { text: join_range(lines, from, from + n) },
                spec_blocks(lines, from + n),
            )
        } else {
            let n = text_block_run(lines, from);
            proof {
                lemma_text_block_run(lines, from);
            }
            match spec_inline(join_range(lines, from, from + n), 0) {
                Err(_) => Err(ParseErrV { message: msg_bad_link(), line: from + 1 }),
                Ok(spans) => cons_block(
                    BlockV::Paragraph { content: spans },
                    spec_blocks(lines, from + n),
                ),
            }
        }
    }
}

pub open spec fn blocks_res_view(r: Result<Vec<Block>, ParseError>) -> Result<
    Seq<BlockV>,
    ParseErrV,
> {
    match r {
        Ok(v) => Ok(blocks_view(v@)),
        Err(e) => Err(parse_err_view(e)),
    }
}

/// Prepends a block to a scan result, keeping an error as it is.
fn prepend_block(x: Block, r: Result<Vec<Block>, ParseError>) -> (out: Result<
    Vec<Block>,
    ParseError,
>)
    ensures
        blocks_res_view(out) == cons_block(block_view(x), blocks_res_view(r)),
{
    match r {
        Ok(mut v) => {
            let ghost orig = v@;
            v.insert(0, x);
            proof {
                assert(v@ =~= seq![x] + orig);
                assert(blocks_view(seq![x] + orig) =~= seq![block_view(x)] + blocks_view(orig));
            }
            Ok(v)
        },
        Err(e) => Err(e),
    }
}

fn parse_blocks(lines: &Vec<String>, from: usize) -> (r: Result<Vec<Block>, ParseError>)
    requires
        from <= lines@.len(),
    ensures
        blocks_res_view(r) == spec_blocks(lines_deep(lines@), from as int),
    decreases lines@.len() - from,
{
    if from >= lines.len() {
        let v: Vec<Block> = Vec::new();
        proof {
            assert(blocks_view(v@) =~= Seq::<BlockV>::empty());
        }
        Ok(v)
    } else {
        let line = lines[from].as_str();
        if is_blank(line) {
            parse_blocks(lines, from + 1)
        } else if is_heading_x(line) {
            let h = heading_level_at(line);
            let n = line.unicode_len();
            match parse_inline_at(line.substring_char(h + 1, n), 0) {
                Err(_) => Err(
                    ParseError { message: String::from_str("malformed link syntax"), line: from + 1 },
                ),
                Ok(spans) => {
                    let b = Block::Heading { level: h as u8, content: spans };
                    prepend_block(b, parse_blocks(lines, from + 1))
                },
            }
        } else if is_fence_open_x(line) {
            let w = fence_width_at(line);
            match find_fence_close_at(lines, from + 1, w) {
                None => Err(
                    ParseError {
                        message: String::from_str("unterminated code fence"),
                        line: from + 1,
                    },
                ),
                Some(j) => {
                    proof {
                        lemma_find_fence_close(lines_deep(lines@), from as int + 1, w as nat);
                    }
                    let n = line.unicode_len();
                    let b = Block::CodeFence {
                        info: String::from_str(line.substring_char(w, n)),
                        source: join_lines(lines, from + 1, j),
                    };
                    prepend_block(b, parse_blocks(lines, j + 1))
                },
            }
        } else if is_thematic_x(line) {
            prepend_block(Block::ThematicBreak, parse_blocks(lines, from + 1))
        } else if is_ulist_x(line) || is_olist_x(line) {
            let ordered = is_olist_x(line);
            let n = list_run_at(lines, from, ordered);
            proof {
                lemma_list_run_items(lines_deep(lines@), from as int, ordered);
            }
            match collect_items(lines, from, n, ordered) {
                Err(_) => Err(
                    ParseError { message: String::from_str("malformed link syntax"), line: from + 1 },
                ),
                Ok(items) => {
                    let b = Block::List { ordered, items };
                    prepend_block(b, parse_blocks(lines, from + n))
                },
            }
        } else if is_html_x(line) {
            let n = html_run_at(lines, from);
            let b = Block::RawHtml { text: join_lines(lines, from, from + n) };
            prepend_block(b, parse_blocks(lines, from + n))
        } else {
            let n = text_block_run_at(lines, from);
            match parse_inline_at(join_lines(lines, from, from + n).as_str(), 0) {
                Err(_) => Err(
                    ParseError { message: String::from_str("malformed link syntax"), line: from + 1 },
                ),
                Ok(spans) => {
                    let b = Block::Paragraph { content: spans };
                    prepend_block(b, parse_blocks(lines, from + n))
                },
            }
        }
    }
}

/// Every line of a list run is a list item of the run's kind.
pub proof fn lemma_list_run_items(lines: Seq<Seq<char>>, from: int, ordered: bool)
    requires
        0 <= from <= lines.len(),
    ensures
        forall|k: int|
            from <= k < from + list_run(lines, from, ordered) ==> is_list_item(
                #[trigger] lines[k],
                ordered,
            ),
    decreases lines.len() - from,
{
    if from < lines.len() && is_list_item(lines[from], ordered) {
        lemma_list_run_items(lines, from + 1, ordered);
    }
}

// ---------------------------------------------------------------------------
// The parser's public face
// ---------------------------------------------------------------------------

/// The blocks of the whole document, or the first structural error.
pub open spec fn spec_parse(s: Seq<char>) -> Result<Seq<BlockV>, ParseErrV> {
    spec_blocks(spec_lines(s, 0), 0)
}

/// Parses a markdown document into its sequence of blocks.
///
/// The result is exactly `spec_parse` of the document text: the document is
/// split at newlines and scanned once, and an unterminated fence or a
/// malformed link is an error naming the offending line.
pub fn parse_markdown(text: &str) -> (r: Result<Vec<Block>, ParseError>)
    ensures
        blocks_res_view(r) == spec_parse(text@),
{
    let lines = split_lines_at(text, 0);
    parse_blocks(&lines, 0)
}

} // verus!
