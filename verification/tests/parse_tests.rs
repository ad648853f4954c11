use demo_markdown::ast::{Block, InlineSpan};
use demo_markdown::block::parse_markdown;

fn text(s: &str) -> InlineSpan {
    InlineSpan::Text(String::from(s))
}

#[test]
fn headings_take_their_level_from_the_hashes() {
    let blocks = parse_markdown("# one\n### three\n###### six").unwrap();
    assert_eq!(
        blocks,
        vec![
            Block::Heading { level: 1, content: vec![text("one")] },
            Block::Heading { level: 3, content: vec![text("three")] },
            Block::Heading { level: 6, content: vec![text("six")] },
        ]
    );
}

#[test]
fn seven_hashes_is_not_a_heading() {
    let blocks = parse_markdown("####### x").unwrap();
    assert_eq!(blocks, vec![Block::Paragraph { content: vec![text("####### x")] }]);
}

#[test]
fn consecutive_lines_merge_into_one_paragraph() {
    let blocks = parse_markdown("first line\nsecond line\n\nnext para").unwrap();
    assert_eq!(
        blocks,
        vec![
            Block::Paragraph { content: vec![text("first line\nsecond line")] },
            Block::Paragraph { content: vec![text("next para")] },
        ]
    );
}

#[test]
fn inline_constructs_nest() {
    let blocks = parse_markdown("a *b* **c** `d` [e](f)").unwrap();
    assert_eq!(
        blocks,
        vec![Block::Paragraph {
            content: vec![
                text("a "),
                InlineSpan::Emphasis(vec![text("b")]),
                text(" "),
                InlineSpan::Strong(vec![text("c")]),
                text(" "),
                InlineSpan::CodeSpan(String::from("d")),
                text(" "),
                InlineSpan::Link { label: String::from("e"), target: String::from("f") },
            ],
        }]
    );
}

#[test]
fn emphasis_inside_strong() {
    let blocks = parse_markdown("**a *b* c**").unwrap();
    assert_eq!(
        blocks,
        vec![Block::Paragraph {
            content: vec![InlineSpan::Strong(vec![
                text("a "),
                InlineSpan::Emphasis(vec![text("b")]),
                text(" c"),
            ])],
        }]
    );
}

#[test]
fn unmatched_emphasis_degrades_to_literal_text() {
    let blocks = parse_markdown("a *b").unwrap();
    assert_eq!(
        blocks,
        vec![Block::Paragraph { content: vec![text("a "), text("*"), text("b")] }]
    );
}

#[test]
fn unmatched_bracket_is_a_parse_error() {
    let err = parse_markdown("look [here").unwrap_err();
    assert_eq!(err.line, 1);
    assert_eq!(err.message, "malformed link syntax");
}

#[test]
fn bracket_without_target_is_literal() {
    let blocks = parse_markdown("[x]").unwrap();
    assert_eq!(blocks, vec![Block::Paragraph { content: vec![text("["), text("x]")] }]);
}

#[test]
fn link_without_closing_paren_is_a_parse_error() {
    let err = parse_markdown("[x](y").unwrap_err();
    assert_eq!(err.message, "malformed link syntax");
}

#[test]
fn unordered_list_groups_its_items() {
    let blocks = parse_markdown("- one\n- two\ntail").unwrap();
    assert_eq!(
        blocks,
        vec![
            Block::List { ordered: false, items: vec![vec![text("one")], vec![text("two")]] },
            Block::Paragraph { content: vec![text("tail")] },
        ]
    );
}

#[test]
fn ordered_list_groups_its_items() {
    let blocks = parse_markdown("1. one\n12. twelve").unwrap();
    assert_eq!(
        blocks,
        vec![Block::List {
            ordered: true,
            items: vec![vec![text("one")], vec![text("twelve")]],
        }]
    );
}

#[test]
fn thematic_break_and_raw_html() {
    let blocks = parse_markdown("---\n<div>\n<span>x</span>\n</div>").unwrap();
    assert_eq!(
        blocks,
        vec![
            Block::ThematicBreak,
            Block::RawHtml { text: String::from("<div>\n<span>x</span>\n</div>") },
        ]
    );
}

#[test]
fn fence_body_and_info_are_kept_verbatim() {
    let blocks = parse_markdown("```rust ignore\nlet a = 1;\n\nlet b = 2;\n```").unwrap();
    assert_eq!(
        blocks,
        vec![Block::CodeFence {
            info: String::from("rust ignore"),
            source: String::from("let a = 1;\n\nlet b = 2;"),
        }]
    );
}

#[test]
fn code_span_keeps_markers_verbatim() {
    let blocks = parse_markdown("`a *b* c`").unwrap();
    assert_eq!(
        blocks,
        vec![Block::Paragraph { content: vec![InlineSpan::CodeSpan(String::from("a *b* c"))] }]
    );
}

#[test]
fn blank_lines_alone_give_no_blocks() {
    let blocks = parse_markdown("\n   \n\t\n").unwrap();
    assert!(blocks.is_empty());
}

#[test]
fn fence_interrupts_a_paragraph() {
    let blocks = parse_markdown("para\n```x\nA\n```").unwrap();
    assert_eq!(
        blocks,
        vec![
            Block::Paragraph { content: vec![text("para")] },
            Block::CodeFence { info: String::from("x"), source: String::from("A") },
        ]
    );
}

#[test]
fn bad_link_in_heading_is_a_parse_error() {
    let err = parse_markdown("# [broken").unwrap_err();
    assert_eq!(err.line, 1);
    assert_eq!(err.message, "malformed link syntax");
}

#[test]
fn bad_link_in_list_item_is_a_parse_error() {
    let err = parse_markdown("- [broken").unwrap_err();
    assert_eq!(err.message, "malformed link syntax");
}
