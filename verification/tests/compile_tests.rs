use demo_markdown::compile;
use demo_markdown::ast::{Block, BodyInstruction, CompileError, DemoEntry, InlineSpan};
use demo_markdown::block::parse_markdown;
use demo_markdown::emit::split_and_emit;

fn text(s: &str) -> InlineSpan {
    InlineSpan::Text(String::from(s))
}

#[test]
fn interleaved_document_splits_in_order() {
    let doc = "# Title\n\nSome intro text.\n\n```demo\nA\n```\n\n```rust\nlet n = 1;\n```\n\n```demo\nB\n```";
    let (body, demos) = compile(doc).unwrap();
    assert_eq!(
        demos,
        vec![
            DemoEntry { index: 1, source: String::from("A") },
            DemoEntry { index: 2, source: String::from("B") },
        ]
    );
    assert_eq!(body.len(), 5);
    assert_eq!(body[0], BodyInstruction::Heading { level: 1, content: vec![text("Title")] });
    assert_eq!(body[1], BodyInstruction::Paragraph { content: vec![text("Some intro text.")] });
    assert_eq!(body[2], BodyInstruction::DemoPlaceholder { index: 1 });
    assert_eq!(
        body[3],
        BodyInstruction::CodeBlock {
            info: String::from("rust"),
            text: String::from("let n = 1;"),
        }
    );
    assert_eq!(body[4], BodyInstruction::DemoPlaceholder { index: 2 });
}

#[test]
fn unterminated_fence_is_a_parse_error() {
    match compile("```") {
        Err(CompileError::Parse(e)) => {
            assert_eq!(e.line, 1);
            assert_eq!(e.message, "unterminated code fence");
        }
        other => panic!("expected a parse error, got {:?}", other),
    }
}

#[test]
fn unterminated_fence_reports_its_opening_line() {
    match compile("# h\n```demo\nA") {
        Err(CompileError::Parse(e)) => assert_eq!(e.line, 2),
        other => panic!("expected a parse error, got {:?}", other),
    }
}

#[test]
fn identical_demo_sources_get_distinct_indices() {
    let doc = "```demo\nA\n```\n\n```demo\nA\n```";
    let (body, demos) = compile(doc).unwrap();
    assert_eq!(
        demos,
        vec![
            DemoEntry { index: 1, source: String::from("A") },
            DemoEntry { index: 2, source: String::from("A") },
        ]
    );
    assert_eq!(
        body,
        vec![
            BodyInstruction::DemoPlaceholder { index: 1 },
            BodyInstruction::DemoPlaceholder { index: 2 },
        ]
    );
}

#[test]
fn non_demo_fences_are_never_extracted() {
    let doc = "```rust\nA\n```\n\n```demo \nB\n```\n\n```Demo\nC\n```";
    let (body, demos) = compile(doc).unwrap();
    assert!(demos.is_empty());
    assert_eq!(body.len(), 3);
    for instr in &body {
        assert!(matches!(instr, BodyInstruction::CodeBlock { .. }));
    }
}

#[test]
fn bad_demo_source_is_fatal_with_its_index() {
    let doc = "```demo\nA\n```\n\n```demo\nlet x = ;\n```";
    match compile(doc) {
        Err(CompileError::DemoSource { index, message }) => {
            assert_eq!(index, 2);
            assert!(!message.is_empty());
        }
        other => panic!("expected a demo source error, got {:?}", other),
    }
}

#[test]
fn compiling_twice_is_idempotent() {
    let doc = "# t\n\npara *em* **st** `c` [l](u)\n\n```demo\nA\n```\n\n- one\n- two\n\n---";
    let first = compile(doc);
    let second = compile(doc);
    assert_eq!(first, second);
}

#[test]
fn empty_document_compiles_to_nothing() {
    let (body, demos) = compile("").unwrap();
    assert!(body.is_empty());
    assert!(demos.is_empty());
}

#[test]
fn split_and_emit_translates_each_variant() {
    let blocks = vec![
        Block::Heading { level: 2, content: vec![text("h")] },
        Block::ThematicBreak,
        Block::RawHtml { text: String::from("<br/>") },
        Block::CodeFence { info: String::from("demo"), source: String::from("A") },
        Block::List { ordered: true, items: vec![vec![text("i")]] },
    ];
    let (body, demos) = split_and_emit(blocks).unwrap();
    assert_eq!(demos, vec![DemoEntry { index: 1, source: String::from("A") }]);
    assert_eq!(body[0], BodyInstruction::Heading { level: 2, content: vec![text("h")] });
    assert_eq!(body[1], BodyInstruction::Divider);
    assert_eq!(body[2], BodyInstruction::RawContent { text: String::from("<br/>") });
    assert_eq!(body[3], BodyInstruction::DemoPlaceholder { index: 1 });
    assert_eq!(body[4], BodyInstruction::List { ordered: true, items: vec![vec![text("i")]] });
}

#[test]
fn fence_close_must_be_at_least_as_wide() {
    let doc = "````\n```\n````";
    let blocks = parse_markdown(doc).unwrap();
    assert_eq!(
        blocks,
        vec![Block::CodeFence { info: String::new(), source: String::from("```") }]
    );
}

#[test]
fn demo_error_aborts_before_any_output() {
    let doc = "```demo\n}{ not a body\n```\n\n# later heading";
    assert!(matches!(
        compile(doc),
        Err(CompileError::DemoSource { index: 1, message: _ })
    ));
}

#[test]
fn parse_errors_propagate_through_compile() {
    match compile("see [note") {
        Err(CompileError::Parse(e)) => assert_eq!(e.message, "malformed link syntax"),
        other => panic!("expected a parse error, got {:?}", other),
    }
}

#[test]
fn replaying_the_body_restores_document_order() {
    let doc = "# h\n\n```demo\nA\n```\n\ntail";
    let blocks = parse_markdown(doc).unwrap();
    let reparsed = parse_markdown(doc).unwrap();
    let (body, demos) = compile(doc).unwrap();
    let mut replayed: Vec<Block> = Vec::new();
    for instr in body {
        replayed.push(match instr {
            BodyInstruction::Heading { level, content } => Block::Heading { level, content },
            BodyInstruction::Paragraph { content } => Block::Paragraph { content },
            BodyInstruction::List { ordered, items } => Block::List { ordered, items },
            BodyInstruction::CodeBlock { info, text } => {
                Block::CodeFence { info, source: text }
            }
            BodyInstruction::Divider => Block::ThematicBreak,
            BodyInstruction::RawContent { text } => Block::RawHtml { text },
            BodyInstruction::DemoPlaceholder { index } => Block::CodeFence {
                info: String::from("demo"),
                source: demos[index - 1].source.clone(),
            },
        });
    }
    assert_eq!(replayed, reparsed);
    assert_eq!(replayed, blocks);
}
