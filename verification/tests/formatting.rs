use tform::config::Config;
use tform::formatter::{render_html, render_markdown};
use tform::parser::Parser;
use tform::structures::Block;

fn input_lines(text: &str) -> Vec<String> {
    let mut v: Vec<String> = Vec::new();
    for l in text.lines() {
        v.push(l.to_string());
    }
    v
}

fn parse_default(text: &str) -> tform::structures::Document {
    let parser = Parser::new(Config::default());
    parser.parse(&input_lines(text))
}

#[test]
fn render_is_idempotent() {
    let doc = parse_default("# T\nBody\n\n- a\n- b\n\n```\ncode  here\n```");
    let md1 = render_markdown(&doc);
    let md2 = render_markdown(&doc);
    assert_eq!(md1, md2);
    let html1 = render_html(&doc);
    let html2 = render_html(&doc);
    assert_eq!(html1, html2);
}

#[test]
fn round_trip_smoke() {
    let doc = parse_default("# T\nBody");
    let md = render_markdown(&doc);
    assert!(md.contains("# T\n"));
    assert!(md.contains("Body"));
    let html = render_html(&doc);
    assert!(html.contains("<h1>T</h1>"));
    assert!(html.contains("<p>Body</p>"));
}

#[test]
fn list_aggregation() {
    let doc = parse_default("- a\n- b\n- c");
    assert_eq!(doc.blocks.len(), 1);
    match &doc.blocks[0] {
        Block::List(items) => {
            assert_eq!(items.len(), 3);
            assert_eq!(items[0], "a");
            assert_eq!(items[1], "b");
            assert_eq!(items[2], "c");
        }
        other => panic!("expected a list block, found {:?}", other),
    }
    let md = render_markdown(&doc);
    assert!(md.contains("- a\n- b\n- c\n"));
    assert_eq!(md, "- a\n- b\n- c\n\n");
    let html = render_html(&doc);
    let ul = html.find("<ul>").expect("missing <ul>");
    let end = html.find("</ul>").expect("missing </ul>");
    assert!(ul < end);
    assert!(html.contains("<li>a</li>\n<li>b</li>\n<li>c</li>"));
    assert_eq!(html, "<ul>\n<li>a</li>\n<li>b</li>\n<li>c</li>\n</ul>\n");
}

#[test]
fn code_block_preserves_whitespace() {
    let doc = parse_default("```\nlet x   =   1;\n```");
    assert_eq!(doc.blocks.len(), 1);
    match &doc.blocks[0] {
        Block::CodeBlock(text) => assert_eq!(text, "let x   =   1;"),
        other => panic!("expected a code block, found {:?}", other),
    }
    let md = render_markdown(&doc);
    assert!(md.contains("let x   =   1;"));
    assert_eq!(md, "```\nlet x   =   1;\n```\n\n");
    let html = render_html(&doc);
    assert!(html.contains("let x   =   1;"));
    assert_eq!(html, "<pre><code>let x   =   1;</code></pre>\n");
}

#[test]
fn code_block_keeps_multiple_lines() {
    let doc = parse_default("```\nfirst\n\nthird\n```");
    assert_eq!(doc.blocks.len(), 1);
    match &doc.blocks[0] {
        Block::CodeBlock(text) => assert_eq!(text, "first\n\nthird"),
        other => panic!("expected a code block, found {:?}", other),
    }
    let md = render_markdown(&doc);
    assert!(md.contains("```\nfirst\n\nthird\n```\n\n"));
    let html = render_html(&doc);
    assert!(html.contains("<pre><code>first\n\nthird</code></pre>\n"));
}

#[test]
fn unterminated_fence_still_emits_code() {
    let doc = parse_default("para\n```\nkept   line");
    assert_eq!(doc.blocks.len(), 2);
    match &doc.blocks[1] {
        Block::CodeBlock(text) => assert_eq!(text, "kept   line"),
        other => panic!("expected a code block, found {:?}", other),
    }
}

#[test]
fn disabled_headings_fold_into_paragraph() {
    let mut config = Config::default();
    config.detect_headings = false;
    let parser = Parser::new(config);
    let doc = parser.parse(&input_lines("# Title\nmore"));
    assert_eq!(doc.blocks.len(), 1);
    match &doc.blocks[0] {
        Block::Paragraph(text) => assert_eq!(text, "# Title more"),
        other => panic!("expected a paragraph, found {:?}", other),
    }
}

#[test]
fn empty_input_empty_output() {
    let doc = parse_default("");
    assert_eq!(doc.blocks.len(), 0);
    assert_eq!(render_markdown(&doc), "");
    assert_eq!(render_html(&doc), "");
}

#[test]
fn blank_lines_emit_no_blocks() {
    let doc = parse_default("\n   \n\t\n\n");
    assert_eq!(doc.blocks.len(), 0);
    assert_eq!(render_markdown(&doc), "");
    assert_eq!(render_html(&doc), "");
}

#[test]
fn heading_level_counts_markers() {
    let doc = parse_default("### Deep");
    assert_eq!(doc.blocks.len(), 1);
    match &doc.blocks[0] {
        Block::Heading(level, text) => {
            assert_eq!(*level, 3);
            assert_eq!(text, "Deep");
        }
        other => panic!("expected a heading, found {:?}", other),
    }
    assert_eq!(render_markdown(&doc), "### Deep\n\n");
    assert_eq!(render_html(&doc), "<h3>Deep</h3>\n");
}

#[test]
fn heading_level_has_no_upper_clamp() {
    let doc = parse_default("############ Twelve");
    match &doc.blocks[0] {
        Block::Heading(level, text) => {
            assert_eq!(*level, 12);
            assert_eq!(text, "Twelve");
        }
        other => panic!("expected a heading, found {:?}", other),
    }
    assert_eq!(render_html(&doc), "<h12>Twelve</h12>\n");
}

#[test]
fn heading_without_space_after_markers() {
    let doc = parse_default("#Heading 1");
    match &doc.blocks[0] {
        Block::Heading(level, text) => {
            assert_eq!(*level, 1);
            assert_eq!(text, "Heading 1");
        }
        other => panic!("expected a heading, found {:?}", other),
    }
}

#[test]
fn extra_spaces_collapse_in_text() {
    let doc = parse_default("Hello   world!\nThis  is   a test.");
    assert_eq!(doc.blocks.len(), 1);
    match &doc.blocks[0] {
        Block::Paragraph(text) => assert_eq!(text, "Hello world! This is a test."),
        other => panic!("expected a paragraph, found {:?}", other),
    }
}

#[test]
fn extra_spaces_kept_when_disabled() {
    let mut config = Config::default();
    config.remove_extra_spaces = false;
    let parser = Parser::new(config);
    let doc = parser.parse(&input_lines("Hello   world!"));
    match &doc.blocks[0] {
        Block::Paragraph(text) => assert_eq!(text, "Hello   world!"),
        other => panic!("expected a paragraph, found {:?}", other),
    }
}

#[test]
fn bullet_markers_all_recognized() {
    let doc = parse_default("- dash\n* star\n+ plus");
    assert_eq!(doc.blocks.len(), 1);
    match &doc.blocks[0] {
        Block::List(items) => {
            assert_eq!(items.len(), 3);
            assert_eq!(items[0], "dash");
            assert_eq!(items[1], "star");
            assert_eq!(items[2], "plus");
        }
        other => panic!("expected a list block, found {:?}", other),
    }
}

#[test]
fn disabled_lists_fold_into_paragraph() {
    let mut config = Config::default();
    config.detect_lists = false;
    let parser = Parser::new(config);
    let doc = parser.parse(&input_lines("- a\n- b"));
    assert_eq!(doc.blocks.len(), 1);
    match &doc.blocks[0] {
        Block::Paragraph(text) => assert_eq!(text, "- a - b"),
        other => panic!("expected a paragraph, found {:?}", other),
    }
}

#[test]
fn non_bullet_line_flushes_list() {
    let doc = parse_default("- a\nafter");
    assert_eq!(doc.blocks.len(), 2);
    assert!(matches!(&doc.blocks[0], Block::List(items) if items.len() == 1));
    match &doc.blocks[1] {
        Block::Paragraph(text) => assert_eq!(text, "after"),
        other => panic!("expected a paragraph, found {:?}", other),
    }
}

#[test]
fn fence_flushes_pending_paragraph_and_list() {
    let doc = parse_default("text\n- one\n```\nc\n```");
    assert_eq!(doc.blocks.len(), 3);
    assert!(matches!(&doc.blocks[0], Block::Paragraph(t) if t == "text"));
    assert!(matches!(&doc.blocks[1], Block::List(items) if items.len() == 1));
    assert!(matches!(&doc.blocks[2], Block::CodeBlock(t) if t == "c"));
}

#[test]
fn paragraph_lines_join_with_single_space() {
    let doc = parse_default("one\ntwo\n\nthree");
    assert_eq!(doc.blocks.len(), 2);
    assert!(matches!(&doc.blocks[0], Block::Paragraph(t) if t == "one two"));
    assert!(matches!(&doc.blocks[1], Block::Paragraph(t) if t == "three"));
    assert_eq!(render_markdown(&doc), "one two\n\nthree\n\n");
    assert_eq!(render_html(&doc), "<p>one two</p>\n<p>three</p>\n");
}

#[test]
fn trailing_whitespace_is_trimmed() {
    let doc = parse_default("line one   \t");
    assert!(matches!(&doc.blocks[0], Block::Paragraph(t) if t == "line one"));
}

#[test]
fn indented_fence_line_toggles() {
    let doc = parse_default("  ```  \ninside\n```");
    assert_eq!(doc.blocks.len(), 1);
    assert!(matches!(&doc.blocks[0], Block::CodeBlock(t) if t == "inside"));
}
