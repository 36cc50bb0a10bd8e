use see::config::AppConfig;
use see::context::RenderContext;
use see::node::{AstNode, Kind};
use see::output::{Color, ImageSource, Output, RenderOp, Style};
use see::render::{render_markdown, render_node};
use see::utils::ast::{modify_heading_ast, modify_list_item_ast, process_definitions, process_footnotes};

fn node(kind: Kind, children: Vec<AstNode>) -> AstNode {
    AstNode::new(kind, children)
}

fn text(value: &str) -> AstNode {
    AstNode::text(value)
}

fn paragraph(children: Vec<AstNode>) -> AstNode {
    node(Kind::Paragraph, children)
}

fn root(children: Vec<AstNode>) -> AstNode {
    node(Kind::Root, children)
}

fn plain_config() -> AppConfig {
    AppConfig::default_config()
}

fn style(fg: Option<Color>, bold: bool, italic: bool, underline: bool) -> Style {
    Style { fg, bg: None, bold, italic, underline }
}

fn t(s: &str) -> RenderOp {
    RenderOp::Text(s.to_string())
}

fn render(tree: &AstNode, config: AppConfig) -> (Output, RenderContext) {
    let mut ctx = RenderContext::new(config);
    let mut out = Output::new();
    render_node(tree, &mut ctx, &mut out);
    (out, ctx)
}

#[test]
fn unresolved_link_reference_renders_children_as_plain_text() {
    let tree = root(vec![paragraph(vec![node(
        Kind::LinkReference { identifier: "missing".to_string() },
        vec![text("foo")],
    )])]);
    let (out, _) = render(&tree, plain_config());
    assert_eq!(out.ops, vec![t(""), t("foo"), t("\n")]);
    assert_eq!(out.plain_text(), "foo\n");
}

#[test]
fn definition_after_reference_resolves() {
    let mut tree = root(vec![
        paragraph(vec![node(
            Kind::LinkReference { identifier: "ref".to_string() },
            vec![text("text")],
        )]),
        node(
            Kind::Definition {
                identifier: "ref".to_string(),
                url: "https://example.com".to_string(),
                title: Some("Title".to_string()),
            },
            vec![],
        ),
    ]);
    let mut config = plain_config();
    config.render_links = false;
    let mut ctx = RenderContext::new(config);
    process_definitions(&tree, &mut ctx.links);
    process_footnotes(&tree, &mut ctx.footnotes);
    modify_heading_ast(&mut tree);
    modify_list_item_ast(&mut tree);
    assert_eq!(
        see::utils::shared::get_link_definition(&ctx.links, "ref"),
        Some(("https://example.com".to_string(), Some("Title".to_string())))
    );
    let mut out = Output::new();
    render_markdown(&tree, &mut ctx, &mut out);
    assert_eq!(
        out.ops,
        vec![
            t(""),
            t(" "),
            t("\u{1b}]8;;https://example.com\u{1b}\\"),
            RenderOp::SetStyle(style(Some(Color::Blue), false, false, true)),
            t("text"),
            RenderOp::Reset,
            t("\u{1b}]8;;\u{1b}\\"),
            t(" "),
            t("\n"),
        ]
    );
}

#[test]
fn definition_before_reference_resolves_to_plain_text_when_links_are_inline() {
    let tree = root(vec![
        node(
            Kind::Definition {
                identifier: "ref".to_string(),
                url: "https://example.com".to_string(),
                title: None,
            },
            vec![],
        ),
        paragraph(vec![node(
            Kind::LinkReference { identifier: "ref".to_string() },
            vec![text("text")],
        )]),
    ]);
    let (out, ctx) = render(&tree, plain_config());
    assert_eq!(out.plain_text(), "text\n");
    assert_eq!(ctx.links.entries.len(), 1);
}

#[test]
fn warning_blockquote_is_an_admonition_line() {
    let tree = node(
        Kind::Blockquote,
        vec![paragraph(vec![text("[!WARNING] disk full")])],
    );
    let (out, ctx) = render(&tree, plain_config());
    assert_eq!(
        out.ops,
        vec![
            RenderOp::SetStyle(style(Some(Color::Yellow), true, false, false)),
            t("\u{f071}  Warning: "),
            RenderOp::Reset,
            t("disk full\n"),
        ]
    );
    assert_eq!(ctx.indent_level, 0);
}

#[test]
fn admonition_keyword_is_case_insensitive_and_joins_remaining_text() {
    let tree = node(
        Kind::Blockquote,
        vec![paragraph(vec![
            text("[!note]  first "),
            node(Kind::InlineCode { value: "code".to_string() }, vec![]),
            node(Kind::Emphasis, vec![text("skipped")]),
            text("last"),
        ])],
    );
    let (out, _) = render(&tree, plain_config());
    assert_eq!(
        out.ops,
        vec![
            RenderOp::SetStyle(style(Some(Color::Cyan), true, false, false)),
            t("\u{ea74}  Note: "),
            RenderOp::Reset,
            t("firstcode last\n"),
        ]
    );
}

#[test]
fn ordinary_blockquote_is_quoted_and_indented() {
    let tree = node(Kind::Blockquote, vec![paragraph(vec![text("[!UNKNOWN] hi")])]);
    let (out, ctx) = render(&tree, plain_config());
    assert_eq!(
        out.ops,
        vec![
            RenderOp::SetStyle(style(Some(Color::Magenta), false, false, false)),
            t("> "),
            t("  "),
            t("[!UNKNOWN] hi"),
            t("\n"),
            RenderOp::Reset,
        ]
    );
    assert_eq!(ctx.indent_level, 0);
}

#[test]
fn footnote_reference_with_text_is_listed_at_the_end() {
    let tree = root(vec![paragraph(vec![
        text("see"),
        node(
            Kind::FootnoteReference { identifier: "1".to_string() },
            vec![text("the"), text("note")],
        ),
    ])]);
    let mut ctx = RenderContext::new(plain_config());
    let mut out = Output::new();
    render_markdown(&tree, &mut ctx, &mut out);
    let white_italic = style(Some(Color::White), false, true, false);
    assert_eq!(
        out.ops,
        vec![
            t(""),
            t("see"),
            RenderOp::SetStyle(white_italic),
            t(" [^1]"),
            RenderOp::Reset,
            t("\n"),
            t("\n"),
            RenderOp::SetStyle(white_italic),
            t("Footnotes:\n"),
            RenderOp::SetStyle(white_italic),
            t("1: "),
            RenderOp::Reset,
            t("the note\n"),
        ]
    );
    assert!(ctx.footnotes.entries.is_empty());
}

#[test]
fn document_without_footnotes_has_no_footnote_section() {
    let tree = root(vec![paragraph(vec![text("plain")])]);
    let mut ctx = RenderContext::new(plain_config());
    let mut out = Output::new();
    render_markdown(&tree, &mut ctx, &mut out);
    assert_eq!(out.ops, vec![t(""), t("plain"), t("\n")]);
}

#[test]
fn footnotes_come_out_in_insertion_order() {
    let tree = root(vec![
        node(Kind::FootnoteDefinition { identifier: "b".to_string() }, vec![paragraph(vec![
            text("second "),
            node(Kind::Strong, vec![text("bold")]),
        ])]),
        node(Kind::FootnoteDefinition { identifier: "a".to_string() }, vec![paragraph(vec![text("first")])]),
    ]);
    let mut ctx = RenderContext::new(plain_config());
    process_footnotes(&tree, &mut ctx.footnotes);
    assert_eq!(ctx.footnotes.get("b"), Some("second bold".to_string()));
    assert_eq!(ctx.footnotes.get("a"), Some("first".to_string()));
    let mut out = Output::new();
    see::render::render_footnotes(&mut ctx, &mut out);
    assert_eq!(out.plain_text(), "\nFootnotes:\nb: second bold\na: first\n");
    assert!(ctx.footnotes.entries.is_empty());
}

#[test]
fn image_with_remote_address_issues_one_request_and_no_text() {
    let tree = node(
        Kind::Image { url: "https://example.com/missing.png".to_string(), alt: "alt".to_string() },
        vec![],
    );
    let (out, _) = render(&tree, plain_config());
    assert_eq!(
        out.ops,
        vec![RenderOp::Image {
            source: ImageSource::Remote("https://example.com/missing.png".to_string()),
            max_width: Some(100),
            max_height: Some(13),
        }]
    );
    assert_eq!(out.plain_text(), "");
}

#[test]
fn image_with_images_switched_off_is_a_placeholder() {
    let tree = node(
        Kind::Image { url: "pic.png".to_string(), alt: "a cat".to_string() },
        vec![],
    );
    let mut config = plain_config();
    config.render_images = false;
    let (out, _) = render(&tree, config);
    assert_eq!(out.ops, vec![t("[Image: a cat]\n")]);
}

#[test]
fn image_with_local_path_and_inline_data() {
    let local = node(Kind::Image { url: "pics/cat.png".to_string(), alt: String::new() }, vec![]);
    let (out, _) = render(&local, plain_config());
    assert_eq!(
        out.ops,
        vec![RenderOp::Image {
            source: ImageSource::Local("pics/cat.png".to_string()),
            max_width: Some(100),
            max_height: Some(13),
        }]
    );
    let inline = node(
        Kind::Image { url: "data:image/png;base64,aGVsbG8=".to_string(), alt: String::new() },
        vec![],
    );
    let (out, _) = render(&inline, plain_config());
    assert_eq!(
        out.ops,
        vec![RenderOp::Image {
            source: ImageSource::Inline(b"hello".to_vec()),
            max_width: Some(100),
            max_height: Some(13),
        }]
    );
    let broken = node(
        Kind::Image { url: "data:image/png;base64,a,b".to_string(), alt: String::new() },
        vec![],
    );
    let (out, _) = render(&broken, plain_config());
    assert!(out.ops.is_empty());
    let invalid = node(
        Kind::Image { url: "data:image/png;base64,@@@".to_string(), alt: String::new() },
        vec![],
    );
    let (out, _) = render(&invalid, plain_config());
    assert!(out.ops.is_empty());
}

#[test]
fn heading_sets_indent_and_colour() {
    let tree = node(Kind::Heading { depth: 2 }, vec![text("Title:")]);
    let (out, ctx) = render(&tree, plain_config());
    assert_eq!(
        out.ops,
        vec![
            t("\n"),
            RenderOp::SetStyle(style(Some(Color::Green), true, false, false)),
            t("  "),
            t("Title:"),
            RenderOp::Reset,
            t("\n"),
        ]
    );
    assert_eq!(ctx.heading_level, 2);
    assert_eq!(ctx.indent_level, 2);
}

#[test]
fn heading_without_colours_and_deep_heading() {
    let mut config = plain_config();
    config.use_colors = false;
    let tree = node(Kind::Heading { depth: 1 }, vec![text("A")]);
    let (out, _) = render(&tree, config);
    assert_eq!(out.ops, vec![t("\n"), t(""), t("A"), t("\n")]);
    let deep = node(Kind::Heading { depth: 6 }, vec![]);
    let (out, ctx) = render(&deep, plain_config());
    assert_eq!(
        out.ops,
        vec![
            t("\n"),
            RenderOp::SetStyle(style(Some(Color::White), true, false, false)),
            t("          "),
            RenderOp::Reset,
            t("\n"),
        ]
    );
    assert_eq!(ctx.indent_level, 6);
}

#[test]
fn paragraph_after_heading_is_indented_by_heading_depth() {
    let tree = root(vec![
        node(Kind::Heading { depth: 3 }, vec![text("H")]),
        paragraph(vec![text("body")]),
    ]);
    let (out, _) = render(&tree, plain_config());
    assert_eq!(out.plain_text(), "\n    H\n      body\n");
}

#[test]
fn text_collapses_whitespace_and_replaces_shortcodes() {
    let tree = text("  hello \t\n world :rocket: :not_an_emoji_name: : :: ");
    let (out, _) = render(&tree, plain_config());
    assert_eq!(out.ops, vec![t("hello world \u{1f680} :not_an_emoji_name: : ::")]);
}

#[test]
fn ordered_list_numbers_items_and_restores_stacks() {
    let item = |s: &str| node(Kind::ListItem { checked: None }, vec![text(s)]);
    let tree = node(Kind::List { ordered: true }, vec![item("a"), item("b")]);
    let (out, ctx) = render(&tree, plain_config());
    let yellow = style(Some(Color::Yellow), false, false, false);
    assert_eq!(
        out.ops,
        vec![
            t(""),
            RenderOp::SetStyle(yellow),
            t(" 1. "),
            RenderOp::Reset,
            t("a"),
            t("\n"),
            t(""),
            RenderOp::SetStyle(yellow),
            t(" 2. "),
            RenderOp::Reset,
            t("b"),
            t("\n"),
        ]
    );
    assert_eq!(ctx.list_stack.len(), 0);
    assert_eq!(ctx.ordered_flags.len(), 0);
    assert_eq!(ctx.indent_level, 0);
}

#[test]
fn nested_unordered_list_with_tasks() {
    let inner = node(
        Kind::List { ordered: false },
        vec![
            node(Kind::ListItem { checked: Some(true) }, vec![text("done")]),
            node(Kind::ListItem { checked: Some(false) }, vec![text("open")]),
        ],
    );
    let tree = node(
        Kind::List { ordered: true },
        vec![node(Kind::ListItem { checked: None }, vec![text("outer"), inner])],
    );
    let (out, ctx) = render(&tree, plain_config());
    assert_eq!(
        out.plain_text(),
        " 1. outer  \u{2022} \u{f046}  done\n  \u{2022} \u{f096}  open\n\n"
    );
    assert_eq!(ctx.list_stack.len(), ctx.ordered_flags.len());
    assert_eq!(ctx.list_stack.len(), 0);
}

#[test]
fn list_item_outside_any_list_gets_a_bullet() {
    let tree = node(Kind::ListItem { checked: None }, vec![text("lonely")]);
    let (out, ctx) = render(&tree, plain_config());
    assert_eq!(
        out.ops,
        vec![
            t(""),
            RenderOp::SetStyle(style(Some(Color::Cyan), false, false, false)),
            t("\u{2022} "),
            RenderOp::Reset,
            t("lonely"),
            t("\n"),
        ]
    );
    assert_eq!(ctx.indent_level, 0);
}

#[test]
fn tenth_item_is_not_padded() {
    let mut items = Vec::new();
    for _ in 0..10 {
        items.push(node(Kind::ListItem { checked: None }, vec![]));
    }
    let tree = node(Kind::List { ordered: true }, items);
    let (out, _) = render(&tree, plain_config());
    assert!(out.ops.contains(&t(" 9. ")));
    assert!(out.ops.contains(&t("10. ")));
}

#[test]
fn paragraph_inside_list_is_not_indented() {
    let tree = node(
        Kind::List { ordered: false },
        vec![node(Kind::ListItem { checked: None }, vec![paragraph(vec![text("p")])])],
    );
    let mut ctx = RenderContext::new(plain_config());
    ctx.indent_level = 1;
    let mut out = Output::new();
    render_node(&tree, &mut ctx, &mut out);
    assert_eq!(out.plain_text(), "  \u{2022} p\n\n");
    assert_eq!(ctx.indent_level, 1);
}

#[test]
fn link_rendering_modes() {
    let tree = node(
        Kind::Link { url: "https://a.b".to_string(), title: None },
        vec![text("here")],
    );
    let (out, _) = render(&tree, plain_config());
    assert_eq!(out.ops, vec![t("here")]);
    let mut config = plain_config();
    config.render_links = false;
    let (out, _) = render(&tree, config);
    assert_eq!(out.plain_text(), " \u{1b}]8;;https://a.b\u{1b}\\here\u{1b}]8;;\u{1b}\\ ");
}

#[test]
fn emphasis_strong_inline_code_and_delete() {
    let tree = paragraph(vec![
        node(Kind::Emphasis, vec![text("e")]),
        node(Kind::Strong, vec![text("s")]),
        node(Kind::InlineCode { value: "x = 1".to_string() }, vec![]),
        node(Kind::Delete, vec![text("ab"), node(Kind::Strong, vec![text("c")])]),
    ]);
    let (out, _) = render(&tree, plain_config());
    assert_eq!(
        out.ops,
        vec![
            t(""),
            RenderOp::SetStyle(style(None, false, true, false)),
            t("e"),
            RenderOp::Reset,
            RenderOp::SetStyle(style(None, true, false, false)),
            t("s"),
            RenderOp::Reset,
            RenderOp::SetStyle(style(Some(Color::Yellow), true, false, false)),
            t(" x = 1 "),
            RenderOp::Reset,
            t("a\u{336}b\u{336}"),
            RenderOp::SetStyle(style(None, true, false, false)),
            t("c"),
            RenderOp::Reset,
            t("\n"),
        ]
    );
}

#[test]
fn code_block_lines_and_default_language() {
    let tree = node(
        Kind::Code { value: "let a = 1;\r\nlet b = 2;\n".to_string(), lang: Some("rust".to_string()) },
        vec![],
    );
    let mut ctx = RenderContext::new(plain_config());
    ctx.indent_level = 1;
    let mut out = Output::new();
    render_node(&tree, &mut ctx, &mut out);
    let code = |l: &str, lang: &str| RenderOp::Code { line: l.to_string(), language: lang.to_string() };
    assert_eq!(
        out.ops,
        vec![
            t("  "),
            code("let a = 1;", "rust"),
            RenderOp::Reset,
            t("\n"),
            t("  "),
            code("let b = 2;", "rust"),
            RenderOp::Reset,
            t("\n"),
            t("\n"),
        ]
    );
    let bare = node(Kind::Code { value: "x".to_string(), lang: None }, vec![]);
    let (out, _) = render(&bare, plain_config());
    assert_eq!(out.ops, vec![t(""), code("x", "txt"), RenderOp::Reset, t("\n"), t("\n")]);
}

#[test]
fn thematic_break_and_unknown_kinds_are_silent() {
    let tree = root(vec![
        node(Kind::ThematicBreak, vec![]),
        node(Kind::Other { name: "yaml".to_string(), value: Some("a: 1".to_string()) }, vec![]),
        node(Kind::TableRow, vec![]),
    ]);
    let (out, _) = render(&tree, plain_config());
    assert!(out.ops.is_empty());
    let mut config = plain_config();
    config.debug_mode = true;
    let (out, _) = render(&tree, config);
    assert_eq!(
        out.ops,
        vec![
            RenderOp::Diagnostic("Unsupported node type: yaml".to_string()),
            RenderOp::Diagnostic("Unsupported node type: tableRow".to_string()),
        ]
    );
    assert_eq!(out.plain_text(), "");
}

#[test]
fn image_reference_is_written_back() {
    let tree = node(
        Kind::ImageReference { identifier: "logo".to_string(), alt: "Logo".to_string() },
        vec![],
    );
    let (out, _) = render(&tree, plain_config());
    assert_eq!(
        out.ops,
        vec![
            RenderOp::SetStyle(style(Some(Color::Magenta), false, false, false)),
            t("![Logo][logo]"),
            RenderOp::Reset,
        ]
    );
}

#[test]
fn definition_during_walk_overwrites_table() {
    let tree = root(vec![
        node(
            Kind::Definition { identifier: "a".to_string(), url: "one".to_string(), title: None },
            vec![],
        ),
        node(
            Kind::Definition { identifier: "a".to_string(), url: "two".to_string(), title: None },
            vec![],
        ),
    ]);
    let (out, ctx) = render(&tree, plain_config());
    assert!(out.ops.is_empty());
    assert_eq!(
        see::utils::shared::get_link_definition(&ctx.links, "a"),
        Some(("two".to_string(), None))
    );
    assert_eq!(ctx.links.entries.len(), 1);
}

#[test]
fn html_is_skipped_expanded_or_shown_raw() {
    let raw = node(Kind::Html { value: "<b>x</b>".to_string() }, vec![]);
    let mut off = plain_config();
    off.convert_html = false;
    let (out, _) = render(&raw, off);
    assert!(out.ops.is_empty());
    let (out, _) = render(&raw, plain_config());
    assert_eq!(
        out.ops,
        vec![
            RenderOp::Diagnostic("HTML was not converted to Markdown".to_string()),
            t("<b>x</b>\n"),
        ]
    );
    let expanded = node(
        Kind::Html { value: "<b>x</b>".to_string() },
        vec![root(vec![paragraph(vec![node(Kind::Strong, vec![text("x")])])])],
    );
    let (out, _) = render(&expanded, plain_config());
    assert_eq!(out.plain_text(), "x\n");
}

#[test]
fn thematic_break_writes_nothing() {
    let mut out = Output::new();
    out.push(t("kept"));
    see::render::render_thematic_break(&mut out);
    assert_eq!(out.ops, vec![t("kept")]);
    assert_eq!(out.len(), 1);
    let leaf = AstNode::leaf(Kind::ThematicBreak);
    assert!(leaf.children.is_empty());
}

#[test]
fn stacks_stay_in_step_even_when_rendering_starts_inside_lists() {
    let item = node(Kind::ListItem { checked: None }, vec![text("x")]);
    let mut ctx = RenderContext::new(plain_config());
    ctx.list_stack.push(4);
    ctx.ordered_flags.push(true);
    let mut out = Output::new();
    render_node(&item, &mut ctx, &mut out);
    assert_eq!(ctx.list_stack, vec![5]);
    assert_eq!(ctx.ordered_flags, vec![true]);
    assert!(out.ops.contains(&t(" 5. ")));
    let list = node(Kind::List { ordered: false }, vec![node(Kind::ListItem { checked: None }, vec![])]);
    render_node(&list, &mut ctx, &mut out);
    assert_eq!(ctx.list_stack, vec![5]);
    assert_eq!(ctx.ordered_flags, vec![true]);
}

#[test]
fn heading_inside_list_item_leaves_indent_one_below_its_depth() {
    let tree = node(
        Kind::ListItem { checked: None },
        vec![node(Kind::Heading { depth: 3 }, vec![text("h")])],
    );
    let (_, ctx) = render(&tree, plain_config());
    assert_eq!(ctx.indent_level, 2);
    assert_eq!(ctx.heading_level, 3);
    let zero = node(
        Kind::Blockquote,
        vec![node(Kind::Blockquote, vec![node(Kind::Heading { depth: 0 }, vec![])])],
    );
    let (_, ctx) = render(&zero, plain_config());
    assert_eq!(ctx.indent_level, 0);
}
