use see::admonition::{parse_admonition, render_admonition, AdmonitionType};
use see::emoji::{choose_shown, parse_emoji, shortcode};
use see::node::{AstNode, Kind};
use see::output::{Color, ImageSource, Output, RenderOp, Style};
use see::render::{get_heading_indent, get_indent, heading_color_of, render_code_file, render_image_file, show_text};
use see::text::{
    char_is_whitespace, chars_of, find_char, indent_chars, push_decimal, push_fill, push_joined,
    push_padded_left, push_padded_right, split_lines, split_whitespace, starts_with, str_is,
    strike, trim_chars,
};
use see::utils::highlighter::{color_from_hex, highlight_code, HighlightStep, TerminalFormatter};
use see::utils::html::{attach_expansion, html_expansion_source, html_to_markdown};
use see::utils::images::{
    classify_path, file_source, image_file_name, inline_source, payload_of, resolve_image,
};
use see::utils::theme::{create_theme, plain_style, Theme};

fn cs(s: &str) -> Vec<char> {
    s.chars().collect()
}

fn st(v: &[Vec<char>]) -> Vec<String> {
    v.iter().map(|w| w.iter().collect()).collect()
}

#[test]
fn whitespace_is_unicode_white_space() {
    for c in (0u32..0x3100).filter_map(char::from_u32) {
        assert_eq!(char_is_whitespace(c), c.is_whitespace(), "{:?}", c);
    }
}

#[test]
fn split_whitespace_matches_std() {
    for s in ["", "   ", "a", " a  b\tc\n", "\u{a0}x\u{2003}y\u{3000}", "one two", "tab\tsep "] {
        let expected: Vec<String> = s.split_whitespace().map(|w| w.to_string()).collect();
        assert_eq!(st(&split_whitespace(&cs(s))), expected, "{:?}", s);
    }
}

#[test]
fn split_lines_matches_std() {
    for s in ["", "\n", "a", "a\n", "a\nb", "a\r\nb\r\n", "a\rb", "a\r", "\r\n", "\n\n", "x\n\ny", "a\r\r\n"] {
        let expected: Vec<String> = s.lines().map(|w| w.to_string()).collect();
        assert_eq!(st(&split_lines(&cs(s))), expected, "{:?}", s);
    }
}

#[test]
fn trim_matches_std() {
    for s in ["", "  ", " a ", "a", "\t a b \n", "\u{2003}x\u{a0}", " x"] {
        let trimmed: String = trim_chars(&cs(s)).iter().collect();
        assert_eq!(trimmed, s.trim(), "{:?}", s);
    }
}

#[test]
fn decimal_and_padding() {
    for n in [0usize, 1, 9, 10, 11, 99, 100, 12345, usize::MAX] {
        let mut v = Vec::new();
        push_decimal(&mut v, n);
        assert_eq!(v.iter().collect::<String>(), n.to_string());
        let mut p = cs(">");
        push_padded_left(&mut p, &v, 4);
        assert_eq!(p.iter().collect::<String>(), format!(">{:>4}", n));
        let mut q = Vec::new();
        push_padded_right(&mut q, &v, 4);
        assert_eq!(q.iter().collect::<String>(), format!("{:<4}", n));
    }
    let mut f = cs("x");
    push_fill(&mut f, '-', 3);
    assert_eq!(f, cs("x---"));
    assert_eq!(indent_chars(0), cs(""));
    assert_eq!(indent_chars(3), cs("      "));
}

#[test]
fn joining_finding_and_prefixes() {
    let mut v = cs("[");
    push_joined(&mut v, &vec![cs("a"), cs(""), cs("bc")], ", ");
    assert_eq!(v, cs("[a, , bc"));
    let mut e = Vec::new();
    push_joined(&mut e, &vec![], ",");
    assert!(e.is_empty());
    assert_eq!(find_char(&cs("a,b,c"), ',', 0), Some(1));
    assert_eq!(find_char(&cs("a,b,c"), ',', 2), Some(3));
    assert_eq!(find_char(&cs("a,b,c"), ',', 4), None);
    assert_eq!(find_char(&cs("abc"), ',', 3), None);
    assert!(starts_with(&cs("data:image/png"), &cs("data:image")));
    assert!(!starts_with(&cs("data"), &cs("data:image")));
    assert!(starts_with(&cs("x"), &cs("")));
    assert!(str_is("abc", "abc"));
    assert!(!str_is("abc", "abd"));
    assert_eq!(chars_of("h\u{e9}"), vec!['h', '\u{e9}']);
    assert_eq!(strike(&cs("ab")), cs("a\u{336}b\u{336}"));
    assert_eq!(strike(&cs("")), cs(""));
}

#[test]
fn shortcodes_and_emoji() {
    assert_eq!(shortcode(&cs(":rocket:")), Some(cs("rocket")));
    assert_eq!(shortcode(&cs("::")), Some(cs("")));
    assert_eq!(shortcode(&cs(":")), None);
    assert_eq!(shortcode(&cs(":rocket")), None);
    assert_eq!(shortcode(&cs("rocket:")), None);
    assert_eq!(parse_emoji(&cs(":rocket:")), Some("\u{1f680}".to_string()));
    assert_eq!(parse_emoji(&cs(":+1:")), Some("\u{1f44d}".to_string()));
    assert_eq!(parse_emoji(&cs(":definitely_not_an_emoji:")), None);
    assert_eq!(parse_emoji(&cs("rocket")), None);
    assert_eq!(choose_shown(&cs(":x:"), Some("E".to_string())), cs("E"));
    assert_eq!(choose_shown(&cs(":x:"), None), cs(":x:"));
    assert_eq!(show_text(" a  :tada:  b ").iter().collect::<String>(), "a \u{1f389} b");
    assert_eq!(show_text("").iter().collect::<String>(), "");
}

#[test]
fn admonition_kinds() {
    assert_eq!(AdmonitionType::from_str("note"), Some(AdmonitionType::Note));
    assert_eq!(AdmonitionType::from_str("Tip"), Some(AdmonitionType::Tip));
    assert_eq!(AdmonitionType::from_str("IMPORTANT"), Some(AdmonitionType::Important));
    assert_eq!(AdmonitionType::from_str("wArNiNg"), Some(AdmonitionType::Warning));
    assert_eq!(AdmonitionType::from_str("caution"), Some(AdmonitionType::Caution));
    assert_eq!(AdmonitionType::from_str("danger"), None);
    assert_eq!(AdmonitionType::from_str(""), None);
    assert_eq!(AdmonitionType::from_uppercase("NOTE"), Some(AdmonitionType::Note));
    assert_eq!(AdmonitionType::from_uppercase("note"), None);
    assert_eq!(AdmonitionType::Note.color(), Color::Cyan);
    assert_eq!(AdmonitionType::Tip.color(), Color::Green);
    assert_eq!(AdmonitionType::Important.color(), Color::Magenta);
    assert_eq!(AdmonitionType::Warning.color(), Color::Yellow);
    assert_eq!(AdmonitionType::Caution.color(), Color::Red);
    assert_eq!(AdmonitionType::Note.icon(), "\u{ea74} ");
    assert_eq!(AdmonitionType::Tip.icon(), "\u{f400} ");
    assert_eq!(AdmonitionType::Important.icon(), "\u{f46e} ");
    assert_eq!(AdmonitionType::Warning.icon(), "\u{f071} ");
    assert_eq!(AdmonitionType::Caution.icon(), "\u{ea87} ");
    assert_eq!(AdmonitionType::Caution.name(), "Caution");
}

#[test]
fn admonition_parsing_edge_cases() {
    let quote = |children: Vec<AstNode>| {
        AstNode::new(Kind::Blockquote, vec![AstNode::new(Kind::Paragraph, children)])
    };
    assert_eq!(
        parse_admonition(&quote(vec![AstNode::text("[!TIP]")])),
        Some((AdmonitionType::Tip, String::new()))
    );
    assert_eq!(
        parse_admonition(&quote(vec![AstNode::text("[!caution]\n mind the gap ] ")])),
        Some((AdmonitionType::Caution, "mind the gap ]".to_string()))
    );
    assert_eq!(parse_admonition(&quote(vec![AstNode::text(" [!NOTE] x")])), None);
    assert_eq!(parse_admonition(&quote(vec![AstNode::text("[!NOTE x")])), None);
    assert_eq!(parse_admonition(&quote(vec![AstNode::text("[!] x")])), None);
    assert_eq!(parse_admonition(&quote(vec![AstNode::text("[NOTE] x")])), None);
    assert_eq!(parse_admonition(&quote(vec![])), None);
    assert_eq!(
        parse_admonition(&quote(vec![
            AstNode::new(Kind::Strong, vec![AstNode::text("[!NOTE] x")])
        ])),
        None
    );
    assert_eq!(parse_admonition(&AstNode::new(Kind::Blockquote, vec![])), None);
    assert_eq!(
        parse_admonition(&AstNode::new(Kind::Blockquote, vec![AstNode::text("[!NOTE] x")])),
        None
    );
    assert_eq!(
        parse_admonition(&AstNode::new(
            Kind::Paragraph,
            vec![AstNode::new(Kind::Paragraph, vec![AstNode::text("[!NOTE] x")])]
        )),
        None
    );
    let mut out = Output::new();
    render_admonition(AdmonitionType::Tip, "do it", &mut out);
    assert_eq!(out.plain_text(), "\u{f400}  Tip: do it\n");
}

#[test]
fn image_sources() {
    assert_eq!(payload_of(&cs("data:image/png;base64,QUJD")), Some(cs("QUJD")));
    assert_eq!(payload_of(&cs("data:image/png;base64,")), Some(cs("")));
    assert_eq!(payload_of(&cs("no comma")), None);
    assert_eq!(payload_of(&cs("a,b,c")), None);
    assert_eq!(classify_path("x", true), ImageSource::Remote("x".to_string()));
    assert_eq!(classify_path("x", false), ImageSource::Local("x".to_string()));
    assert_eq!(file_source("http://h/p.png"), ImageSource::Remote("http://h/p.png".to_string()));
    assert_eq!(file_source("/tmp/p.png"), ImageSource::Local("/tmp/p.png".to_string()));
    assert_eq!(file_source("p.png"), ImageSource::Local("p.png".to_string()));
    assert_eq!(inline_source(Ok(vec![1, 2])), Some(ImageSource::Inline(vec![1, 2])));
    assert_eq!(inline_source(Err(base64::DecodeError::InvalidLength(1))), None);
    assert_eq!(
        resolve_image("data:image/gif;base64,QUJD"),
        Some(ImageSource::Inline(b"ABC".to_vec()))
    );
    assert_eq!(resolve_image("data:image/gif;base64,QUJ"), None);
    assert_eq!(resolve_image("data:image/gif"), None);
    assert_eq!(
        resolve_image("data:text/plain;base64,QUJD"),
        Some(ImageSource::Remote("data:text/plain;base64,QUJD".to_string()))
    );
    assert_eq!(
        image_file_name(&b"abc".to_vec()),
        "ba7816bf8f01cfea414140de5dae2223b00361a396177a9cb410ff61f20015ad.jpg"
    );
    assert_eq!(
        image_file_name(&vec![]),
        "e3b0c44298fc1c149afbf4c8996fb92427ae41e4649b934ca495991b7852b855.jpg"
    );
}

#[test]
fn image_file_rendering() {
    let mut config = see::config::AppConfig::default_config();
    let ctx = see::context::RenderContext::new(config);
    let mut out = Output::new();
    render_image_file("https://h/i.png", &ctx, &mut out);
    assert_eq!(
        out.ops,
        vec![RenderOp::Image {
            source: ImageSource::Remote("https://h/i.png".to_string()),
            max_width: Some(100),
            max_height: Some(13)
        }]
    );
    config.render_images = false;
    let ctx = see::context::RenderContext::new(config);
    let mut out = Output::new();
    render_image_file("i.png", &ctx, &mut out);
    assert_eq!(out.ops, vec![RenderOp::Text("[Image: i.png]\n".to_string())]);
}

#[test]
fn html_conversion() {
    assert_eq!(html_to_markdown("<h1>Hello</h1>"), Some("# Hello".to_string()));
    assert_eq!(html_to_markdown("<b>bold</b>"), Some("**bold**".to_string()));
    let config = see::config::AppConfig::default_config();
    let mut node = AstNode::leaf(Kind::Html { value: "<em>x</em>".to_string() });
    assert_eq!(html_expansion_source(&node, &config), Some("*x*".to_string()));
    let mut off = config;
    off.convert_html = false;
    assert_eq!(html_expansion_source(&node, &off), None);
    assert_eq!(html_expansion_source(&AstNode::text("<em>x</em>"), &config), None);
    attach_expansion(&mut node, AstNode::new(Kind::Root, vec![AstNode::text("x")]));
    assert_eq!(
        node,
        AstNode::new(
            Kind::Html { value: "<em>x</em>".to_string() },
            vec![AstNode::new(Kind::Root, vec![AstNode::text("x")])]
        )
    );
}

#[test]
fn hex_colours() {
    assert_eq!(color_from_hex("#D7BA7D"), Some((0xd7, 0xba, 0x7d)));
    assert_eq!(color_from_hex("#000000"), Some((0, 0, 0)));
    assert_eq!(color_from_hex("#ffffff"), Some((255, 255, 255)));
    assert_eq!(color_from_hex("#+a+B+0"), Some((10, 11, 0)));
    assert_eq!(color_from_hex("D7BA7D0"), None);
    assert_eq!(color_from_hex("#D7BA7"), None);
    assert_eq!(color_from_hex("#D7BA7D0"), None);
    assert_eq!(color_from_hex("#GG0000"), None);
    assert_eq!(color_from_hex("#-10000"), None);
    assert_eq!(color_from_hex("#a+0000"), None);
    assert_eq!(color_from_hex(""), None);
    assert_eq!(color_from_hex("#\u{e9}0000"), None);
    assert_eq!(color_from_hex("#12345\u{e9}"), None);
    for s in ["00", "ff", "+f", "0+", "fg", "7F", "++", "+", "a "] {
        let padded = format!("#{}0000", s);
        if padded.len() == 7 {
            let expected = u8::from_str_radix(s, 16).ok().map(|r| (r, 0, 0));
            assert_eq!(color_from_hex(&padded), expected, "{:?}", s);
        }
    }
}

#[test]
fn theme_lookup_and_highlighting() {
    let theme = create_theme();
    assert_eq!(theme.styles.len(), 88);
    assert_eq!(theme.default_style.primary_color, "#FFFFFF");
    assert_eq!(theme.default_style.secondary_color, "#1E1E1E");
    assert_eq!(theme.get_style("attribute").primary_color, "#D7BA7D");
    assert_eq!(theme.get_style("type.builtin").primary_color, "#569CD6");
    assert_eq!(theme.get_style("type.builtin.special").primary_color, "#569CD6");
    assert_eq!(theme.get_style("type.unheard.of").primary_color, "#4EC9B0");
    assert_eq!(theme.get_style("diff.delta.moved").primary_color, "#4EC9B0");
    assert_eq!(theme.get_style("nothing.like.it").primary_color, "#FFFFFF");
    assert_eq!(theme.get_style("").primary_color, "#FFFFFF");
    assert_eq!(theme.get_style(".").primary_color, "#FFFFFF");
    let mut small = Theme::new(plain_style("#010203"));
    small.add_style("a", plain_style("#111111"));
    small.add_style("a", plain_style("#222222"));
    assert_eq!(small.styles.len(), 1);
    assert_eq!(small.get_style("a.b").primary_color, "#222222");

    let formatter = TerminalFormatter::new(theme);
    assert_eq!(formatter.color_from_hex("#102030"), Color::Rgb(0x10, 0x20, 0x30));
    assert_eq!(formatter.color_from_hex("oops"), Color::Rgb(255, 255, 255));
    let mut out = Output::new();
    highlight_code(
        "let x",
        Some(vec![
            HighlightStep::Start("type.builtin".to_string()),
            HighlightStep::Source("let".to_string()),
            HighlightStep::End,
            HighlightStep::Source(" x".to_string()),
        ]),
        &formatter,
        &mut out,
    );
    assert_eq!(
        out.ops,
        vec![
            RenderOp::SetStyle(Style {
                fg: Some(Color::Rgb(0x56, 0x9c, 0xd6)),
                bg: None,
                bold: false,
                italic: false,
                underline: false
            }),
            RenderOp::Text("let".to_string()),
            RenderOp::Reset,
            RenderOp::Text(" x".to_string()),
        ]
    );
    let mut out = Output::new();
    highlight_code("let x", None, &formatter, &mut out);
    assert_eq!(out.ops, vec![RenderOp::Text("let x\n".to_string())]);
}

#[test]
fn heading_helpers_and_indent() {
    assert_eq!(get_heading_indent(0), "");
    assert_eq!(get_heading_indent(1), "");
    assert_eq!(get_heading_indent(3), "    ");
    assert_eq!(heading_color_of(1), Color::Cyan);
    assert_eq!(heading_color_of(2), Color::Green);
    assert_eq!(heading_color_of(3), Color::Yellow);
    assert_eq!(heading_color_of(4), Color::Blue);
    assert_eq!(heading_color_of(5), Color::Magenta);
    assert_eq!(heading_color_of(6), Color::White);
    assert_eq!(heading_color_of(0), Color::White);
    let mut ctx = see::context::RenderContext::new(see::config::AppConfig::default_config());
    assert_eq!(get_indent(&ctx), "");
    ctx.indent_level = 2;
    assert_eq!(get_indent(&ctx), "    ");
}

#[test]
fn code_file_with_and_without_line_numbers() {
    let config = see::config::AppConfig::default_config();
    let ctx = see::context::RenderContext::new(config);
    let mut out = Output::new();
    let content: String = (1..=10).map(|i| format!("l{}\n", i)).collect();
    render_code_file(&content, "rust", &ctx, &mut out);
    assert_eq!(out.ops.len(), 50);
    assert_eq!(out.ops[1], RenderOp::Text(" 1 \u{2502} ".to_string()));
    assert_eq!(out.ops[3], RenderOp::Code { line: "l1".to_string(), language: "rust".to_string() });
    assert_eq!(out.ops[4], RenderOp::Text("\n".to_string()));
    assert_eq!(out.ops[46], RenderOp::Text("10 \u{2502} ".to_string()));
    let mut plain = config;
    plain.use_colors = false;
    let ctx = see::context::RenderContext::new(plain);
    let mut out = Output::new();
    render_code_file("a\nb", "rust", &ctx, &mut out);
    assert_eq!(
        out.ops,
        vec![
            RenderOp::Code { line: "a".to_string(), language: "txt".to_string() },
            RenderOp::Text("\n".to_string()),
            RenderOp::Code { line: "b".to_string(), language: "txt".to_string() },
            RenderOp::Text("\n".to_string()),
        ]
    );
    let mut unnumbered = config;
    unnumbered.show_line_numbers = false;
    let ctx = see::context::RenderContext::new(unnumbered);
    let mut out = Output::new();
    render_code_file("", "rust", &ctx, &mut out);
    assert!(out.ops.is_empty());
}
