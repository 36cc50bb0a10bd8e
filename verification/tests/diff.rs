use see::output::{Color, Output, RenderOp, Style};
use see::utils::git::{
    parse_range_start, print_styled_diff, render_diff_block, render_diff_line, show_git_diff,
    split_header, GitError,
};

fn cs(s: &str) -> Vec<char> {
    s.chars().collect()
}

fn t(s: &str) -> RenderOp {
    RenderOp::Text(s.to_string())
}

fn code(s: &str) -> RenderOp {
    RenderOp::Code { line: s.to_string(), language: "rust".to_string() }
}

fn number_style(added: bool) -> RenderOp {
    RenderOp::SetStyle(Style {
        fg: Some(Color::Rgb(128, 128, 128)),
        bg: Some(if added { Color::Rgb(0, 50, 0) } else { Color::Rgb(50, 0, 0) }),
        bold: false,
        italic: false,
        underline: false,
    })
}

fn content_style(added: bool) -> RenderOp {
    RenderOp::SetStyle(Style {
        fg: None,
        bg: Some(if added { Color::Rgb(0, 50, 0) } else { Color::Rgb(50, 0, 0) }),
        bold: false,
        italic: false,
        underline: false,
    })
}

fn separator() -> Vec<RenderOp> {
    vec![
        RenderOp::SetStyle(Style {
            fg: Some(Color::Rgb(128, 128, 128)),
            bg: None,
            bold: false,
            italic: false,
            underline: false,
        }),
        t(" \u{2502} "),
        RenderOp::Reset,
    ]
}

#[test]
fn hunk_header_ranges() {
    assert_eq!(split_header(&cs("@@ -12,5 +14,6 @@ fn main()")), Some((cs("-12,5"), cs("+14,6"))));
    assert_eq!(split_header(&cs("@@ -1 +1")), Some((cs("-1"), cs("+1"))));
    assert_eq!(split_header(&cs("@@ -1")), None);
    assert_eq!(split_header(&cs("@@")), None);
    assert_eq!(split_header(&cs("@@  x")), Some((cs(""), cs("x"))));
    assert_eq!(parse_range_start(&cs("-12,5")), 12);
    assert_eq!(parse_range_start(&cs("+14")), 14);
    assert_eq!(parse_range_start(&cs("+0,0")), 0);
    assert_eq!(parse_range_start(&cs("-x,5")), 1);
    assert_eq!(parse_range_start(&cs("-")), 1);
    assert_eq!(parse_range_start(&cs("")), 1);
    assert_eq!(parse_range_start(&cs("-,5")), 1);
    assert_eq!(parse_range_start(&cs("-99999999999999999999999999")), 1);
    assert_eq!(parse_range_start(&cs("12")), 2);
}

#[test]
fn diff_line_is_numbered_clipped_and_filled() {
    let mut out = Output::new();
    render_diff_line(7, &cs("ab"), true, "rust", &mut out);
    assert_eq!(
        out.ops,
        vec![
            number_style(true),
            t("   7 "),
            RenderOp::Reset,
            content_style(true),
            code("ab"),
            t(&" ".repeat(51)),
            RenderOp::Reset,
        ]
    );
    let long: String = "x".repeat(60);
    let mut out = Output::new();
    render_diff_line(12345, &cs(&long), false, "rust", &mut out);
    assert_eq!(
        out.ops,
        vec![
            number_style(false),
            t("12345 "),
            RenderOp::Reset,
            content_style(false),
            code(&format!("{}\u{2026}", "x".repeat(53))),
            RenderOp::Reset,
        ]
    );
    let exact: String = "y".repeat(53);
    let mut out = Output::new();
    render_diff_line(1, &cs(&exact), false, "rust", &mut out);
    assert_eq!(out.ops[4], code(&exact));
    assert_eq!(out.ops.len(), 6);
    let mut out = Output::new();
    render_diff_line(1, &cs("\ta"), false, "rust", &mut out);
    assert_eq!(out.ops[4], code("\ta"));
    assert_eq!(out.ops[5], t(&" ".repeat(48)));
    let tabs: String = "\t".repeat(20);
    let mut out = Output::new();
    render_diff_line(1, &cs(&tabs), false, "rust", &mut out);
    assert_eq!(out.ops[4], code(&format!("{}\u{2026}", "\t".repeat(14))));
    assert_eq!(out.ops.len(), 6);
}

#[test]
fn diff_block_pairs_sides() {
    let block = vec![cs(" same"), cs("-gone"), cs("+new"), cs("+more")];
    let mut out = Output::new();
    render_diff_block(&block, "rust", 10, 20, &mut out);
    let mut expected = Vec::new();
    let mut line = |n: &str, c: &str, added: bool, fill: usize| {
        vec![
            number_style(added),
            t(&format!("{:>4} ", n)),
            RenderOp::Reset,
            content_style(added),
            code(c),
            t(&" ".repeat(fill)),
            RenderOp::Reset,
        ]
    };
    expected.extend(line("10", "same", false, 49));
    expected.extend(separator());
    expected.extend(line("20", "same", true, 49));
    expected.push(t("\n"));
    expected.extend(line("11", "gone", false, 49));
    expected.extend(separator());
    expected.extend(line("21", "new", true, 50));
    expected.push(t("\n"));
    expected.push(t(&" ".repeat(58)));
    expected.extend(separator());
    expected.extend(line("22", "more", true, 49));
    expected.push(t("\n"));
    assert_eq!(out.ops, expected);
    let mut out = Output::new();
    render_diff_block(&vec![], "rust", 1, 1, &mut out);
    assert!(out.ops.is_empty());
    let mut out = Output::new();
    render_diff_block(&vec![cs("-only")], "rust", 3, 4, &mut out);
    assert_eq!(out.ops.len(), 7 + 3 + 1);
}

#[test]
fn styled_diff_walks_headers_blocks_and_other_lines() {
    let diff = "diff --git a/f b/f\nindex 1..2\n@@ -3,2 +5,2 @@ ctx\n-a\n+b\nend of diff\n";
    let mut out = Output::new();
    print_styled_diff(diff, "rust", 1, &mut out);
    let text = out.plain_text();
    assert!(text.starts_with("  diff --git a/f b/f\n  index 1..2\n  @@ -3,2 +5,2 @@ ctx\n   3 "));
    assert!(text.ends_with("\n  end of diff\n"));
    let codes: Vec<&RenderOp> = out.ops.iter().filter(|op| matches!(op, RenderOp::Code { .. })).collect();
    assert_eq!(codes, vec![&code("a"), &code("b")]);
    assert!(out.ops.contains(&t("   5 ")));
    assert_eq!(
        out.ops[2],
        RenderOp::SetStyle(Style {
            fg: Some(Color::Cyan),
            bg: None,
            bold: true,
            italic: false,
            underline: false
        })
    );
}

#[test]
fn file_header_lines_join_the_first_block() {
    let diff = "--- a/f\n+++ b/f\n@@ -1 +1 @@\n-x\n+y";
    let mut out = Output::new();
    print_styled_diff(diff, "rust", 0, &mut out);
    let codes: Vec<&RenderOp> = out.ops.iter().filter(|op| matches!(op, RenderOp::Code { .. })).collect();
    assert_eq!(codes, vec![&code("-- a/f"), &code("++ b/f"), &code("x"), &code("y")]);
    let mut out = Output::new();
    print_styled_diff("+never shown", "rust", 0, &mut out);
    assert!(out.ops.is_empty());
    let mut out = Output::new();
    print_styled_diff("", "rust", 0, &mut out);
    assert!(out.ops.is_empty());
}

#[test]
fn header_without_ranges_keeps_line_numbers() {
    let diff = "@@ -7 +9 @@\n-a\n@@\n+b";
    let mut out = Output::new();
    print_styled_diff(diff, "rust", 0, &mut out);
    assert!(out.ops.contains(&t("   7 ")));
    assert!(out.ops.contains(&t("   9 ")));
    assert!(!out.ops.contains(&t("   1 ")));
}

#[test]
fn failed_git_run_is_an_error() {
    let mut out = Output::new();
    assert_eq!(
        show_git_diff(false, "@@ -1 +1 @@", "fatal: not a git repository", "rust", 0, &mut out),
        Err(GitError { message: "fatal: not a git repository".to_string() })
    );
    assert!(out.ops.is_empty());
    assert_eq!(show_git_diff(true, "plain", "", "rust", 0, &mut out), Ok(()));
    assert_eq!(out.ops, vec![t("plain\n")]);
}
