use see::config::AppConfig;
use see::context::RenderContext;
use see::node::{AstNode, Kind};
use see::output::{Color, Output, RenderOp, Style};
use see::table::{column_widths_of, print_horizontal_border, render_table};
use see::utils::shared::{
    get_link_definition, set_footnote, set_link_definition, FootnoteTable, LinkTable,
};

fn cell(children: Vec<AstNode>) -> AstNode {
    AstNode::new(Kind::TableCell, children)
}

fn row(cells: Vec<AstNode>) -> AstNode {
    AstNode::new(Kind::TableRow, cells)
}

fn table(rows: Vec<AstNode>) -> AstNode {
    AstNode::new(Kind::Table, rows)
}

fn text_cell(s: &str) -> AstNode {
    cell(vec![AstNode::text(s)])
}

fn t(s: &str) -> RenderOp {
    RenderOp::Text(s.to_string())
}

fn fg(color: Color, bold: bool) -> RenderOp {
    RenderOp::SetStyle(Style { fg: Some(color), bg: None, bold, italic: false, underline: false })
}

#[test]
fn column_widths_are_maximum_first_text_lengths() {
    let tree = table(vec![
        row(vec![text_cell("a"), text_cell("bb")]),
        row(vec![text_cell("ccc"), text_cell("d")]),
    ]);
    assert_eq!(column_widths_of(&tree), vec![3, 2]);
}

#[test]
fn column_widths_measure_only_the_first_child_and_ragged_rows() {
    let tree = table(vec![
        row(vec![cell(vec![AstNode::text("ab"), AstNode::text("long tail")])]),
        row(vec![
            cell(vec![AstNode::new(Kind::Strong, vec![AstNode::text("hidden")])]),
            cell(vec![]),
            cell(vec![AstNode::leaf(Kind::Other {
                name: "inlineMath".to_string(),
                value: Some("xyz".to_string()),
            })]),
        ]),
        row(vec![]),
    ]);
    assert_eq!(column_widths_of(&tree), vec![2, 0, 3]);
    assert_eq!(column_widths_of(&table(vec![])), Vec::<usize>::new());
}

#[test]
fn column_width_counts_utf8_bytes() {
    let tree = table(vec![row(vec![text_cell("\u{e9}")])]);
    assert_eq!(column_widths_of(&tree), vec![2]);
}

#[test]
fn table_without_borders() {
    let tree = table(vec![
        row(vec![text_cell("a"), text_cell("bb")]),
        row(vec![text_cell("ccc"), text_cell("d")]),
    ]);
    let ctx = RenderContext::new(AppConfig::default_config());
    let mut out = Output::new();
    render_table(&tree, &ctx, &mut out);
    assert_eq!(
        out.ops,
        vec![
            t(""),
            fg(Color::Red, true),
            t("a  "),
            RenderOp::Reset,
            t("  "),
            fg(Color::Red, true),
            t("bb"),
            RenderOp::Reset,
            t("\n"),
            t(""),
            fg(Color::Cyan, false),
            t("ccc"),
            RenderOp::Reset,
            t("  "),
            fg(Color::White, false),
            t("d "),
            RenderOp::Reset,
            t("\n"),
        ]
    );
}

#[test]
fn table_with_borders() {
    let tree = table(vec![row(vec![text_cell("a"), text_cell("bb")]), row(vec![text_cell("c")])]);
    let mut config = AppConfig::default_config();
    config.render_table_borders = true;
    let mut ctx = RenderContext::new(config);
    ctx.indent_level = 1;
    let mut out = Output::new();
    render_table(&tree, &ctx, &mut out);
    assert_eq!(
        out.plain_text(),
        "  \u{250c}\u{2500}\u{2500}\u{2500}\u{252c}\u{2500}\u{2500}\u{2500}\u{2500}\u{2510}\n\
         \x20 \u{2502} a \u{2502} bb \u{2502}\n\
         \x20 \u{251c}\u{2500}\u{2500}\u{2500}\u{253c}\u{2500}\u{2500}\u{2500}\u{2500}\u{2524}\n\
         \x20 \u{2502} c \u{2502}\n\
         \x20 \u{251c}\u{2500}\u{2500}\u{2500}\u{253c}\u{2500}\u{2500}\u{2500}\u{2500}\u{2524}\n\
         \x20 \u{2514}\u{2500}\u{2500}\u{2500}\u{2534}\u{2500}\u{2500}\u{2500}\u{2500}\u{2518}\n"
    );
}

#[test]
fn horizontal_border_of_no_columns() {
    let mut out = Output::new();
    print_horizontal_border(&vec![], "<", "+", ">", 0, &mut out);
    assert_eq!(out.ops, vec![t(""), t("<"), t(">\n")]);
    let mut out = Output::new();
    print_horizontal_border(&vec![1, 0], "<", "+", ">", 2, &mut out);
    assert_eq!(
        out.ops,
        vec![
            t("    "),
            t("<"),
            t("\u{2500}\u{2500}\u{2500}"),
            t("+"),
            t("\u{2500}\u{2500}"),
            t(">\n"),
        ]
    );
}

#[test]
fn link_definition_round_trip() {
    let mut links = LinkTable::new();
    set_link_definition(
        &mut links,
        "ref".to_string(),
        "https://example.com".to_string(),
        Some("Title".to_string()),
    );
    assert_eq!(
        get_link_definition(&links, "ref"),
        Some(("https://example.com".to_string(), Some("Title".to_string())))
    );
    assert_eq!(get_link_definition(&links, "missing"), None);
    assert_eq!(get_link_definition(&links, "REF"), None);
}

#[test]
fn storing_twice_overwrites_in_place() {
    let mut links = LinkTable::new();
    set_link_definition(&mut links, "a".to_string(), "1".to_string(), None);
    set_link_definition(&mut links, "b".to_string(), "2".to_string(), None);
    set_link_definition(&mut links, "a".to_string(), "3".to_string(), Some("t".to_string()));
    assert_eq!(links.entries.len(), 2);
    assert_eq!(links.entries[0].identifier, "a");
    assert_eq!(links.entries[0].url, "3");
    assert_eq!(get_link_definition(&links, "a"), Some(("3".to_string(), Some("t".to_string()))));
    assert_eq!(get_link_definition(&links, "b"), Some(("2".to_string(), None)));
}

#[test]
fn footnote_table_stores_gets_and_clears() {
    let mut notes = FootnoteTable::new();
    set_footnote(&mut notes, "1".to_string(), "one".to_string());
    set_footnote(&mut notes, "2".to_string(), "two".to_string());
    set_footnote(&mut notes, "1".to_string(), "uno".to_string());
    assert_eq!(notes.get("1"), Some("uno".to_string()));
    assert_eq!(notes.get("2"), Some("two".to_string()));
    assert_eq!(notes.get("3"), None);
    assert_eq!(notes.entries.len(), 2);
    notes.clear();
    assert_eq!(notes.get("1"), None);
    assert!(notes.entries.is_empty());
}
