//! What rendering means: for a tree, the options and the state before, the
//! operations that are issued and the state after. The renderer is proved
//! against these definitions.
use vstd::prelude::*;

use crate::admonition::{admonition_of, admonition_ops, literals};
use crate::config::AppConfig;
use crate::context::{bump, drop_one, RenderState};
use crate::emoji::substitute;
use crate::node::{KindView, NodeView};
use crate::output::{Color, OpView, Style};
use crate::table::table_ops;
use crate::text::{decimal, indent, join, lines, pad_left, struck, words};
use crate::utils::images::image_source;
use crate::utils::shared::{lookup, store};

verus! {

/// The outcome of rendering: what was issued, and the state it left.
#[verifier::ext_equal]
pub struct Rendered {
    pub ops: Seq<OpView>,
    pub state: RenderState,
}

/// Nothing issued, the state as it was.
pub open spec fn nothing(state: RenderState) -> Rendered {
    Rendered { ops: Seq::empty(), state }
}

/// The colour of a heading of the given depth.
pub open spec fn heading_color(depth: u8) -> Color {
    if depth == 1 {
        Color::Cyan
    } else if depth == 2 {
        Color::Green
    } else if depth == 3 {
        Color::Yellow
    } else if depth == 4 {
        Color::Blue
    } else if depth == 5 {
        Color::Magenta
    } else {
        Color::White
    }
}

/// The indentation in front of a heading: one level less than its depth.
pub open spec fn heading_indent(depth: u8) -> Seq<char> {
    indent(
        if depth > 0 {
            (depth - 1) as nat
        } else {
            0
        },
    )
}

/// What is issued in front of the children of a heading.
pub open spec fn heading_prefix(depth: u8, config: AppConfig) -> Seq<OpView> {
    seq![OpView::Text("\n"@)] + (if config.use_colors {
        seq![OpView::SetStyle(Style::fg_bold(heading_color(depth)))]
    } else {
        Seq::empty()
    }) + seq![OpView::Text(heading_indent(depth))]
}

/// What is issued behind the children of a heading.
pub open spec fn heading_suffix(config: AppConfig) -> Seq<OpView> {
    (if config.use_colors {
        seq![OpView::Reset]
    } else {
        Seq::empty()
    }) + seq![OpView::Text("\n"@)]
}

/// What is written for a text: its words, each replaced by the emoji that it
/// names if it names one, with single spaces between them.
pub open spec fn shown_text(value: Seq<char>) -> Seq<char> {
    join(substitute(words(value)), " "@)
}

/// The language that a code block is highlighted for.
pub open spec fn language_of(lang: Option<Seq<char>>) -> Seq<char> {
    match lang {
        Some(name) => name,
        None => "txt"@,
    }
}

/// What is issued for one line of a code block.
pub open spec fn code_line_ops(line: Seq<char>, language: Seq<char>, indent_level: usize) -> Seq<
    OpView,
> {
    seq![
        OpView::Text(indent(indent_level as nat)),
        OpView::Code { line, language },
        OpView::Reset,
        OpView::Text("\n"@),
    ]
}

/// What is issued for the first `k` lines of a code block.
pub open spec fn code_lines_ops(
    all: Seq<Seq<char>>,
    k: nat,
    language: Seq<char>,
    indent_level: usize,
) -> Seq<OpView>
    decreases k,
{
    if k == 0 {
        Seq::empty()
    } else {
        code_lines_ops(all, (k - 1) as nat, language, indent_level) + code_line_ops(
            all[k - 1],
            language,
            indent_level,
        )
    }
}

/// What is issued for a code block: its lines, then an empty line.
pub open spec fn code_ops(value: Seq<char>, lang: Option<Seq<char>>, indent_level: usize) -> Seq<
    OpView,
> {
    code_lines_ops(lines(value), lines(value).len(), language_of(lang), indent_level) + seq![
        OpView::Text("\n"@),
    ]
}

/// The state after the counter of the innermost open list has gone up by
/// one.
pub open spec fn count_item(state: RenderState) -> RenderState {
    if state.list_stack.len() > 0 {
        RenderState {
            list_stack: state.list_stack.update(
                state.list_stack.len() - 1,
                bump(state.list_stack.last()),
            ),
            ..state
        }
    } else {
        state
    }
}

/// What marks a list item, in the state after it was counted: its number in
/// an ordered list, else a bullet.
pub open spec fn item_marker(state: RenderState) -> Seq<OpView> {
    if state.list_stack.len() > 0 && state.ordered_flags.len() > 0 && state.ordered_flags.last() {
        seq![
            OpView::SetStyle(Style::fg(Color::Yellow)),
            OpView::Text(pad_left(decimal(state.list_stack.last() as nat), 2) + ". "@),
        ]
    } else {
        seq![OpView::SetStyle(Style::fg(Color::Cyan)), OpView::Text("\u{2022} "@)]
    }
}

/// What shows whether a task is done.
pub open spec fn checkbox_ops(checked: Option<bool>) -> Seq<OpView> {
    match checked {
        Some(true) => seq![
            OpView::SetStyle(Style::fg(Color::Green)),
            OpView::Text("\u{f046}  "@),
            OpView::Reset,
        ],
        Some(false) => seq![
            OpView::SetStyle(Style::fg(Color::Red)),
            OpView::Text("\u{f096}  "@),
            OpView::Reset,
        ],
        None => Seq::empty(),
    }
}

/// What is issued in front of the children of a list item.
pub open spec fn item_prefix(checked: Option<bool>, state: RenderState) -> Seq<OpView> {
    seq![OpView::Text(indent(state.indent_level as nat))] + item_marker(count_item(state)) + seq![
        OpView::Reset,
    ] + checkbox_ops(checked)
}

/// `state` one level of indentation deeper.
pub open spec fn indented(state: RenderState) -> RenderState {
    RenderState { indent_level: bump(state.indent_level), ..state }
}

/// `state` one level of indentation less deep.
pub open spec fn outdented(state: RenderState) -> RenderState {
    RenderState { indent_level: drop_one(state.indent_level), ..state }
}

/// `state` with one more list open.
pub open spec fn list_opened(state: RenderState, ordered: bool) -> RenderState {
    RenderState {
        list_stack: state.list_stack.push(0),
        ordered_flags: state.ordered_flags.push(ordered),
        ..state
    }
}

/// `state` with the innermost list closed.
pub open spec fn list_closed(state: RenderState) -> RenderState {
    RenderState {
        list_stack: if state.list_stack.len() > 0 {
            state.list_stack.drop_last()
        } else {
            state.list_stack
        },
        ordered_flags: if state.ordered_flags.len() > 0 {
            state.ordered_flags.drop_last()
        } else {
            state.ordered_flags
        },
        ..state
    }
}

/// The escape sequence that opens a terminal hyperlink to `url`.
pub open spec fn hyperlink_open(url: Seq<char>) -> Seq<char> {
    "\u{1b}]8;;"@ + url + "\u{1b}\\"@
}

/// What is issued for a link to `url` whose children issue `inner`: the
/// children alone where the options say so, else the children inside a
/// terminal hyperlink, underlined, with a space on either side.
pub open spec fn link_ops(url: Seq<char>, config: AppConfig, inner: Seq<OpView>) -> Seq<OpView> {
    if config.render_links {
        inner
    } else {
        seq![
            OpView::Text(" "@),
            OpView::Text(hyperlink_open(url)),
            OpView::SetStyle(Style::fg_underline(Color::Blue)),
        ] + inner + seq![
            OpView::Reset,
            OpView::Text("\u{1b}]8;;\u{1b}\\"@),
            OpView::Text(" "@),
        ]
    }
}

/// What is issued for the image at `path` once it is known to be shown.
pub open spec fn image_file_ops(path: Seq<char>, config: AppConfig) -> Seq<OpView> {
    if !config.render_images {
        seq![OpView::Text("[Image: "@ + path + "]\n"@)]
    } else {
        seq![
            OpView::Image {
                source: crate::utils::images::file_source_of(
                    path,
                    crate::utils::images::parses_as_url(path),
                ),
                max_width: config.max_image_width,
                max_height: config.max_image_height,
            },
        ]
    }
}

/// What is issued for an image: a placeholder with its description where
/// images are switched off, else the request to draw it, and nothing where
/// its address yields no source.
pub open spec fn image_ops(url: Seq<char>, alt: Seq<char>, config: AppConfig) -> Seq<OpView> {
    if !config.render_images {
        seq![OpView::Text("[Image: "@ + alt + "]\n"@)]
    } else {
        match image_source(url) {
            Some(source) => seq![
                OpView::Image {
                    source,
                    max_width: config.max_image_width,
                    max_height: config.max_image_height,
                },
            ],
            None => Seq::empty(),
        }
    }
}

/// What is issued for inline code.
pub open spec fn inline_code_ops(value: Seq<char>) -> Seq<OpView> {
    seq![
        OpView::SetStyle(Style::fg_bold(Color::Yellow)),
        OpView::Text(" "@ + value + " "@),
        OpView::Reset,
    ]
}

/// What is issued where a footnote is referred to.
pub open spec fn footnote_reference_ops(identifier: Seq<char>) -> Seq<OpView> {
    seq![
        OpView::SetStyle(Style::fg_italic(Color::White)),
        OpView::Text(" [^"@ + identifier + "]"@),
        OpView::Reset,
    ]
}

/// What is issued for a reference to an image.
pub open spec fn image_reference_ops(identifier: Seq<char>, alt: Seq<char>) -> Seq<OpView> {
    seq![
        OpView::SetStyle(Style::fg(Color::Magenta)),
        OpView::Text("!["@ + alt + "]["@ + identifier + "]"@),
        OpView::Reset,
    ]
}

/// The name that a kind without a rendering rule goes by.
pub open spec fn unsupported_name(kind: KindView) -> Seq<char> {
    match kind {
        KindView::TableRow => "tableRow"@,
        KindView::TableCell => "tableCell"@,
        KindView::FootnoteDefinition { .. } => "footnoteDefinition"@,
        KindView::Other { name, .. } => name,
        _ => Seq::empty(),
    }
}

/// What is issued for a node of a kind without a rendering rule: a report in
/// debug mode, else nothing.
pub open spec fn unsupported_ops(kind: KindView, config: AppConfig) -> Seq<OpView> {
    if config.debug_mode {
        seq![OpView::Diagnostic("Unsupported node type: "@ + unsupported_name(kind))]
    } else {
        Seq::empty()
    }
}

/// What is issued for HTML that could not be turned into a tree: a report,
/// and the HTML as it stands.
pub open spec fn html_fallback_ops(value: Seq<char>) -> Seq<OpView> {
    seq![
        OpView::Diagnostic("HTML was not converted to Markdown"@),
        OpView::Text(value + "\n"@),
    ]
}

/// What is issued in front of the children of a block quote.
pub open spec fn quote_prefix(state: RenderState) -> Seq<OpView> {
    seq![
        OpView::SetStyle(Style::fg(Color::Magenta)),
        OpView::Text(indent(state.indent_level as nat) + "> "@),
    ]
}

/// Rendering the first `k` nodes of `nodes` one after the other, each in the
/// state that the one before it left.
pub open spec fn rendering_of_first(
    nodes: Seq<NodeView>,
    k: nat,
    config: AppConfig,
    state: RenderState,
) -> Rendered
    decreases nodes, k,
{
    if k == 0 || k > nodes.len() {
        nothing(state)
    } else {
        let before = rendering_of_first(nodes, (k - 1) as nat, config, state);
        let last = rendering(nodes[k - 1], config, before.state);
        Rendered { ops: before.ops + last.ops, state: last.state }
    }
}

/// Rendering the first `k` nodes of `nodes` struck through: a text has the
/// stroke laid over each character, any other node is rendered as it is.
pub open spec fn rendering_struck(
    nodes: Seq<NodeView>,
    k: nat,
    config: AppConfig,
    state: RenderState,
) -> Rendered
    decreases nodes, k,
{
    if k == 0 || k > nodes.len() {
        nothing(state)
    } else {
        let before = rendering_struck(nodes, (k - 1) as nat, config, state);
        let last = match nodes[k - 1].kind {
            KindView::Text { value } => Rendered {
                ops: seq![OpView::Text(struck(value))],
                state: before.state,
            },
            _ => rendering(nodes[k - 1], config, before.state),
        };
        Rendered { ops: before.ops + last.ops, state: last.state }
    }
}

/// Rendering all children of `node`.
pub open spec fn rendering_of_children(node: NodeView, config: AppConfig, state: RenderState) -> Rendered
    decreases node, 0nat,
{
    rendering_of_first(node.children, node.children.len(), config, state)
}

/// Rendering `node` in `state`: the operations issued for it and for
/// everything below it, and the state that this leaves.
pub open spec fn rendering(node: NodeView, config: AppConfig, state: RenderState) -> Rendered
    decreases node, 1nat,
{
    match node.kind {
        KindView::Root => rendering_of_children(node, config, state),
        KindView::Heading { depth } => {
            let inner = rendering_of_children(node, config, state);
            Rendered {
                ops: heading_prefix(depth, config) + inner.ops + heading_suffix(config),
                state: RenderState {
                    heading_level: depth as usize,
                    indent_level: depth as usize,
                    ..inner.state
                },
            }
        },
        KindView::Paragraph => {
            let inner = rendering_of_children(node, config, state);
            Rendered {
                ops: (if state.list_stack.len() == 0 {
                    seq![OpView::Text(indent(state.indent_level as nat))]
                } else {
                    Seq::empty()
                }) + inner.ops + seq![OpView::Text("\n"@)],
                state: inner.state,
            }
        },
        KindView::Text { value } => Rendered {
            ops: seq![OpView::Text(shown_text(value))],
            state,
        },
        KindView::Code { value, lang } => Rendered {
            ops: code_ops(value, lang, state.indent_level),
            state,
        },
        KindView::Table => Rendered { ops: table_ops(node, config, state.indent_level), state },
        KindView::List { ordered } => {
            let inner = rendering_of_children(node, config, list_opened(state, ordered));
            Rendered { ops: inner.ops, state: list_closed(inner.state) }
        },
        KindView::ListItem { checked } => {
            let inner = rendering_of_children(node, config, indented(count_item(state)));
            Rendered {
                ops: item_prefix(checked, state) + inner.ops + seq![OpView::Text("\n"@)],
                state: outdented(inner.state),
            }
        },
        KindView::Blockquote => {
            match admonition_of(node) {
                Some((kind, content)) => Rendered { ops: admonition_ops(kind, content), state },
                None => {
                    let inner = rendering_of_children(node, config, indented(state));
                    Rendered {
                        ops: quote_prefix(state) + inner.ops + seq![OpView::Reset],
                        state: outdented(inner.state),
                    }
                },
            }
        },
        KindView::ThematicBreak => nothing(state),
        KindView::Link { url, title } => {
            let inner = rendering_of_children(node, config, state);
            Rendered { ops: link_ops(url, config, inner.ops), state: inner.state }
        },
        KindView::Image { url, alt } => Rendered { ops: image_ops(url, alt, config), state },
        KindView::Emphasis => {
            let inner = rendering_of_children(node, config, state);
            Rendered {
                ops: seq![OpView::SetStyle(Style::italic())] + inner.ops + seq![OpView::Reset],
                state: inner.state,
            }
        },
        KindView::Strong => {
            let inner = rendering_of_children(node, config, state);
            Rendered {
                ops: seq![OpView::SetStyle(Style::bold())] + inner.ops + seq![OpView::Reset],
                state: inner.state,
            }
        },
        KindView::Delete => rendering_struck(node.children, node.children.len(), config, state),
        KindView::InlineCode { value } => Rendered { ops: inline_code_ops(value), state },
        KindView::FootnoteReference { identifier } => Rendered {
            ops: footnote_reference_ops(identifier),
            state: if node.children.len() > 0 {
                RenderState {
                    footnotes: store(
                        state.footnotes,
                        identifier,
                        join(literals(node.children, 0, node.children.len()), " "@),
                    ),
                    ..state
                }
            } else {
                state
            },
        },
        KindView::ImageReference { identifier, alt } => Rendered {
            ops: image_reference_ops(identifier, alt),
            state,
        },
        KindView::Definition { identifier, url, title } => Rendered {
            ops: Seq::empty(),
            state: RenderState { links: store(state.links, identifier, (url, title)), ..state },
        },
        KindView::LinkReference { identifier } => {
            let inner = rendering_of_children(node, config, state);
            match lookup(state.links, identifier) {
                Some((url, title)) => Rendered {
                    ops: link_ops(url, config, inner.ops),
                    state: inner.state,
                },
                None => inner,
            }
        },
        KindView::Html { value } => {
            if !config.convert_html {
                nothing(state)
            } else if node.children.len() > 0 {
                rendering_of_children(node, config, state)
            } else {
                Rendered { ops: html_fallback_ops(value), state }
            }
        },
        KindView::TableRow | KindView::TableCell | KindView::FootnoteDefinition { .. }
        | KindView::Other { .. } => Rendered { ops: unsupported_ops(node.kind, config), state },
    }
}

/// What is issued for one footnote at the end of a document.
pub open spec fn footnote_ops(entry: (Seq<char>, Seq<char>)) -> Seq<OpView> {
    seq![
        OpView::SetStyle(Style::fg_italic(Color::White)),
        OpView::Text(entry.0 + ": "@),
        OpView::Reset,
        OpView::Text(entry.1 + "\n"@),
    ]
}

/// What is issued for the first `k` footnotes.
pub open spec fn footnote_entries_ops(entries: Seq<(Seq<char>, Seq<char>)>, k: nat) -> Seq<OpView>
    decreases k,
{
    if k == 0 {
        Seq::empty()
    } else {
        footnote_entries_ops(entries, (k - 1) as nat) + footnote_ops(entries[k - 1])
    }
}

/// What is issued for the footnotes at the end of a document: nothing where
/// there are none, else an empty line, a heading, and the footnotes in the
/// order in which their identifiers were first stored.
pub open spec fn footnotes_ops(entries: Seq<(Seq<char>, Seq<char>)>) -> Seq<OpView> {
    if entries.len() == 0 {
        Seq::empty()
    } else {
        seq![
            OpView::Text("\n"@),
            OpView::SetStyle(Style::fg_italic(Color::White)),
            OpView::Text("Footnotes:\n"@),
        ] + footnote_entries_ops(entries, entries.len())
    }
}

/// Rendering a whole document: the tree, then its footnotes. The footnote
/// table is empty afterwards.
pub open spec fn document_rendering(node: NodeView, config: AppConfig, state: RenderState) -> Rendered {
    let walked = rendering(node, config, state);
    Rendered {
        ops: walked.ops + footnotes_ops(walked.state.footnotes),
        state: RenderState { footnotes: Seq::empty(), ..walked.state },
    }
}

/// What is issued in front of line `i` of a file of source code: its number,
/// counted from one and right-aligned to the width of the last line's number,
/// where the options ask for line numbers and colours.
pub open spec fn line_number_ops(i: int, count: nat, config: AppConfig) -> Seq<OpView> {
    if config.show_line_numbers && config.use_colors {
        seq![
            OpView::SetStyle(Style::fg(Color::Cyan)),
            OpView::Text(pad_left(decimal((i + 1) as nat), decimal(count).len()) + " \u{2502} "@),
            OpView::Reset,
        ]
    } else {
        Seq::empty()
    }
}

/// The language that a file of source code is highlighted for: the one
/// given, or plain text where colours are switched off.
pub open spec fn file_language(language: Seq<char>, config: AppConfig) -> Seq<char> {
    if config.use_colors {
        language
    } else {
        "txt"@
    }
}

/// What is issued for the first `k` lines of a file of source code.
pub open spec fn code_file_lines_ops(
    all: Seq<Seq<char>>,
    k: nat,
    language: Seq<char>,
    config: AppConfig,
) -> Seq<OpView>
    decreases k,
{
    if k == 0 {
        Seq::empty()
    } else {
        code_file_lines_ops(all, (k - 1) as nat, language, config) + line_number_ops(
            k - 1,
            all.len(),
            config,
        ) + seq![
            OpView::Code { line: all[k - 1], language: file_language(language, config) },
            OpView::Text("\n"@),
        ]
    }
}

/// What is issued for a file of source code: its lines, each behind its
/// number.
pub open spec fn code_file_ops(content: Seq<char>, language: Seq<char>, config: AppConfig) -> Seq<
    OpView,
> {
    code_file_lines_ops(lines(content), lines(content).len(), language, config)
}

} // verus!
