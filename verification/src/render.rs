//! The renderer: a walk over the tree, depth first and in document order,
//! that issues terminal operations and carries the render state along.
use vstd::prelude::*;

use crate::admonition::{collect_literals, parse_admonition, render_admonition};
use crate::context::{bump_exec, drop_one_exec, RenderContext, RenderState};
use crate::emoji::{choose_shown, parse_emoji, substitute};
use crate::model::{
    checkbox_ops, code_lines_ops, count_item, document_rendering, footnote_entries_ops,
    footnotes_ops, heading_color, heading_indent, hyperlink_open, image_file_ops, image_ops,
    item_prefix, rendering, rendering_of_children, rendering_of_first, rendering_struck,
    shown_text, unsupported_name, unsupported_ops, Rendered,
};
use crate::node::{AstNode, Kind, KindView};
use crate::output::{Color, OpView, Output, RenderOp, Style};
use crate::table::render_table;
use crate::text::{
    chars_of, indent, indent_chars, push_decimal, push_joined, push_padded_left, push_str,
    split_lines, split_whitespace, strike, string_of, texts_view, words,
};
use crate::utils::images::{file_source, resolve_image};
use crate::utils::shared::{clone_opt, get_link_definition, set_footnote, set_link_definition};

verus! {

/// `after` and `after_out` are what rendering leaves when it starts from
/// `before` and `before_out` and its outcome is `r`: the operations of `r`
/// are appended, the state is that of `r`, the options are untouched, each of
/// the two list stacks is as long as it was, and a state that was well formed
/// is so still.
pub open spec fn rendered_as(
    r: Rendered,
    before_out: Seq<OpView>,
    after_out: Seq<OpView>,
    before: RenderContext,
    after: RenderContext,
) -> bool {
    &&& after_out =~= before_out + r.ops
    &&& after@ =~= r.state
    &&& after.config == before.config
    &&& after@.list_stack.len() == before@.list_stack.len()
    &&& after@.ordered_flags.len() == before@.ordered_flags.len()
    &&& before@.wf() ==> after@.wf()
}

/// The indentation in front of a heading of depth `level`.
pub fn get_heading_indent(level: u8) -> (s: String)
    ensures
        s@ == heading_indent(level),
{
    let depth: usize = if level > 0 {
        (level - 1) as usize
    } else {
        0
    };
    string_of(&indent_chars(depth))
}

/// The indentation that content is written at.
pub fn get_indent(ctx: &RenderContext) -> (s: String)
    ensures
        s@ == indent(ctx.indent_level as nat),
{
    string_of(&indent_chars(ctx.indent_level))
}

/// Renders the children of `node`, one after the other.
pub fn render_children(node: &AstNode, ctx: &mut RenderContext, out: &mut Output)
    ensures
        rendered_as(
            rendering_of_children(node@, old(ctx).config, old(ctx)@),
            old(out)@,
            final(out)@,
            *old(ctx),
            *final(ctx),
        ),
    decreases node, 0nat,
{
    proof {
        node.lemma_view();
    }
    let mut i: usize = 0;
    while i < node.children.len()
        invariant
            i <= node.children.len(),
            node@.children.len() == node.children@.len(),
            forall|k: int|
                0 <= k < node.children@.len() ==> (#[trigger] node@.children[k])
                    == node.children@[k]@,
            rendered_as(
                rendering_of_first(node@.children, i as nat, old(ctx).config, old(ctx)@),
                old(out)@,
                out@,
                *old(ctx),
                *ctx,
            ),
        decreases node.children.len() - i,
    {
        render_node(&node.children[i], ctx, out);
        i = i + 1;
    }
}

/// Renders a whole document: the tree, then the footnotes that it left.
pub fn render_markdown(ast: &AstNode, ctx: &mut RenderContext, out: &mut Output)
    ensures
        rendered_as(
            document_rendering(ast@, old(ctx).config, old(ctx)@),
            old(out)@,
            final(out)@,
            *old(ctx),
            *final(ctx),
        ),
{
    render_node(ast, ctx, out);
    render_footnotes(ctx, out);
}

/// Renders `node` and everything below it.
pub fn render_node(node: &AstNode, ctx: &mut RenderContext, out: &mut Output)
    ensures
        rendered_as(
            rendering(node@, old(ctx).config, old(ctx)@),
            old(out)@,
            final(out)@,
            *old(ctx),
            *final(ctx),
        ),
    decreases node, 2nat,
{
    proof {
        node.lemma_view();
    }
    match &node.kind {
        Kind::Root => render_children(node, ctx, out),
        Kind::Heading { .. } => render_heading(node, ctx, out),
        Kind::Paragraph => render_paragraph(node, ctx, out),
        Kind::Text { .. } => render_text(node, ctx, out),
        Kind::Code { .. } => render_code(node, ctx, out),
        Kind::Table => render_table(node, ctx, out),
        Kind::List { .. } => render_list(node, ctx, out),
        Kind::ListItem { .. } => render_list_item(node, ctx, out),
        Kind::Blockquote => render_blockquote(node, ctx, out),
        Kind::ThematicBreak => render_thematic_break(out),
        Kind::Link { .. } => render_link(node, ctx, out),
        Kind::Image { .. } => render_image(node, ctx, out),
        Kind::Emphasis => render_emphasis(node, ctx, out),
        Kind::Strong => render_strong(node, ctx, out),
        Kind::Delete => render_delete(node, ctx, out),
        Kind::InlineCode { .. } => render_inline_code(node, ctx, out),
        Kind::FootnoteReference { .. } => render_footnote_reference(node, ctx, out),
        Kind::ImageReference { .. } => render_image_reference(node, ctx, out),
        Kind::Definition { .. } => render_definition(node, ctx, out),
        Kind::LinkReference { .. } => render_link_reference(node, ctx, out),
        Kind::Html { .. } => render_html(node, ctx, out),
        Kind::TableRow => render_unsupported(node, "tableRow", ctx, out),
        Kind::TableCell => render_unsupported(node, "tableCell", ctx, out),
        Kind::FootnoteDefinition { .. } => render_unsupported(
            node,
            "footnoteDefinition",
            ctx,
            out,
        ),
        Kind::Other { name, .. } => render_unsupported(node, name.as_str(), ctx, out),
    }
}

/// Reports a node of a kind without a rendering rule, in debug mode only.
fn render_unsupported(node: &AstNode, name: &str, ctx: &RenderContext, out: &mut Output)
    requires
        name@ == unsupported_name(node@.kind),
    ensures
        final(out)@ == old(out)@ + unsupported_ops(node@.kind, ctx.config),
{
    if ctx.config.debug_mode {
        let mut report: Vec<char> = Vec::new();
        push_str(&mut report, "Unsupported node type: ");
        push_str(&mut report, name);
        out.diagnostic(&report);
    }
}

/// The colour of a heading of depth `level`.
pub fn heading_color_of(level: u8) -> (c: Color)
    ensures
        c == heading_color(level),
{
    if level == 1 {
        Color::Cyan
    } else if level == 2 {
        Color::Green
    } else if level == 3 {
        Color::Yellow
    } else if level == 4 {
        Color::Blue
    } else if level == 5 {
        Color::Magenta
    } else {
        Color::White
    }
}

/// Renders a heading: an empty line, the children in the colour of the
/// heading's depth behind its indentation, a line feed. From then on content
/// is indented by the heading's depth.
fn render_heading(node: &AstNode, ctx: &mut RenderContext, out: &mut Output)
    requires
        node.kind is Heading,
    ensures
        rendered_as(
            rendering(node@, old(ctx).config, old(ctx)@),
            old(out)@,
            final(out)@,
            *old(ctx),
            *final(ctx),
        ),
    decreases node, 1nat,
{
    proof {
        node.lemma_view();
    }
    let level: u8 = match &node.kind {
        Kind::Heading { depth } => *depth,
        _ => 1,
    };
    out.text("\n");
    if ctx.config.use_colors {
        out.style(Style::with_fg_bold(heading_color_of(level)));
    }
    out.text(get_heading_indent(level).as_str());
    render_children(node, ctx, out);
    if ctx.config.use_colors {
        out.reset();
    }
    out.text("\n");
    ctx.heading_level = level as usize;
    ctx.indent_level = level as usize;
}

/// Renders a paragraph: its children and a line feed, behind the indentation
/// where no list is open.
fn render_paragraph(node: &AstNode, ctx: &mut RenderContext, out: &mut Output)
    requires
        node.kind is Paragraph,
    ensures
        rendered_as(
            rendering(node@, old(ctx).config, old(ctx)@),
            old(out)@,
            final(out)@,
            *old(ctx),
            *final(ctx),
        ),
    decreases node, 1nat,
{
    proof {
        node.lemma_view();
    }
    if ctx.list_stack.len() == 0 {
        out.text(get_indent(ctx).as_str());
    }
    render_children(node, ctx, out);
    out.text("\n");
}

/// The characters written for the text `value`.
pub fn show_text(value: &str) -> (v: Vec<char>)
    ensures
        v@ == shown_text(value@),
{
    let parts = split_whitespace(&chars_of(value));
    let mut shown: Vec<Vec<char>> = Vec::new();
    let mut i: usize = 0;
    while i < parts.len()
        invariant
            i <= parts.len(),
            shown@.len() == i,
            forall|k: int|
                0 <= k < i ==> (#[trigger] shown@[k])@ == substitute(texts_view(parts@))[k],
        decreases parts.len() - i,
    {
        let emoji = parse_emoji(&parts[i]);
        shown.push(choose_shown(&parts[i], emoji));
        i = i + 1;
    }
    proof {
        assert(texts_view(shown@) =~= substitute(words(value@)));
    }
    let mut v: Vec<char> = Vec::new();
    push_joined(&mut v, &shown, " ");
    v
}

/// Renders a text: its words with single spaces between them.
fn render_text(node: &AstNode, ctx: &RenderContext, out: &mut Output)
    requires
        node.kind is Text,
    ensures
        final(out)@ == old(out)@ + rendering(node@, ctx.config, ctx@).ops,
        ctx@ == rendering(node@, ctx.config, ctx@).state,
{
    proof {
        node.lemma_view();
    }
    match &node.kind {
        Kind::Text { value } => {
            out.text_chars(&show_text(value.as_str()));
        },
        _ => {},
    }
}

/// Renders a code block: each line behind the indentation, highlighted for
/// the block's language, then an empty line.
fn render_code(node: &AstNode, ctx: &RenderContext, out: &mut Output)
    requires
        node.kind is Code,
    ensures
        final(out)@ == old(out)@ + rendering(node@, ctx.config, ctx@).ops,
        ctx@ == rendering(node@, ctx.config, ctx@).state,
{
    proof {
        node.lemma_view();
    }
    match &node.kind {
        Kind::Code { value, lang } => {
            let language: String = match lang {
                Some(name) => name.clone(),
                None => String::from_str("txt"),
            };
            let all = split_lines(&chars_of(value.as_str()));
            let mut i: usize = 0;
            while i < all.len()
                invariant
                    i <= all.len(),
                    texts_view(all@).len() == all@.len(),
                    out@ == old(out)@ + code_lines_ops(
                        texts_view(all@),
                        i as nat,
                        language@,
                        ctx.indent_level,
                    ),
                decreases all.len() - i,
            {
                out.text(get_indent(ctx).as_str());
                out.push(RenderOp::Code { line: string_of(&all[i]), language: language.clone() });
                out.reset();
                out.text("\n");
                i = i + 1;
            }
            out.text("\n");
        },
        _ => {},
    }
}

/// Renders a list: its children, with one more list open meanwhile.
fn render_list(node: &AstNode, ctx: &mut RenderContext, out: &mut Output)
    requires
        node.kind is List,
    ensures
        rendered_as(
            rendering(node@, old(ctx).config, old(ctx)@),
            old(out)@,
            final(out)@,
            *old(ctx),
            *final(ctx),
        ),
    decreases node, 1nat,
{
    proof {
        node.lemma_view();
    }
    let is_ordered: bool = match &node.kind {
        Kind::List { ordered } => *ordered,
        _ => false,
    };
    ctx.list_stack.push(0);
    ctx.ordered_flags.push(is_ordered);
    render_children(node, ctx, out);
    ctx.list_stack.pop();
    ctx.ordered_flags.pop();
}

/// Shows whether a task is done.
pub fn render_task_list_item_checkbox(checked: bool, out: &mut Output)
    ensures
        final(out)@ == old(out)@ + checkbox_ops(Some(checked)),
{
    if checked {
        out.style(Style::with_fg(Color::Green));
        out.text("\u{f046}  ");
    } else {
        out.style(Style::with_fg(Color::Red));
        out.text("\u{f096}  ");
    }
    out.reset();
}

/// Renders a list item: the indentation, its number or a bullet, a checkbox
/// if it is a task, then its children one level deeper, and a line feed.
fn render_list_item(node: &AstNode, ctx: &mut RenderContext, out: &mut Output)
    requires
        node.kind is ListItem,
    ensures
        rendered_as(
            rendering(node@, old(ctx).config, old(ctx)@),
            old(out)@,
            final(out)@,
            *old(ctx),
            *final(ctx),
        ),
    decreases node, 1nat,
{
    proof {
        node.lemma_view();
    }
    out.text(get_indent(ctx).as_str());
    let open = ctx.list_stack.len();
    if open > 0 {
        let index = bump_exec(ctx.list_stack[open - 1]);
        ctx.list_stack.set(open - 1, index);
        let flags = ctx.ordered_flags.len();
        if flags > 0 && ctx.ordered_flags[flags - 1] {
            out.style(Style::with_fg(Color::Yellow));
            let mut digits: Vec<char> = Vec::new();
            push_decimal(&mut digits, index);
            let mut number: Vec<char> = Vec::new();
            push_padded_left(&mut number, &digits, 2);
            push_str(&mut number, ". ");
            out.text_chars(&number);
        } else {
            out.style(Style::with_fg(Color::Cyan));
            out.text("\u{2022} ");
        }
    } else {
        out.style(Style::with_fg(Color::Cyan));
        out.text("\u{2022} ");
    }
    out.reset();
    match &node.kind {
        Kind::ListItem { checked: Some(done) } => {
            render_task_list_item_checkbox(*done, out);
        },
        _ => {},
    }
    assert(ctx@ =~= count_item(old(ctx)@));
    assert(out@ =~= old(out)@ + item_prefix(node@.kind->ListItem_checked, old(ctx)@));
    ctx.indent_level = bump_exec(ctx.indent_level);
    render_children(node, ctx, out);
    ctx.indent_level = drop_one_exec(ctx.indent_level);
    out.text("\n");
}

/// Renders a block quote: a callout as one line, any other quote as its
/// children one level deeper behind a quotation mark.
fn render_blockquote(node: &AstNode, ctx: &mut RenderContext, out: &mut Output)
    requires
        node.kind is Blockquote,
    ensures
        rendered_as(
            rendering(node@, old(ctx).config, old(ctx)@),
            old(out)@,
            final(out)@,
            *old(ctx),
            *final(ctx),
        ),
    decreases node, 1nat,
{
    proof {
        node.lemma_view();
    }
    match parse_admonition(node) {
        Some((admonition_type, content)) => {
            render_admonition(admonition_type, content.as_str(), out);
        },
        None => {
            out.style(Style::with_fg(Color::Magenta));
            let mut mark: Vec<char> = indent_chars(ctx.indent_level);
            push_str(&mut mark, "> ");
            out.text_chars(&mark);
            ctx.indent_level = bump_exec(ctx.indent_level);
            render_children(node, ctx, out);
            ctx.indent_level = drop_one_exec(ctx.indent_level);
            out.reset();
        },
    }
}

/// A thematic break is not shown: nothing is written for it.
pub fn render_thematic_break(out: &mut Output)
    ensures
        final(out)@ == old(out)@,
{
}

/// Issues what stands in front of the children of a link.
fn open_link(url: &str, ctx: &RenderContext, out: &mut Output)
    ensures
        final(out)@ == old(out)@ + if ctx.config.render_links {
            Seq::<OpView>::empty()
        } else {
            seq![
                OpView::Text(" "@),
                OpView::Text(hyperlink_open(url@)),
                OpView::SetStyle(Style::fg_underline(Color::Blue)),
            ]
        },
{
    if !ctx.config.render_links {
        out.text(" ");
        let mut open: Vec<char> = Vec::new();
        push_str(&mut open, "\u{1b}]8;;");
        push_str(&mut open, url);
        push_str(&mut open, "\u{1b}\\");
        out.text_chars(&open);
        out.style(Style::with_fg_underline(Color::Blue));
    }
}

/// Issues what stands behind the children of a link.
fn close_link(ctx: &RenderContext, out: &mut Output)
    ensures
        final(out)@ == old(out)@ + if ctx.config.render_links {
            Seq::<OpView>::empty()
        } else {
            seq![OpView::Reset, OpView::Text("\u{1b}]8;;\u{1b}\\"@), OpView::Text(" "@)]
        },
{
    if !ctx.config.render_links {
        out.reset();
        out.text("\u{1b}]8;;\u{1b}\\");
        out.text(" ");
    }
}

/// Renders a link: its children, inside a terminal hyperlink unless the
/// options ask for the children alone.
fn render_link(node: &AstNode, ctx: &mut RenderContext, out: &mut Output)
    requires
        node.kind is Link,
    ensures
        rendered_as(
            rendering(node@, old(ctx).config, old(ctx)@),
            old(out)@,
            final(out)@,
            *old(ctx),
            *final(ctx),
        ),
    decreases node, 1nat,
{
    proof {
        node.lemma_view();
    }
    match &node.kind {
        Kind::Link { url, .. } => {
            open_link(url.as_str(), ctx, out);
            render_children(node, ctx, out);
            close_link(ctx, out);
        },
        _ => {},
    }
}

/// Renders an image: a placeholder with its description where images are
/// switched off, else the request to draw what its address yields. A node
/// that is no image is passed over.
pub fn render_image(node: &AstNode, ctx: &RenderContext, out: &mut Output)
    ensures
        final(out)@ == old(out)@ + match node@.kind {
            KindView::Image { url, alt } => image_ops(url, alt, ctx.config),
            _ => Seq::<OpView>::empty(),
        },
{
    proof {
        node.lemma_view();
    }
    match &node.kind {
        Kind::Image { url, alt } => {
            if !ctx.config.render_images {
                let mut text: Vec<char> = Vec::new();
                push_str(&mut text, "[Image: ");
                push_str(&mut text, alt.as_str());
                push_str(&mut text, "]\n");
                out.text_chars(&text);
            } else {
                match resolve_image(url.as_str()) {
                    Some(source) => {
                        out.push(
                            RenderOp::Image {
                                source,
                                max_width: ctx.config.max_image_width,
                                max_height: ctx.config.max_image_height,
                            },
                        );
                    },
                    None => {},
                }
            }
        },
        _ => {},
    }
}

/// Renders the image at `path`, an address or a path in the file system.
pub fn render_image_file(path: &str, ctx: &RenderContext, out: &mut Output)
    ensures
        final(out)@ == old(out)@ + image_file_ops(path@, ctx.config),
{
    if !ctx.config.render_images {
        let mut text: Vec<char> = Vec::new();
        push_str(&mut text, "[Image: ");
        push_str(&mut text, path);
        push_str(&mut text, "]\n");
        out.text_chars(&text);
    } else {
        out.push(
            RenderOp::Image {
                source: file_source(path),
                max_width: ctx.config.max_image_width,
                max_height: ctx.config.max_image_height,
            },
        );
    }
}

/// Renders emphasis: its children in italics.
fn render_emphasis(node: &AstNode, ctx: &mut RenderContext, out: &mut Output)
    requires
        node.kind is Emphasis,
    ensures
        rendered_as(
            rendering(node@, old(ctx).config, old(ctx)@),
            old(out)@,
            final(out)@,
            *old(ctx),
            *final(ctx),
        ),
    decreases node, 1nat,
{
    proof {
        node.lemma_view();
    }
    out.style(Style::only_italic());
    render_children(node, ctx, out);
    out.reset();
}

/// Renders strong emphasis: its children in bold.
fn render_strong(node: &AstNode, ctx: &mut RenderContext, out: &mut Output)
    requires
        node.kind is Strong,
    ensures
        rendered_as(
            rendering(node@, old(ctx).config, old(ctx)@),
            old(out)@,
            final(out)@,
            *old(ctx),
            *final(ctx),
        ),
    decreases node, 1nat,
{
    proof {
        node.lemma_view();
    }
    out.style(Style::only_bold());
    render_children(node, ctx, out);
    out.reset();
}

/// Renders deleted content: a text with a stroke laid over each character,
/// any other child as it is.
fn render_delete(node: &AstNode, ctx: &mut RenderContext, out: &mut Output)
    requires
        node.kind is Delete,
    ensures
        rendered_as(
            rendering(node@, old(ctx).config, old(ctx)@),
            old(out)@,
            final(out)@,
            *old(ctx),
            *final(ctx),
        ),
    decreases node, 1nat,
{
    proof {
        node.lemma_view();
    }
    let mut i: usize = 0;
    while i < node.children.len()
        invariant
            i <= node.children.len(),
            node@.children.len() == node.children@.len(),
            forall|k: int|
                0 <= k < node.children@.len() ==> (#[trigger] node@.children[k])
                    == node.children@[k]@,
            rendered_as(
                rendering_struck(node@.children, i as nat, old(ctx).config, old(ctx)@),
                old(out)@,
                out@,
                *old(ctx),
                *ctx,
            ),
        decreases node.children.len() - i,
    {
        let child = &node.children[i];
        proof {
            child.lemma_view();
        }
        match &child.kind {
            Kind::Text { value } => {
                out.text_chars(&strike(&chars_of(value.as_str())));
            },
            _ => {
                render_node(child, ctx, out);
            },
        }
        i = i + 1;
    }
}

/// Renders inline code: its text between two spaces, set off in colour.
fn render_inline_code(node: &AstNode, ctx: &RenderContext, out: &mut Output)
    requires
        node.kind is InlineCode,
    ensures
        final(out)@ == old(out)@ + rendering(node@, ctx.config, ctx@).ops,
        ctx@ == rendering(node@, ctx.config, ctx@).state,
{
    proof {
        node.lemma_view();
    }
    match &node.kind {
        Kind::InlineCode { value } => {
            out.style(Style::with_fg_bold(Color::Yellow));
            let mut text: Vec<char> = Vec::new();
            push_str(&mut text, " ");
            push_str(&mut text, value.as_str());
            push_str(&mut text, " ");
            out.text_chars(&text);
            out.reset();
        },
        _ => {},
    }
}

/// Renders a reference to an image as it was written.
fn render_image_reference(node: &AstNode, ctx: &RenderContext, out: &mut Output)
    requires
        node.kind is ImageReference,
    ensures
        final(out)@ == old(out)@ + rendering(node@, ctx.config, ctx@).ops,
        ctx@ == rendering(node@, ctx.config, ctx@).state,
{
    proof {
        node.lemma_view();
    }
    match &node.kind {
        Kind::ImageReference { identifier, alt } => {
            out.style(Style::with_fg(Color::Magenta));
            let mut text: Vec<char> = Vec::new();
            push_str(&mut text, "![");
            push_str(&mut text, alt.as_str());
            push_str(&mut text, "][");
            push_str(&mut text, identifier.as_str());
            push_str(&mut text, "]");
            out.text_chars(&text);
            out.reset();
        },
        _ => {},
    }
}

/// Renders a reference to a link: as a link to the address that the link
/// table holds under its identifier, or as its children alone where the table
/// holds none.
fn render_link_reference(node: &AstNode, ctx: &mut RenderContext, out: &mut Output)
    requires
        node.kind is LinkReference,
    ensures
        rendered_as(
            rendering(node@, old(ctx).config, old(ctx)@),
            old(out)@,
            final(out)@,
            *old(ctx),
            *final(ctx),
        ),
    decreases node, 1nat,
{
    proof {
        node.lemma_view();
    }
    match &node.kind {
        Kind::LinkReference { identifier } => {
            match get_link_definition(&ctx.links, identifier.as_str()) {
                Some((url, _title)) => {
                    open_link(url.as_str(), ctx, out);
                    render_children(node, ctx, out);
                    close_link(ctx, out);
                },
                None => {
                    render_children(node, ctx, out);
                },
            }
        },
        _ => {},
    }
}

/// A definition is not shown; it is stored in the link table.
fn render_definition(node: &AstNode, ctx: &mut RenderContext, out: &mut Output)
    requires
        node.kind is Definition,
    ensures
        rendered_as(
            rendering(node@, old(ctx).config, old(ctx)@),
            old(out)@,
            final(out)@,
            *old(ctx),
            *final(ctx),
        ),
{
    proof {
        node.lemma_view();
    }
    match &node.kind {
        Kind::Definition { identifier, url, title } => {
            set_link_definition(&mut ctx.links, identifier.clone(), url.clone(), clone_opt(title));
        },
        _ => {},
    }
}

/// Writes the footnotes that the walk has left, in the order in which their
/// identifiers were first stored, and empties the table.
pub fn render_footnotes(ctx: &mut RenderContext, out: &mut Output)
    ensures
        final(out)@ == old(out)@ + footnotes_ops(old(ctx)@.footnotes),
        final(ctx)@ == (RenderState { footnotes: Seq::empty(), ..old(ctx)@ }),
        final(ctx).config == old(ctx).config,
        old(ctx)@.wf() ==> final(ctx)@.wf(),
{
    if ctx.footnotes.entries.len() == 0 {
        assert(ctx@.footnotes =~= Seq::empty());
        assert(ctx@ =~= (RenderState { footnotes: Seq::empty(), ..old(ctx)@ }));
        return ;
    }
    out.text("\n");
    out.style(Style::with_fg_italic(Color::White));
    out.text("Footnotes:\n");
    let mut i: usize = 0;
    while i < ctx.footnotes.entries.len()
        invariant
            i <= ctx.footnotes.entries.len(),
            *ctx == *old(ctx),
            out@ == old(out)@ + seq![
                OpView::Text("\n"@),
                OpView::SetStyle(Style::fg_italic(Color::White)),
                OpView::Text("Footnotes:\n"@),
            ] + footnote_entries_ops(ctx@.footnotes, i as nat),
        decreases ctx.footnotes.entries.len() - i,
    {
        out.style(Style::with_fg_italic(Color::White));
        let mut label: Vec<char> = Vec::new();
        push_str(&mut label, ctx.footnotes.entries[i].identifier.as_str());
        push_str(&mut label, ": ");
        out.text_chars(&label);
        out.reset();
        let mut line: Vec<char> = Vec::new();
        push_str(&mut line, ctx.footnotes.entries[i].content.as_str());
        push_str(&mut line, "\n");
        out.text_chars(&line);
        i = i + 1;
    }
    ctx.footnotes.clear();
    assert(ctx@ =~= (RenderState { footnotes: Seq::empty(), ..old(ctx)@ }));
}

/// Renders a reference to a footnote: its mark, set off in colour. Where the
/// reference has children, the literals among them, with spaces between them,
/// become the text of the footnote.
fn render_footnote_reference(node: &AstNode, ctx: &mut RenderContext, out: &mut Output)
    requires
        node.kind is FootnoteReference,
    ensures
        rendered_as(
            rendering(node@, old(ctx).config, old(ctx)@),
            old(out)@,
            final(out)@,
            *old(ctx),
            *final(ctx),
        ),
{
    proof {
        node.lemma_view();
    }
    match &node.kind {
        Kind::FootnoteReference { identifier } => {
            out.style(Style::with_fg_italic(Color::White));
            let mut mark: Vec<char> = Vec::new();
            push_str(&mut mark, " [^");
            push_str(&mut mark, identifier.as_str());
            push_str(&mut mark, "]");
            out.text_chars(&mark);
            out.reset();
            if node.children.len() > 0 {
                let parts = collect_literals(node, 0);
                let mut content: Vec<char> = Vec::new();
                push_joined(&mut content, &parts, " ");
                set_footnote(&mut ctx.footnotes, identifier.clone(), string_of(&content));
            }
        },
        _ => {},
    }
}

/// Renders HTML, where the options ask for it: the tree that it was turned
/// into where it has one, else a report and the HTML as it stands.
fn render_html(node: &AstNode, ctx: &mut RenderContext, out: &mut Output)
    requires
        node.kind is Html,
    ensures
        rendered_as(
            rendering(node@, old(ctx).config, old(ctx)@),
            old(out)@,
            final(out)@,
            *old(ctx),
            *final(ctx),
        ),
    decreases node, 1nat,
{
    proof {
        node.lemma_view();
    }
    if !ctx.config.convert_html {
        return ;
    }
    if node.children.len() > 0 {
        render_children(node, ctx, out);
    } else {
        match &node.kind {
            Kind::Html { value } => {
                out.diagnostic(&chars_of("HTML was not converted to Markdown"));
                let mut line: Vec<char> = Vec::new();
                push_str(&mut line, value.as_str());
                push_str(&mut line, "\n");
                out.text_chars(&line);
            },
            _ => {},
        }
    }
}

/// Shows a file of source code: each line highlighted for `language`, behind
/// its number where the options ask for line numbers.
pub fn render_code_file(content: &str, language: &str, ctx: &RenderContext, out: &mut Output)
    ensures
        final(out)@ == old(out)@ + crate::model::code_file_ops(content@, language@, ctx.config),
{
    let all = split_lines(&chars_of(content));
    let mut count_digits: Vec<char> = Vec::new();
    push_decimal(&mut count_digits, all.len());
    let width = count_digits.len();
    let shown_language: &str = if ctx.config.use_colors {
        language
    } else {
        "txt"
    };
    let mut i: usize = 0;
    while i < all.len()
        invariant
            i <= all.len(),
            texts_view(all@).len() == all@.len(),
            width == crate::text::decimal(all@.len() as nat).len(),
            shown_language@ == crate::model::file_language(language@, ctx.config),
            out@ == old(out)@ + crate::model::code_file_lines_ops(
                texts_view(all@),
                i as nat,
                language@,
                ctx.config,
            ),
        decreases all.len() - i,
    {
        if ctx.config.show_line_numbers && ctx.config.use_colors {
            out.style(Style::with_fg(Color::Cyan));
            let mut digits: Vec<char> = Vec::new();
            push_decimal(&mut digits, i + 1);
            let mut number: Vec<char> = Vec::new();
            push_padded_left(&mut number, &digits, width);
            push_str(&mut number, " \u{2502} ");
            out.text_chars(&number);
            out.reset();
        }
        out.push(
            RenderOp::Code { line: string_of(&all[i]), language: String::from_str(shown_language) },
        );
        out.text("\n");
        i = i + 1;
    }
}

} // verus!
