//! HTML inside a document is turned into Markdown, which the caller parses;
//! the tree that comes of it is hung below the HTML node and rendered in its
//! place.
use vstd::prelude::*;

use crate::config::AppConfig;
use crate::node::{opt_view, AstNode, Kind, KindView, NodeView};

verus! {

/// The error that `htmd` reports, `std::io::Error`. Nothing is read from it.
#[verifier::external_type_specification]
#[verifier::external_body]
pub struct ExIoError(std::io::Error);

/// The Markdown that `htmd` turns a piece of HTML into, where it can.
pub uninterp spec fn markdown_of_html(html: Seq<char>) -> Option<Seq<char>>;

/// Converts HTML with `htmd::HtmlToMarkdown::convert`, with the converter's
/// default options. The contract names the Markdown that comes out, and says
/// that an error comes exactly where the converter gives none.
#[verifier::external_body]
fn convert_html(html: &str) -> (r: Result<String, std::io::Error>)
    ensures
        match r {
            Ok(markdown) => markdown_of_html(html@) == Some(markdown@),
            Err(_) => markdown_of_html(html@).is_none(),
        },
{
    htmd::HtmlToMarkdown::new().convert(html)
}

/// The Markdown that a conversion gave, if it gave any.
pub fn converted_markdown(converted: Result<String, std::io::Error>) -> (r: Option<String>)
    ensures
        match converted {
            Ok(markdown) => r == Some(markdown),
            Err(_) => r.is_none(),
        },
{
    match converted {
        Ok(markdown) => Some(markdown),
        Err(_) => None,
    }
}

/// The Markdown that stands for the HTML `html`, if it can be converted.
pub fn html_to_markdown(html: &str) -> (r: Option<String>)
    ensures
        opt_view(r) == markdown_of_html(html@),
{
    converted_markdown(convert_html(html))
}

/// The Markdown to parse in place of `node`: that of its HTML, where `node`
/// is HTML that can be converted and the options ask for conversion.
pub open spec fn expansion_source(node: NodeView, config: AppConfig) -> Option<Seq<char>> {
    match node.kind {
        KindView::Html { value } => if config.convert_html {
            markdown_of_html(value)
        } else {
            None
        },
        _ => None,
    }
}

/// The Markdown to parse in place of `node`, if there is any.
pub fn html_expansion_source(node: &AstNode, config: &AppConfig) -> (r: Option<String>)
    ensures
        opt_view(r) == expansion_source(node@, *config),
{
    proof {
        node.lemma_view();
    }
    match &node.kind {
        Kind::Html { value } => {
            if config.convert_html {
                html_to_markdown(value.as_str())
            } else {
                None
            }
        },
        _ => None,
    }
}

/// Hangs `tree`, which the Markdown of an HTML node was parsed to, below that
/// node, in place of anything that hung there.
pub fn attach_expansion(node: &mut AstNode, tree: AstNode)
    ensures
        final(node)@.kind == old(node)@.kind,
        final(node)@.children == seq![tree@],
        final(node).kind == old(node).kind,
{
    let mut children: Vec<AstNode> = Vec::new();
    children.push(tree);
    node.children = children;
    proof {
        node.lemma_view();
        old(node).lemma_view();
        assert(node@.children =~= seq![tree@]);
    }
}

} // verus!
