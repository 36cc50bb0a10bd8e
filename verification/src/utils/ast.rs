//! What is done to a tree once, before it is rendered: link definitions and
//! footnotes are collected from everywhere in it, headings get a colon, and
//! tight list items lose the paragraph that wraps their content.
use vstd::prelude::*;
use vstd::string::StringExecFns;

use crate::node::{AstNode, Kind, KindView, NodeView};
use crate::text::string_of;
use crate::utils::shared::{
    clone_opt, set_footnote, set_link_definition, store, FootnoteTable, LinkTable,
};

verus! {

/// The link table after the definitions in the first `k` nodes of `nodes`
/// are stored in `links`, in document order.
pub open spec fn definitions_in_first(
    nodes: Seq<NodeView>,
    k: nat,
    links: Seq<(Seq<char>, (Seq<char>, Option<Seq<char>>))>,
) -> Seq<(Seq<char>, (Seq<char>, Option<Seq<char>>))>
    decreases nodes, k,
{
    if k == 0 || k > nodes.len() {
        links
    } else {
        definitions_in(nodes[k - 1], definitions_in_first(nodes, (k - 1) as nat, links))
    }
}

/// The link table after every definition in `node` is stored in `links`, in
/// document order: of two definitions under one identifier the later one
/// stays.
pub open spec fn definitions_in(
    node: NodeView,
    links: Seq<(Seq<char>, (Seq<char>, Option<Seq<char>>))>,
) -> Seq<(Seq<char>, (Seq<char>, Option<Seq<char>>))>
    decreases node, 0nat,
{
    definitions_in_first(
        node.children,
        node.children.len(),
        match node.kind {
            KindView::Definition { identifier, url, title } => store(
                links,
                identifier,
                (url, title),
            ),
            _ => links,
        },
    )
}

/// Stores every link definition of the tree in `links`, wherever in the tree
/// it stands. The tree is not changed.
pub fn process_definitions(node: &AstNode, links: &mut LinkTable)
    ensures
        final(links)@ == definitions_in(node@, old(links)@),
        old(links).wf() ==> final(links).wf(),
    decreases node,
{
    proof {
        node.lemma_view();
    }
    match &node.kind {
        Kind::Definition { identifier, url, title } => {
            set_link_definition(links, identifier.clone(), url.clone(), clone_opt(title));
        },
        _ => {},
    }
    let ghost start = links@;
    let mut i: usize = 0;
    while i < node.children.len()
        invariant
            i <= node.children.len(),
            node@.children.len() == node.children@.len(),
            forall|k: int|
                0 <= k < node.children@.len() ==> (#[trigger] node@.children[k])
                    == node.children@[k]@,
            old(links).wf() ==> links.wf(),
            links@ == definitions_in_first(node@.children, i as nat, start),
        decreases node.children.len() - i,
    {
        process_definitions(&node.children[i], links);
        i = i + 1;
    }
}

/// The text of the first `k` nodes of `nodes`, one after the other.
pub open spec fn text_of_first(nodes: Seq<NodeView>, k: nat) -> Seq<char>
    decreases nodes, k,
{
    if k == 0 || k > nodes.len() {
        Seq::empty()
    } else {
        text_of_first(nodes, (k - 1) as nat) + text_of(nodes[k - 1])
    }
}

/// The text of `node`: the value of a text node, and for any other node the
/// text of its children, one after the other with nothing between them.
pub open spec fn text_of(node: NodeView) -> Seq<char>
    decreases node, 0nat,
{
    match node.kind {
        KindView::Text { value } => value,
        _ => text_of_first(node.children, node.children.len()),
    }
}

/// Appends the text of `node` to `content`.
fn push_node_text(node: &AstNode, content: &mut Vec<char>)
    ensures
        final(content)@ == old(content)@ + text_of(node@),
    decreases node,
{
    proof {
        node.lemma_view();
    }
    match &node.kind {
        Kind::Text { value } => {
            crate::text::push_str(content, value.as_str());
        },
        _ => {
            let mut i: usize = 0;
            while i < node.children.len()
                invariant
                    i <= node.children.len(),
                    node@.children.len() == node.children@.len(),
                    forall|k: int|
                        0 <= k < node.children@.len() ==> (#[trigger] node@.children[k])
                            == node.children@[k]@,
                    content@ == old(content)@ + text_of_first(node@.children, i as nat),
                decreases node.children.len() - i,
            {
                push_node_text(&node.children[i], content);
                i = i + 1;
            }
        },
    }
}

/// The text of `node`.
pub fn node_to_string(node: &AstNode) -> (s: String)
    ensures
        s@ == text_of(node@),
{
    let mut content: Vec<char> = Vec::new();
    push_node_text(node, &mut content);
    string_of(&content)
}

/// The footnote table after the footnote definitions in the first `k` nodes
/// of `nodes` are stored in `footnotes`, in document order.
pub open spec fn footnotes_in_first(
    nodes: Seq<NodeView>,
    k: nat,
    footnotes: Seq<(Seq<char>, Seq<char>)>,
) -> Seq<(Seq<char>, Seq<char>)>
    decreases nodes, k,
{
    if k == 0 || k > nodes.len() {
        footnotes
    } else {
        footnotes_in(nodes[k - 1], footnotes_in_first(nodes, (k - 1) as nat, footnotes))
    }
}

/// The footnote table after every footnote definition in `node` is stored in
/// `footnotes` with the text of its children, in document order.
pub open spec fn footnotes_in(node: NodeView, footnotes: Seq<(Seq<char>, Seq<char>)>) -> Seq<
    (Seq<char>, Seq<char>),
>
    decreases node, 0nat,
{
    footnotes_in_first(
        node.children,
        node.children.len(),
        match node.kind {
            KindView::FootnoteDefinition { identifier } => store(
                footnotes,
                identifier,
                text_of_first(node.children, node.children.len()),
            ),
            _ => footnotes,
        },
    )
}

/// Stores every footnote definition of the tree in `footnotes`, each with
/// the text of everything below it. The tree is not changed.
pub fn process_footnotes(node: &AstNode, footnotes: &mut FootnoteTable)
    ensures
        final(footnotes)@ == footnotes_in(node@, old(footnotes)@),
        old(footnotes).wf() ==> final(footnotes).wf(),
    decreases node,
{
    proof {
        node.lemma_view();
    }
    match &node.kind {
        Kind::FootnoteDefinition { identifier } => {
            let mut content: Vec<char> = Vec::new();
            let mut j: usize = 0;
            while j < node.children.len()
                invariant
                    j <= node.children.len(),
                    node@.children.len() == node.children@.len(),
                    forall|k: int|
                        0 <= k < node.children@.len() ==> (#[trigger] node@.children[k])
                            == node.children@[k]@,
                    content@ == text_of_first(node@.children, j as nat),
                decreases node.children.len() - j,
            {
                push_node_text(&node.children[j], &mut content);
                j = j + 1;
            }
            set_footnote(footnotes, identifier.clone(), string_of(&content));
        },
        _ => {},
    }
    let ghost start = footnotes@;
    let mut i: usize = 0;
    while i < node.children.len()
        invariant
            i <= node.children.len(),
            node@.children.len() == node.children@.len(),
            forall|k: int|
                0 <= k < node.children@.len() ==> (#[trigger] node@.children[k])
                    == node.children@[k]@,
            old(footnotes).wf() ==> footnotes.wf(),
            footnotes@ == footnotes_in_first(node@.children, i as nat, start),
        decreases node.children.len() - i,
    {
        process_footnotes(&node.children[i], footnotes);
        i = i + 1;
    }
}

/// `node` with a colon behind the text that ends it, where `node` is a
/// heading whose last child is a text.
pub open spec fn with_colon(node: NodeView) -> NodeView {
    if node.kind is Heading && node.children.len() > 0 {
        let last = node.children.last();
        match last.kind {
            KindView::Text { value } => NodeView {
                kind: node.kind,
                children: node.children.update(
                    node.children.len() - 1,
                    NodeView { kind: KindView::Text { value: value + ":"@ }, children: last.children },
                ),
            },
            _ => node,
        }
    } else {
        node
    }
}

/// `node` with a colon behind the closing text of every heading below it.
pub open spec fn with_colons_below(node: NodeView) -> NodeView
    decreases node, 0nat,
{
    NodeView {
        kind: node.kind,
        children: Seq::new(
            node.children.len(),
            |i: int|
                if 0 <= i < node.children.len() {
                    with_heading_colons(node.children[i])
                } else {
                    arbitrary()
                },
        ),
    }
}

/// `node` with a colon behind the closing text of every heading in it.
pub open spec fn with_heading_colons(node: NodeView) -> NodeView
    decreases node, 1nat,
{
    with_colon(with_colons_below(node))
}

/// A heading that ends in a text ends, after the colons are set, in that
/// text with exactly one colon more.
pub proof fn lemma_heading_gains_one_colon(node: NodeView, value: Seq<char>)
    requires
        node.kind is Heading,
        node.children.len() > 0,
        node.children.last().kind == (KindView::Text { value }),
    ensures
        with_heading_colons(node).children.len() == node.children.len(),
        with_heading_colons(node).children.last().kind == (KindView::Text {
            value: value.push(':'),
        }),
{
    reveal_strlit(":");
    assert(":"@ =~= seq![':']);
    assert(value + ":"@ =~= value.push(':'));
    let last = node.children.last();
    assert(with_heading_colons(last).kind == last.kind) by {
        reveal_with_fuel(with_heading_colons, 2);
    }
}

/// Sets a colon behind the closing text of every heading of the tree. Each
/// call sets one more colon.
pub fn modify_heading_ast(node: &mut AstNode)
    ensures
        final(node)@ == with_heading_colons(old(node)@),
    decreases *old(node),
{
    proof {
        node.lemma_view();
    }
    let n = node.children.len();
    let mut i: usize = 0;
    while i < n
        invariant
            i <= n,
            n == node.children.len(),
            n == old(node).children.len(),
            node.kind == old(node).kind,
            forall|j: int| i <= j < n ==> node.children@[j] == old(node).children@[j],
            forall|j: int|
                0 <= j < i ==> (#[trigger] node.children@[j])@ == with_heading_colons(
                    old(node).children@[j]@,
                ),
        decreases n - i,
    {
        modify_heading_ast(&mut node.children[i]);
        i = i + 1;
    }
    let ghost inner = with_colons_below(old(node)@);
    proof {
        node.lemma_view();
        old(node).lemma_view();
        assert(node@.children =~= inner.children);
        assert(node@ == inner);
    }
    let is_heading = match &node.kind {
        Kind::Heading { .. } => true,
        _ => false,
    };
    if is_heading && n > 0 {
        let ends_in_text = match &node.children[n - 1].kind {
            Kind::Text { .. } => true,
            _ => false,
        };
        if ends_in_text {
            let last = node.children.pop().unwrap();
            proof {
                last.lemma_view();
            }
            let AstNode { kind, children } = last;
            let ghost last_children = crate::node::nodes_view(children@);
            match kind {
                Kind::Text { value } => {
                    let mut value = value;
                    value.append(":");
                    let replaced = AstNode { kind: Kind::Text { value }, children };
                    proof {
                        replaced.lemma_view();
                    }
                    node.children.push(replaced);
                },
                _ => {},
            }
            proof {
                node.lemma_view();
                assert(node@.children =~= with_colon(inner).children);
            }
        }
    }
}

/// The nodes that stand below `node` once a wrapping paragraph is taken off:
/// the children of its only child where `node` is a list item and that child
/// is a paragraph, else its own children.
pub open spec fn unwrapped_children(node: NodeView) -> Seq<NodeView> {
    if node.kind is ListItem && node.children.len() == 1 && node.children[0].kind is Paragraph {
        node.children[0].children
    } else {
        node.children
    }
}

/// `node` with every list item in it that holds exactly one paragraph holding
/// that paragraph's children instead, at any depth.
pub open spec fn with_unwrapped_items(node: NodeView) -> NodeView
    decreases node,
{
    NodeView {
        kind: node.kind,
        children: Seq::new(
            unwrapped_children(node).len(),
            |i: int|
                if 0 <= i < unwrapped_children(node).len() {
                    with_unwrapped_items(unwrapped_children(node)[i])
                } else {
                    arbitrary()
                },
        ),
    }
}

/// Replaces the children of every list item that holds exactly one paragraph
/// by that paragraph's children, at any depth of the tree.
pub fn modify_list_item_ast(node: &mut AstNode)
    ensures
        final(node)@ == with_unwrapped_items(old(node)@),
    decreases *old(node),
{
    proof {
        node.lemma_view();
    }
    let is_item = match &node.kind {
        Kind::ListItem { .. } => true,
        _ => false,
    };
    if is_item && node.children.len() == 1 {
        let wraps = match &node.children[0].kind {
            Kind::Paragraph => true,
            _ => false,
        };
        if wraps {
            proof {
                node.children@[0].lemma_view();
            }
            let paragraph = node.children.pop().unwrap();
            let AstNode { kind: _, children } = paragraph;
            node.children = children;
        }
    }
    let ghost start = *node;
    proof {
        start.lemma_view();
        assert(start@.children =~= unwrapped_children(old(node)@));
        assert(start.kind == old(node).kind);
    }
    let n = node.children.len();
    let mut i: usize = 0;
    while i < n
        invariant
            i <= n,
            n == node.children.len(),
            n == start.children.len(),
            node.kind == start.kind,
            forall|j: int| 0 <= j < n ==> decreases_to!(*old(node) => #[trigger] start.children@[j]),
            forall|j: int| i <= j < n ==> node.children@[j] == start.children@[j],
            forall|j: int|
                0 <= j < i ==> (#[trigger] node.children@[j])@ == with_unwrapped_items(
                    start.children@[j]@,
                ),
        decreases n - i,
    {
        modify_list_item_ast(&mut node.children[i]);
        i = i + 1;
    }
    proof {
        node.lemma_view();
        assert(node@.children =~= with_unwrapped_items(old(node)@).children);
    }
}

} // verus!
