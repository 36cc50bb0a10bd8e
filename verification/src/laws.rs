//! What holds of the library as a whole, proved from the definitions that
//! its contracts are stated with.
use vstd::prelude::*;

use crate::admonition::admonition_of;
use crate::config::AppConfig;
use crate::context::RenderState;
use crate::model::{
    count_item, indented, link_ops, list_opened, rendering, rendering_of_children,
    rendering_of_first, rendering_struck,
};
use crate::node::{KindView, NodeView};
use crate::utils::ast::{definitions_in, definitions_in_first, with_unwrapped_items};
use crate::utils::shared::{lemma_store_lookup, lookup, store};

verus! {

/// A list item that holds exactly one paragraph ends up holding what that
/// paragraph held, each of those nodes treated in the same way in turn.
pub proof fn lemma_tight_item_is_unwrapped(item: NodeView)
    requires
        item.kind is ListItem,
        item.children.len() == 1,
        item.children[0].kind is Paragraph,
    ensures
        with_unwrapped_items(item).kind == item.kind,
        with_unwrapped_items(item).children.len() == item.children[0].children.len(),
        forall|i: int|
            0 <= i < item.children[0].children.len() ==> (#[trigger] with_unwrapped_items(
                item,
            ).children[i]) == with_unwrapped_items(item.children[0].children[i]),
{
}

/// Any other node keeps its children, each of them treated in turn.
pub proof fn lemma_other_node_keeps_children(node: NodeView)
    requires
        !(node.kind is ListItem && node.children.len() == 1 && node.children[0].kind is Paragraph),
    ensures
        with_unwrapped_items(node).kind == node.kind,
        with_unwrapped_items(node).children.len() == node.children.len(),
        forall|i: int|
            0 <= i < node.children.len() ==> (#[trigger] with_unwrapped_items(node).children[i])
                == with_unwrapped_items(node.children[i]),
{
}

/// A reference to a link whose identifier the link table does not hold is
/// rendered as its children are, and nothing else.
pub proof fn lemma_unresolved_reference_renders_children(
    node: NodeView,
    config: AppConfig,
    state: RenderState,
)
    requires
        node.kind is LinkReference,
        lookup(state.links, node.kind->LinkReference_identifier).is_none(),
    ensures
        rendering(node, config, state) == rendering_of_children(node, config, state),
{
}

/// A reference to a link whose identifier the link table holds is rendered
/// as a link to the address stored there.
pub proof fn lemma_resolved_reference_renders_link(
    node: NodeView,
    config: AppConfig,
    state: RenderState,
    url: Seq<char>,
    title: Option<Seq<char>>,
)
    requires
        node.kind is LinkReference,
        lookup(state.links, node.kind->LinkReference_identifier) == Some((url, title)),
    ensures
        rendering(node, config, state).ops == link_ops(
            url,
            config,
            rendering_of_children(node, config, state).ops,
        ),
        rendering(node, config, state).state == rendering_of_children(node, config, state).state,
{
}

/// Whether a definition under `identifier` stands anywhere in `node`.
pub open spec fn defines(node: NodeView, identifier: Seq<char>) -> bool
    decreases node,
{
    ||| (node.kind matches KindView::Definition { identifier: id, .. } && id == identifier)
    ||| exists|i: int| 0 <= i < node.children.len() && defines(#[trigger] node.children[i], identifier)
}

/// Whether every definition under `identifier` in `node` gives the address
/// and title `value`.
pub open spec fn defines_only(
    node: NodeView,
    identifier: Seq<char>,
    value: (Seq<char>, Option<Seq<char>>),
) -> bool
    decreases node,
{
    &&& (node.kind matches KindView::Definition { identifier: id, url, title } ==> (id == identifier
        ==> (url, title) == value))
    &&& forall|i: int|
        0 <= i < node.children.len() ==> defines_only(#[trigger] node.children[i], identifier, value)
}

/// What the start of the collection in `node` makes of `links`.
pub open spec fn own_definition(
    node: NodeView,
    links: Seq<(Seq<char>, (Seq<char>, Option<Seq<char>>))>,
) -> Seq<(Seq<char>, (Seq<char>, Option<Seq<char>>))> {
    match node.kind {
        KindView::Definition { identifier, url, title } => store(links, identifier, (url, title)),
        _ => links,
    }
}

/// Collecting from a tree whose definitions under an identifier all agree
/// keeps an entry that agrees with them.
pub proof fn lemma_collection_keeps(
    node: NodeView,
    links: Seq<(Seq<char>, (Seq<char>, Option<Seq<char>>))>,
    identifier: Seq<char>,
    value: (Seq<char>, Option<Seq<char>>),
)
    requires
        defines_only(node, identifier, value),
        lookup(links, identifier) == Some(value),
    ensures
        lookup(definitions_in(node, links), identifier) == Some(value),
    decreases node, 0nat,
{
    match node.kind {
        KindView::Definition { identifier: id, url, title } => {
            lemma_store_lookup(links, id, (url, title));
        },
        _ => {},
    }
    lemma_collection_keeps_first(
        node.children,
        node.children.len(),
        own_definition(node, links),
        identifier,
        value,
    );
}

/// The same of the first `k` nodes of a sequence.
pub proof fn lemma_collection_keeps_first(
    nodes: Seq<NodeView>,
    k: nat,
    links: Seq<(Seq<char>, (Seq<char>, Option<Seq<char>>))>,
    identifier: Seq<char>,
    value: (Seq<char>, Option<Seq<char>>),
)
    requires
        forall|i: int| 0 <= i < nodes.len() ==> defines_only(#[trigger] nodes[i], identifier, value),
        lookup(links, identifier) == Some(value),
    ensures
        lookup(definitions_in_first(nodes, k, links), identifier) == Some(value),
    decreases nodes, k,
{
    if k == 0 || k > nodes.len() {
    } else {
        lemma_collection_keeps_first(nodes, (k - 1) as nat, links, identifier, value);
        lemma_collection_keeps(
            nodes[k - 1],
            definitions_in_first(nodes, (k - 1) as nat, links),
            identifier,
            value,
        );
    }
}

/// A definition resolves wherever it stands: where a tree holds a definition
/// under an identifier, and all its definitions under that identifier give
/// the same address and title, the collected table holds that address and
/// title under the identifier, whatever the table held before.
pub proof fn lemma_definition_resolves(
    tree: NodeView,
    links: Seq<(Seq<char>, (Seq<char>, Option<Seq<char>>))>,
    identifier: Seq<char>,
    value: (Seq<char>, Option<Seq<char>>),
)
    requires
        defines(tree, identifier),
        defines_only(tree, identifier, value),
    ensures
        lookup(definitions_in(tree, links), identifier) == Some(value),
    decreases tree, 0nat,
{
    let start = own_definition(tree, links);
    if tree.kind matches KindView::Definition { identifier: id, url, title } && id == identifier {
        lemma_store_lookup(links, identifier, value);
        lemma_collection_keeps_first(
            tree.children,
            tree.children.len(),
            start,
            identifier,
            value,
        );
    } else {
        let i = choose|i: int|
            0 <= i < tree.children.len() && defines(#[trigger] tree.children[i], identifier);
        lemma_definition_resolves_first(
            tree.children,
            tree.children.len(),
            start,
            identifier,
            value,
            i,
        );
    }
}

/// The same of the first `k` nodes of a sequence, of which the one at `at`
/// holds a definition under the identifier.
pub proof fn lemma_definition_resolves_first(
    nodes: Seq<NodeView>,
    k: nat,
    links: Seq<(Seq<char>, (Seq<char>, Option<Seq<char>>))>,
    identifier: Seq<char>,
    value: (Seq<char>, Option<Seq<char>>),
    at: int,
)
    requires
        forall|i: int| 0 <= i < nodes.len() ==> defines_only(#[trigger] nodes[i], identifier, value),
        0 <= at < k <= nodes.len(),
        defines(nodes[at], identifier),
    ensures
        lookup(definitions_in_first(nodes, k, links), identifier) == Some(value),
    decreases nodes, k,
{
    let before = definitions_in_first(nodes, (k - 1) as nat, links);
    if at == k - 1 {
        lemma_definition_resolves(nodes[at], before, identifier, value);
    } else {
        lemma_definition_resolves_first(nodes, (k - 1) as nat, links, identifier, value, at);
        lemma_collection_keeps(nodes[k - 1], before, identifier, value);
    }
}

/// The walk keeps what was collected: where all definitions under an
/// identifier in a tree give the same address and title, and the link table
/// holds them under the identifier before the tree is rendered, it holds them
/// afterwards too. So a reference resolves to them wherever it stands, before
/// the definition or behind it.
pub proof fn lemma_rendering_keeps_definition(
    node: NodeView,
    config: AppConfig,
    state: RenderState,
    identifier: Seq<char>,
    value: (Seq<char>, Option<Seq<char>>),
)
    requires
        defines_only(node, identifier, value),
        lookup(state.links, identifier) == Some(value),
    ensures
        lookup(rendering(node, config, state).state.links, identifier) == Some(value),
    decreases node, 1nat,
{
    let n = node.children.len();
    match node.kind {
        KindView::List { ordered } => {
            lemma_children_keep_definition(
                node.children,
                n,
                config,
                list_opened(state, ordered),
                identifier,
                value,
            );
        },
        KindView::ListItem { .. } => {
            lemma_children_keep_definition(
                node.children,
                n,
                config,
                indented(count_item(state)),
                identifier,
                value,
            );
        },
        KindView::Blockquote => {
            if admonition_of(node).is_none() {
                lemma_children_keep_definition(
                    node.children,
                    n,
                    config,
                    indented(state),
                    identifier,
                    value,
                );
            }
        },
        KindView::Delete => {
            lemma_struck_keep_definition(node.children, n, config, state, identifier, value);
        },
        KindView::Definition { identifier: id, url, title } => {
            lemma_store_lookup(state.links, id, (url, title));
        },
        KindView::Root | KindView::Heading { .. } | KindView::Paragraph | KindView::Link { .. }
        | KindView::Emphasis | KindView::Strong | KindView::LinkReference { .. }
        | KindView::Html { .. } => {
            lemma_children_keep_definition(node.children, n, config, state, identifier, value);
        },
        _ => {},
    }
}

/// The same of rendering the first `k` nodes of a sequence.
pub proof fn lemma_children_keep_definition(
    nodes: Seq<NodeView>,
    k: nat,
    config: AppConfig,
    state: RenderState,
    identifier: Seq<char>,
    value: (Seq<char>, Option<Seq<char>>),
)
    requires
        forall|i: int| 0 <= i < nodes.len() ==> defines_only(#[trigger] nodes[i], identifier, value),
        lookup(state.links, identifier) == Some(value),
    ensures
        lookup(rendering_of_first(nodes, k, config, state).state.links, identifier) == Some(value),
    decreases nodes, k,
{
    if k == 0 || k > nodes.len() {
    } else {
        lemma_children_keep_definition(nodes, (k - 1) as nat, config, state, identifier, value);
        lemma_rendering_keeps_definition(
            nodes[k - 1],
            config,
            rendering_of_first(nodes, (k - 1) as nat, config, state).state,
            identifier,
            value,
        );
    }
}

/// The same of rendering the first `k` nodes of a sequence struck through.
pub proof fn lemma_struck_keep_definition(
    nodes: Seq<NodeView>,
    k: nat,
    config: AppConfig,
    state: RenderState,
    identifier: Seq<char>,
    value: (Seq<char>, Option<Seq<char>>),
)
    requires
        forall|i: int| 0 <= i < nodes.len() ==> defines_only(#[trigger] nodes[i], identifier, value),
        lookup(state.links, identifier) == Some(value),
    ensures
        lookup(rendering_struck(nodes, k, config, state).state.links, identifier) == Some(value),
    decreases nodes, k,
{
    if k == 0 || k > nodes.len() {
    } else {
        lemma_struck_keep_definition(nodes, (k - 1) as nat, config, state, identifier, value);
        lemma_rendering_keeps_definition(
            nodes[k - 1],
            config,
            rendering_struck(nodes, (k - 1) as nat, config, state).state,
            identifier,
            value,
        );
    }
}

/// Lists are opened and closed in pairs: rendering a tree leaves each of the
/// two list stacks as long as it found it. So two stacks that were as long as
/// each other before a tree is rendered are so afterwards.
pub proof fn lemma_rendering_keeps_stacks(node: NodeView, config: AppConfig, state: RenderState)
    ensures
        rendering(node, config, state).state.list_stack.len() == state.list_stack.len(),
        rendering(node, config, state).state.ordered_flags.len() == state.ordered_flags.len(),
    decreases node, 1nat,
{
    let n = node.children.len();
    match node.kind {
        KindView::List { ordered } => {
            lemma_children_keep_stacks(node.children, n, config, list_opened(state, ordered));
        },
        KindView::ListItem { .. } => {
            lemma_children_keep_stacks(node.children, n, config, indented(count_item(state)));
        },
        KindView::Blockquote => {
            if admonition_of(node).is_none() {
                lemma_children_keep_stacks(node.children, n, config, indented(state));
            }
        },
        KindView::Delete => {
            lemma_struck_keep_stacks(node.children, n, config, state);
        },
        KindView::Root | KindView::Heading { .. } | KindView::Paragraph | KindView::Link { .. }
        | KindView::Emphasis | KindView::Strong | KindView::LinkReference { .. }
        | KindView::Html { .. } => {
            lemma_children_keep_stacks(node.children, n, config, state);
        },
        _ => {},
    }
}

/// The same of rendering the first `k` nodes of a sequence.
pub proof fn lemma_children_keep_stacks(
    nodes: Seq<NodeView>,
    k: nat,
    config: AppConfig,
    state: RenderState,
)
    ensures
        rendering_of_first(nodes, k, config, state).state.list_stack.len()
            == state.list_stack.len(),
        rendering_of_first(nodes, k, config, state).state.ordered_flags.len()
            == state.ordered_flags.len(),
    decreases nodes, k,
{
    if k == 0 || k > nodes.len() {
    } else {
        lemma_children_keep_stacks(nodes, (k - 1) as nat, config, state);
        lemma_rendering_keeps_stacks(
            nodes[k - 1],
            config,
            rendering_of_first(nodes, (k - 1) as nat, config, state).state,
        );
    }
}

/// The same of rendering the first `k` nodes of a sequence struck through.
pub proof fn lemma_struck_keep_stacks(
    nodes: Seq<NodeView>,
    k: nat,
    config: AppConfig,
    state: RenderState,
)
    ensures
        rendering_struck(nodes, k, config, state).state.list_stack.len() == state.list_stack.len(),
        rendering_struck(nodes, k, config, state).state.ordered_flags.len()
            == state.ordered_flags.len(),
    decreases nodes, k,
{
    if k == 0 || k > nodes.len() {
    } else {
        lemma_struck_keep_stacks(nodes, (k - 1) as nat, config, state);
        lemma_rendering_keeps_stacks(
            nodes[k - 1],
            config,
            rendering_struck(nodes, (k - 1) as nat, config, state).state,
        );
    }
}

} // verus!
