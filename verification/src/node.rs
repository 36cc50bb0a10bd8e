//! The document tree: a node is a kind with its own data and an ordered
//! sequence of children.
use vstd::prelude::*;

verus! {

/// The view of an optional string.
pub open spec fn opt_view(o: Option<String>) -> Option<Seq<char>> {
    match o {
        Some(s) => Some(s@),
        None => None,
    }
}

/// What a node is, with the data that belongs to that kind.
#[derive(Clone, PartialEq, Eq, Debug)]
pub enum Kind {
    Root,
    Heading { depth: u8 },
    Paragraph,
    Text { value: String },
    Code { value: String, lang: Option<String> },
    Table,
    TableRow,
    TableCell,
    List { ordered: bool },
    ListItem { checked: Option<bool> },
    Blockquote,
    ThematicBreak,
    Link { url: String, title: Option<String> },
    Image { url: String, alt: String },
    Emphasis,
    Strong,
    Delete,
    InlineCode { value: String },
    FootnoteReference { identifier: String },
    FootnoteDefinition { identifier: String },
    ImageReference { identifier: String, alt: String },
    Definition { identifier: String, url: String, title: Option<String> },
    LinkReference { identifier: String },
    Html { value: String },
    /// A kind that the renderer has no rule for, with the name it goes by and
    /// the literal text that it carries, if it carries any.
    Other { name: String, value: Option<String> },
}

/// `Kind` as plain values.
pub enum KindView {
    Root,
    Heading { depth: u8 },
    Paragraph,
    Text { value: Seq<char> },
    Code { value: Seq<char>, lang: Option<Seq<char>> },
    Table,
    TableRow,
    TableCell,
    List { ordered: bool },
    ListItem { checked: Option<bool> },
    Blockquote,
    ThematicBreak,
    Link { url: Seq<char>, title: Option<Seq<char>> },
    Image { url: Seq<char>, alt: Seq<char> },
    Emphasis,
    Strong,
    Delete,
    InlineCode { value: Seq<char> },
    FootnoteReference { identifier: Seq<char> },
    FootnoteDefinition { identifier: Seq<char> },
    ImageReference { identifier: Seq<char>, alt: Seq<char> },
    Definition { identifier: Seq<char>, url: Seq<char>, title: Option<Seq<char>> },
    LinkReference { identifier: Seq<char> },
    Html { value: Seq<char> },
    Other { name: Seq<char>, value: Option<Seq<char>> },
}

impl View for Kind {
    type V = KindView;

    open spec fn view(&self) -> KindView {
        match self {
            Kind::Root => KindView::Root,
            Kind::Heading { depth } => KindView::Heading { depth: *depth },
            Kind::Paragraph => KindView::Paragraph,
            Kind::Text { value } => KindView::Text { value: value@ },
            Kind::Code { value, lang } => KindView::Code { value: value@, lang: opt_view(*lang) },
            Kind::Table => KindView::Table,
            Kind::TableRow => KindView::TableRow,
            Kind::TableCell => KindView::TableCell,
            Kind::List { ordered } => KindView::List { ordered: *ordered },
            Kind::ListItem { checked } => KindView::ListItem { checked: *checked },
            Kind::Blockquote => KindView::Blockquote,
            Kind::ThematicBreak => KindView::ThematicBreak,
            Kind::Link { url, title } => KindView::Link { url: url@, title: opt_view(*title) },
            Kind::Image { url, alt } => KindView::Image { url: url@, alt: alt@ },
            Kind::Emphasis => KindView::Emphasis,
            Kind::Strong => KindView::Strong,
            Kind::Delete => KindView::Delete,
            Kind::InlineCode { value } => KindView::InlineCode { value: value@ },
            Kind::FootnoteReference { identifier } => KindView::FootnoteReference {
                identifier: identifier@,
            },
            Kind::FootnoteDefinition { identifier } => KindView::FootnoteDefinition {
                identifier: identifier@,
            },
            Kind::ImageReference { identifier, alt } => KindView::ImageReference {
                identifier: identifier@,
                alt: alt@,
            },
            Kind::Definition { identifier, url, title } => KindView::Definition {
                identifier: identifier@,
                url: url@,
                title: opt_view(*title),
            },
            Kind::LinkReference { identifier } => KindView::LinkReference {
                identifier: identifier@,
            },
            Kind::Html { value } => KindView::Html { value: value@ },
            Kind::Other { name, value } => KindView::Other { name: name@, value: opt_view(*value) },
        }
    }
}

impl KindView {
    /// The literal text that a node of this kind carries, if it carries any.
    pub open spec fn literal(self) -> Option<Seq<char>> {
        match self {
            KindView::Text { value } => Some(value),
            KindView::Code { value, .. } => Some(value),
            KindView::InlineCode { value } => Some(value),
            KindView::Html { value } => Some(value),
            KindView::Other { value, .. } => value,
            _ => None,
        }
    }
}

impl Kind {
    /// The literal text that a node of this kind carries, if it carries any.
    pub fn literal(&self) -> (r: Option<&String>)
        ensures
            match r {
                Some(s) => self@.literal() == Some(s@),
                None => self@.literal().is_none(),
            },
    {
        match self {
            Kind::Text { value } => Some(value),
            Kind::Code { value, .. } => Some(value),
            Kind::InlineCode { value } => Some(value),
            Kind::Html { value } => Some(value),
            Kind::Other { value: Some(value), .. } => Some(value),
            _ => None,
        }
    }
}

/// A node of the document tree.
#[derive(PartialEq, Eq, Debug)]
pub struct AstNode {
    pub kind: Kind,
    pub children: Vec<AstNode>,
}

/// `AstNode` as plain values: the tree as specifications speak of it.
#[verifier::ext_equal]
pub struct NodeView {
    pub kind: KindView,
    pub children: Seq<NodeView>,
}

/// The view of a node: the view of its kind, and the views of its children.
pub open spec fn node_view(node: AstNode) -> NodeView
    decreases node,
{
    NodeView {
        kind: node.kind@,
        children: Seq::new(
            node.children@.len(),
            |i: int|
                if 0 <= i < node.children@.len() {
                    node_view(node.children@[i])
                } else {
                    arbitrary()
                },
        ),
    }
}

impl View for AstNode {
    type V = NodeView;

    open spec fn view(&self) -> NodeView {
        node_view(*self)
    }
}

/// The views of the nodes of `nodes`.
pub open spec fn nodes_view(nodes: Seq<AstNode>) -> Seq<NodeView> {
    Seq::new(nodes.len(), |i: int| nodes[i]@)
}

impl AstNode {
    /// A node of the given kind with the given children.
    pub fn new(kind: Kind, children: Vec<AstNode>) -> (node: AstNode)
        ensures
            node.kind == kind,
            node.children == children,
            node@.kind == kind@,
            node@.children == nodes_view(children@),
    {
        let node = AstNode { kind, children };
        proof {
            node.lemma_view();
        }
        node
    }

    /// A node of the given kind without children.
    pub fn leaf(kind: Kind) -> (node: AstNode)
        ensures
            node@.kind == kind@,
            node@.children == Seq::<NodeView>::empty(),
    {
        let node = AstNode { kind, children: Vec::new() };
        proof {
            node.lemma_view();
            assert(node@.children =~= Seq::<NodeView>::empty());
        }
        node
    }

    /// A text node with the given value.
    pub fn text(value: &str) -> (node: AstNode)
        ensures
            node@.kind == (KindView::Text { value: value@ }),
            node@.children == Seq::<NodeView>::empty(),
    {
        AstNode::leaf(Kind::Text { value: String::from_str(value) })
    }

    /// The view of a node, field by field.
    pub proof fn lemma_view(self)
        ensures
            self@.kind == self.kind@,
            self@.children == nodes_view(self.children@),
            self@.children.len() == self.children@.len(),
            forall|i: int|
                0 <= i < self.children@.len() ==> (#[trigger] self@.children[i])
                    == self.children@[i]@,
    {
        assert(self@.children.len() == self.children@.len());
        assert forall|i: int| 0 <= i < self.children@.len() implies (#[trigger] self@.children[i])
            == self.children@[i]@ by {}
        assert(self@.children =~= nodes_view(self.children@));
    }
}

} // verus!
