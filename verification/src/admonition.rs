//! Admonitions: a block quote whose text begins with `[!NOTE]`, `[!TIP]`,
//! `[!IMPORTANT]`, `[!WARNING]` or `[!CAUTION]` is a callout of that kind.
use vstd::prelude::*;

use crate::node::{AstNode, Kind, KindView, NodeView};
use crate::output::{Color, OpView, Output, Style};
use crate::text::{
    chars_of, find, find_char, join, lemma_find_from, texts_view, push_joined,
    push_str, slice_chars, starts_with, str_is, to_uppercase, trim, trim_chars, uppercase,
};

verus! {

/// The kind of a callout.
#[derive(Clone, Copy, PartialEq, Eq, Debug, Structural)]
pub enum AdmonitionType {
    Note,
    Tip,
    Important,
    Warning,
    Caution,
}

/// The kind that an upper-case keyword names.
pub open spec fn admonition_named(upper: Seq<char>) -> Option<AdmonitionType> {
    if upper == "NOTE"@ {
        Some(AdmonitionType::Note)
    } else if upper == "TIP"@ {
        Some(AdmonitionType::Tip)
    } else if upper == "IMPORTANT"@ {
        Some(AdmonitionType::Important)
    } else if upper == "WARNING"@ {
        Some(AdmonitionType::Warning)
    } else if upper == "CAUTION"@ {
        Some(AdmonitionType::Caution)
    } else {
        None
    }
}

impl AdmonitionType {
    /// The colour that the callout's label is written in.
    pub open spec fn spec_color(self) -> Color {
        match self {
            AdmonitionType::Note => Color::Cyan,
            AdmonitionType::Tip => Color::Green,
            AdmonitionType::Important => Color::Magenta,
            AdmonitionType::Warning => Color::Yellow,
            AdmonitionType::Caution => Color::Red,
        }
    }

    /// The icon that stands in front of the label, with the space behind it.
    pub open spec fn spec_icon(self) -> Seq<char> {
        match self {
            AdmonitionType::Note => "\u{ea74} "@,
            AdmonitionType::Tip => "\u{f400} "@,
            AdmonitionType::Important => "\u{f46e} "@,
            AdmonitionType::Warning => "\u{f071} "@,
            AdmonitionType::Caution => "\u{ea87} "@,
        }
    }

    /// The word that labels the callout.
    pub open spec fn spec_name(self) -> Seq<char> {
        match self {
            AdmonitionType::Note => "Note"@,
            AdmonitionType::Tip => "Tip"@,
            AdmonitionType::Important => "Important"@,
            AdmonitionType::Warning => "Warning"@,
            AdmonitionType::Caution => "Caution"@,
        }
    }

    /// The kind that the keyword `upper` names. The keyword is compared as
    /// it stands: `NOTE`, `TIP`, `IMPORTANT`, `WARNING` and `CAUTION` name a
    /// kind, nothing else does.
    pub fn from_uppercase(upper: &str) -> (r: Option<AdmonitionType>)
        ensures
            r == admonition_named(upper@),
    {
        if str_is(upper, "NOTE") {
            Some(AdmonitionType::Note)
        } else if str_is(upper, "TIP") {
            Some(AdmonitionType::Tip)
        } else if str_is(upper, "IMPORTANT") {
            Some(AdmonitionType::Important)
        } else if str_is(upper, "WARNING") {
            Some(AdmonitionType::Warning)
        } else if str_is(upper, "CAUTION") {
            Some(AdmonitionType::Caution)
        } else {
            None
        }
    }

    /// The kind that the keyword `s` names, whatever the case of its letters.
    pub fn from_str(s: &str) -> (r: Option<AdmonitionType>)
        ensures
            r == admonition_named(uppercase(s@)),
    {
        let upper = to_uppercase(s);
        AdmonitionType::from_uppercase(upper.as_str())
    }

    /// The colour that the callout's label is written in.
    pub fn color(&self) -> (c: Color)
        ensures
            c == self.spec_color(),
    {
        match self {
            AdmonitionType::Note => Color::Cyan,
            AdmonitionType::Tip => Color::Green,
            AdmonitionType::Important => Color::Magenta,
            AdmonitionType::Warning => Color::Yellow,
            AdmonitionType::Caution => Color::Red,
        }
    }

    /// The icon that stands in front of the label, with the space behind it.
    pub fn icon(&self) -> (s: &'static str)
        ensures
            s@ == self.spec_icon(),
    {
        match self {
            AdmonitionType::Note => "\u{ea74} ",
            AdmonitionType::Tip => "\u{f400} ",
            AdmonitionType::Important => "\u{f46e} ",
            AdmonitionType::Warning => "\u{f071} ",
            AdmonitionType::Caution => "\u{ea87} ",
        }
    }

    /// The word that labels the callout.
    pub fn name(&self) -> (s: &'static str)
        ensures
            s@ == self.spec_name(),
    {
        match self {
            AdmonitionType::Note => "Note",
            AdmonitionType::Tip => "Tip",
            AdmonitionType::Important => "Important",
            AdmonitionType::Warning => "Warning",
            AdmonitionType::Caution => "Caution",
        }
    }
}

/// The literals of the nodes of `nodes` from position `from` up to `to`,
/// leaving out the nodes that carry none.
pub open spec fn literals(nodes: Seq<NodeView>, from: nat, to: nat) -> Seq<Seq<char>>
    decreases to,
{
    if to <= from || to > nodes.len() {
        Seq::empty()
    } else {
        literals(nodes, from, (to - 1) as nat) + match nodes[to - 1].kind.literal() {
            Some(value) => seq![value],
            None => Seq::empty(),
        }
    }
}

/// The literals of the children of `node` from position `from` on.
pub fn collect_literals(node: &AstNode, from: usize) -> (v: Vec<Vec<char>>)
    ensures
        texts_view(v@) == literals(node@.children, from as nat, node@.children.len()),
{
    let mut v: Vec<Vec<char>> = Vec::new();
    proof {
        node.lemma_view();
        assert(texts_view(v@) =~= Seq::<Seq<char>>::empty());
    }
    if from >= node.children.len() {
        return v;
    }
    let mut i: usize = from;
    while i < node.children.len()
        invariant
            from <= i <= node.children.len(),
            node@.children.len() == node.children@.len(),
            forall|k: int|
                0 <= k < node.children@.len() ==> (#[trigger] node@.children[k])
                    == node.children@[k]@,
            texts_view(v@) == literals(node@.children, from as nat, i as nat),
        decreases node.children.len() - i,
    {
        let ghost before = texts_view(v@);
        proof {
            node.children[i as int].lemma_view();
        }
        match node.children[i].kind.literal() {
            Some(value) => {
                v.push(chars_of(value.as_str()));
                proof {
                    assert(texts_view(v@) =~= before + seq![value@]);
                }
            },
            None => {
                proof {
                    assert(before + Seq::<Seq<char>>::empty() =~= before);
                }
            },
        }
        i = i + 1;
    }
    v
}

/// The callout that a paragraph makes whose first text is `text` and whose
/// nodes are `siblings`: `text` begins with `[!`, the keyword reaches to the
/// first `]` and names a kind, and the content is the rest of `text` without
/// the whitespace round it, followed by the literals of the other nodes with
/// spaces between them.
pub open spec fn admonition_in(text: Seq<char>, siblings: Seq<NodeView>) -> Option<
    (AdmonitionType, Seq<char>),
> {
    if !"[!"@.is_prefix_of(text) {
        None
    } else {
        match find(text, ']') {
            Some(end) => {
                if 2 <= end < text.len() {
                    match admonition_named(uppercase(text.subrange(2, end))) {
                        Some(kind) => Some(
                            (
                                kind,
                                trim(text.skip(end + 1)) + join(
                                    literals(siblings, 1, siblings.len()),
                                    " "@,
                                ),
                            ),
                        ),
                        None => None,
                    }
                } else {
                    None
                }
            },
            None => None,
        }
    }
}

/// The callout that `node` is, if it is one: a block quote whose first child
/// is a paragraph that begins with a text that opens a callout.
pub open spec fn admonition_of(node: NodeView) -> Option<(AdmonitionType, Seq<char>)> {
    if node.kind is Blockquote && node.children.len() > 0 {
        let paragraph = node.children[0];
        if paragraph.kind is Paragraph && paragraph.children.len() > 0 {
            match paragraph.children[0].kind {
                KindView::Text { value } => admonition_in(value, paragraph.children),
                _ => None,
            }
        } else {
            None
        }
    } else {
        None
    }
}

/// The kind and content of the callout that `text` opens in `paragraph`.
fn parse_admonition_text(text: &Vec<char>, paragraph: &AstNode) -> (r: Option<
    (AdmonitionType, String),
>)
    ensures
        match r {
            Some((kind, content)) => admonition_in(text@, paragraph@.children) == Some(
                (kind, content@),
            ),
            None => admonition_in(text@, paragraph@.children).is_none(),
        },
{
    let opening = chars_of("[!");
    if !starts_with(text, &opening) {
        return None;
    }
    proof {
        reveal_strlit("[!");
        lemma_find_from(text@, ']', 0);
        assert(opening@[0] == '[' && opening@[1] == '!');
        assert(text@[0] == opening@[0] && text@[1] == opening@[1]);
    }
    match find_char(text, ']', 0) {
        Some(end) => {
            let keyword = slice_chars(text, 2, end);
            match AdmonitionType::from_str(crate::text::string_of(&keyword).as_str()) {
                Some(kind) => {
                    let rest = slice_chars(text, end + 1, text.len());
                    let mut content = trim_chars(&rest);
                    let others = collect_literals(paragraph, 1);
                    push_joined(&mut content, &others, " ");
                    Some((kind, crate::text::string_of(&content)))
                },
                None => None,
            }
        },
        None => None,
    }
}

/// The kind and content of the callout that `node` is, if it is one.
pub fn parse_admonition(node: &AstNode) -> (r: Option<(AdmonitionType, String)>)
    ensures
        match r {
            Some((kind, content)) => admonition_of(node@) == Some((kind, content@)),
            None => admonition_of(node@).is_none(),
        },
{
    proof {
        node.lemma_view();
    }
    match &node.kind {
        Kind::Blockquote => {},
        _ => {
            return None;
        },
    }
    if node.children.len() == 0 {
        return None;
    }
    let paragraph = &node.children[0];
    proof {
        paragraph.lemma_view();
    }
    match &paragraph.kind {
        Kind::Paragraph => {},
        _ => {
            return None;
        },
    }
    if paragraph.children.len() == 0 {
        return None;
    }
    proof {
        paragraph.children[0].lemma_view();
    }
    match &paragraph.children[0].kind {
        Kind::Text { value } => {
            let text = chars_of(value.as_str());
            parse_admonition_text(&text, paragraph)
        },
        _ => None,
    }
}

/// The operations that write a callout: the label in the colour of its kind,
/// then the content and a line feed.
pub open spec fn admonition_ops(kind: AdmonitionType, content: Seq<char>) -> Seq<OpView> {
    seq![
        OpView::SetStyle(Style::fg_bold(kind.spec_color())),
        OpView::Text(kind.spec_icon() + " "@ + kind.spec_name() + ": "@),
        OpView::Reset,
        OpView::Text(content + "\n"@),
    ]
}

/// Writes a callout as one line.
pub fn render_admonition(admonition_type: AdmonitionType, content: &str, out: &mut Output)
    ensures
        final(out)@ == old(out)@ + admonition_ops(admonition_type, content@),
{
    out.style(Style::with_fg_bold(admonition_type.color()));
    let mut label: Vec<char> = Vec::new();
    push_str(&mut label, admonition_type.icon());
    push_str(&mut label, " ");
    push_str(&mut label, admonition_type.name());
    push_str(&mut label, ": ");
    out.text_chars(&label);
    out.reset();
    let mut line: Vec<char> = Vec::new();
    push_str(&mut line, content);
    push_str(&mut line, "\n");
    out.text_chars(&line);
}

} // verus!
