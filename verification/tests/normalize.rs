use see::node::{AstNode, Kind};
use see::utils::ast::{modify_heading_ast, modify_list_item_ast, node_to_string, process_definitions};
use see::utils::shared::{get_link_definition, LinkTable};

fn node(kind: Kind, children: Vec<AstNode>) -> AstNode {
    AstNode::new(kind, children)
}

fn text(value: &str) -> AstNode {
    AstNode::text(value)
}

#[test]
fn heading_with_trailing_text_gains_exactly_one_colon() {
    let mut tree = node(
        Kind::Root,
        vec![
            node(Kind::Heading { depth: 1 }, vec![node(Kind::Strong, vec![text("a")]), text("Title")]),
            node(Kind::Paragraph, vec![text("body")]),
        ],
    );
    modify_heading_ast(&mut tree);
    let expected = node(
        Kind::Root,
        vec![
            node(Kind::Heading { depth: 1 }, vec![node(Kind::Strong, vec![text("a")]), text("Title:")]),
            node(Kind::Paragraph, vec![text("body")]),
        ],
    );
    assert_eq!(tree, expected);
}

#[test]
fn heading_without_trailing_text_is_unchanged_and_second_pass_adds_another_colon() {
    let mut tree = node(Kind::Heading { depth: 2 }, vec![text("x"), node(Kind::Emphasis, vec![text("y")])]);
    modify_heading_ast(&mut tree);
    assert_eq!(
        tree,
        node(Kind::Heading { depth: 2 }, vec![text("x"), node(Kind::Emphasis, vec![text("y")])])
    );
    let mut again = node(Kind::Heading { depth: 2 }, vec![text("T")]);
    modify_heading_ast(&mut again);
    modify_heading_ast(&mut again);
    assert_eq!(again, node(Kind::Heading { depth: 2 }, vec![text("T::")]));
    let mut empty = node(Kind::Heading { depth: 2 }, vec![]);
    modify_heading_ast(&mut empty);
    assert_eq!(empty, node(Kind::Heading { depth: 2 }, vec![]));
}

#[test]
fn nested_heading_inside_blockquote_gets_colon() {
    let mut tree = node(
        Kind::Blockquote,
        vec![node(Kind::Heading { depth: 3 }, vec![text("Deep")])],
    );
    modify_heading_ast(&mut tree);
    assert_eq!(
        tree,
        node(Kind::Blockquote, vec![node(Kind::Heading { depth: 3 }, vec![text("Deep:")])])
    );
}

#[test]
fn tight_list_items_are_unwrapped_at_any_depth() {
    let item = |children: Vec<AstNode>| node(Kind::ListItem { checked: None }, children);
    let list = |children: Vec<AstNode>| node(Kind::List { ordered: false }, children);
    let para = |children: Vec<AstNode>| node(Kind::Paragraph, children);
    let mut tree = list(vec![
        item(vec![para(vec![text("a"), node(Kind::Strong, vec![text("b")])])]),
        item(vec![para(vec![text("c")]), list(vec![item(vec![para(vec![text("d")])])])]),
    ]);
    modify_list_item_ast(&mut tree);
    let expected = list(vec![
        item(vec![text("a"), node(Kind::Strong, vec![text("b")])]),
        item(vec![para(vec![text("c")]), list(vec![item(vec![text("d")])])]),
    ]);
    assert_eq!(tree, expected);
}

#[test]
fn list_item_with_other_single_child_is_kept() {
    let mut tree = node(Kind::ListItem { checked: Some(true) }, vec![text("bare")]);
    modify_list_item_ast(&mut tree);
    assert_eq!(tree, node(Kind::ListItem { checked: Some(true) }, vec![text("bare")]));
    let mut quote = node(Kind::Blockquote, vec![node(Kind::Paragraph, vec![text("p")])]);
    modify_list_item_ast(&mut quote);
    assert_eq!(quote, node(Kind::Blockquote, vec![node(Kind::Paragraph, vec![text("p")])]));
}

#[test]
fn unwrapped_item_children_are_normalized_too() {
    let item = |children: Vec<AstNode>| node(Kind::ListItem { checked: None }, children);
    let para = |children: Vec<AstNode>| node(Kind::Paragraph, children);
    let mut tree = item(vec![para(vec![item(vec![para(vec![text("x")])])])]);
    modify_list_item_ast(&mut tree);
    assert_eq!(tree, item(vec![item(vec![text("x")])]));
}

#[test]
fn definitions_are_collected_last_write_wins() {
    let def = |id: &str, url: &str| {
        node(
            Kind::Definition { identifier: id.to_string(), url: url.to_string(), title: None },
            vec![],
        )
    };
    let tree = node(
        Kind::Root,
        vec![def("a", "1"), node(Kind::Blockquote, vec![def("b", "2"), def("a", "3")])],
    );
    let mut links = LinkTable::new();
    process_definitions(&tree, &mut links);
    assert_eq!(get_link_definition(&links, "a"), Some(("3".to_string(), None)));
    assert_eq!(get_link_definition(&links, "b"), Some(("2".to_string(), None)));
    assert_eq!(get_link_definition(&links, "c"), None);
    assert_eq!(links.entries.len(), 2);
    assert_eq!(links.entries[0].identifier, "a");
    assert_eq!(links.entries[1].identifier, "b");
}

#[test]
fn node_text_concatenates_descendant_texts() {
    let tree = node(
        Kind::Paragraph,
        vec![
            text("a "),
            node(Kind::Emphasis, vec![text("b"), node(Kind::InlineCode { value: "skipped".to_string() }, vec![])]),
            text(" c"),
        ],
    );
    assert_eq!(node_to_string(&tree), "a b c");
    assert_eq!(node_to_string(&text("leaf")), "leaf");
}
