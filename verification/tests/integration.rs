use commonmark_rust::html::{Node, NodeTree, NodeType, Text};
use commonmark_rust::parser::parse;

#[test]
fn multiple_spaces() {
    assert_eq!(parse("Multiple     spaces"), "<p>Multiple     spaces</p>");
}

#[test]
fn foo_unicode() {
    assert_eq!(parse("Foo χρῆν"), "<p>Foo χρῆν</p>");
}

#[test]
fn hello_symbols_there() {
    assert_eq!(parse("hello $.;'there"), "<p>hello $.;'there</p>");
}

#[test]
fn foo_whitespace_newline_baz() {
    assert_eq!(parse("foo \n baz"), "<p>foo\nbaz</p>");
}

#[test]
fn foo_newline_baz() {
    assert_eq!(parse("foo\nbaz"), "<p>foo\nbaz</p>");
}

#[test]
fn thematic_break_renders_without_paragraph() {
    assert_eq!(parse("---"), "<hr />");
    assert_eq!(parse("  * * *  "), "<hr />");
}

#[test]
fn thematic_break_then_text() {
    assert_eq!(parse("---\nfoo"), "<hr /><p>foo</p>");
    assert_eq!(parse("***\n---\nfoo"), "<hr /><hr /><p>foo</p>");
}

#[test]
fn empty_input_renders_nothing() {
    assert_eq!(parse(""), "");
}

#[test]
fn rendering_twice_yields_identical_html() {
    assert_eq!(parse("---\nfoo"), parse("---\nfoo"));

    let node = Node::new(NodeType::TextNode(Text::new("hello")));
    let first = node.to_html();
    let second = node.to_html();
    assert_eq!(first, second);
    assert_eq!(first, "<p>hello</p>");
}

#[test]
fn text_node_keeps_its_data() {
    let text = Text::new("some data");
    assert_eq!(text.data(), "some data");

    let node = Node::new(NodeType::TextNode(Text::new("some data")));
    assert_eq!(node.node_name(), "#text");
}

#[test]
fn node_tree_keeps_insertion_order() {
    let mut tree = NodeTree::new();
    tree.add(Node::new(NodeType::TextNode(Text::new("a"))));
    tree.add(Node::new(NodeType::TextNode(Text::new("b"))));
    let nodes = tree.nodes();
    assert_eq!(nodes.len(), 2);
    assert_eq!(nodes[0].to_html(), "<p>a</p>");
    assert_eq!(nodes[1].to_html(), "<p>b</p>");
}
