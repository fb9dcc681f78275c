use commonmark_rust::html::{Element, HtmlTag, Node, NodeType};
use commonmark_rust::parser::common::{FailureKind, ParseFailure};
use commonmark_rust::parser::thematic_break::line_hr;

#[test]
fn hr_wrong_characters() {
    assert_eq!(
        line_hr("+++"),
        Err(ParseFailure {
            kind: FailureKind::UnexpectedToken,
            pos: 0,
        }),
    );

    assert_eq!(
        line_hr("==="),
        Err(ParseFailure {
            kind: FailureKind::UnexpectedToken,
            pos: 0,
        }),
    );
}

#[test]
fn hr_different_types_simple() {
    let hr_el = Element::new(HtmlTag::HR);
    let hr_node = Node::new(NodeType::ElementNode(hr_el));
    assert_eq!(line_hr("___"), Ok(("", hr_node)));

    let hr_el = Element::new(HtmlTag::HR);
    let hr_node = Node::new(NodeType::ElementNode(hr_el));
    assert_eq!(line_hr("---"), Ok(("", hr_node)));

    let hr_el = Element::new(HtmlTag::HR);
    let hr_node = Node::new(NodeType::ElementNode(hr_el));
    assert_eq!(line_hr("***"), Ok(("", hr_node)));
}

#[test]
fn hr_mixed() {
    assert_eq!(
        line_hr("-*_"),
        Err(ParseFailure {
            kind: FailureKind::UnexpectedToken,
            pos: 1,
        }),
    );

    assert_eq!(
        line_hr(" *-*"),
        Err(ParseFailure {
            kind: FailureKind::UnexpectedToken,
            pos: 2,
        }),
    );
}

#[test]
fn hr_long() {
    let hr_el = Element::new(HtmlTag::HR);
    let hr_node = Node::new(NodeType::ElementNode(hr_el));

    assert_eq!(
        line_hr("_____________________________________"),
        Ok(("", hr_node)),
    );
}

#[test]
fn hr_mixed_termination() {
    assert_eq!(
        line_hr("***-_*"),
        Err(ParseFailure {
            kind: FailureKind::UnexpectedEndOfInput,
            pos: 3,
        }),
    );
}

#[test]
fn hr_insufficient_chars() {
    assert_eq!(
        line_hr("--"),
        Err(ParseFailure {
            kind: FailureKind::UnexpectedToken,
            pos: 2,
        }),
    );
}

#[test]
fn hr_allowed_indentation_spaces() {
    let hr_el = Element::new(HtmlTag::HR);
    let hr_node = Node::new(NodeType::ElementNode(hr_el));
    assert_eq!(line_hr(" ***"), Ok(("", hr_node)));

    let hr_el = Element::new(HtmlTag::HR);
    let hr_node = Node::new(NodeType::ElementNode(hr_el));
    assert_eq!(line_hr("  ***"), Ok(("", hr_node)));

    let hr_el = Element::new(HtmlTag::HR);
    let hr_node = Node::new(NodeType::ElementNode(hr_el));
    assert_eq!(line_hr("   ***"), Ok(("", hr_node)));
}

#[test]
fn hr_too_many_indentation_spaces() {
    assert_eq!(
        line_hr("    ***"),
        Err(ParseFailure {
            kind: FailureKind::UnexpectedToken,
            pos: 3,
        }),
    );
}

#[test]
fn hr_intermediate_spaces() {
    let hr_el = Element::new(HtmlTag::HR);
    let hr_node = Node::new(NodeType::ElementNode(hr_el));
    assert_eq!(line_hr(" - - -"), Ok(("", hr_node)));

    let hr_el = Element::new(HtmlTag::HR);
    let hr_node = Node::new(NodeType::ElementNode(hr_el));
    assert_eq!(line_hr(" **  * ** * ** * **"), Ok(("", hr_node)));

    let hr_el = Element::new(HtmlTag::HR);
    let hr_node = Node::new(NodeType::ElementNode(hr_el));
    assert_eq!(line_hr("-     -      -      -"), Ok(("", hr_node)));
}

#[test]
fn hr_allowed_post_spaces() {
    let hr_el = Element::new(HtmlTag::HR);
    let hr_node = Node::new(NodeType::ElementNode(hr_el));
    assert_eq!(line_hr(" - - -    "), Ok(("", hr_node)));

    let hr_el = Element::new(HtmlTag::HR);
    let hr_node = Node::new(NodeType::ElementNode(hr_el));
    assert_eq!(line_hr(" - - -\t"), Ok(("", hr_node)));
}

#[test]
fn hr_disallowed_chars() {
    assert_eq!(
        line_hr("_ _ _ _ a"),
        Err(ParseFailure {
            kind: FailureKind::UnexpectedEndOfInput,
            pos: 8,
        }),
    );

    assert_eq!(
        line_hr("a------"),
        Err(ParseFailure {
            kind: FailureKind::UnexpectedToken,
            pos: 0,
        }),
    );

    assert_eq!(
        line_hr("---a---"),
        Err(ParseFailure {
            kind: FailureKind::UnexpectedEndOfInput,
            pos: 3,
        }),
    );
}

#[test]
fn hr_consumes_through_line_terminator() {
    let hr_el = Element::new(HtmlTag::HR);
    let hr_node = Node::new(NodeType::ElementNode(hr_el));
    assert_eq!(line_hr("* * *\nrest"), Ok(("rest", hr_node)));

    let hr_el = Element::new(HtmlTag::HR);
    let hr_node = Node::new(NodeType::ElementNode(hr_el));
    assert_eq!(line_hr("---\r\nrest"), Ok(("rest", hr_node)));
}

#[test]
fn hr_with_tabs_between_rule_characters() {
    let hr_el = Element::new(HtmlTag::HR);
    let hr_node = Node::new(NodeType::ElementNode(hr_el));
    assert_eq!(line_hr("  *\t* \t *"), Ok(("", hr_node)));
}

#[test]
fn hr_node_reports_its_name() {
    let (_, node) = line_hr("***").unwrap();
    assert_eq!(node.node_name(), "HR");
    assert_eq!(node.to_html(), "<hr />");
}
