//! The document tree: the typed node hierarchy that parsing writes and
//! rendering reads, together with the HTML serialization of each node kind.

use vstd::prelude::*;

verus! {

/// Abstract value of a node: either a horizontal-rule element (a leaf
/// element with no children) or a run of decoded character data.
pub enum NodeV {
    Hr,
    Text(Seq<char>),
}

/// Canonical HTML text of one top-level node: a horizontal rule renders as a
/// self-closing tag, character data renders wrapped in a paragraph container.
pub open spec fn render_node(n: NodeV) -> Seq<char> {
    match n {
        NodeV::Hr => "<hr />"@,
        NodeV::Text(d) => "<p>"@ + d + "</p>"@,
    }
}

/// HTML text of a whole document: each top-level node in document order.
pub open spec fn render_nodes(ns: Seq<NodeV>) -> Seq<char>
    decreases ns.len(),
{
    if ns.len() == 0 {
        Seq::empty()
    } else {
        render_node(ns[0]) + render_nodes(ns.drop_first())
    }
}

/// Rendering one more node appends its text: the unfolding of `render_nodes`
/// from the back, used when a loop emits nodes front to back.
pub proof fn lemma_render_nodes_push(ns: Seq<NodeV>, n: NodeV)
    ensures
        render_nodes(ns.push(n)) == render_nodes(ns) + render_node(n),
    decreases ns.len(),
{
    if ns.len() == 0 {
        assert(ns.push(n).drop_first() =~= Seq::<NodeV>::empty());
        assert(ns.push(n)[0] == n);
        assert(ns.push(n).len() == 1);
        assert(render_nodes(Seq::<NodeV>::empty()) == Seq::<char>::empty());
        assert(render_nodes(ns.push(n)) == render_node(n) + Seq::<char>::empty());
        assert(render_node(n) + Seq::<char>::empty() =~= render_node(n));
        assert(Seq::<char>::empty() + render_node(n) =~= render_node(n));
    } else {
        assert(ns.push(n).drop_first() =~= ns.drop_first().push(n));
        lemma_render_nodes_push(ns.drop_first(), n);
        assert(render_nodes(ns.push(n)) =~= render_nodes(ns) + render_node(n));
    }
}

/// The renderer is a pure function of the tree: serializing the same sequence
/// of nodes a second time yields the identical HTML text.
pub proof fn lemma_render_pure(ns: Seq<NodeV>, first: Seq<char>, second: Seq<char>)
    requires
        first == render_nodes(ns),
        second == render_nodes(ns),
    ensures
        first == second,
{
}

/// The ordered top-level container of the document tree. Insertion order is
/// document order and is preserved through rendering.
pub struct NodeTree {
    root: Vec<Node>,
}

impl NodeTree {
    pub closed spec fn view(&self) -> Seq<NodeV> {
        self.root@.map_values(|n: Node| n@)
    }

    pub fn new() -> (t: Self)
        ensures
            t@ == Seq::<NodeV>::empty(),
    {
        let t = NodeTree { root: vec![] };
        proof {
            assert(t@ =~= Seq::<NodeV>::empty());
        }
        t
    }

    pub fn add(&mut self, node: Node)
        ensures
            final(self)@ == old(self)@.push(node@),
    {
        let ghost prev = self.root@;
        self.root.push(node);
        proof {
            assert(self@ =~= prev.map_values(|n: Node| n@).push(node@));
        }
    }

    pub fn nodes(&self) -> (r: &Vec<Node>)
        ensures
            r@.map_values(|n: Node| n@) == self@,
    {
        &self.root
    }
}

/// One node of the tree. The variant never changes after construction and
/// children, if any, are owned exclusively by their parent.
#[derive(Debug, PartialEq)]
pub struct Node {
    child_nodes: Vec<Node>,
    node_type: NodeType,
}

impl Node {
    pub closed spec fn view(&self) -> NodeV {
        self.node_type@
    }

    pub fn new(node_type: NodeType) -> (n: Self)
        ensures
            n@ == node_type@,
    {
        Node { child_nodes: vec![], node_type }
    }

    pub fn to_html(&self) -> (r: String)
        ensures
            r@ == render_node(self@),
    {
        match &self.node_type {
            NodeType::ElementNode(e) => match e.tag {
                HtmlTag::HR => String::from_str("<hr />"),
            },
            NodeType::TextNode(t) => {
                let mut html = String::from_str("<p>");
                html.append(t.data());
                html.append("</p>");
                html
            },
        }
    }

    pub fn node_name(&self) -> (r: &str)
        ensures
            r@ == spec_node_name(self@),
    {
        match &self.node_type {
            NodeType::TextNode(_) => "#text",
            NodeType::ElementNode(e) => e.tag.node_name(),
        }
    }
}

/// The DOM-style name reported for a node: `#text` for character data, the
/// canonical tag name for an element.
pub open spec fn spec_node_name(n: NodeV) -> Seq<char> {
    match n {
        NodeV::Hr => "HR"@,
        NodeV::Text(_) => "#text"@,
    }
}

/// The two states a node can be in: an element or decoded character data.
#[derive(Debug, PartialEq)]
pub enum NodeType {
    ElementNode(Element),
    TextNode(Text),
}

impl NodeType {
    pub closed spec fn view(&self) -> NodeV {
        match self {
            NodeType::ElementNode(e) => match e@ {
                HtmlTag::HR => NodeV::Hr,
            },
            NodeType::TextNode(t) => NodeV::Text(t@),
        }
    }
}

/// What a node built from an element is worth abstractly, stated for the
/// grammar rules that construct nodes outside this module.
pub proof fn lemma_element_node_view(e: Element)
    ensures
        (NodeType::ElementNode(e))@ == (match e@ {
            HtmlTag::HR => NodeV::Hr,
        }),
{
}

/// What a node built from character data is worth abstractly, stated for
/// the dispatcher that wraps literal text outside this module.
pub proof fn lemma_text_node_view(t: Text)
    ensures
        (NodeType::TextNode(t))@ == NodeV::Text(t@),
{
}

/// An element node: a tag plus (for richer constructs than the current rule
/// set) an ordered sequence of children held by the owning `Node`.
#[derive(Debug, PartialEq)]
pub struct Element {
    tag: HtmlTag,
}

impl Element {
    pub closed spec fn view(&self) -> HtmlTag {
        self.tag
    }

    pub fn new(tag: HtmlTag) -> (e: Self)
        ensures
            e@ == tag,
    {
        Element { tag }
    }
}

/// The closed enumeration of recognized element kinds. Each maps to exactly
/// one canonical HTML tag name and one rendering rule.
#[derive(Debug, PartialEq, Eq, Structural, Clone, Copy)]
pub enum HtmlTag {
    HR,
}

impl HtmlTag {
    fn node_name(&self) -> (r: &str)
        ensures
            r@ == "HR"@,
    {
        match self {
            HtmlTag::HR => "HR",
        }
    }
}

/// A text node: decoded character data as a sequence of Unicode scalar values.
#[derive(Debug, PartialEq)]
pub struct Text {
    data: String,
}

impl Text {
    pub closed spec fn view(&self) -> Seq<char> {
        self.data@
    }

    pub fn new(s: &str) -> (t: Self)
        ensures
            t@ == s@,
    {
        Text { data: String::from_str(s) }
    }

    pub fn data(&self) -> (r: &str)
        ensures
            r@ == self@,
    {
        self.data.as_str()
    }
}

} // verus!
