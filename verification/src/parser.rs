//! The top-level entry point: the dispatcher tries the grammar rules in
//! order against the input, appends each successful match to the document
//! tree, falls back to literal text where no rule matches, and the tree is
//! then serialized to HTML.

pub mod common;
pub mod html_entity;
pub mod thematic_break;

use vstd::prelude::*;

use crate::html::{
    lemma_render_nodes_push, lemma_text_node_view, render_nodes, Node, NodeTree, NodeType, NodeV,
    Text,
};
use crate::parser::common::{
    eol_len, find_line_end, is_space, lemma_find_line_end_bounds, lemma_skip_spaces_end,
    skip_spaces, spec_is_space,
};
use crate::parser::thematic_break::{
    hr_consumed, hr_match, lemma_hr_consumed_bounds, line_hr,
};

verus! {

/// Where trailing whitespace begins when scanning back from `i`: the start
/// of the maximal whitespace run ending just before `i`.
pub open spec fn trim_end_pos(s: Seq<char>, i: int) -> int
    decreases i,
{
    if 0 < i <= s.len() && spec_is_space(s[i - 1]) {
        trim_end_pos(s, i - 1)
    } else {
        i
    }
}

/// The quantified description of a trailing whitespace run pins
/// `trim_end_pos` down.
pub proof fn lemma_trim_end_pos_end(s: Seq<char>, i: int, b: int)
    requires
        0 <= b <= i <= s.len(),
        forall|k: int| b <= k < i ==> spec_is_space(s[k]),
        b == 0 || !spec_is_space(s[b - 1]),
    ensures
        trim_end_pos(s, i) == b,
    decreases i - b,
{
    if b < i {
        lemma_trim_end_pos_end(s, i - 1, b);
    }
}

/// One line of literal text with its leading and trailing whitespace
/// removed; a line of nothing but whitespace is left empty.
pub open spec fn trimmed_line(s: Seq<char>) -> Seq<char> {
    let a = skip_spaces(s, 0);
    let b = trim_end_pos(s, s.len() as int);
    if a <= b {
        s.subrange(a, b)
    } else {
        Seq::empty()
    }
}

/// The literal-text fallback: each line of the unmatched input with its
/// surrounding whitespace trimmed, the lines joined by single newlines.
/// Line terminators inside the text are preserved, not collapsed.
pub open spec fn para_text(s: Seq<char>) -> Seq<char>
    decreases s.len(),
{
    let e = find_line_end(s, 0);
    if e == s.len() {
        trimmed_line(s)
    } else {
        proof {
            lemma_find_line_end_bounds(s, 0);
        }
        trimmed_line(s.subrange(0, e)) + seq!['\n'] + para_text(s.skip(e + eol_len(s, e)))
    }
}

/// The document the dispatcher builds from the input: thematic breaks as
/// long as the rule matches at the cursor, then one text node wrapping
/// whatever is left, and nothing for an empty input.
pub open spec fn doc_spec(s: Seq<char>) -> Seq<NodeV>
    decreases s.len(),
{
    if s.len() == 0 {
        Seq::empty()
    } else if hr_match(s) {
        proof {
            lemma_hr_consumed_bounds(s);
        }
        seq![NodeV::Hr] + doc_spec(s.skip(hr_consumed(s)))
    } else {
        seq![NodeV::Text(para_text(s))]
    }
}

/// Builds the trimmed, newline-joined text that one text node holds for the
/// unmatched remainder of the input.
fn paragraph_text(input: &str) -> (r: String)
    ensures
        r@ == para_text(input@),
    decreases input@.len(),
{
    let n = input.unicode_len();
    let mut e: usize = 0;
    while e < n && input.get_char(e) != '\r' && input.get_char(e) != '\n'
        invariant
            0 <= e <= n,
            n == input@.len(),
            find_line_end(input@, 0) == find_line_end(input@, e as int),
        decreases n - e,
    {
        e += 1;
    }
    assert(find_line_end(input@, e as int) == e);
    let ghost line = if e == n {
        input@
    } else {
        input@.subrange(0, e as int)
    };
    proof {
        assert(input@.subrange(0, e as int) =~= line);
    }
    let mut a: usize = 0;
    while a < e && is_space(input.get_char(a))
        invariant
            0 <= a <= e <= n,
            n == input@.len(),
            e as int == line.len(),
            forall|k: int| 0 <= k < line.len() ==> line[k] == input@[k],
            forall|k: int| 0 <= k < a ==> spec_is_space(line[k]),
        decreases e - a,
    {
        a += 1;
    }
    proof {
        lemma_skip_spaces_end(line, 0, a as int);
    }
    let mut b: usize = e;
    while b > 0 && is_space(input.get_char(b - 1))
        invariant
            0 <= b <= e <= n,
            n == input@.len(),
            e as int == line.len(),
            forall|k: int| 0 <= k < line.len() ==> line[k] == input@[k],
            forall|k: int| b <= k < e ==> spec_is_space(line[k]),
        decreases b,
    {
        b -= 1;
    }
    proof {
        lemma_trim_end_pos_end(line, e as int, b as int);
    }
    let mut out = if a <= b {
        let piece = input.substring_char(a, b);
        proof {
            assert(line.subrange(a as int, b as int) =~= input@.subrange(a as int, b as int));
        }
        String::from_str(piece)
    } else {
        String::new()
    };
    assert(out@ == trimmed_line(line));
    if e == n {
        return out;
    }
    let term: usize = if input.get_char(e) == '\r' && e + 1 < n && input.get_char(e + 1) == '\n' {
        2
    } else {
        1
    };
    assert(term == eol_len(input@, e as int));
    out.append("\n");
    let rest = input.substring_char(e + term, n);
    proof {
        assert(rest@ =~= input@.skip(e + term));
    }
    let tail = paragraph_text(rest);
    out.append(tail.as_str());
    proof {
        reveal_strlit("\n");
        assert("\n"@ =~= seq!['\n']);
    }
    out
}

/// Applies the grammar rules to the input and accumulates the resulting
/// nodes: each thematic break in turn, then, where no rule matches, one
/// text node holding the remaining input as literal text.
fn mdx_ast(input: &str) -> (t: NodeTree)
    ensures
        t@ == doc_spec(input@),
{
    let mut node_tree = NodeTree::new();
    let mut rest: &str = input;
    proof {
        assert(Seq::<NodeV>::empty() + doc_spec(input@) =~= doc_spec(input@));
    }
    loop
        invariant_except_break
            doc_spec(input@) == node_tree@ + doc_spec(rest@),
        ensures
            doc_spec(input@) == node_tree@,
        decreases rest@.len(),
    {
        let len = rest.unicode_len();
        if len == 0 {
            proof {
                assert(node_tree@ + doc_spec(rest@) =~= node_tree@);
            }
            break;
        }
        let ghost prev_tree = node_tree@;
        let ghost prev_rest = rest@;
        match line_hr(rest) {
            Ok((rem, node)) => {
                node_tree.add(node);
                rest = rem;
                proof {
                    lemma_hr_consumed_bounds(prev_rest);
                    assert(doc_spec(prev_rest) == seq![NodeV::Hr] + doc_spec(rest@));
                    assert(prev_tree.push(NodeV::Hr) =~= prev_tree + seq![NodeV::Hr]);
                    assert((prev_tree + seq![NodeV::Hr]) + doc_spec(rest@) =~= prev_tree + (
                    seq![NodeV::Hr] + doc_spec(rest@)));
                }
            },
            Err(_) => {
                let txt = paragraph_text(rest);
                let text = Text::new(txt.as_str());
                proof {
                    lemma_text_node_view(text);
                }
                let node = Node::new(NodeType::TextNode(text));
                node_tree.add(node);
                proof {
                    assert(doc_spec(prev_rest) == seq![NodeV::Text(para_text(prev_rest))]);
                    assert(prev_tree.push(NodeV::Text(para_text(prev_rest))) =~= prev_tree + doc_spec(
                    prev_rest));
                }
                break;
            },
        }
    }
    node_tree
}

/// Converts markup text into an HTML fragment: the document tree the rules
/// build, serialized node by node in document order. The operation is
/// total; input no rule matches comes through as paragraph text.
pub fn parse(input: &str) -> (r: String)
    ensures
        r@ == render_nodes(doc_spec(input@)),
{
    let node_tree = mdx_ast(input);
    let nodes = node_tree.nodes();
    let ghost doc = doc_spec(input@);
    let mut html = String::new();
    let mut idx: usize = 0;
    proof {
        assert(doc.take(0) =~= Seq::<NodeV>::empty());
    }
    while idx < nodes.len()
        invariant
            0 <= idx <= nodes@.len(),
            nodes@.map_values(|n: Node| n@) == doc,
            nodes@.len() == doc.len(),
            html@ == render_nodes(doc.take(idx as int)),
        decreases nodes@.len() - idx,
    {
        let piece = nodes[idx].to_html();
        proof {
            assert(nodes@.map_values(|n: Node| n@)[idx as int] == nodes@[idx as int]@);
            assert(doc.take(idx + 1) =~= doc.take(idx as int).push(doc[idx as int]));
            lemma_render_nodes_push(doc.take(idx as int), doc[idx as int]);
        }
        html.append(piece.as_str());
        idx += 1;
    }
    proof {
        assert(doc.take(doc.len() as int) =~= doc);
    }
    html
}

} // verus!
