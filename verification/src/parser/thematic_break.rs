//! The thematic-break grammar rule: a line of at least three identical rule
//! characters from `*`, `-`, `_`, interspersed with spaces and tabs, after
//! at most three columns of leading indentation.

use vstd::prelude::*;

use crate::html::{Element, HtmlTag, Node, NodeType, NodeV};
use crate::parser::common::{
    count_char_range, eol_len, is_line_end_at, is_space, lemma_skip_plain_spaces_bounds,
    lemma_skip_plain_spaces_end, lemma_skip_run_bounds, lemma_skip_run_end, skip_plain_spaces,
    skip_run, spec_is_space, FailureKind, ParseFailure,
};

verus! {

/// A character that can form a thematic break.
pub open spec fn is_rule_char(c: char) -> bool {
    c == '*' || c == '-' || c == '_'
}

/// How much leading indentation the rule consumes: the run of plain spaces,
/// capped at the three-column indentation budget.
pub open spec fn hr_lead(s: Seq<char>) -> int {
    if skip_plain_spaces(s, 0) <= 3 {
        skip_plain_spaces(s, 0)
    } else {
        3
    }
}

/// Where the run of rule characters and whitespace ends, the rule character
/// being the first character after the indentation.
pub open spec fn hr_run_end(s: Seq<char>) -> int {
    skip_run(s, hr_lead(s), s[hr_lead(s)])
}

/// Whether a thematic break stands at the start of the input: after at most
/// three leading spaces, a run of one rule character and whitespace reaching
/// a line end, with the rule character occurring at least three times.
pub open spec fn hr_match(s: Seq<char>) -> bool {
    let lead = hr_lead(s);
    &&& lead < s.len()
    &&& is_rule_char(s[lead])
    &&& count_char_range(s, lead, hr_run_end(s), s[lead]) >= 3
    &&& is_line_end_at(s, hr_run_end(s))
}

/// How many characters a successful match consumes: the line and its
/// terminator, nothing at the end of input.
pub open spec fn hr_consumed(s: Seq<char>) -> int {
    hr_run_end(s) + eol_len(s, hr_run_end(s))
}

/// The failure a non-matching line produces: no rule character after the
/// indentation, too few rule characters (reported where the next one was
/// expected), or a foreign character before the line end (reported where the
/// terminator was expected).
pub open spec fn hr_failure(s: Seq<char>) -> ParseFailure {
    let lead = hr_lead(s);
    if lead >= s.len() || !is_rule_char(s[lead]) {
        ParseFailure { kind: FailureKind::UnexpectedToken, pos: lead as usize }
    } else if count_char_range(s, lead, hr_run_end(s), s[lead]) < 3 {
        ParseFailure { kind: FailureKind::UnexpectedToken, pos: hr_run_end(s) as usize }
    } else {
        ParseFailure { kind: FailureKind::UnexpectedEndOfInput, pos: hr_run_end(s) as usize }
    }
}

/// Consumes the indentation budget: at most three leading plain spaces.
fn hr_pre(input: &str, n: usize) -> (lead: usize)
    requires
        n == input@.len(),
    ensures
        lead == hr_lead(input@),
        lead <= n,
{
    let mut i: usize = 0;
    while i < 3 && i < n && input.get_char(i) == ' '
        invariant
            0 <= i <= 3,
            i <= n,
            n == input@.len(),
            skip_plain_spaces(input@, 0) == skip_plain_spaces(input@, i as int),
        decreases n - i,
    {
        i += 1;
    }
    proof {
        lemma_skip_plain_spaces_bounds(input@, i as int);
    }
    i
}

/// Whether a run of one rule character, interspersed with whitespace and
/// holding at least three of it, starts at `i`.
pub open spec fn hr_run_ok(s: Seq<char>, i: int) -> bool {
    &&& i < s.len()
    &&& is_rule_char(s[i])
    &&& count_char_range(s, i, skip_run(s, i, s[i]), s[i]) >= 3
}

/// The failure the run alternation produces at `i`: none of the three rule
/// characters stands there, or the one that does runs out before its third
/// occurrence.
pub open spec fn hr_alt_failure(s: Seq<char>, i: int) -> ParseFailure {
    if i >= s.len() || !is_rule_char(s[i]) {
        ParseFailure { kind: FailureKind::UnexpectedToken, pos: i as usize }
    } else {
        ParseFailure { kind: FailureKind::UnexpectedToken, pos: skip_run(s, i, s[i]) as usize }
    }
}

/// Consumes a maximal run of the rule character `c` and whitespace starting
/// at `pos`, succeeding when `c` occurred at least three times.
fn hr_arb_char(input: &str, n: usize, pos: usize, c: char) -> (r: Result<usize, ParseFailure>)
    requires
        n == input@.len(),
        pos < n,
        input@[pos as int] == c,
    ensures
        r is Ok <==> count_char_range(input@, pos as int, skip_run(input@, pos as int, c), c) >= 3,
        r matches Ok(end) ==> end == skip_run(input@, pos as int, c),
        r matches Err(f) ==> f == (ParseFailure {
            kind: FailureKind::UnexpectedToken,
            pos: skip_run(input@, pos as int, c) as usize,
        }),
{
    let mut i = pos;
    let mut cnt: usize = 0;
    while i < n && (input.get_char(i) == c || is_space(input.get_char(i)))
        invariant
            pos <= i <= n,
            n == input@.len(),
            cnt <= i - pos,
            skip_run(input@, pos as int, c) == skip_run(input@, i as int, c),
            cnt == count_char_range(input@, pos as int, i as int, c),
        decreases n - i,
    {
        if input.get_char(i) == c {
            cnt += 1;
        }
        i += 1;
    }
    assert(skip_run(input@, i as int, c) == i);
    if cnt >= 3 {
        Ok(i)
    } else {
        Err(ParseFailure { kind: FailureKind::UnexpectedToken, pos: i })
    }
}

/// The `*` branch of the run alternation.
fn hr_star(input: &str, n: usize, pos: usize) -> (r: Result<usize, ParseFailure>)
    requires
        n == input@.len(),
        pos < n,
        input@[pos as int] == '*',
    ensures
        r is Ok <==> hr_run_ok(input@, pos as int),
        r matches Ok(end) ==> end == skip_run(input@, pos as int, '*'),
        r matches Err(f) ==> f == hr_alt_failure(input@, pos as int),
{
    hr_arb_char(input, n, pos, '*')
}

/// The `-` branch of the run alternation.
fn hr_dash(input: &str, n: usize, pos: usize) -> (r: Result<usize, ParseFailure>)
    requires
        n == input@.len(),
        pos < n,
        input@[pos as int] == '-',
    ensures
        r is Ok <==> hr_run_ok(input@, pos as int),
        r matches Ok(end) ==> end == skip_run(input@, pos as int, '-'),
        r matches Err(f) ==> f == hr_alt_failure(input@, pos as int),
{
    hr_arb_char(input, n, pos, '-')
}

/// The `_` branch of the run alternation.
fn hr_underscore(input: &str, n: usize, pos: usize) -> (r: Result<usize, ParseFailure>)
    requires
        n == input@.len(),
        pos < n,
        input@[pos as int] == '_',
    ensures
        r is Ok <==> hr_run_ok(input@, pos as int),
        r matches Ok(end) ==> end == skip_run(input@, pos as int, '_'),
        r matches Err(f) ==> f == hr_alt_failure(input@, pos as int),
{
    hr_arb_char(input, n, pos, '_')
}

/// Tries the three rule characters in order. At most one branch can advance,
/// since each requires its own character at the cursor, so the failure of
/// the branch that advanced furthest is the failure of the one that started.
fn hr(input: &str, n: usize, pos: usize) -> (r: Result<usize, ParseFailure>)
    requires
        n == input@.len(),
        pos <= n,
    ensures
        r is Ok <==> hr_run_ok(input@, pos as int),
        r matches Ok(end) ==> end == skip_run(input@, pos as int, input@[pos as int]),
        r matches Err(f) ==> f == hr_alt_failure(input@, pos as int),
{
    if pos == n {
        return Err(ParseFailure { kind: FailureKind::UnexpectedToken, pos });
    }
    let c = input.get_char(pos);
    if c == '*' {
        hr_star(input, n, pos)
    } else if c == '-' {
        hr_dash(input, n, pos)
    } else if c == '_' {
        hr_underscore(input, n, pos)
    } else {
        Err(ParseFailure { kind: FailureKind::UnexpectedToken, pos })
    }
}

/// The thematic-break rule: at most three columns of indentation, a run of
/// one rule character, then the line terminator. On success it produces one
/// horizontal-rule element with no children and hands back the input
/// positioned just past the consumed terminator; on failure it consumes
/// nothing.
pub fn line_hr<'a>(input: &'a str) -> (r: Result<(&'a str, Node), ParseFailure>)
    ensures
        r is Ok <==> hr_match(input@),
        r matches Ok((rem, node)) ==> {
            &&& rem@ == input@.skip(hr_consumed(input@))
            &&& node@ == NodeV::Hr
        },
        r matches Err(f) ==> f == hr_failure(input@),
{
    let n = input.unicode_len();
    let lead = hr_pre(input, n);
    let end = match hr(input, n, lead) {
        Ok(end) => end,
        Err(f) => {
            return Err(f);
        },
    };
    proof {
        lemma_skip_run_bounds(input@, lead as int, input@[lead as int]);
    }
    let term: usize = if end < n && input.get_char(end) == '\r' && end + 1 < n && input.get_char(
        end + 1,
    ) == '\n' {
        2
    } else if end < n && (input.get_char(end) == '\r' || input.get_char(end) == '\n') {
        1
    } else if end == n {
        0
    } else {
        return Err(ParseFailure { kind: FailureKind::UnexpectedEndOfInput, pos: end });
    };
    let hr_el = Element::new(HtmlTag::HR);
    proof {
        crate::html::lemma_element_node_view(hr_el);
    }
    let hr_node = Node::new(NodeType::ElementNode(hr_el));
    proof {
        assert(eol_len(input@, end as int) == term);
        assert(hr_consumed(input@) == end + term);
        assert(input@.subrange(end + term, n as int) =~= input@.skip(end + term));
    }
    Ok((input.substring_char(end + term, n), hr_node))
}

/// A successful match consumes at least one character and never more than
/// the input holds, which keeps the dispatcher's advance well-founded.
pub proof fn lemma_hr_consumed_bounds(s: Seq<char>)
    requires
        hr_match(s),
    ensures
        0 < hr_consumed(s) <= s.len(),
{
    lemma_skip_plain_spaces_bounds(s, 0);
    lemma_skip_run_bounds(s, hr_lead(s), s[hr_lead(s)]);
    assert(count_char_range(s, hr_lead(s), hr_run_end(s), s[hr_lead(s)]) >= 3);
    assert(hr_run_end(s) > hr_lead(s));
}

/// A line of at most three leading spaces and then at least three
/// occurrences of one rule character, interspersed only with spaces and
/// tabs up to the end of the line, is a thematic break, and the rule
/// consumes the line together with its terminator.
pub proof fn lemma_hr_accepts(s: Seq<char>, lead: int, end: int, c: char)
    requires
        0 <= lead <= 3,
        lead <= end <= s.len(),
        forall|k: int| 0 <= k < lead ==> s[k] == ' ',
        is_rule_char(c),
        lead < s.len() && s[lead] == c,
        forall|k: int| lead <= k < end ==> (s[k] == c || spec_is_space(s[k])),
        count_char_range(s, lead, end, c) >= 3,
        is_line_end_at(s, end),
    ensures
        hr_match(s),
        hr_consumed(s) == end + eol_len(s, end),
{
    lemma_skip_plain_spaces_end(s, 0, lead);
    assert(hr_lead(s) == lead);
    lemma_skip_run_end(s, lead, end, c);
    assert(hr_run_end(s) == end);
}

/// A line that mixes two distinct rule characters before its terminator is
/// no thematic break: the rule locks to the first rule character and admits
/// no other, so it fails and consumes nothing.
pub proof fn lemma_hr_rejects_mixed(s: Seq<char>, i: int, j: int)
    requires
        0 <= i < j < s.len(),
        is_rule_char(s[i]),
        is_rule_char(s[j]),
        s[i] != s[j],
        forall|k: int| 0 <= k <= j ==> (s[k] != '\r' && s[k] != '\n'),
    ensures
        !hr_match(s),
{
    if hr_match(s) {
        let lead = hr_lead(s);
        let c = s[lead];
        let e = hr_run_end(s);
        lemma_skip_plain_spaces_bounds(s, 0);
        assert(i >= lead);
        lemma_skip_run_bounds(s, lead, c);
        assert(j < e);
        assert(s[i] == c);
        assert(s[j] == c);
        assert(false);
    }
}

/// A line indented by four or more spaces belongs to a different construct:
/// the thematic-break rule rejects it whatever follows the indentation.
pub proof fn lemma_hr_rejects_deep_indent(s: Seq<char>)
    requires
        s.len() >= 4,
        s[0] == ' ',
        s[1] == ' ',
        s[2] == ' ',
        s[3] == ' ',
    ensures
        !hr_match(s),
{
    assert(skip_plain_spaces(s, 0) == skip_plain_spaces(s, 1));
    assert(skip_plain_spaces(s, 1) == skip_plain_spaces(s, 2));
    assert(skip_plain_spaces(s, 2) == skip_plain_spaces(s, 3));
    assert(skip_plain_spaces(s, 3) == skip_plain_spaces(s, 4));
    lemma_skip_plain_spaces_bounds(s, 4);
    assert(hr_lead(s) == 3);
}

} // verus!
