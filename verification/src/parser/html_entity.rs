//! The character-reference table: an immutable mapping from case-sensitive
//! reference name to decoded text. Some references decode to more than one
//! Unicode scalar value, so the decoded side is a string.

use vstd::prelude::*;

verus! {

/// The decoded text of a named character reference, or `None` for a name the
/// table does not hold. Lookup is a case-sensitive exact match.
pub open spec fn entity_value(name: Seq<char>) -> Option<Seq<char>> {
    if name == "AElig"@ {
        Some("\u{00c6}"@)
    } else if name == "AMP"@ {
        Some("&"@)
    } else if name == "Afr"@ {
        Some("\u{1d504}"@)
    } else if name == "GT"@ {
        Some(">"@)
    } else if name == "LT"@ {
        Some("<"@)
    } else if name == "QUOT"@ {
        Some("\""@)
    } else if name == "aelig"@ {
        Some("\u{00e6}"@)
    } else if name == "amp"@ {
        Some("&"@)
    } else if name == "apos"@ {
        Some("'"@)
    } else if name == "bull"@ {
        Some("\u{2022}"@)
    } else if name == "cent"@ {
        Some("\u{00a2}"@)
    } else if name == "copy"@ {
        Some("\u{00a9}"@)
    } else if name == "dagger"@ {
        Some("\u{2020}"@)
    } else if name == "deg"@ {
        Some("\u{00b0}"@)
    } else if name == "divide"@ {
        Some("\u{00f7}"@)
    } else if name == "euro"@ {
        Some("\u{20ac}"@)
    } else if name == "fjlig"@ {
        Some("fj"@)
    } else if name == "frac12"@ {
        Some("\u{00bd}"@)
    } else if name == "ge"@ {
        Some("\u{2265}"@)
    } else if name == "gt"@ {
        Some(">"@)
    } else if name == "hellip"@ {
        Some("\u{2026}"@)
    } else if name == "laquo"@ {
        Some("\u{00ab}"@)
    } else if name == "larr"@ {
        Some("\u{2190}"@)
    } else if name == "ldquo"@ {
        Some("\u{201c}"@)
    } else if name == "le"@ {
        Some("\u{2264}"@)
    } else if name == "lt"@ {
        Some("<"@)
    } else if name == "mdash"@ {
        Some("\u{2014}"@)
    } else if name == "micro"@ {
        Some("\u{00b5}"@)
    } else if name == "middot"@ {
        Some("\u{00b7}"@)
    } else if name == "nbsp"@ {
        Some("\u{00a0}"@)
    } else if name == "ndash"@ {
        Some("\u{2013}"@)
    } else if name == "ne"@ {
        Some("\u{2260}"@)
    } else if name == "para"@ {
        Some("\u{00b6}"@)
    } else if name == "plusmn"@ {
        Some("\u{00b1}"@)
    } else if name == "pound"@ {
        Some("\u{00a3}"@)
    } else if name == "quot"@ {
        Some("\""@)
    } else if name == "raquo"@ {
        Some("\u{00bb}"@)
    } else if name == "rarr"@ {
        Some("\u{2192}"@)
    } else if name == "rdquo"@ {
        Some("\u{201d}"@)
    } else if name == "reg"@ {
        Some("\u{00ae}"@)
    } else if name == "sect"@ {
        Some("\u{00a7}"@)
    } else if name == "szlig"@ {
        Some("\u{00df}"@)
    } else if name == "times"@ {
        Some("\u{00d7}"@)
    } else if name == "trade"@ {
        Some("\u{2122}"@)
    } else if name == "yen"@ {
        Some("\u{00a5}"@)
    } else {
        None
    }
}

/// Character-for-character string comparison, stated over the views.
fn str_eq(a: &str, b: &str) -> (r: bool)
    ensures
        r == (a@ == b@),
{
    let n = a.unicode_len();
    let m = b.unicode_len();
    if n != m {
        return false;
    }
    let mut i: usize = 0;
    while i < n
        invariant
            n == a@.len(),
            n == b@.len(),
            0 <= i <= n,
            forall|k: int| 0 <= k < i ==> a@[k] == b@[k],
        decreases n - i,
    {
        if a.get_char(i) != b.get_char(i) {
            return false;
        }
        i += 1;
    }
    proof {
        assert(a@ =~= b@);
    }
    true
}

/// Looks a reference name up in the table and hands back its decoded text.
pub fn html_entity(name: &str) -> (r: Option<String>)
    ensures
        r is Some <==> entity_value(name@) is Some,
        r matches Some(t) ==> Some(t@) == entity_value(name@),
{
    if str_eq(name, "AElig") {
        Some(String::from_str("\u{00c6}"))
    } else if str_eq(name, "AMP") {
        Some(String::from_str("&"))
    } else if str_eq(name, "Afr") {
        Some(String::from_str("\u{1d504}"))
    } else if str_eq(name, "GT") {
        Some(String::from_str(">"))
    } else if str_eq(name, "LT") {
        Some(String::from_str("<"))
    } else if str_eq(name, "QUOT") {
        Some(String::from_str("\""))
    } else if str_eq(name, "aelig") {
        Some(String::from_str("\u{00e6}"))
    } else if str_eq(name, "amp") {
        Some(String::from_str("&"))
    } else if str_eq(name, "apos") {
        Some(String::from_str("'"))
    } else if str_eq(name, "bull") {
        Some(String::from_str("\u{2022}"))
    } else if str_eq(name, "cent") {
        Some(String::from_str("\u{00a2}"))
    } else if str_eq(name, "copy") {
        Some(String::from_str("\u{00a9}"))
    } else if str_eq(name, "dagger") {
        Some(String::from_str("\u{2020}"))
    } else if str_eq(name, "deg") {
        Some(String::from_str("\u{00b0}"))
    } else if str_eq(name, "divide") {
        Some(String::from_str("\u{00f7}"))
    } else if str_eq(name, "euro") {
        Some(String::from_str("\u{20ac}"))
    } else if str_eq(name, "fjlig") {
        Some(String::from_str("fj"))
    } else if str_eq(name, "frac12") {
        Some(String::from_str("\u{00bd}"))
    } else if str_eq(name, "ge") {
        Some(String::from_str("\u{2265}"))
    } else if str_eq(name, "gt") {
        Some(String::from_str(">"))
    } else if str_eq(name, "hellip") {
        Some(String::from_str("\u{2026}"))
    } else if str_eq(name, "laquo") {
        Some(String::from_str("\u{00ab}"))
    } else if str_eq(name, "larr") {
        Some(String::from_str("\u{2190}"))
    } else if str_eq(name, "ldquo") {
        Some(String::from_str("\u{201c}"))
    } else if str_eq(name, "le") {
        Some(String::from_str("\u{2264}"))
    } else if str_eq(name, "lt") {
        Some(String::from_str("<"))
    } else if str_eq(name, "mdash") {
        Some(String::from_str("\u{2014}"))
    } else if str_eq(name, "micro") {
        Some(String::from_str("\u{00b5}"))
    } else if str_eq(name, "middot") {
        Some(String::from_str("\u{00b7}"))
    } else if str_eq(name, "nbsp") {
        Some(String::from_str("\u{00a0}"))
    } else if str_eq(name, "ndash") {
        Some(String::from_str("\u{2013}"))
    } else if str_eq(name, "ne") {
        Some(String::from_str("\u{2260}"))
    } else if str_eq(name, "para") {
        Some(String::from_str("\u{00b6}"))
    } else if str_eq(name, "plusmn") {
        Some(String::from_str("\u{00b1}"))
    } else if str_eq(name, "pound") {
        Some(String::from_str("\u{00a3}"))
    } else if str_eq(name, "quot") {
        Some(String::from_str("\""))
    } else if str_eq(name, "raquo") {
        Some(String::from_str("\u{00bb}"))
    } else if str_eq(name, "rarr") {
        Some(String::from_str("\u{2192}"))
    } else if str_eq(name, "rdquo") {
        Some(String::from_str("\u{201d}"))
    } else if str_eq(name, "reg") {
        Some(String::from_str("\u{00ae}"))
    } else if str_eq(name, "sect") {
        Some(String::from_str("\u{00a7}"))
    } else if str_eq(name, "szlig") {
        Some(String::from_str("\u{00df}"))
    } else if str_eq(name, "times") {
        Some(String::from_str("\u{00d7}"))
    } else if str_eq(name, "trade") {
        Some(String::from_str("\u{2122}"))
    } else if str_eq(name, "yen") {
        Some(String::from_str("\u{00a5}"))
    } else {
        None
    }
}

/// Reports whether the table holds a reference of the given name.
pub fn is_html_entity(name: &str) -> (r: bool)
    ensures
        r == (entity_value(name@) is Some),
{
    html_entity(name).is_some()
}

} // verus!
