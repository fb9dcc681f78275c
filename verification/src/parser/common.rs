//! Primitive parsing combinators: small, reusable building blocks over a
//! remaining-input cursor. Each returns either the consumed output plus the
//! remainder of the input, or a structured failure carrying the reason and
//! the character position at which it arose.

use vstd::prelude::*;

use crate::parser::html_entity::{entity_value, html_entity};

verus! {

/// The reason a combinator failed, as a category rather than a
/// language-specific error type.
#[derive(Debug, PartialEq, Eq, Structural, Clone, Copy)]
pub enum FailureKind {
    /// A literal or tag did not match at the cursor.
    UnexpectedToken,
    /// A character-class match (one-of / is-a) found no acceptable character.
    UnexpectedCharacterClass,
    /// A line terminator or end of input was expected and something else stood there.
    UnexpectedEndOfInput,
    /// A bounded repetition did not reach its minimum count.
    RepetitionCountNotMet,
    /// Every branch of an alternation failed.
    AllAlternativesFailed,
    /// The entity resolver found no matching reference name.
    UnknownReference,
}

/// A structured parse failure: the category and the character position,
/// counted from the start of the input the failing combinator was given.
#[derive(Debug, PartialEq, Eq, Structural, Clone, Copy)]
pub struct ParseFailure {
    pub kind: FailureKind,
    pub pos: usize,
}

/// Whitespace as the grammar rules see it: a space or a tab.
pub open spec fn spec_is_space(c: char) -> bool {
    c == ' ' || c == '\t'
}

/// Reports whether a character counts as intra-line whitespace.
#[verifier::when_used_as_spec(spec_is_space)]
pub fn is_space(c: char) -> (r: bool)
    ensures
        r == spec_is_space(c),
{
    match c {
        ' ' | '\t' => true,
        _ => false,
    }
}

/// An ASCII decimal digit.
pub open spec fn is_dec_digit(c: char) -> bool {
    48 <= c as int <= 57
}

/// An ASCII hexadecimal digit as the numeric-reference grammar accepts it:
/// a decimal digit or an upper-case letter `A` through `F`.
pub open spec fn is_hex_digit(c: char) -> bool {
    is_dec_digit(c) || 65 <= c as int <= 70
}

/// An ASCII alphanumeric character, the shape of an entity-reference name.
pub open spec fn is_alnum(c: char) -> bool {
    is_dec_digit(c) || 65 <= c as int <= 90 || 97 <= c as int <= 122
}

/// An ASCII punctuation character, the set a backslash escape may suppress.
pub open spec fn is_ascii_punct(c: char) -> bool {
    ||| 33 <= c as int <= 47
    ||| 58 <= c as int <= 64
    ||| 91 <= c as int <= 96
    ||| 123 <= c as int <= 126
}

/// End of the maximal run of plain spaces starting at `i`.
pub open spec fn skip_plain_spaces(s: Seq<char>, i: int) -> int
    decreases s.len() - i,
{
    if 0 <= i < s.len() && s[i] == ' ' {
        skip_plain_spaces(s, i + 1)
    } else {
        i
    }
}

/// End of the maximal run, starting at `i`, of characters that are either
/// the rule character `c` or intra-line whitespace.
pub open spec fn skip_run(s: Seq<char>, i: int, c: char) -> int
    decreases s.len() - i,
{
    if 0 <= i < s.len() && (s[i] == c || spec_is_space(s[i])) {
        skip_run(s, i + 1, c)
    } else {
        i
    }
}

/// End of the maximal run of intra-line whitespace starting at `i`.
pub open spec fn skip_spaces(s: Seq<char>, i: int) -> int
    decreases s.len() - i,
{
    if 0 <= i < s.len() && spec_is_space(s[i]) {
        skip_spaces(s, i + 1)
    } else {
        i
    }
}

/// End of the maximal run of decimal digits starting at `i`.
pub open spec fn skip_dec_digits(s: Seq<char>, i: int) -> int
    decreases s.len() - i,
{
    if 0 <= i < s.len() && is_dec_digit(s[i]) {
        skip_dec_digits(s, i + 1)
    } else {
        i
    }
}

/// End of the maximal run of hexadecimal digits starting at `i`.
pub open spec fn skip_hex_digits(s: Seq<char>, i: int) -> int
    decreases s.len() - i,
{
    if 0 <= i < s.len() && is_hex_digit(s[i]) {
        skip_hex_digits(s, i + 1)
    } else {
        i
    }
}

/// End of the maximal run of alphanumeric characters starting at `i`.
pub open spec fn skip_alnum(s: Seq<char>, i: int) -> int
    decreases s.len() - i,
{
    if 0 <= i < s.len() && is_alnum(s[i]) {
        skip_alnum(s, i + 1)
    } else {
        i
    }
}

/// Position of the first line terminator at or after `i`, or the length of
/// the input when the rest of it is a single unterminated line.
pub open spec fn find_line_end(s: Seq<char>, i: int) -> int
    decreases s.len() - i,
{
    if 0 <= i < s.len() && s[i] != '\r' && s[i] != '\n' {
        find_line_end(s, i + 1)
    } else {
        i
    }
}

/// Length of the line terminator standing at `i`: two characters for
/// `\r\n`, one for a lone `\r` or `\n`, zero when none stands there.
pub open spec fn eol_len(s: Seq<char>, i: int) -> int {
    if 0 <= i < s.len() && s[i] == '\r' && i + 1 < s.len() && s[i + 1] == '\n' {
        2
    } else if 0 <= i < s.len() && (s[i] == '\r' || s[i] == '\n') {
        1
    } else {
        0
    }
}

/// A position where a line may end: a line terminator or the end of input.
pub open spec fn is_line_end_at(s: Seq<char>, i: int) -> bool {
    i == s.len() || (0 <= i < s.len() && (s[i] == '\r' || s[i] == '\n'))
}

/// How many characters in `s[lo..hi)` equal `c`.
pub open spec fn count_char_range(s: Seq<char>, lo: int, hi: int, c: char) -> int
    decreases hi - lo,
{
    if lo >= hi {
        0
    } else {
        count_char_range(s, lo, hi - 1, c) + if s[hi - 1] == c {
            1int
        } else {
            0int
        }
    }
}

/// The `skip_plain_spaces` scan never moves backward and never leaves the input.
pub proof fn lemma_skip_plain_spaces_bounds(s: Seq<char>, i: int)
    requires
        0 <= i <= s.len(),
    ensures
        i <= skip_plain_spaces(s, i) <= s.len(),
        forall|k: int| i <= k < skip_plain_spaces(s, i) ==> s[k] == ' ',
    decreases s.len() - i,
{
    if i < s.len() && s[i] == ' ' {
        lemma_skip_plain_spaces_bounds(s, i + 1);
    }
}

/// The `skip_run` scan never moves backward and never leaves the input, and
/// everything it passed over belongs to the run.
pub proof fn lemma_skip_run_bounds(s: Seq<char>, i: int, c: char)
    requires
        0 <= i <= s.len(),
    ensures
        i <= skip_run(s, i, c) <= s.len(),
        forall|k: int| i <= k < skip_run(s, i, c) ==> (s[k] == c || spec_is_space(s[k])),
        skip_run(s, i, c) < s.len() ==> !(s[skip_run(s, i, c)] == c || spec_is_space(
            s[skip_run(s, i, c)],
        )),
    decreases s.len() - i,
{
    if i < s.len() && (s[i] == c || spec_is_space(s[i])) {
        lemma_skip_run_bounds(s, i + 1, c);
    }
}

/// A scan stops exactly at the first position that breaks its class: the
/// quantified description of a run pins `skip_run` down.
pub proof fn lemma_skip_run_end(s: Seq<char>, i: int, j: int, c: char)
    requires
        0 <= i <= j <= s.len(),
        forall|k: int| i <= k < j ==> (s[k] == c || spec_is_space(s[k])),
        j == s.len() || !(s[j] == c || spec_is_space(s[j])),
    ensures
        skip_run(s, i, c) == j,
    decreases j - i,
{
    if i < j {
        lemma_skip_run_end(s, i + 1, j, c);
    }
}

/// The quantified description of a space prefix pins `skip_plain_spaces` down.
pub proof fn lemma_skip_plain_spaces_end(s: Seq<char>, i: int, j: int)
    requires
        0 <= i <= j <= s.len(),
        forall|k: int| i <= k < j ==> s[k] == ' ',
        j == s.len() || s[j] != ' ',
    ensures
        skip_plain_spaces(s, i) == j,
    decreases j - i,
{
    if i < j {
        lemma_skip_plain_spaces_end(s, i + 1, j);
    }
}

/// The quantified description of a whitespace run pins `skip_spaces` down.
pub proof fn lemma_skip_spaces_end(s: Seq<char>, i: int, j: int)
    requires
        0 <= i <= j <= s.len(),
        forall|k: int| i <= k < j ==> spec_is_space(s[k]),
        j == s.len() || !spec_is_space(s[j]),
    ensures
        skip_spaces(s, i) == j,
    decreases j - i,
{
    if i < j {
        lemma_skip_spaces_end(s, i + 1, j);
    }
}

/// The `find_line_end` scan stays within the input and passes over no
/// terminator; where it stops, a terminator or the end of input stands.
pub proof fn lemma_find_line_end_bounds(s: Seq<char>, i: int)
    requires
        0 <= i <= s.len(),
    ensures
        i <= find_line_end(s, i) <= s.len(),
        forall|k: int| i <= k < find_line_end(s, i) ==> (s[k] != '\r' && s[k] != '\n'),
        is_line_end_at(s, find_line_end(s, i)),
    decreases s.len() - i,
{
    if i < s.len() && s[i] != '\r' && s[i] != '\n' {
        lemma_find_line_end_bounds(s, i + 1);
    }
}

/// Matches a line terminator: `\r\n`, `\r` or `\n`. Consumes exactly the
/// terminator and hands back the terminator text and the remainder.
pub fn eol<'a>(input: &'a str) -> (r: Result<(&'a str, &'a str), ParseFailure>)
    ensures
        r is Ok <==> eol_len(input@, 0) > 0,
        r matches Ok((rem, matched)) ==> {
            &&& matched@ == input@.take(eol_len(input@, 0))
            &&& rem@ == input@.skip(eol_len(input@, 0))
        },
        r matches Err(f) ==> f == (ParseFailure { kind: FailureKind::UnexpectedToken, pos: 0 }),
{
    let n = input.unicode_len();
    if n == 0 {
        return Err(ParseFailure { kind: FailureKind::UnexpectedToken, pos: 0 });
    }
    let c0 = input.get_char(0);
    if c0 == '\r' && n >= 2 && input.get_char(1) == '\n' {
        Ok((input.substring_char(2, n), input.substring_char(0, 2)))
    } else if c0 == '\r' || c0 == '\n' {
        Ok((input.substring_char(1, n), input.substring_char(0, 1)))
    } else {
        Err(ParseFailure { kind: FailureKind::UnexpectedToken, pos: 0 })
    }
}

/// Matches the end of a line or the true end of input. Consumes the matched
/// terminator, an empty string at the end of input.
pub fn line_term<'a>(input: &'a str) -> (r: Result<(&'a str, &'a str), ParseFailure>)
    ensures
        r is Ok <==> (input@.len() == 0 || eol_len(input@, 0) > 0),
        r matches Ok((rem, matched)) ==> {
            &&& matched@ == input@.take(eol_len(input@, 0))
            &&& rem@ == input@.skip(eol_len(input@, 0))
        },
        r matches Err(f) ==> f == (ParseFailure {
            kind: FailureKind::UnexpectedEndOfInput,
            pos: 0,
        }),
{
    let n = input.unicode_len();
    if n == 0 {
        proof {
            assert(input@.take(0) =~= input@);
            assert(input@.skip(0) =~= input@);
        }
        return Ok((input, input));
    }
    match eol(input) {
        Ok(out) => Ok(out),
        Err(_) => Err(ParseFailure { kind: FailureKind::UnexpectedEndOfInput, pos: 0 }),
    }
}

/// Matches the insecure NUL character, which markup handling replaces.
pub fn insecure<'a>(input: &'a str) -> (r: Result<(&'a str, &'a str), ParseFailure>)
    ensures
        r is Ok <==> (input@.len() > 0 && input@[0] == '\u{0000}'),
        r matches Ok((rem, matched)) ==> {
            &&& matched@ == input@.take(1)
            &&& rem@ == input@.skip(1)
        },
        r matches Err(f) ==> f == (ParseFailure { kind: FailureKind::UnexpectedToken, pos: 0 }),
{
    let n = input.unicode_len();
    if n > 0 && input.get_char(0) == '\u{0000}' {
        Ok((input.substring_char(1, n), input.substring_char(0, 1)))
    } else {
        Err(ParseFailure { kind: FailureKind::UnexpectedToken, pos: 0 })
    }
}

/// Recognizes a backslash followed by one ASCII punctuation character as a
/// two-character escape unit, consuming both characters.
pub fn escaped<'a>(input: &'a str) -> (r: Result<(&'a str, &'a str), ParseFailure>)
    ensures
        r is Ok <==> (input@.len() >= 2 && input@[0] == '\\' && is_ascii_punct(input@[1])),
        r matches Ok((rem, matched)) ==> {
            &&& matched@ == input@.take(2)
            &&& rem@ == input@.skip(2)
        },
        r matches Err(f) ==> f == escaped_failure(input@),
{
    let n = input.unicode_len();
    if n == 0 || input.get_char(0) != '\\' {
        return Err(ParseFailure { kind: FailureKind::UnexpectedToken, pos: 0 });
    }
    if n < 2 || !is_ascii_punct_exec(input.get_char(1)) {
        return Err(ParseFailure { kind: FailureKind::UnexpectedCharacterClass, pos: 1 });
    }
    Ok((input.substring_char(2, n), input.substring_char(0, 2)))
}

/// Why an escape unit failed to match: no backslash at the cursor, or the
/// following character is not ASCII punctuation.
pub open spec fn escaped_failure(s: Seq<char>) -> ParseFailure {
    if s.len() == 0 || s[0] != '\\' {
        ParseFailure { kind: FailureKind::UnexpectedToken, pos: 0 }
    } else {
        ParseFailure { kind: FailureKind::UnexpectedCharacterClass, pos: 1 }
    }
}

/// Reports whether a character is ASCII punctuation.
#[verifier::when_used_as_spec(is_ascii_punct)]
pub fn is_ascii_punct_exec(c: char) -> (r: bool)
    ensures
        r == is_ascii_punct(c),
{
    let v = c as u32;
    (33 <= v && v <= 47) || (58 <= v && v <= 64) || (91 <= v && v <= 96) || (123 <= v && v <= 126)
}

/// Reports whether a character is an ASCII decimal digit.
#[verifier::when_used_as_spec(is_dec_digit)]
pub fn is_dec_digit_exec(c: char) -> (r: bool)
    ensures
        r == is_dec_digit(c),
{
    let v = c as u32;
    48 <= v && v <= 57
}

/// Reports whether a character is a hexadecimal digit of the reference grammar.
#[verifier::when_used_as_spec(is_hex_digit)]
pub fn is_hex_digit_exec(c: char) -> (r: bool)
    ensures
        r == is_hex_digit(c),
{
    let v = c as u32;
    (48 <= v && v <= 57) || (65 <= v && v <= 70)
}

/// Reports whether a character is ASCII alphanumeric.
#[verifier::when_used_as_spec(is_alnum)]
pub fn is_alnum_exec(c: char) -> (r: bool)
    ensures
        r == is_alnum(c),
{
    let v = c as u32;
    (48 <= v && v <= 57) || (65 <= v && v <= 90) || (97 <= v && v <= 122)
}

/// A Unicode scalar value: a code point outside the surrogate range.
pub open spec fn is_scalar_value(v: int) -> bool {
    0 <= v < 0xd800 || 0xe000 <= v <= 0x10ffff
}

/// The character a numeric reference with value `v` decodes to: the scalar
/// value itself, or the replacement character when `v` is no scalar value.
pub open spec fn decoded_char(v: int) -> char {
    if is_scalar_value(v) {
        v as char
    } else {
        '\u{fffd}'
    }
}

/// Relies on char::from_u32: it returns `Some` exactly for Unicode scalar
/// values and then yields the character with that code point.
#[verifier::external_body]
fn char_from_u32(v: u32) -> (r: Option<char>)
    ensures
        r is Some <==> is_scalar_value(v as int),
        r matches Some(c) ==> c == v as char,
{
    char::from_u32(v)
}

/// Maps a numeric-reference value to its character, degrading an invalid
/// code point to the replacement character rather than failing.
fn scalar_or_replacement(v: u32) -> (c: char)
    ensures
        c == decoded_char(v as int),
{
    match char_from_u32(v) {
        Some(c) => c,
        None => '\u{fffd}',
    }
}

/// Whether a named entity reference stands at the start of the input:
/// `&`, one or more alphanumerics, `;`, with the name in the table.
pub open spec fn entity_ref_match(s: Seq<char>) -> bool {
    let e = skip_alnum(s, 1);
    &&& s.len() > 0
    &&& s[0] == '&'
    &&& e > 1
    &&& e < s.len()
    &&& s[e] == ';'
    &&& entity_value(s.subrange(1, e)) is Some
}

/// The failure a non-matching entity reference produces: a missing `&`, an
/// empty name, a missing `;`, or a name the table does not hold. The last is
/// reported after the whole reference was consumed.
pub open spec fn entity_ref_failure(s: Seq<char>) -> ParseFailure {
    let e = skip_alnum(s, 1);
    if s.len() == 0 || s[0] != '&' {
        ParseFailure { kind: FailureKind::UnexpectedToken, pos: 0 }
    } else if e == 1 {
        ParseFailure { kind: FailureKind::UnexpectedCharacterClass, pos: 1 }
    } else if e == s.len() || s[e] != ';' {
        ParseFailure { kind: FailureKind::UnexpectedToken, pos: e as usize }
    } else {
        ParseFailure { kind: FailureKind::UnknownReference, pos: (e + 1) as usize }
    }
}

/// Matches a named character reference `&name;` and resolves it against the
/// reference table, handing back the decoded text and the remainder.
pub fn entity_ref<'a>(input: &'a str) -> (r: Result<(&'a str, String), ParseFailure>)
    ensures
        r is Ok <==> entity_ref_match(input@),
        r matches Ok((rem, out)) ==> {
            &&& rem@ == input@.skip(skip_alnum(input@, 1) + 1)
            &&& Some(out@) == entity_value(input@.subrange(1, skip_alnum(input@, 1)))
        },
        r matches Err(f) ==> f == entity_ref_failure(input@),
{
    let n = input.unicode_len();
    if n == 0 || input.get_char(0) != '&' {
        return Err(ParseFailure { kind: FailureKind::UnexpectedToken, pos: 0 });
    }
    let mut e: usize = 1;
    while e < n && is_alnum_exec(input.get_char(e))
        invariant
            1 <= e <= n,
            n == input@.len(),
            skip_alnum(input@, 1) == skip_alnum(input@, e as int),
        decreases n - e,
    {
        e += 1;
    }
    assert(skip_alnum(input@, e as int) == e);
    if e == 1 {
        return Err(ParseFailure { kind: FailureKind::UnexpectedCharacterClass, pos: 1 });
    }
    if e == n || input.get_char(e) != ';' {
        return Err(ParseFailure { kind: FailureKind::UnexpectedToken, pos: e });
    }
    let name = input.substring_char(1, e);
    match html_entity(name) {
        Some(out) => Ok((input.substring_char(e + 1, n), out)),
        None => Err(ParseFailure { kind: FailureKind::UnknownReference, pos: e + 1 }),
    }
}

/// Powers of ten, for bounding the value of a short digit run.
pub open spec fn ten_pow(n: int) -> int
    decreases n,
{
    if n <= 0 {
        1
    } else {
        10 * ten_pow(n - 1)
    }
}

/// Powers of sixteen, for bounding the value of a short hex-digit run.
pub open spec fn sixteen_pow(n: int) -> int
    decreases n,
{
    if n <= 0 {
        1
    } else {
        16 * sixteen_pow(n - 1)
    }
}

/// The decimal value of the digits `s[lo..hi)`.
pub open spec fn dec_val(s: Seq<char>, lo: int, hi: int) -> int
    decreases hi - lo,
{
    if lo >= hi {
        0
    } else {
        10 * dec_val(s, lo, hi - 1) + (s[hi - 1] as int - 48)
    }
}

/// The numeric value of one hexadecimal digit.
pub open spec fn hex_digit_val(c: char) -> int {
    if is_dec_digit(c) {
        c as int - 48
    } else {
        c as int - 55
    }
}

/// The hexadecimal value of the digits `s[lo..hi)`.
pub open spec fn hex_val(s: Seq<char>, lo: int, hi: int) -> int
    decreases hi - lo,
{
    if lo >= hi {
        0
    } else {
        16 * hex_val(s, lo, hi - 1) + hex_digit_val(s[hi - 1])
    }
}

/// Powers of ten are positive.
pub proof fn lemma_ten_pow_pos(n: int)
    ensures
        ten_pow(n) >= 1,
    decreases n,
{
    if n > 0 {
        lemma_ten_pow_pos(n - 1);
    }
}

/// Powers of sixteen are positive.
pub proof fn lemma_sixteen_pow_pos(n: int)
    ensures
        sixteen_pow(n) >= 1,
    decreases n,
{
    if n > 0 {
        lemma_sixteen_pow_pos(n - 1);
    }
}

/// Powers of ten are positive and grow with the exponent.
pub proof fn lemma_ten_pow_mono(a: int, b: int)
    requires
        a <= b,
    ensures
        1 <= ten_pow(a) <= ten_pow(b),
    decreases b - a,
{
    lemma_ten_pow_pos(a);
    if a < b {
        lemma_ten_pow_mono(a, b - 1);
        lemma_ten_pow_pos(b - 1);
    }
}

/// Powers of sixteen are positive and grow with the exponent.
pub proof fn lemma_sixteen_pow_mono(a: int, b: int)
    requires
        a <= b,
    ensures
        1 <= sixteen_pow(a) <= sixteen_pow(b),
    decreases b - a,
{
    lemma_sixteen_pow_pos(a);
    if a < b {
        lemma_sixteen_pow_mono(a, b - 1);
        lemma_sixteen_pow_pos(b - 1);
    }
}

/// Whether a decimal character reference `&#` + one to seven digits + `;`
/// stands at the start of the input.
pub open spec fn dec_ref_match(s: Seq<char>) -> bool {
    let e = skip_dec_digits(s, 2);
    &&& s.len() >= 2
    &&& s[0] == '&'
    &&& s[1] == '#'
    &&& 2 < e <= 9
    &&& e < s.len()
    &&& s[e] == ';'
}

/// The failure a non-matching decimal reference produces. A run of more than
/// seven digits fails where the terminating `;` was expected, just past the
/// repetition bound.
pub open spec fn dec_ref_failure(s: Seq<char>) -> ParseFailure {
    let e = skip_dec_digits(s, 2);
    if s.len() < 2 || s[0] != '&' || s[1] != '#' {
        ParseFailure { kind: FailureKind::UnexpectedToken, pos: 0 }
    } else if e == 2 {
        ParseFailure { kind: FailureKind::RepetitionCountNotMet, pos: 2 }
    } else if e <= 9 {
        ParseFailure { kind: FailureKind::UnexpectedToken, pos: e as usize }
    } else {
        ParseFailure { kind: FailureKind::UnexpectedToken, pos: 9 }
    }
}

/// Matches a decimal character reference `&#N;` with one to seven digits and
/// decodes the value to its Unicode scalar value, or to the replacement
/// character when the value is no scalar value.
pub fn dec_char_num<'a>(input: &'a str) -> (r: Result<(&'a str, char), ParseFailure>)
    ensures
        r is Ok <==> dec_ref_match(input@),
        r matches Ok((rem, c)) ==> {
            &&& rem@ == input@.skip(skip_dec_digits(input@, 2) + 1)
            &&& c == decoded_char(dec_val(input@, 2, skip_dec_digits(input@, 2)))
        },
        r matches Err(f) ==> f == dec_ref_failure(input@),
{
    let n = input.unicode_len();
    if n < 2 || input.get_char(0) != '&' || input.get_char(1) != '#' {
        return Err(ParseFailure { kind: FailureKind::UnexpectedToken, pos: 0 });
    }
    let mut e: usize = 2;
    while e < n && is_dec_digit_exec(input.get_char(e))
        invariant
            2 <= e <= n,
            n == input@.len(),
            skip_dec_digits(input@, 2) == skip_dec_digits(input@, e as int),
        decreases n - e,
    {
        e += 1;
    }
    assert(skip_dec_digits(input@, e as int) == e);
    if e == 2 {
        return Err(ParseFailure { kind: FailureKind::RepetitionCountNotMet, pos: 2 });
    }
    let stop: usize = if e <= 9 {
        e
    } else {
        9
    };
    if stop == n || input.get_char(stop) != ';' {
        return Err(ParseFailure { kind: FailureKind::UnexpectedToken, pos: stop });
    }
    assert(dec_ref_match(input@)) by {
        lemma_skip_dec_digits_bounds(input@, 2);
    }
    let mut val: u32 = 0;
    let mut i: usize = 2;
    proof {
        lemma_skip_dec_digits_bounds(input@, 2);
    }
    while i < e
        invariant
            2 <= i <= e <= 9,
            e <= n == input@.len(),
            forall|k: int| 2 <= k < e ==> is_dec_digit(input@[k]),
            val == dec_val(input@, 2, i as int),
            val < ten_pow(i - 2),
        decreases e - i,
    {
        proof {
            lemma_ten_pow_mono(i - 2, 6);
            assert(ten_pow(6) == 1000000) by {
                reveal_with_fuel(ten_pow, 8);
            }
        }
        let d = input.get_char(i) as u32 - 48;
        val = val * 10 + d;
        i += 1;
    }
    let c = scalar_or_replacement(val);
    Ok((input.substring_char(e + 1, n), c))
}

/// The `skip_dec_digits` scan stays within the input, everything it passed
/// over is a digit, and it stops at the first non-digit.
pub proof fn lemma_skip_dec_digits_bounds(s: Seq<char>, i: int)
    requires
        0 <= i <= s.len(),
    ensures
        i <= skip_dec_digits(s, i) <= s.len(),
        forall|k: int| i <= k < skip_dec_digits(s, i) ==> is_dec_digit(s[k]),
    decreases s.len() - i,
{
    if i < s.len() && is_dec_digit(s[i]) {
        lemma_skip_dec_digits_bounds(s, i + 1);
    }
}

/// The `skip_hex_digits` scan stays within the input and everything it
/// passed over is a hexadecimal digit.
pub proof fn lemma_skip_hex_digits_bounds(s: Seq<char>, i: int)
    requires
        0 <= i <= s.len(),
    ensures
        i <= skip_hex_digits(s, i) <= s.len(),
        forall|k: int| i <= k < skip_hex_digits(s, i) ==> is_hex_digit(s[k]),
    decreases s.len() - i,
{
    if i < s.len() && is_hex_digit(s[i]) {
        lemma_skip_hex_digits_bounds(s, i + 1);
    }
}

/// Whether a hexadecimal character reference `&#x`/`&#X` + one to six hex
/// digits + `;` stands at the start of the input.
pub open spec fn hex_ref_match(s: Seq<char>) -> bool {
    let e = skip_hex_digits(s, 3);
    &&& s.len() >= 3
    &&& s[0] == '&'
    &&& s[1] == '#'
    &&& (s[2] == 'x' || s[2] == 'X')
    &&& 3 < e <= 9
    &&& e < s.len()
    &&& s[e] == ';'
}

/// The failure a non-matching hexadecimal reference produces. A run of more
/// than six digits fails where the terminating `;` was expected, just past
/// the repetition bound.
pub open spec fn hex_ref_failure(s: Seq<char>) -> ParseFailure {
    let e = skip_hex_digits(s, 3);
    if s.len() < 2 || s[0] != '&' || s[1] != '#' {
        ParseFailure { kind: FailureKind::UnexpectedToken, pos: 0 }
    } else if s.len() == 2 || !(s[2] == 'x' || s[2] == 'X') {
        ParseFailure { kind: FailureKind::UnexpectedCharacterClass, pos: 2 }
    } else if e == 3 {
        ParseFailure { kind: FailureKind::RepetitionCountNotMet, pos: 3 }
    } else if e <= 9 {
        ParseFailure { kind: FailureKind::UnexpectedToken, pos: e as usize }
    } else {
        ParseFailure { kind: FailureKind::UnexpectedToken, pos: 9 }
    }
}

/// Matches a hexadecimal character reference `&#xN;` with one to six digits
/// and decodes the value to its Unicode scalar value, or to the replacement
/// character when the value is no scalar value.
pub fn hex_char_num<'a>(input: &'a str) -> (r: Result<(&'a str, char), ParseFailure>)
    ensures
        r is Ok <==> hex_ref_match(input@),
        r matches Ok((rem, c)) ==> {
            &&& rem@ == input@.skip(skip_hex_digits(input@, 3) + 1)
            &&& c == decoded_char(hex_val(input@, 3, skip_hex_digits(input@, 3)))
        },
        r matches Err(f) ==> f == hex_ref_failure(input@),
{
    let n = input.unicode_len();
    if n < 2 || input.get_char(0) != '&' || input.get_char(1) != '#' {
        return Err(ParseFailure { kind: FailureKind::UnexpectedToken, pos: 0 });
    }
    if n == 2 || !(input.get_char(2) == 'x' || input.get_char(2) == 'X') {
        return Err(ParseFailure { kind: FailureKind::UnexpectedCharacterClass, pos: 2 });
    }
    let mut e: usize = 3;
    while e < n && is_hex_digit_exec(input.get_char(e))
        invariant
            3 <= e <= n,
            n == input@.len(),
            skip_hex_digits(input@, 3) == skip_hex_digits(input@, e as int),
        decreases n - e,
    {
        e += 1;
    }
    assert(skip_hex_digits(input@, e as int) == e);
    if e == 3 {
        return Err(ParseFailure { kind: FailureKind::RepetitionCountNotMet, pos: 3 });
    }
    let stop: usize = if e <= 9 {
        e
    } else {
        9
    };
    if stop == n || input.get_char(stop) != ';' {
        return Err(ParseFailure { kind: FailureKind::UnexpectedToken, pos: stop });
    }
    assert(hex_ref_match(input@)) by {
        lemma_skip_hex_digits_bounds(input@, 3);
    }
    let mut val: u32 = 0;
    let mut i: usize = 3;
    proof {
        lemma_skip_hex_digits_bounds(input@, 3);
    }
    while i < e
        invariant
            3 <= i <= e <= 9,
            e <= n == input@.len(),
            forall|k: int| 3 <= k < e ==> is_hex_digit(input@[k]),
            val == hex_val(input@, 3, i as int),
            val < sixteen_pow(i - 3),
        decreases e - i,
    {
        proof {
            lemma_sixteen_pow_mono(i - 3, 5);
            assert(sixteen_pow(5) == 1048576) by {
                reveal_with_fuel(sixteen_pow, 7);
            }
        }
        let v = input.get_char(i) as u32;
        let d = if v <= 57 {
            v - 48
        } else {
            v - 55
        };
        val = val * 16 + d;
        i += 1;
    }
    let c = scalar_or_replacement(val);
    Ok((input.substring_char(e + 1, n), c))
}

} // verus!
