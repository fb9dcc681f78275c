use commonmark_rust::parser::common::{
    dec_char_num, entity_ref, eol, escaped, hex_char_num, insecure, is_space, line_term,
    FailureKind, ParseFailure,
};

#[test]
fn entity_ref_capital_aelig() {
    let (rem, out) = entity_ref("&AElig;").unwrap();
    assert_eq!(rem, "");
    assert_eq!(out, "\u{00c6}");
}

#[test]
fn non_entity_ref() {
    assert_eq!(
        entity_ref("&madeUpEntity;"),
        Err(ParseFailure {
            kind: FailureKind::UnknownReference,
            pos: 14,
        }),
    );
}

#[test]
fn illformed_entity_ref() {
    assert_eq!(
        entity_ref("&copy"),
        Err(ParseFailure {
            kind: FailureKind::UnexpectedToken,
            pos: 5,
        }),
    );
    assert_eq!(
        entity_ref("&nbsp &x;"),
        Err(ParseFailure {
            kind: FailureKind::UnexpectedToken,
            pos: 5,
        }),
    );
}

#[test]
fn entity_ref_without_name() {
    assert_eq!(
        entity_ref("&;"),
        Err(ParseFailure {
            kind: FailureKind::UnexpectedCharacterClass,
            pos: 1,
        }),
    );
}

#[test]
fn decimal_char_number() {
    assert_eq!(dec_char_num("&#1234;"), Ok(("", 'Ӓ')));
}

#[test]
fn decimal_char_number_leaves_remainder() {
    assert_eq!(dec_char_num("&#65;BC"), Ok(("BC", 'A')));
}

#[test]
fn decimal_out_of_range_decodes_to_replacement() {
    assert_eq!(dec_char_num("&#1114112;"), Ok(("", '\u{fffd}')));
    assert_eq!(dec_char_num("&#55296;"), Ok(("", '\u{fffd}')));
}

#[test]
fn decimal_without_digits() {
    assert_eq!(
        dec_char_num("&#;"),
        Err(ParseFailure {
            kind: FailureKind::RepetitionCountNotMet,
            pos: 2,
        }),
    );
}

#[test]
fn decimal_with_too_many_digits() {
    assert_eq!(
        dec_char_num("&#12345678;"),
        Err(ParseFailure {
            kind: FailureKind::UnexpectedToken,
            pos: 9,
        }),
    );
}

#[test]
fn hexadecimal_char_number() {
    assert_eq!(hex_char_num("&#x41;"), Ok(("", 'A')));
    assert_eq!(hex_char_num("&#X4D2;"), Ok(("", 'Ӓ')));
}

#[test]
fn hexadecimal_out_of_range_decodes_to_replacement() {
    assert_eq!(hex_char_num("&#x110000;"), Ok(("", '\u{fffd}')));
    assert_eq!(hex_char_num("&#xD800;"), Ok(("", '\u{fffd}')));
}

#[test]
fn hexadecimal_accepts_upper_case_digits_only() {
    assert_eq!(
        hex_char_num("&#xff;"),
        Err(ParseFailure {
            kind: FailureKind::RepetitionCountNotMet,
            pos: 3,
        }),
    );
}

#[test]
fn eol_matches_each_terminator() {
    assert_eq!(eol("\r\nrest"), Ok(("rest", "\r\n")));
    assert_eq!(eol("\rrest"), Ok(("rest", "\r")));
    assert_eq!(eol("\nrest"), Ok(("rest", "\n")));
    assert_eq!(
        eol("rest"),
        Err(ParseFailure {
            kind: FailureKind::UnexpectedToken,
            pos: 0,
        }),
    );
}

#[test]
fn line_term_matches_end_of_input() {
    assert_eq!(line_term(""), Ok(("", "")));
    assert_eq!(line_term("\nrest"), Ok(("rest", "\n")));
    assert_eq!(
        line_term("rest"),
        Err(ParseFailure {
            kind: FailureKind::UnexpectedEndOfInput,
            pos: 0,
        }),
    );
}

#[test]
fn escaped_consumes_two_characters() {
    assert_eq!(escaped("\\*rest"), Ok(("rest", "\\*")));
    assert_eq!(
        escaped("\\a"),
        Err(ParseFailure {
            kind: FailureKind::UnexpectedCharacterClass,
            pos: 1,
        }),
    );
    assert_eq!(
        escaped("no escape"),
        Err(ParseFailure {
            kind: FailureKind::UnexpectedToken,
            pos: 0,
        }),
    );
}

#[test]
fn insecure_matches_nul() {
    assert_eq!(insecure("\u{0000}rest"), Ok(("rest", "\u{0000}")));
    assert_eq!(
        insecure("rest"),
        Err(ParseFailure {
            kind: FailureKind::UnexpectedToken,
            pos: 0,
        }),
    );
}

#[test]
fn space_classification() {
    assert!(is_space(' '));
    assert!(is_space('\t'));
    assert!(!is_space('\n'));
    assert!(!is_space('x'));
}
