use lox_scanner::cursor::Cursor;
use lox_scanner::render::{decimal_string, render_diagnostic, render_token};
use lox_scanner::scan::{format_number_literal, keyword_token_kind, tokenize};
use lox_scanner::token::{Literal, TokenKind};

fn token_lines(input: &str) -> Vec<String> {
    let out = tokenize(input);
    out.tokens.iter().map(render_token).collect()
}

fn diag_lines(input: &str) -> Vec<String> {
    let out = tokenize(input);
    out.diagnostics.iter().map(render_diagnostic).collect()
}

#[test]
fn punctuation_only_one_token_per_character() {
    let out = tokenize("(){}");
    assert_eq!(out.tokens.len(), 5);
    assert_eq!(
        token_lines("(){}"),
        vec![
            "LEFT_PAREN ( null",
            "RIGHT_PAREN ) null",
            "LEFT_BRACE { null",
            "RIGHT_BRACE } null",
            "EOF  null",
        ]
    );
    for t in out.tokens.iter().take(4) {
        assert_eq!(t.lexeme.len(), 1);
    }
    assert!(!out.errored);
}

#[test]
fn all_punctuation_marks() {
    assert_eq!(
        token_lines(",.-+;*"),
        vec![
            "COMMA , null",
            "DOT . null",
            "MINUS - null",
            "PLUS + null",
            "SEMICOLON ; null",
            "STAR * null",
            "EOF  null",
        ]
    );
}

#[test]
fn maximal_munch_bang_equal() {
    assert_eq!(token_lines("!="), vec!["BANG_EQUAL != null", "EOF  null"]);
}

#[test]
fn operators_single_and_double() {
    assert_eq!(
        token_lines("= == < <= > >= ! !="),
        vec![
            "EQUAL = null",
            "EQUAL_EQUAL == null",
            "LESS < null",
            "LESS_EQUAL <= null",
            "GREATER > null",
            "GREATER_EQUAL >= null",
            "BANG ! null",
            "BANG_EQUAL != null",
            "EOF  null",
        ]
    );
}

#[test]
fn comment_skipping() {
    let out = tokenize("// comment\n+");
    assert_eq!(token_lines("// comment\n+"), vec!["PLUS + null", "EOF  null"]);
    assert_eq!(out.diagnostics.len(), 0);
    assert!(!out.errored);
}

#[test]
fn slash_alone_is_a_token() {
    assert_eq!(token_lines("/"), vec!["SLASH / null", "EOF  null"]);
}

#[test]
fn unterminated_string_line_tracking() {
    let out = tokenize("\n\n\"unterminated");
    assert_eq!(
        diag_lines("\n\n\"unterminated"),
        vec!["[line 3] Error: Unterminated string."]
    );
    assert!(out.errored);
    assert_eq!(token_lines("\n\n\"unterminated"), vec!["EOF  null"]);
}

#[test]
fn number_round_trip_integer() {
    assert_eq!(token_lines("123"), vec!["NUMBER 123 123.0", "EOF  null"]);
}

#[test]
fn number_round_trip_fraction() {
    assert_eq!(token_lines("3.14"), vec!["NUMBER 3.14 3.14", "EOF  null"]);
}

#[test]
fn keyword_vs_identifier_boundary() {
    assert_eq!(token_lines("classify"), vec!["IDENTIFIER classify null", "EOF  null"]);
}

#[test]
fn mixed_error_run() {
    let out = tokenize("@\n\"ok\"");
    assert_eq!(diag_lines("@\n\"ok\""), vec!["[line 1] Error: Unexpected character: @"]);
    assert_eq!(token_lines("@\n\"ok\""), vec!["STRING \"ok\" ok", "EOF  null"]);
    assert!(out.errored);
}

#[test]
fn empty_input_yields_eof_only() {
    let out = tokenize("");
    assert_eq!(token_lines(""), vec!["EOF  null"]);
    assert!(!out.errored);
}

#[test]
fn all_sixteen_keywords() {
    assert_eq!(
        token_lines(
            "and class else false for fun if nil or print return super this true var while"
        ),
        vec![
            "AND and null",
            "CLASS class null",
            "ELSE else null",
            "FALSE false null",
            "FOR for null",
            "FUN fun null",
            "IF if null",
            "NIL nil null",
            "OR or null",
            "PRINT print null",
            "RETURN return null",
            "SUPER super null",
            "THIS this null",
            "TRUE true null",
            "VAR var null",
            "WHILE while null",
            "EOF  null",
        ]
    );
}

#[test]
fn trailing_dot_number_is_permissive() {
    assert_eq!(token_lines("123."), vec!["NUMBER 123. 123.0", "EOF  null"]);
}

#[test]
fn integer_valued_fraction_renders_with_dot_zero() {
    assert_eq!(token_lines("2.00"), vec!["NUMBER 2.00 2.0", "EOF  null"]);
}

#[test]
fn leading_zeros_are_dropped_from_the_value() {
    assert_eq!(token_lines("007"), vec!["NUMBER 007 7.0", "EOF  null"]);
}

#[test]
fn trailing_fraction_zeros_are_dropped_from_the_value() {
    assert_eq!(token_lines("10.10"), vec!["NUMBER 10.10 10.1", "EOF  null"]);
}

#[test]
fn number_then_dot_then_number() {
    assert_eq!(
        token_lines("123.45.67"),
        vec!["NUMBER 123.45 123.45", "DOT . null", "NUMBER 67 67.0", "EOF  null"]
    );
}

#[test]
fn dot_before_digits_is_punctuation() {
    assert_eq!(token_lines(".5"), vec!["DOT . null", "NUMBER 5 5.0", "EOF  null"]);
}

#[test]
fn multiline_string_counts_lines() {
    let out = tokenize("\"a\nb\"");
    assert_eq!(out.tokens.len(), 2);
    assert_eq!(out.tokens[0].kind, TokenKind::StringLit);
    assert_eq!(out.tokens[0].lexeme, "\"a\nb\"");
    assert_eq!(out.tokens[0].literal, Literal::Text(String::from("a\nb")));
    assert_eq!(out.tokens[0].line, 2);
    assert!(!out.errored);
}

#[test]
fn string_containing_slashes_is_not_a_comment() {
    assert_eq!(token_lines("\"//\""), vec!["STRING \"//\" //", "EOF  null"]);
}

#[test]
fn identifiers_with_digits_and_underscores() {
    assert_eq!(
        token_lines("a_b1 c2"),
        vec!["IDENTIFIER a_b1 null", "IDENTIFIER c2 null", "EOF  null"]
    );
}

#[test]
fn keyword_must_match_whole_lexeme() {
    assert_eq!(
        token_lines("or orchid"),
        vec!["OR or null", "IDENTIFIER orchid null", "EOF  null"]
    );
}

#[test]
fn two_unexpected_characters_give_two_diagnostics() {
    let out = tokenize("@#");
    assert_eq!(
        diag_lines("@#"),
        vec![
            "[line 1] Error: Unexpected character: @",
            "[line 1] Error: Unexpected character: #",
        ]
    );
    assert!(out.errored);
    assert_eq!(token_lines("@#"), vec!["EOF  null"]);
}

#[test]
fn scanning_continues_past_an_unexpected_character() {
    assert_eq!(token_lines("@+"), vec!["PLUS + null", "EOF  null"]);
    assert_eq!(diag_lines("@+"), vec!["[line 1] Error: Unexpected character: @"]);
}

#[test]
fn tabs_and_spaces_are_skipped() {
    assert_eq!(token_lines(" \t+ \t"), vec!["PLUS + null", "EOF  null"]);
}

#[test]
fn unterminated_string_after_tokens() {
    let out = tokenize("+\"abc");
    assert_eq!(token_lines("+\"abc"), vec!["PLUS + null", "EOF  null"]);
    assert_eq!(diag_lines("+\"abc"), vec!["[line 1] Error: Unterminated string."]);
    assert!(out.errored);
}

#[test]
fn unexpected_character_line_is_tracked() {
    assert_eq!(
        diag_lines("\n\n\u{e9}"),
        vec!["[line 3] Error: Unexpected character: \u{e9}"]
    );
}

#[test]
fn cursor_peeks_and_advances() {
    let mut cur = Cursor::new(vec!['a', '\n', 'b']);
    assert_eq!(cur.peek(), Some('a'));
    assert_eq!(cur.line, 1);
    assert_eq!(cur.advance(), Some('a'));
    assert_eq!(cur.line, 1);
    assert_eq!(cur.advance(), Some('\n'));
    assert_eq!(cur.line, 2);
    assert_eq!(cur.peek(), Some('b'));
    assert_eq!(cur.advance(), Some('b'));
    assert_eq!(cur.peek(), None);
    assert_eq!(cur.advance(), None);
}

#[test]
fn keyword_table_lookup_is_exact() {
    assert_eq!(keyword_token_kind("class"), Some(TokenKind::Class));
    assert_eq!(keyword_token_kind("while"), Some(TokenKind::While));
    assert_eq!(keyword_token_kind("classify"), None);
    assert_eq!(keyword_token_kind("Or"), None);
    assert_eq!(keyword_token_kind(""), None);
}

#[test]
fn number_literal_formatting() {
    assert_eq!(format_number_literal("2.00"), "2.0");
    assert_eq!(format_number_literal("123."), "123.0");
    assert_eq!(format_number_literal("007"), "7.0");
    assert_eq!(format_number_literal("0"), "0.0");
    assert_eq!(format_number_literal("0.5000"), "0.5");
    assert_eq!(format_number_literal("00.50"), "0.5");
}

#[test]
fn line_numbers_render_in_decimal() {
    assert_eq!(decimal_string(0), "0");
    assert_eq!(decimal_string(7), "7");
    assert_eq!(decimal_string(42), "42");
    assert_eq!(decimal_string(1234567890), "1234567890");
}
