//! The fixed textual output format: one line per token, and line-numbered
//! diagnostic messages.

use vstd::prelude::*;
use crate::text::push_char;
use crate::token::{DiagModel, Diagnostic, Literal, LiteralModel, Token, TokenKind, TokenModel};
use vstd::string::{StrSliceExecFns, StringExecFns};

verus! {

/// The fixed display name of a token kind.
pub open spec fn kind_name(k: TokenKind) -> Seq<char> {
    match k {
        TokenKind::LeftParen => "LEFT_PAREN"@,
        TokenKind::RightParen => "RIGHT_PAREN"@,
        TokenKind::LeftBrace => "LEFT_BRACE"@,
        TokenKind::RightBrace => "RIGHT_BRACE"@,
        TokenKind::Comma => "COMMA"@,
        TokenKind::Dot => "DOT"@,
        TokenKind::Minus => "MINUS"@,
        TokenKind::Plus => "PLUS"@,
        TokenKind::Semicolon => "SEMICOLON"@,
        TokenKind::Star => "STAR"@,
        TokenKind::Equal => "EQUAL"@,
        TokenKind::EqualEqual => "EQUAL_EQUAL"@,
        TokenKind::Bang => "BANG"@,
        TokenKind::BangEqual => "BANG_EQUAL"@,
        TokenKind::Less => "LESS"@,
        TokenKind::LessEqual => "LESS_EQUAL"@,
        TokenKind::Greater => "GREATER"@,
        TokenKind::GreaterEqual => "GREATER_EQUAL"@,
        TokenKind::Slash => "SLASH"@,
        TokenKind::StringLit => "STRING"@,
        TokenKind::Number => "NUMBER"@,
        TokenKind::Identifier => "IDENTIFIER"@,
        TokenKind::And => "AND"@,
        TokenKind::Class => "CLASS"@,
        TokenKind::Else => "ELSE"@,
        TokenKind::False => "FALSE"@,
        TokenKind::For => "FOR"@,
        TokenKind::Fun => "FUN"@,
        TokenKind::If => "IF"@,
        TokenKind::Nil => "NIL"@,
        TokenKind::Or => "OR"@,
        TokenKind::Print => "PRINT"@,
        TokenKind::Return => "RETURN"@,
        TokenKind::Super => "SUPER"@,
        TokenKind::This => "THIS"@,
        TokenKind::True => "TRUE"@,
        TokenKind::Var => "VAR"@,
        TokenKind::While => "WHILE"@,
        TokenKind::Eof => "EOF"@,
    }
}

/// The literal field of an output line: the carried value, or `null` where
/// the token carries none.
pub open spec fn literal_text(l: LiteralModel) -> Seq<char> {
    match l {
        LiteralModel::NoValue => "null"@,
        LiteralModel::Text(v) => v,
        LiteralModel::Num(v) => v,
    }
}

/// One output line: `<KIND> <lexeme> <literal-or-null>`. The end-of-file
/// token renders as `EOF  null`, its lexeme field empty.
pub open spec fn render_token_model(t: TokenModel) -> Seq<char> {
    kind_name(t.kind) + " "@ + t.lexeme + " "@ + literal_text(t.literal)
}

/// The decimal digits of `n`, most significant first.
pub open spec fn dec_digits(n: int) -> Seq<char>
    decreases n,
{
    if n < 10 {
        Seq::<char>::empty().push(digit_char(n))
    } else {
        dec_digits(n / 10).push(digit_char(n % 10))
    }
}

/// The character of one decimal digit.
pub open spec fn digit_char(d: int) -> char {
    if d == 0 {
        '0'
    } else if d == 1 {
        '1'
    } else if d == 2 {
        '2'
    } else if d == 3 {
        '3'
    } else if d == 4 {
        '4'
    } else if d == 5 {
        '5'
    } else if d == 6 {
        '6'
    } else if d == 7 {
        '7'
    } else if d == 8 {
        '8'
    } else {
        '9'
    }
}

/// One diagnostic message: `[line <N>] Error: ...` in the fixed wording of
/// the two error kinds.
pub open spec fn render_diag_model(d: DiagModel) -> Seq<char> {
    match d {
        DiagModel::UnexpectedCharacter { line, ch } => ("[line "@ + dec_digits(line as int)
            + "] Error: Unexpected character: "@).push(ch),
        DiagModel::UnterminatedString { line } => "[line "@ + dec_digits(line as int)
            + "] Error: Unterminated string."@,
    }
}

fn digit_char_of(d: usize) -> (c: char)
    requires
        d < 10,
    ensures
        c == digit_char(d as int),
{
    if d == 0 {
        '0'
    } else if d == 1 {
        '1'
    } else if d == 2 {
        '2'
    } else if d == 3 {
        '3'
    } else if d == 4 {
        '4'
    } else if d == 5 {
        '5'
    } else if d == 6 {
        '6'
    } else if d == 7 {
        '7'
    } else if d == 8 {
        '8'
    } else {
        '9'
    }
}

/// Render a line number in decimal.
pub fn decimal_string(n: usize) -> (r: String)
    ensures
        r@ == dec_digits(n as int),
    decreases n,
{
    if n < 10 {
        let mut r = String::new();
        push_char(&mut r, digit_char_of(n));
        r
    } else {
        let mut r = decimal_string(n / 10);
        push_char(&mut r, digit_char_of(n % 10));
        r
    }
}

/// The fixed display name of a token kind.
pub fn kind_name_str(k: TokenKind) -> (r: &'static str)
    ensures
        r@ == kind_name(k),
{
    match k {
        TokenKind::LeftParen => "LEFT_PAREN",
        TokenKind::RightParen => "RIGHT_PAREN",
        TokenKind::LeftBrace => "LEFT_BRACE",
        TokenKind::RightBrace => "RIGHT_BRACE",
        TokenKind::Comma => "COMMA",
        TokenKind::Dot => "DOT",
        TokenKind::Minus => "MINUS",
        TokenKind::Plus => "PLUS",
        TokenKind::Semicolon => "SEMICOLON",
        TokenKind::Star => "STAR",
        TokenKind::Equal => "EQUAL",
        TokenKind::EqualEqual => "EQUAL_EQUAL",
        TokenKind::Bang => "BANG",
        TokenKind::BangEqual => "BANG_EQUAL",
        TokenKind::Less => "LESS",
        TokenKind::LessEqual => "LESS_EQUAL",
        TokenKind::Greater => "GREATER",
        TokenKind::GreaterEqual => "GREATER_EQUAL",
        TokenKind::Slash => "SLASH",
        TokenKind::StringLit => "STRING",
        TokenKind::Number => "NUMBER",
        TokenKind::Identifier => "IDENTIFIER",
        TokenKind::And => "AND",
        TokenKind::Class => "CLASS",
        TokenKind::Else => "ELSE",
        TokenKind::False => "FALSE",
        TokenKind::For => "FOR",
        TokenKind::Fun => "FUN",
        TokenKind::If => "IF",
        TokenKind::Nil => "NIL",
        TokenKind::Or => "OR",
        TokenKind::Print => "PRINT",
        TokenKind::Return => "RETURN",
        TokenKind::Super => "SUPER",
        TokenKind::This => "THIS",
        TokenKind::True => "TRUE",
        TokenKind::Var => "VAR",
        TokenKind::While => "WHILE",
        TokenKind::Eof => "EOF",
    }
}

/// Render one token as its output line.
pub fn render_token(t: &Token) -> (r: String)
    ensures
        r@ == render_token_model(t@),
{
    let mut r = String::new();
    r.append(kind_name_str(t.kind));
    r.append(" ");
    r.append(t.lexeme.as_str());
    r.append(" ");
    match &t.literal {
        Literal::NoValue => r.append("null"),
        Literal::Text(v) => r.append(v.as_str()),
        Literal::Num(v) => r.append(v.as_str()),
    }
    r
}

/// Render one diagnostic as its message line.
pub fn render_diagnostic(d: &Diagnostic) -> (r: String)
    ensures
        r@ == render_diag_model(d@),
{
    let mut r = String::new();
    r.append("[line ");
    match d {
        Diagnostic::UnexpectedCharacter { line, ch } => {
            let num = decimal_string(*line);
            r.append(num.as_str());
            r.append("] Error: Unexpected character: ");
            push_char(&mut r, *ch);
        },
        Diagnostic::UnterminatedString { line } => {
            let num = decimal_string(*line);
            r.append(num.as_str());
            r.append("] Error: Unterminated string.");
        },
    }
    r
}

} // verus!
