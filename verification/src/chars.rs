//! Character classes the dispatcher sorts on, with executable counterparts.

use vstd::prelude::*;
use crate::token::TokenKind;

verus! {

/// One of the ten fixed single-character punctuation marks.
pub open spec fn is_punct(c: char) -> bool {
    c == '(' || c == ')' || c == '{' || c == '}' || c == ',' || c == '.' || c == '-' || c == '+'
        || c == ';' || c == '*'
}

/// The token kind of a punctuation mark.
pub open spec fn punct_kind(c: char) -> TokenKind {
    if c == '(' {
        TokenKind::LeftParen
    } else if c == ')' {
        TokenKind::RightParen
    } else if c == '{' {
        TokenKind::LeftBrace
    } else if c == '}' {
        TokenKind::RightBrace
    } else if c == ',' {
        TokenKind::Comma
    } else if c == '.' {
        TokenKind::Dot
    } else if c == '-' {
        TokenKind::Minus
    } else if c == '+' {
        TokenKind::Plus
    } else if c == ';' {
        TokenKind::Semicolon
    } else {
        TokenKind::Star
    }
}

/// A character that begins a one-or-two-character operator.
pub open spec fn is_operator_start(c: char) -> bool {
    c == '=' || c == '!' || c == '<' || c == '>'
}

/// The token kind of the single-character form of an operator.
pub open spec fn single_op_kind(c: char) -> TokenKind {
    if c == '=' {
        TokenKind::Equal
    } else if c == '!' {
        TokenKind::Bang
    } else if c == '<' {
        TokenKind::Less
    } else {
        TokenKind::Greater
    }
}

/// The token kind of the doubled form of an operator (the base character
/// followed by `=`).
pub open spec fn double_op_kind(c: char) -> TokenKind {
    if c == '=' {
        TokenKind::EqualEqual
    } else if c == '!' {
        TokenKind::BangEqual
    } else if c == '<' {
        TokenKind::LessEqual
    } else {
        TokenKind::GreaterEqual
    }
}

/// An ASCII decimal digit.
pub open spec fn is_digit(c: char) -> bool {
    '0' <= c && c <= '9'
}

/// An ASCII letter or an underscore: the characters an identifier may begin
/// with.
pub open spec fn is_alpha(c: char) -> bool {
    ('a' <= c && c <= 'z') || ('A' <= c && c <= 'Z') || c == '_'
}

/// A character an identifier may continue with: an ASCII letter, an ASCII
/// digit, or an underscore.
pub open spec fn is_ident_char(c: char) -> bool {
    is_alpha(c) || is_digit(c)
}

pub fn check_punct(c: char) -> (r: bool)
    ensures
        r == is_punct(c),
{
    c == '(' || c == ')' || c == '{' || c == '}' || c == ',' || c == '.' || c == '-' || c == '+'
        || c == ';' || c == '*'
}

pub fn punct_kind_of(c: char) -> (k: TokenKind)
    ensures
        k == punct_kind(c),
{
    if c == '(' {
        TokenKind::LeftParen
    } else if c == ')' {
        TokenKind::RightParen
    } else if c == '{' {
        TokenKind::LeftBrace
    } else if c == '}' {
        TokenKind::RightBrace
    } else if c == ',' {
        TokenKind::Comma
    } else if c == '.' {
        TokenKind::Dot
    } else if c == '-' {
        TokenKind::Minus
    } else if c == '+' {
        TokenKind::Plus
    } else if c == ';' {
        TokenKind::Semicolon
    } else {
        TokenKind::Star
    }
}

pub fn check_operator_start(c: char) -> (r: bool)
    ensures
        r == is_operator_start(c),
{
    c == '=' || c == '!' || c == '<' || c == '>'
}

pub fn single_op_kind_of(c: char) -> (k: TokenKind)
    ensures
        k == single_op_kind(c),
{
    if c == '=' {
        TokenKind::Equal
    } else if c == '!' {
        TokenKind::Bang
    } else if c == '<' {
        TokenKind::Less
    } else {
        TokenKind::Greater
    }
}

pub fn double_op_kind_of(c: char) -> (k: TokenKind)
    ensures
        k == double_op_kind(c),
{
    if c == '=' {
        TokenKind::EqualEqual
    } else if c == '!' {
        TokenKind::BangEqual
    } else if c == '<' {
        TokenKind::LessEqual
    } else {
        TokenKind::GreaterEqual
    }
}

pub fn check_digit(c: char) -> (r: bool)
    ensures
        r == is_digit(c),
{
    '0' <= c && c <= '9'
}

pub fn check_alpha(c: char) -> (r: bool)
    ensures
        r == is_alpha(c),
{
    ('a' <= c && c <= 'z') || ('A' <= c && c <= 'Z') || c == '_'
}

pub fn check_ident_char(c: char) -> (r: bool)
    ensures
        r == is_ident_char(c),
{
    check_alpha(c) || check_digit(c)
}

} // verus!
