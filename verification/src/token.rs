//! The data model of the scanner's output: token kinds, literal values,
//! tokens, diagnostics, and the mathematical views that contracts speak of.

use vstd::prelude::*;

verus! {

/// The classification of a token: the ten single-character punctuation marks,
/// the one-or-two-character operators, the three literal-bearing kinds, the
/// sixteen reserved words, and the terminal end-of-file marker.
#[derive(Clone, Copy, PartialEq, Eq, Structural, Debug)]
pub enum TokenKind {
    LeftParen,
    RightParen,
    LeftBrace,
    RightBrace,
    Comma,
    Dot,
    Minus,
    Plus,
    Semicolon,
    Star,
    Equal,
    EqualEqual,
    Bang,
    BangEqual,
    Less,
    LessEqual,
    Greater,
    GreaterEqual,
    Slash,
    StringLit,
    Number,
    Identifier,
    And,
    Class,
    Else,
    False,
    For,
    Fun,
    If,
    Nil,
    Or,
    Print,
    Return,
    Super,
    This,
    True,
    Var,
    While,
    Eof,
}

/// The semantic value carried by a token. Punctuation, operators, keywords
/// and the end-of-file marker carry no value; a string literal carries its
/// raw content (the text between the quotes, unescaped); a number literal
/// carries the canonical decimal rendering of its value, in which an
/// integer-valued literal ends in `.0` and a fractional one shows its digits
/// without trailing zeros.
#[derive(PartialEq, Eq, Debug)]
pub enum Literal {
    NoValue,
    Text(String),
    Num(String),
}

/// The mathematical view of a [`Literal`]: the same shape over `Seq<char>`.
pub enum LiteralModel {
    NoValue,
    Text(Seq<char>),
    Num(Seq<char>),
}

impl View for Literal {
    type V = LiteralModel;

    open spec fn view(&self) -> LiteralModel {
        match self {
            Literal::NoValue => LiteralModel::NoValue,
            Literal::Text(t) => LiteralModel::Text(t@),
            Literal::Num(d) => LiteralModel::Num(d@),
        }
    }
}

/// One token of the output stream. The lexeme is the exact source substring
/// consumed to produce the token (empty for the end-of-file marker); the line
/// is the line number the scanner had reached when the token was completed.
#[derive(PartialEq, Eq, Debug)]
pub struct Token {
    pub kind: TokenKind,
    pub lexeme: String,
    pub literal: Literal,
    pub line: usize,
}

/// The mathematical view of a [`Token`].
pub struct TokenModel {
    pub kind: TokenKind,
    pub lexeme: Seq<char>,
    pub literal: LiteralModel,
    pub line: nat,
}

impl View for Token {
    type V = TokenModel;

    open spec fn view(&self) -> TokenModel {
        TokenModel {
            kind: self.kind,
            lexeme: self.lexeme@,
            literal: self.literal@,
            line: self.line as nat,
        }
    }
}

/// A line-numbered diagnostic. An unexpected character is recoverable: the
/// scan continues past it. An unterminated string is only discovered once the
/// input is exhausted, so no further input follows it.
#[derive(Clone, Copy, PartialEq, Eq, Structural, Debug)]
pub enum Diagnostic {
    UnexpectedCharacter { line: usize, ch: char },
    UnterminatedString { line: usize },
}

/// The mathematical view of a [`Diagnostic`].
pub enum DiagModel {
    UnexpectedCharacter { line: nat, ch: char },
    UnterminatedString { line: nat },
}

impl View for Diagnostic {
    type V = DiagModel;

    open spec fn view(&self) -> DiagModel {
        match self {
            Diagnostic::UnexpectedCharacter { line, ch } => DiagModel::UnexpectedCharacter {
                line: *line as nat,
                ch: *ch,
            },
            Diagnostic::UnterminatedString { line } => DiagModel::UnterminatedString {
                line: *line as nat,
            },
        }
    }
}

/// The views of a sequence of tokens, in order.
pub open spec fn token_views(v: Seq<Token>) -> Seq<TokenModel> {
    v.map_values(|t: Token| t@)
}

/// The views of a sequence of diagnostics, in order.
pub open spec fn diag_views(v: Seq<Diagnostic>) -> Seq<DiagModel> {
    v.map_values(|d: Diagnostic| d@)
}

pub proof fn lemma_token_views_push(v: Seq<Token>, t: Token)
    ensures
        token_views(v.push(t)) =~= token_views(v).push(t@),
{
}

pub proof fn lemma_diag_views_push(v: Seq<Diagnostic>, d: Diagnostic)
    ensures
        diag_views(v.push(d)) =~= diag_views(v).push(d@),
{
}

} // verus!
