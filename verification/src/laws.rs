//! Properties of the scan stated and proved once for all inputs.

use vstd::prelude::*;
use crate::chars::{is_alpha, is_digit, is_ident_char, is_operator_start, is_punct};
use crate::model::{
    char_pos, cons_tokens, double_op_token, eof_token, ident_run_end, ident_token,
    lemma_char_pos, lemma_ident_run_end,
    lemma_number_end, lemma_scan_end, lemma_scan_step_blank, lemma_scan_step_comment,
    lemma_scan_step_ident, lemma_scan_step_newline, lemma_scan_step_number,
    lemma_scan_step_operator1, lemma_scan_step_operator2, lemma_scan_step_punct,
    lemma_scan_step_slash, lemma_scan_step_string_err, lemma_scan_step_string_ok,
    lemma_scan_step_unexpected, newline_count, number_end, number_token, punct_token, scan,
    scan_from, single_op_token, slash_token, string_token,
};
use crate::token::{TokenKind, TokenModel};

verus! {

proof fn lemma_cons_tokens_props(h: TokenModel, rest: Seq<TokenModel>)
    ensures
        cons_tokens(h, rest).len() == 1 + rest.len(),
        cons_tokens(h, rest)[0] == h,
        forall|j: int| 0 <= j < rest.len() ==> cons_tokens(h, rest)[j + 1] == rest[j],
{
    let target = seq![h] + rest;
    assert(cons_tokens(h, rest) == target);
}

proof fn lemma_punct_only_from(s: Seq<char>, i: int, line: nat)
    requires
        0 <= i <= s.len(),
        forall|j: int| i <= j < s.len() ==> is_punct(#[trigger] s[j]),
    ensures
        scan_from(s, i, line).tokens.len() == s.len() - i + 1,
        forall|j: int|
            0 <= j < s.len() - i ==> #[trigger] scan_from(s, i, line).tokens[j] == punct_token(
                s[i + j],
                line,
            ),
        scan_from(s, i, line).diags.len() == 0,
    decreases s.len() - i,
{
    if i == s.len() {
        lemma_scan_end(s, i, line);
        lemma_cons_tokens_props(eof_token(line), Seq::<TokenModel>::empty());
    } else {
        lemma_scan_step_punct(s, i, line);
        lemma_punct_only_from(s, i + 1, line);
        lemma_cons_tokens_props(punct_token(s[i], line), scan_from(s, i + 1, line).tokens);
        assert forall|j: int| 0 <= j < s.len() - i implies #[trigger] scan_from(
            s,
            i,
            line,
        ).tokens[j] == punct_token(s[i + j], line) by {
            if j > 0 {
                assert(scan_from(s, i, line).tokens[(j - 1) + 1] == scan_from(
                    s,
                    i + 1,
                    line,
                ).tokens[j - 1]);
            }
        }
    }
}

/// Law: for an input made of the ten punctuation characters alone, the scan
/// yields exactly one single-character token per input character, in input
/// order, followed by the end-of-file token, and no diagnostics.
pub proof fn lemma_punctuation_only(s: Seq<char>)
    requires
        forall|j: int| 0 <= j < s.len() ==> is_punct(#[trigger] s[j]),
    ensures
        scan(s).tokens.len() == s.len() + 1,
        forall|j: int|
            0 <= j < s.len() ==> #[trigger] scan(s).tokens[j] == punct_token(s[j], 1),
        forall|j: int| 0 <= j < s.len() ==> (#[trigger] scan(s).tokens[j]).lexeme.len() == 1,
        scan(s).diags.len() == 0,
{
    lemma_punct_only_from(s, 0, 1);
    assert forall|j: int| 0 <= j < s.len() implies (#[trigger] scan(s).tokens[j]).lexeme.len()
        == 1 by {
        assert(scan(s).tokens[j] == punct_token(s[j], 1));
    }
}

proof fn lemma_cons_tokens_last(h: TokenModel, rest: Seq<TokenModel>)
    requires
        rest.len() >= 1,
    ensures
        cons_tokens(h, rest).len() == 1 + rest.len(),
        cons_tokens(h, rest).last() == rest.last(),
{
    lemma_cons_tokens_props(h, rest);
    assert(cons_tokens(h, rest)[(rest.len() - 1) + 1] == rest[rest.len() - 1]);
}

proof fn lemma_eof_last_from(s: Seq<char>, i: int, line: nat)
    requires
        0 <= i <= s.len(),
    ensures
        scan_from(s, i, line).tokens.len() >= 1,
        scan_from(s, i, line).tokens.last().kind == TokenKind::Eof,
        scan_from(s, i, line).tokens.last().lexeme.len() == 0,
    decreases s.len() - i,
{
    if i == s.len() {
        lemma_scan_end(s, i, line);
        lemma_cons_tokens_props(eof_token(line), Seq::<TokenModel>::empty());
    } else {
        let c = s[i];
        if is_punct(c) {
            lemma_scan_step_punct(s, i, line);
            lemma_eof_last_from(s, i + 1, line);
            lemma_cons_tokens_last(punct_token(c, line), scan_from(s, i + 1, line).tokens);
        } else if is_operator_start(c) {
            if i + 1 < s.len() && s[i + 1] == '=' {
                lemma_scan_step_operator2(s, i, line);
                lemma_eof_last_from(s, i + 2, line);
                lemma_cons_tokens_last(
                    double_op_token(c, line),
                    scan_from(s, i + 2, line).tokens,
                );
            } else {
                lemma_scan_step_operator1(s, i, line);
                lemma_eof_last_from(s, i + 1, line);
                lemma_cons_tokens_last(
                    single_op_token(c, line),
                    scan_from(s, i + 1, line).tokens,
                );
            }
        } else if c == '/' {
            if i + 1 < s.len() && s[i + 1] == '/' {
                lemma_char_pos(s, '\n', i + 2);
                lemma_scan_step_comment(s, i, line);
                lemma_eof_last_from(s, char_pos(s, '\n', i + 2), line);
            } else {
                lemma_scan_step_slash(s, i, line);
                lemma_eof_last_from(s, i + 1, line);
                lemma_cons_tokens_last(
                    slash_token(line),
                    scan_from(s, i + 1, line).tokens,
                );
            }
        } else if c == '"' {
            lemma_char_pos(s, '"', i + 1);
            let q = char_pos(s, '"', i + 1);
            if q < s.len() {
                lemma_scan_step_string_ok(s, i, line);
                lemma_eof_last_from(s, q + 1, line + newline_count(s, i + 1, q));
                lemma_cons_tokens_last(
                    string_token(s, i, line),
                    scan_from(s, q + 1, line + newline_count(s, i + 1, q)).tokens,
                );
            } else {
                lemma_scan_step_string_err(s, i, line);
                lemma_cons_tokens_props(
                    eof_token(line + newline_count(s, i + 1, s.len() as int)),
                    Seq::<TokenModel>::empty(),
                );
            }
        } else if is_digit(c) {
            lemma_number_end(s, i);
            lemma_scan_step_number(s, i, line);
            lemma_eof_last_from(s, number_end(s, i), line);
            lemma_cons_tokens_last(
                number_token(s.subrange(i, number_end(s, i)), line),
                scan_from(s, number_end(s, i), line).tokens,
            );
        } else if c == '\n' {
            lemma_scan_step_newline(s, i, line);
            lemma_eof_last_from(s, i + 1, line + 1);
        } else if c == ' ' || c == '\t' {
            lemma_scan_step_blank(s, i, line);
            lemma_eof_last_from(s, i + 1, line);
        } else if is_alpha(c) {
            lemma_ident_run_end(s, i);
            assert(ident_run_end(s, i) > i) by {
                if ident_run_end(s, i) == i {
                    assert(!is_ident_char(s[i]));
                }
            }
            lemma_scan_step_ident(s, i, line);
            lemma_eof_last_from(s, ident_run_end(s, i), line);
            lemma_cons_tokens_last(
                ident_token(s.subrange(i, ident_run_end(s, i)), line),
                scan_from(s, ident_run_end(s, i), line).tokens,
            );
        } else {
            lemma_scan_step_unexpected(s, i, line);
            lemma_eof_last_from(s, i + 1, line);
        }
    }
}

/// Law: for every input, the token stream is non-empty and ends with the
/// synthetic end-of-file token, whose lexeme is empty.
pub proof fn lemma_eof_token_last(s: Seq<char>)
    ensures
        scan(s).tokens.len() >= 1,
        scan(s).tokens.last().kind == TokenKind::Eof,
        scan(s).tokens.last().lexeme.len() == 0,
{
    lemma_eof_last_from(s, 0, 1);
}

} // verus!
