//! The scanner: the dispatcher loop and the sub-scanners, each proved to
//! produce exactly what the model in [`crate::model`] says.

use vstd::prelude::*;
use crate::chars::{
    check_alpha, check_digit, check_ident_char, check_operator_start, check_punct,
    double_op_kind_of, is_alpha, is_digit, is_ident_char, is_operator_start, punct_kind_of,
    single_op_kind_of,
};
use crate::cursor::Cursor;
use crate::model::{
    char_pos, cons_diags, cons_tokens, digit_run_end, double_op_token, eof_token, ident_run_end,
    ident_token, keyword_kind, lemma_char_pos, lemma_digit_run_end,
    lemma_ident_run_end, lemma_number_end, lemma_scan_end, lemma_scan_step_blank,
    lemma_scan_step_comment, lemma_scan_step_ident, lemma_scan_step_newline,
    lemma_scan_step_number, lemma_scan_step_operator1, lemma_scan_step_operator2,
    lemma_scan_step_punct, lemma_scan_step_slash, lemma_scan_step_string_err,
    lemma_scan_step_string_ok, lemma_scan_step_unexpected, lemma_strip_leading_zeros_at,
    lemma_strip_trailing_zeros_at, newline_count, number_end, number_literal_chars, number_token,
    punct_token, scan, scan_from, single_op_token, slash_token, string_token, unexpected_diag,
    unterminated_diag, ScanModel,
};
use crate::text::{push_char, str_to_chars};
use crate::token::{
    diag_views, lemma_diag_views_push, lemma_token_views_push, token_views, DiagModel, Diagnostic,
    Literal, Token, TokenKind, TokenModel,
};
use vstd::string::{StrSliceExecFns, StringExecFns};

verus! {

/// Scan a one-or-two-character operator. The base character is consumed;
/// where the next character is `=`, it is consumed too and the doubled form
/// wins (maximal munch), otherwise the single form is produced.
pub fn scan_operator(cur: &mut Cursor) -> (t: Token)
    requires
        old(cur).wf(),
        old(cur).pos < old(cur).chars.len(),
        is_operator_start(old(cur).text()[old(cur).pos as int]),
    ensures
        final(cur).wf(),
        final(cur).text() == old(cur).text(),
        final(cur).line == old(cur).line,
        ({
            let s = old(cur).text();
            let i = old(cur).pos as int;
            let c = s[i];
            if i + 1 < s.len() && s[i + 1] == '=' {
                final(cur).pos == i + 2 && t@ == double_op_token(c, old(cur).line as nat)
            } else {
                final(cur).pos == i + 1 && t@ == single_op_token(c, old(cur).line as nat)
            }
        }),
{
    let line_now = cur.line;
    let c = cur.advance().unwrap();
    let mut lexeme = String::new();
    push_char(&mut lexeme, c);
    let doubled = match cur.peek() {
        Some(n) => n == '=',
        None => false,
    };
    if doubled {
        cur.advance();
        push_char(&mut lexeme, '=');
        proof {
            assert(lexeme@ =~= double_op_token(c, line_now as nat).lexeme);
        }
        Token { kind: double_op_kind_of(c), lexeme, literal: Literal::NoValue, line: line_now }
    } else {
        proof {
            assert(lexeme@ =~= single_op_token(c, line_now as nat).lexeme);
        }
        Token { kind: single_op_kind_of(c), lexeme, literal: Literal::NoValue, line: line_now }
    }
}

/// Scan what begins with a slash. A second slash makes it a line comment:
/// everything up to, but not including, the next newline is discarded and no
/// token is produced. Otherwise a single `SLASH` token is produced.
pub fn scan_slash(cur: &mut Cursor) -> (t: Option<Token>)
    requires
        old(cur).wf(),
        old(cur).pos < old(cur).chars.len(),
        old(cur).text()[old(cur).pos as int] == '/',
    ensures
        final(cur).wf(),
        final(cur).text() == old(cur).text(),
        final(cur).line == old(cur).line,
        ({
            let s = old(cur).text();
            let i = old(cur).pos as int;
            if i + 1 < s.len() && s[i + 1] == '/' {
                t is None && final(cur).pos == char_pos(s, '\n', i + 2)
            } else {
                final(cur).pos == i + 1 && (t matches Some(tok) && tok@ == slash_token(
                    old(cur).line as nat,
                ))
            }
        }),
{
    let ghost s = cur.text();
    let ghost i = cur.pos as int;
    let line_now = cur.line;
    cur.advance();
    let comment = match cur.peek() {
        Some(n) => n == '/',
        None => false,
    };
    if comment {
        cur.advance();
        while cur.pos < cur.chars.len() && cur.chars[cur.pos] != '\n'
            invariant
                cur.wf(),
                cur.text() == s,
                cur.line == line_now,
                i + 2 <= cur.pos <= s.len(),
                char_pos(s, '\n', i + 2) == char_pos(s, '\n', cur.pos as int),
            decreases s.len() - cur.pos,
        {
            cur.advance();
        }
        None
    } else {
        let mut lexeme = String::new();
        push_char(&mut lexeme, '/');
        proof {
            assert(lexeme@ =~= slash_token(line_now as nat).lexeme);
        }
        Some(Token { kind: TokenKind::Slash, lexeme, literal: Literal::NoValue, line: line_now })
    }
}

/// Render the canonical decimal form of a number lexeme: the whole part
/// without leading zeros, and either the fractional digits without trailing
/// zeros or, where none remain, an explicit `.0` suffix.
pub fn format_number_literal(x: &str) -> (r: String)
    requires
        x@.len() > 0,
        is_digit(x@[0]),
    ensures
        r@ == number_literal_chars(x@),
{
    let ghost s = x@;
    let n = x.unicode_len();
    let mut p: usize = 0;
    loop
        invariant
            s == x@,
            n == s.len(),
            p <= n,
            char_pos(s, '.', 0) == char_pos(s, '.', p as int),
        ensures
            n == s.len(),
            p <= n,
            char_pos(s, '.', 0) == p,
        decreases n - p,
    {
        if p >= n {
            break;
        }
        let c = x.get_char(p);
        if c == '.' {
            break;
        }
        p = p + 1;
    }
    proof {
        assert(p >= 1) by {
            lemma_char_pos(s, '.', 0);
            if p == 0 {
                assert(s[0] == '.');
            }
        }
    }
    let mut a: usize = 0;
    loop
        invariant
            s == x@,
            n == s.len(),
            1 <= p <= n,
            a + 1 <= p,
            forall|j: int| 0 <= j < a ==> s[j] == '0',
        ensures
            a + 1 <= p,
            forall|j: int| 0 <= j < a ==> s[j] == '0',
            a + 1 == p || s[a as int] != '0',
        decreases p - a,
    {
        if a + 1 >= p {
            break;
        }
        let c = x.get_char(a);
        if c != '0' {
            break;
        }
        a = a + 1;
    }
    proof {
        lemma_strip_leading_zeros_at(s.subrange(0, p as int), a as int);
        assert(s.subrange(0, p as int).subrange(a as int, p as int) =~= s.subrange(
            a as int,
            p as int,
        ));
    }
    let whole = x.substring_char(a, p);
    if p < n {
        let mut e: usize = n;
        loop
            invariant
                s == x@,
                n == s.len(),
                p + 1 <= e <= n,
                p < n,
                forall|j: int| e <= j < n ==> s[j] == '0',
            ensures
                p + 1 <= e <= n,
                forall|j: int| e <= j < n ==> s[j] == '0',
                e == p + 1 || s[e - 1] != '0',
            decreases e,
        {
            if e <= p + 1 {
                break;
            }
            let c = x.get_char(e - 1);
            if c != '0' {
                break;
            }
            e = e - 1;
        }
        proof {
            let frac_full = s.subrange(p + 1, n as int);
            lemma_strip_trailing_zeros_at(frac_full, e - (p + 1));
            assert(frac_full.subrange(0, e - (p + 1)) =~= s.subrange(p + 1, e as int));
        }
        if e > p + 1 {
            let mut r = whole.to_owned();
            r.append(".");
            let fr = x.substring_char(p + 1, e);
            r.append(fr);
            r
        } else {
            let mut r = whole.to_owned();
            r.append(".0");
            r
        }
    } else {
        let mut r = whole.to_owned();
        r.append(".0");
        r
    }
}

/// Scan a number literal: a run of digits and, where a decimal point
/// follows, the point and the run of digits after it (possibly empty: a
/// trailing point is accepted). The literal value is the canonical decimal
/// rendering of the lexeme.
pub fn scan_number(cur: &mut Cursor) -> (t: Token)
    requires
        old(cur).wf(),
        old(cur).pos < old(cur).chars.len(),
        is_digit(old(cur).text()[old(cur).pos as int]),
    ensures
        final(cur).wf(),
        final(cur).text() == old(cur).text(),
        final(cur).line == old(cur).line,
        final(cur).pos == number_end(old(cur).text(), old(cur).pos as int),
        t@ == number_token(
            old(cur).text().subrange(old(cur).pos as int, number_end(old(cur).text(), old(cur).pos as int)),
            old(cur).line as nat,
        ),
{
    let ghost s = cur.text();
    let ghost i = cur.pos as int;
    let line_now = cur.line;
    let mut lexeme = String::new();
    loop
        invariant
            cur.wf(),
            cur.text() == s,
            cur.line == line_now,
            0 <= i <= cur.pos <= s.len(),
            digit_run_end(s, i) == digit_run_end(s, cur.pos as int),
            lexeme@ == s.subrange(i, cur.pos as int),
        ensures
            cur.wf(),
            cur.text() == s,
            cur.line == line_now,
            0 <= i <= cur.pos <= s.len(),
            cur.pos == digit_run_end(s, i),
            lexeme@ == s.subrange(i, cur.pos as int),
        decreases s.len() - cur.pos,
    {
        if cur.pos >= cur.chars.len() {
            break;
        }
        let c = cur.chars[cur.pos];
        if !check_digit(c) {
            break;
        }
        cur.advance();
        push_char(&mut lexeme, c);
        proof {
            assert(lexeme@ =~= s.subrange(i, cur.pos as int));
        }
    }
    let ghost d = digit_run_end(s, i);
    proof {
        lemma_digit_run_end(s, i);
        assert(d > i) by {
            if d == i {
                assert(!is_digit(s[i]));
            }
        }
    }
    let mut dotted = false;
    if cur.pos < cur.chars.len() {
        if cur.chars[cur.pos] == '.' {
            dotted = true;
        }
    }
    if dotted {
        cur.advance();
        push_char(&mut lexeme, '.');
        proof {
            assert(lexeme@ =~= s.subrange(i, cur.pos as int));
        }
        loop
            invariant
                cur.wf(),
                cur.text() == s,
                cur.line == line_now,
                0 <= i <= d,
                d + 1 <= cur.pos <= s.len(),
                digit_run_end(s, d + 1) == digit_run_end(s, cur.pos as int),
                lexeme@ == s.subrange(i, cur.pos as int),
            ensures
                cur.wf(),
                cur.text() == s,
                cur.line == line_now,
                cur.pos == digit_run_end(s, d + 1),
                lexeme@ == s.subrange(i, cur.pos as int),
            decreases s.len() - cur.pos,
        {
            if cur.pos >= cur.chars.len() {
                break;
            }
            let c = cur.chars[cur.pos];
            if !check_digit(c) {
                break;
            }
            cur.advance();
            push_char(&mut lexeme, c);
            proof {
                assert(lexeme@ =~= s.subrange(i, cur.pos as int));
            }
        }
    }
    proof {
        assert(cur.pos == number_end(s, i));
        assert(lexeme@.len() > 0 && is_digit(lexeme@[0])) by {
            assert(lexeme@[0] == s[i]);
        }
    }
    let literal_str = format_number_literal(lexeme.as_str());
    Token { kind: TokenKind::Number, lexeme, literal: Literal::Num(literal_str), line: line_now }
}

/// Scan an identifier or keyword: a run of ASCII letters, digits and
/// underscores, classified by a whole-lexeme lookup in the reserved-word
/// table.
pub fn scan_identifier(cur: &mut Cursor) -> (t: Token)
    requires
        old(cur).wf(),
        old(cur).pos < old(cur).chars.len(),
        is_alpha(old(cur).text()[old(cur).pos as int]),
    ensures
        final(cur).wf(),
        final(cur).text() == old(cur).text(),
        final(cur).line == old(cur).line,
        final(cur).pos == ident_run_end(old(cur).text(), old(cur).pos as int),
        t@ == ident_token(
            old(cur).text().subrange(
                old(cur).pos as int,
                ident_run_end(old(cur).text(), old(cur).pos as int),
            ),
            old(cur).line as nat,
        ),
{
    let ghost s = cur.text();
    let ghost i = cur.pos as int;
    let line_now = cur.line;
    let mut lexeme = String::new();
    loop
        invariant
            cur.wf(),
            cur.text() == s,
            cur.line == line_now,
            0 <= i <= cur.pos <= s.len(),
            ident_run_end(s, i) == ident_run_end(s, cur.pos as int),
            lexeme@ == s.subrange(i, cur.pos as int),
        ensures
            cur.wf(),
            cur.text() == s,
            cur.line == line_now,
            cur.pos == ident_run_end(s, i),
            lexeme@ == s.subrange(i, cur.pos as int),
        decreases s.len() - cur.pos,
    {
        if cur.pos >= cur.chars.len() {
            break;
        }
        let c = cur.chars[cur.pos];
        if !check_ident_char(c) {
            break;
        }
        cur.advance();
        push_char(&mut lexeme, c);
        proof {
            assert(lexeme@ =~= s.subrange(i, cur.pos as int));
        }
    }
    let kind = match keyword_token_kind(lexeme.as_str()) {
        Some(k) => k,
        None => TokenKind::Identifier,
    };
    Token { kind, lexeme, literal: Literal::NoValue, line: line_now }
}

/// Scan a string literal. The content between the quotes is taken verbatim
/// (no escape processing) and may span lines: every newline in it advances
/// the line counter. Where the input ends before a closing quote is found,
/// the scan fails closed: a diagnostic carrying the line the string began on
/// is produced, no token, and the cursor is left exhausted.
pub fn scan_string(cur: &mut Cursor) -> (r: Result<Token, Diagnostic>)
    requires
        old(cur).wf(),
        old(cur).pos < old(cur).chars.len(),
        old(cur).text()[old(cur).pos as int] == '"',
    ensures
        final(cur).wf(),
        final(cur).text() == old(cur).text(),
        ({
            let s = old(cur).text();
            let i = old(cur).pos as int;
            let q = char_pos(s, '"', i + 1);
            if q < s.len() {
                let nl = newline_count(s, i + 1, q);
                &&& (r matches Ok(t) && t@ == string_token(s, i, old(cur).line as nat))
                &&& final(cur).pos == q + 1
                &&& final(cur).line == old(cur).line + nl
            } else {
                &&& r == Err::<Token, Diagnostic>(
                    Diagnostic::UnterminatedString { line: old(cur).line },
                )
                &&& final(cur).pos == s.len()
                &&& final(cur).line == old(cur).line + newline_count(s, i + 1, s.len() as int)
            }
        }),
{
    let ghost s = cur.text();
    let ghost i = cur.pos as int;
    let entry_line = cur.line;
    cur.advance();
    let mut content = String::new();
    loop
        invariant
            cur.wf(),
            cur.text() == s,
            i + 1 <= cur.pos <= s.len(),
            0 <= i < s.len(),
            char_pos(s, '"', i + 1) == char_pos(s, '"', cur.pos as int),
            content@ == s.subrange(i + 1, cur.pos as int),
            cur.line == entry_line + newline_count(s, i + 1, cur.pos as int),
            entry_line >= 1,
        ensures
            cur.wf(),
            cur.text() == s,
            i + 1 <= cur.pos <= s.len(),
            cur.pos == char_pos(s, '"', i + 1),
            content@ == s.subrange(i + 1, cur.pos as int),
            cur.line == entry_line + newline_count(s, i + 1, cur.pos as int),
        decreases s.len() - cur.pos,
    {
        if cur.pos >= cur.chars.len() {
            break;
        }
        let c = cur.chars[cur.pos];
        if c == '"' {
            break;
        }
        cur.advance();
        push_char(&mut content, c);
        proof {
            assert(content@ =~= s.subrange(i + 1, cur.pos as int));
        }
    }
    let ghost q = char_pos(s, '"', i + 1);
    proof {
        lemma_char_pos(s, '"', i + 1);
    }
    if cur.pos < cur.chars.len() {
        cur.advance();
        let mut lexeme = String::new();
        push_char(&mut lexeme, '"');
        lexeme.append(content.as_str());
        push_char(&mut lexeme, '"');
        proof {
            assert(lexeme@ =~= s.subrange(i, q + 1)) by {
                assert(s[q] == '"');
            }
        }
        Ok(
            Token {
                kind: TokenKind::StringLit,
                lexeme,
                literal: Literal::Text(content),
                line: cur.line,
            },
        )
    } else {
        Err(Diagnostic::UnterminatedString { line: entry_line })
    }
}

/// The full output of one scan: the token stream, the diagnostics, and the
/// aggregate failure flag, which is set exactly when a diagnostic was
/// produced.
pub struct ScanOutput {
    pub tokens: Vec<Token>,
    pub diagnostics: Vec<Diagnostic>,
    pub errored: bool,
}

impl View for ScanOutput {
    type V = ScanModel;

    open spec fn view(&self) -> ScanModel {
        ScanModel { tokens: token_views(self.tokens@), diags: diag_views(self.diagnostics@) }
    }
}

proof fn lemma_push_token_step(
    toks: Seq<Token>,
    t: Token,
    h: TokenModel,
    rest: Seq<TokenModel>,
    total: Seq<TokenModel>,
)
    requires
        t@ == h,
        token_views(toks) + cons_tokens(h, rest) == total,
    ensures
        token_views(toks.push(t)) + rest == total,
{
    lemma_token_views_push(toks, t);
    let target = seq![h] + rest;
    assert(cons_tokens(h, rest) == target);
    assert(token_views(toks.push(t)) + rest =~= token_views(toks) + target);
}

proof fn lemma_push_diag_step(
    ds: Seq<Diagnostic>,
    d: Diagnostic,
    h: DiagModel,
    rest: Seq<DiagModel>,
    total: Seq<DiagModel>,
)
    requires
        d@ == h,
        diag_views(ds) + cons_diags(h, rest) == total,
    ensures
        diag_views(ds.push(d)) + rest == total,
{
    lemma_diag_views_push(ds, d);
    let target = seq![h] + rest;
    assert(cons_diags(h, rest) == target);
    assert(diag_views(ds.push(d)) + rest =~= diag_views(ds) + target);
}

/// Scan the whole of `input` into its token stream and diagnostics: exactly
/// what the model function [`scan`] says, with the failure flag set exactly
/// when a diagnostic was produced. The character count of the input stays below
/// `usize::MAX` (a machine limit: the line counter is kept in a `usize`).
pub fn tokenize(input: &str) -> (out: ScanOutput)
    requires
        input@.len() < usize::MAX,
    ensures
        out@ == scan(input@),
        out.errored == (scan(input@).diags.len() > 0),
{
    let ghost s = input@;
    let chars = str_to_chars(input);
    let mut cur = Cursor::new(chars);
    let mut tokens: Vec<Token> = Vec::new();
    let mut diagnostics: Vec<Diagnostic> = Vec::new();
    proof {
        assert(token_views(tokens@) + scan_from(s, 0, 1).tokens =~= scan(s).tokens);
        assert(diag_views(diagnostics@) + scan_from(s, 0, 1).diags =~= scan(s).diags);
    }
    loop
        invariant
            cur.wf(),
            cur.text() == s,
            token_views(tokens@) + scan_from(s, cur.pos as int, cur.line as nat).tokens == scan(
                s,
            ).tokens,
            diag_views(diagnostics@) + scan_from(s, cur.pos as int, cur.line as nat).diags == scan(
                s,
            ).diags,
        ensures
            cur.wf(),
            cur.text() == s,
            cur.pos == s.len(),
            token_views(tokens@) + scan_from(s, cur.pos as int, cur.line as nat).tokens == scan(
                s,
            ).tokens,
            diag_views(diagnostics@) + scan_from(s, cur.pos as int, cur.line as nat).diags == scan(
                s,
            ).diags,
        decreases s.len() - cur.pos,
    {
        if cur.pos >= cur.chars.len() {
            break;
        }
        let c = cur.chars[cur.pos];
        let ghost i = cur.pos as int;
        let ghost ln = cur.line as nat;
        let ghost total_t = scan(s).tokens;
        let ghost total_d = scan(s).diags;
        if check_punct(c) {
            let line_now = cur.line;
            cur.advance();
            let mut lexeme = String::new();
            push_char(&mut lexeme, c);
            let t = Token {
                kind: punct_kind_of(c),
                lexeme,
                literal: Literal::NoValue,
                line: line_now,
            };
            proof {
                assert(t.lexeme@ =~= punct_token(c, ln).lexeme);
                assert(t@ == punct_token(c, ln));
                lemma_scan_step_punct(s, i, ln);
                lemma_push_token_step(
                    tokens@,
                    t,
                    punct_token(c, ln),
                    scan_from(s, i + 1, ln).tokens,
                    total_t,
                );
            }
            tokens.push(t);
        } else if check_operator_start(c) {
            let t = scan_operator(&mut cur);
            proof {
                if i + 1 < s.len() && s[i + 1] == '=' {
                    lemma_scan_step_operator2(s, i, ln);
                    lemma_push_token_step(
                        tokens@,
                        t,
                        double_op_token(c, ln),
                        scan_from(s, i + 2, ln).tokens,
                        total_t,
                    );
                } else {
                    lemma_scan_step_operator1(s, i, ln);
                    lemma_push_token_step(
                        tokens@,
                        t,
                        single_op_token(c, ln),
                        scan_from(s, i + 1, ln).tokens,
                        total_t,
                    );
                }
            }
            tokens.push(t);
        } else if c == '/' {
            let r = scan_slash(&mut cur);
            match r {
                Some(t) => {
                    proof {
                        lemma_scan_step_slash(s, i, ln);
                        lemma_push_token_step(
                            tokens@,
                            t,
                            slash_token(ln),
                            scan_from(s, i + 1, ln).tokens,
                            total_t,
                        );
                    }
                    tokens.push(t);
                },
                None => {
                    proof {
                        lemma_char_pos(s, '\n', i + 2);
                        lemma_scan_step_comment(s, i, ln);
                    }
                },
            }
        } else if c == '"' {
            let r = scan_string(&mut cur);
            match r {
                Ok(t) => {
                    proof {
                        lemma_char_pos(s, '"', i + 1);
                        lemma_scan_step_string_ok(s, i, ln);
                        lemma_push_token_step(
                            tokens@,
                            t,
                            string_token(s, i, ln),
                            scan_from(
                                s,
                                char_pos(s, '"', i + 1) + 1,
                                ln + newline_count(s, i + 1, char_pos(s, '"', i + 1)),
                            ).tokens,
                            total_t,
                        );
                    }
                    tokens.push(t);
                },
                Err(d) => {
                    proof {
                        lemma_scan_step_string_err(s, i, ln);
                        assert(d@ == unterminated_diag(ln));
                        lemma_push_diag_step(
                            diagnostics@,
                            d,
                            unterminated_diag(ln),
                            Seq::<DiagModel>::empty(),
                            total_d,
                        );
                        lemma_scan_end(s, s.len() as int, cur.line as nat);
                        assert(cur.line as nat == ln + newline_count(s, i + 1, s.len() as int));
                    }
                    diagnostics.push(d);
                },
            }
        } else if check_digit(c) {
            let t = scan_number(&mut cur);
            proof {
                lemma_number_end(s, i);
                lemma_scan_step_number(s, i, ln);
                lemma_push_token_step(
                    tokens@,
                    t,
                    number_token(s.subrange(i, number_end(s, i)), ln),
                    scan_from(s, number_end(s, i), ln).tokens,
                    total_t,
                );
            }
            tokens.push(t);
        } else if c == '\n' {
            cur.advance();
            proof {
                lemma_scan_step_newline(s, i, ln);
            }
        } else if c == ' ' || c == '\t' {
            cur.advance();
            proof {
                lemma_scan_step_blank(s, i, ln);
            }
        } else if check_alpha(c) {
            let t = scan_identifier(&mut cur);
            proof {
                lemma_ident_run_end(s, i);
                assert(ident_run_end(s, i) > i) by {
                    if ident_run_end(s, i) == i {
                        assert(!is_ident_char(s[i]));
                    }
                }
                lemma_scan_step_ident(s, i, ln);
                lemma_push_token_step(
                    tokens@,
                    t,
                    ident_token(s.subrange(i, ident_run_end(s, i)), ln),
                    scan_from(s, ident_run_end(s, i), ln).tokens,
                    total_t,
                );
            }
            tokens.push(t);
        } else {
            let d = Diagnostic::UnexpectedCharacter { line: cur.line, ch: c };
            cur.advance();
            proof {
                lemma_scan_step_unexpected(s, i, ln);
                assert(d@ == unexpected_diag(ln, c));
                lemma_push_diag_step(
                    diagnostics@,
                    d,
                    unexpected_diag(ln, c),
                    scan_from(s, i + 1, ln).diags,
                    total_d,
                );
            }
            diagnostics.push(d);
        }
    }
    let eof = Token {
        kind: TokenKind::Eof,
        lexeme: String::new(),
        literal: Literal::NoValue,
        line: cur.line,
    };
    proof {
        lemma_scan_end(s, cur.pos as int, cur.line as nat);
        assert(eof@ == eof_token(cur.line as nat));
        lemma_push_token_step(
            tokens@,
            eof,
            eof_token(cur.line as nat),
            Seq::<TokenModel>::empty(),
            scan(s).tokens,
        );
        assert(token_views(tokens@.push(eof)) + Seq::<TokenModel>::empty() =~= token_views(
            tokens@.push(eof),
        ));
        assert(diag_views(diagnostics@) + Seq::<DiagModel>::empty() =~= diag_views(diagnostics@));
    }
    tokens.push(eof);
    let errored = diagnostics.len() > 0;
    let out = ScanOutput { tokens, diagnostics, errored };
    proof {
        assert(out@.tokens == scan(s).tokens);
        assert(out@.diags == scan(s).diags);
    }
    out
}


/// Look a word up in the reserved-word table: its keyword kind where it is
/// one of the sixteen keywords, and `None` for every other word.
pub fn keyword_token_kind(w: &str) -> (r: Option<TokenKind>)
    ensures
        r == keyword_kind(w@),
{
    let n = w.unicode_len();
    if n == 2 {
        let c0 = w.get_char(0);
        let c1 = w.get_char(1);
        if c0 == 'i' && c1 == 'f' {
            Some(TokenKind::If)
        } else if c0 == 'o' && c1 == 'r' {
            Some(TokenKind::Or)
        } else {
            None
        }
    } else if n == 3 {
        let c0 = w.get_char(0);
        let c1 = w.get_char(1);
        let c2 = w.get_char(2);
        if c0 == 'a' && c1 == 'n' && c2 == 'd' {
            Some(TokenKind::And)
        } else if c0 == 'f' && c1 == 'o' && c2 == 'r' {
            Some(TokenKind::For)
        } else if c0 == 'f' && c1 == 'u' && c2 == 'n' {
            Some(TokenKind::Fun)
        } else if c0 == 'n' && c1 == 'i' && c2 == 'l' {
            Some(TokenKind::Nil)
        } else if c0 == 'v' && c1 == 'a' && c2 == 'r' {
            Some(TokenKind::Var)
        } else {
            None
        }
    } else if n == 4 {
        let c0 = w.get_char(0);
        let c1 = w.get_char(1);
        let c2 = w.get_char(2);
        let c3 = w.get_char(3);
        if c0 == 'e' && c1 == 'l' && c2 == 's' && c3 == 'e' {
            Some(TokenKind::Else)
        } else if c0 == 't' && c1 == 'h' && c2 == 'i' && c3 == 's' {
            Some(TokenKind::This)
        } else if c0 == 't' && c1 == 'r' && c2 == 'u' && c3 == 'e' {
            Some(TokenKind::True)
        } else {
            None
        }
    } else if n == 5 {
        let c0 = w.get_char(0);
        let c1 = w.get_char(1);
        let c2 = w.get_char(2);
        let c3 = w.get_char(3);
        let c4 = w.get_char(4);
        if c0 == 'c' && c1 == 'l' && c2 == 'a' && c3 == 's' && c4 == 's' {
            Some(TokenKind::Class)
        } else if c0 == 'f' && c1 == 'a' && c2 == 'l' && c3 == 's' && c4 == 'e' {
            Some(TokenKind::False)
        } else if c0 == 'p' && c1 == 'r' && c2 == 'i' && c3 == 'n' && c4 == 't' {
            Some(TokenKind::Print)
        } else if c0 == 's' && c1 == 'u' && c2 == 'p' && c3 == 'e' && c4 == 'r' {
            Some(TokenKind::Super)
        } else if c0 == 'w' && c1 == 'h' && c2 == 'i' && c3 == 'l' && c4 == 'e' {
            Some(TokenKind::While)
        } else {
            None
        }
    } else if n == 6 {
        let c0 = w.get_char(0);
        let c1 = w.get_char(1);
        let c2 = w.get_char(2);
        let c3 = w.get_char(3);
        let c4 = w.get_char(4);
        let c5 = w.get_char(5);
        if c0 == 'r' && c1 == 'e' && c2 == 't' && c3 == 'u' && c4 == 'r' && c5 == 'n' {
            Some(TokenKind::Return)
        } else {
            None
        }
    } else {
        None
    }
}

} // verus!
