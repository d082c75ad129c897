//! The mathematical model of a scan: a recursive specification that says,
//! for every input, exactly which tokens and which diagnostics come out.

use vstd::prelude::*;
use crate::chars::{
    double_op_kind, is_alpha, is_digit, is_ident_char, is_operator_start, is_punct, punct_kind,
    single_op_kind,
};
use crate::token::{DiagModel, LiteralModel, TokenKind, TokenModel};

verus! {

/// The tokens and diagnostics of one scan, in arrival order.
pub struct ScanModel {
    pub tokens: Seq<TokenModel>,
    pub diags: Seq<DiagModel>,
}

/// The first index `j` with `i <= j < s.len()` and `s[j] == c`, or `s.len()`
/// if there is none.
pub open spec fn char_pos(s: Seq<char>, c: char, i: int) -> int
    decreases s.len() - i,
{
    if i < s.len() && s[i] != c {
        char_pos(s, c, i + 1)
    } else {
        i
    }
}

pub proof fn lemma_char_pos(s: Seq<char>, c: char, i: int)
    requires
        0 <= i <= s.len(),
    ensures
        i <= char_pos(s, c, i) <= s.len(),
        forall|j: int| i <= j < char_pos(s, c, i) ==> s[j] != c,
        char_pos(s, c, i) < s.len() ==> s[char_pos(s, c, i)] == c,
    decreases s.len() - i,
{
    if i < s.len() && s[i] != c {
        lemma_char_pos(s, c, i + 1);
    }
}

/// The first index at or after `i` that does not hold an ASCII decimal
/// digit, or `s.len()` if the digits reach the end of the input.
pub open spec fn digit_run_end(s: Seq<char>, i: int) -> int
    decreases s.len() - i,
{
    if i < s.len() && is_digit(s[i]) {
        digit_run_end(s, i + 1)
    } else {
        i
    }
}

pub proof fn lemma_digit_run_end(s: Seq<char>, i: int)
    requires
        0 <= i <= s.len(),
    ensures
        i <= digit_run_end(s, i) <= s.len(),
        forall|j: int| i <= j < digit_run_end(s, i) ==> is_digit(s[j]),
        digit_run_end(s, i) < s.len() ==> !is_digit(s[digit_run_end(s, i)]),
    decreases s.len() - i,
{
    if i < s.len() && is_digit(s[i]) {
        lemma_digit_run_end(s, i + 1);
    }
}

/// The first index at or after `i` that does not hold an identifier
/// character, or `s.len()` if they reach the end of the input.
pub open spec fn ident_run_end(s: Seq<char>, i: int) -> int
    decreases s.len() - i,
{
    if i < s.len() && is_ident_char(s[i]) {
        ident_run_end(s, i + 1)
    } else {
        i
    }
}

pub proof fn lemma_ident_run_end(s: Seq<char>, i: int)
    requires
        0 <= i <= s.len(),
    ensures
        i <= ident_run_end(s, i) <= s.len(),
        forall|j: int| i <= j < ident_run_end(s, i) ==> is_ident_char(s[j]),
        ident_run_end(s, i) < s.len() ==> !is_ident_char(s[ident_run_end(s, i)]),
    decreases s.len() - i,
{
    if i < s.len() && is_ident_char(s[i]) {
        lemma_ident_run_end(s, i + 1);
    }
}

/// How many newline characters stand in `s` at the indices of `[i, j)`.
pub open spec fn newline_count(s: Seq<char>, i: int, j: int) -> nat
    decreases j - i,
{
    if i < j {
        newline_count(s, i, j - 1) + (if s[j - 1] == '\n' {
            1nat
        } else {
            0nat
        })
    } else {
        0nat
    }
}

/// Where a number lexeme that begins at `i` ends: the run of digits, and,
/// where a decimal point follows it, the point and the run of digits after
/// it (possibly empty: a trailing point is accepted).
pub open spec fn number_end(s: Seq<char>, i: int) -> int {
    let d = digit_run_end(s, i);
    if d < s.len() && s[d] == '.' {
        digit_run_end(s, d + 1)
    } else {
        d
    }
}

pub proof fn lemma_number_end(s: Seq<char>, i: int)
    requires
        0 <= i < s.len(),
        is_digit(s[i]),
    ensures
        i < number_end(s, i) <= s.len(),
{
    lemma_digit_run_end(s, i);
    let d = digit_run_end(s, i);
    if d < s.len() && s[d] == '.' {
        lemma_digit_run_end(s, d + 1);
    }
}

/// Drop the leading zeros of a digit string, keeping at least one character.
pub open spec fn strip_leading_zeros(s: Seq<char>) -> Seq<char>
    decreases s.len(),
{
    if s.len() > 1 && s[0] == '0' {
        strip_leading_zeros(s.drop_first())
    } else {
        s
    }
}

/// Drop the trailing zeros of a digit string, possibly leaving it empty.
pub open spec fn strip_trailing_zeros(s: Seq<char>) -> Seq<char>
    decreases s.len(),
{
    if s.len() > 0 && s[s.len() - 1] == '0' {
        strip_trailing_zeros(s.drop_last())
    } else {
        s
    }
}

/// Dropping the leading zeros of `s` keeps exactly its tail from the first
/// index `k` whose prefix is all zeros and which either is the last index or
/// does not hold a zero itself.
pub proof fn lemma_strip_leading_zeros_at(s: Seq<char>, k: int)
    requires
        0 <= k < s.len(),
        forall|j: int| 0 <= j < k ==> s[j] == '0',
        k == s.len() - 1 || s[k] != '0',
    ensures
        strip_leading_zeros(s) == s.subrange(k, s.len() as int),
    decreases k,
{
    if k == 0 {
        assert(s.subrange(0, s.len() as int) =~= s);
    } else {
        let s1 = s.drop_first();
        lemma_strip_leading_zeros_at(s1, k - 1);
        assert(s1.subrange(k - 1, s1.len() as int) =~= s.subrange(k, s.len() as int));
    }
}

/// Dropping the trailing zeros of `s` keeps exactly its prefix of length
/// `k`, where everything at or after `k` is a zero and the character just
/// before `k`, if any, is not.
pub proof fn lemma_strip_trailing_zeros_at(s: Seq<char>, k: int)
    requires
        0 <= k <= s.len(),
        forall|j: int| k <= j < s.len() ==> s[j] == '0',
        k == 0 || s[k - 1] != '0',
    ensures
        strip_trailing_zeros(s) == s.subrange(0, k),
    decreases s.len() - k,
{
    if k == s.len() {
        assert(s.subrange(0, s.len() as int) =~= s);
    } else {
        let s1 = s.drop_last();
        lemma_strip_trailing_zeros_at(s1, k);
        assert(s1.subrange(0, k) =~= s.subrange(0, k));
    }
}

/// The canonical decimal rendering of a number lexeme. The whole part loses
/// its leading zeros (keeping at least one digit) and the fractional part
/// its trailing zeros; a literal whose fractional part is empty or all zeros
/// is integer-valued and is rendered with an explicit `.0` suffix. The rule
/// is keyed off the lexical digits alone, so `123` renders as `123.0`,
/// `3.14` as `3.14`, `2.00` as `2.0`, and `123.` as `123.0`.
pub open spec fn number_literal_chars(lex: Seq<char>) -> Seq<char> {
    let p = char_pos(lex, '.', 0);
    let whole = strip_leading_zeros(lex.subrange(0, p));
    let frac = if p < lex.len() {
        strip_trailing_zeros(lex.subrange(p + 1, lex.len() as int))
    } else {
        Seq::<char>::empty()
    };
    if frac.len() == 0 {
        whole + ".0"@
    } else {
        whole + "."@ + frac
    }
}

/// Whether a word of the given length has exactly the given characters.
pub open spec fn kw2(w: Seq<char>, c0: char, c1: char) -> bool {
    w.len() == 2 && w[0] == c0 && w[1] == c1
}

pub open spec fn kw3(w: Seq<char>, c0: char, c1: char, c2: char) -> bool {
    w.len() == 3 && w[0] == c0 && w[1] == c1 && w[2] == c2
}

pub open spec fn kw4(w: Seq<char>, c0: char, c1: char, c2: char, c3: char) -> bool {
    w.len() == 4 && w[0] == c0 && w[1] == c1 && w[2] == c2 && w[3] == c3
}

pub open spec fn kw5(w: Seq<char>, c0: char, c1: char, c2: char, c3: char, c4: char) -> bool {
    w.len() == 5 && w[0] == c0 && w[1] == c1 && w[2] == c2 && w[3] == c3 && w[4] == c4
}

pub open spec fn kw6(
    w: Seq<char>,
    c0: char,
    c1: char,
    c2: char,
    c3: char,
    c4: char,
    c5: char,
) -> bool {
    w.len() == 6 && w[0] == c0 && w[1] == c1 && w[2] == c2 && w[3] == c3 && w[4] == c4 && w[5]
        == c5
}

/// The reserved-word table: the token kind of a word that is one of the
/// sixteen keywords, and `None` for every other word. Lookup is
/// case-sensitive, whole-lexeme exact match.
pub open spec fn keyword_kind(w: Seq<char>) -> Option<TokenKind> {
    if kw3(w, 'a', 'n', 'd') {
        Some(TokenKind::And)
    } else if kw5(w, 'c', 'l', 'a', 's', 's') {
        Some(TokenKind::Class)
    } else if kw4(w, 'e', 'l', 's', 'e') {
        Some(TokenKind::Else)
    } else if kw5(w, 'f', 'a', 'l', 's', 'e') {
        Some(TokenKind::False)
    } else if kw3(w, 'f', 'o', 'r') {
        Some(TokenKind::For)
    } else if kw3(w, 'f', 'u', 'n') {
        Some(TokenKind::Fun)
    } else if kw2(w, 'i', 'f') {
        Some(TokenKind::If)
    } else if kw3(w, 'n', 'i', 'l') {
        Some(TokenKind::Nil)
    } else if kw2(w, 'o', 'r') {
        Some(TokenKind::Or)
    } else if kw5(w, 'p', 'r', 'i', 'n', 't') {
        Some(TokenKind::Print)
    } else if kw6(w, 'r', 'e', 't', 'u', 'r', 'n') {
        Some(TokenKind::Return)
    } else if kw5(w, 's', 'u', 'p', 'e', 'r') {
        Some(TokenKind::Super)
    } else if kw4(w, 't', 'h', 'i', 's') {
        Some(TokenKind::This)
    } else if kw4(w, 't', 'r', 'u', 'e') {
        Some(TokenKind::True)
    } else if kw3(w, 'v', 'a', 'r') {
        Some(TokenKind::Var)
    } else if kw5(w, 'w', 'h', 'i', 'l', 'e') {
        Some(TokenKind::While)
    } else {
        None
    }
}

/// The kind of an identifier lexeme: its keyword kind where the word is
/// reserved, and `IDENTIFIER` otherwise.
pub open spec fn ident_token_kind(w: Seq<char>) -> TokenKind {
    match keyword_kind(w) {
        Some(k) => k,
        None => TokenKind::Identifier,
    }
}

/// A token that carries no literal value.
pub open spec fn simple_token(kind: TokenKind, lexeme: Seq<char>, line: nat) -> TokenModel {
    TokenModel { kind, lexeme, literal: LiteralModel::NoValue, line }
}

/// The token of one punctuation mark.
pub open spec fn punct_token(c: char, line: nat) -> TokenModel {
    simple_token(punct_kind(c), seq![c], line)
}

/// The token of a single-character operator.
pub open spec fn single_op_token(c: char, line: nat) -> TokenModel {
    simple_token(single_op_kind(c), seq![c], line)
}

/// The token of a doubled operator: the base character followed by `=`.
pub open spec fn double_op_token(c: char, line: nat) -> TokenModel {
    simple_token(double_op_kind(c), seq![c, '='], line)
}

/// The token of a lone slash.
pub open spec fn slash_token(line: nat) -> TokenModel {
    simple_token(TokenKind::Slash, seq!['/'], line)
}

/// The token of a terminated string literal that opens at `i`: the lexeme
/// keeps the quotes, the literal value is the raw content between them, and
/// the line is the entry line advanced by the newlines inside the content.
pub open spec fn string_token(s: Seq<char>, i: int, line: nat) -> TokenModel {
    let q = char_pos(s, '"', i + 1);
    TokenModel {
        kind: TokenKind::StringLit,
        lexeme: s.subrange(i, q + 1),
        literal: LiteralModel::Text(s.subrange(i + 1, q)),
        line: line + newline_count(s, i + 1, q),
    }
}

/// The token of a number lexeme: the literal value is its canonical decimal
/// rendering.
pub open spec fn number_token(lex: Seq<char>, line: nat) -> TokenModel {
    TokenModel {
        kind: TokenKind::Number,
        lexeme: lex,
        literal: LiteralModel::Num(number_literal_chars(lex)),
        line,
    }
}

/// The token of an identifier lexeme, classified against the reserved-word
/// table.
pub open spec fn ident_token(w: Seq<char>, line: nat) -> TokenModel {
    simple_token(ident_token_kind(w), w, line)
}

/// The diagnostic of one unexpected character.
pub open spec fn unexpected_diag(line: nat, c: char) -> DiagModel {
    DiagModel::UnexpectedCharacter { line, ch: c }
}

/// The diagnostic of a string still open when the input ends.
pub open spec fn unterminated_diag(line: nat) -> DiagModel {
    DiagModel::UnterminatedString { line }
}

/// A token sequence with `h` in front of `rest`.
pub open spec fn cons_tokens(h: TokenModel, rest: Seq<TokenModel>) -> Seq<TokenModel> {
    seq![h] + rest
}

/// A diagnostic sequence with `h` in front of `rest`.
pub open spec fn cons_diags(h: DiagModel, rest: Seq<DiagModel>) -> Seq<DiagModel> {
    seq![h] + rest
}

/// The synthetic end-of-file token: empty lexeme, no literal value.
pub open spec fn eof_token(line: nat) -> TokenModel {
    simple_token(TokenKind::Eof, Seq::<char>::empty(), line)
}

/// Prepend a token to the output of the rest of a scan.
pub open spec fn with_token(t: TokenModel, rest: ScanModel) -> ScanModel {
    ScanModel { tokens: seq![t] + rest.tokens, diags: rest.diags }
}

/// Prepend a diagnostic to the output of the rest of a scan.
pub open spec fn with_diag(d: DiagModel, rest: ScanModel) -> ScanModel {
    ScanModel { tokens: rest.tokens, diags: seq![d] + rest.diags }
}

/// What scanning `s` from position `i` on line `line` produces. Each step
/// classifies the character under the cursor, in the dispatcher's priority
/// order: punctuation; operators; slash or line comment; string literal;
/// number literal; newline; blank; identifier or keyword; and, last, the
/// catch-all that reports an unexpected character and moves on. The
/// end-of-file token is appended once the input is exhausted; an
/// unterminated string reports the line the string began on and leaves the
/// cursor exhausted.
pub open spec fn scan_from(s: Seq<char>, i: int, line: nat) -> ScanModel
    decreases s.len() - i,
    when 0 <= i <= s.len()
{
    if i >= s.len() {
        ScanModel { tokens: seq![eof_token(line)], diags: Seq::<DiagModel>::empty() }
    } else {
        let c = s[i];
        if is_punct(c) {
            with_token(punct_token(c, line), scan_from(s, i + 1, line))
        } else if is_operator_start(c) {
            if i + 1 < s.len() && s[i + 1] == '=' {
                with_token(double_op_token(c, line), scan_from(s, i + 2, line))
            } else {
                with_token(single_op_token(c, line), scan_from(s, i + 1, line))
            }
        } else if c == '/' {
            if i + 1 < s.len() && s[i + 1] == '/' {
                proof {
                    lemma_char_pos(s, '\n', i + 2);
                }
                scan_from(s, char_pos(s, '\n', i + 2), line)
            } else {
                with_token(slash_token(line), scan_from(s, i + 1, line))
            }
        } else if c == '"' {
            let q = char_pos(s, '"', i + 1);
            if q < s.len() {
                proof {
                    lemma_char_pos(s, '"', i + 1);
                }
                with_token(
                    string_token(s, i, line),
                    scan_from(s, q + 1, line + newline_count(s, i + 1, q)),
                )
            } else {
                ScanModel {
                    tokens: seq![eof_token(line + newline_count(s, i + 1, s.len() as int))],
                    diags: seq![unterminated_diag(line)],
                }
            }
        } else if is_digit(c) {
            let e = number_end(s, i);
            proof {
                lemma_number_end(s, i);
            }
            with_token(number_token(s.subrange(i, e), line), scan_from(s, e, line))
        } else if c == '\n' {
            scan_from(s, i + 1, line + 1)
        } else if c == ' ' || c == '\t' {
            scan_from(s, i + 1, line)
        } else if is_alpha(c) {
            let e = ident_run_end(s, i);
            proof {
                lemma_ident_run_end(s, i);
            }
            with_token(ident_token(s.subrange(i, e), line), scan_from(s, e, line))
        } else {
            with_diag(unexpected_diag(line, c), scan_from(s, i + 1, line))
        }
    }
}

/// What scanning the whole of `s` produces: a scan from the start, on line 1.
pub open spec fn scan(s: Seq<char>) -> ScanModel {
    scan_from(s, 0, 1)
}

proof fn lemma_cons_token_shape(m: ScanModel, t: TokenModel, rest: ScanModel)
    requires
        m == with_token(t, rest),
    ensures
        m.tokens == cons_tokens(t, rest.tokens),
        m.diags == rest.diags,
{
    let target = seq![t] + rest.tokens;
    assert(with_token(t, rest) == ScanModel { tokens: target, diags: rest.diags });
    assert(cons_tokens(t, rest.tokens) == target);
}

proof fn lemma_cons_diag_shape(m: ScanModel, d: DiagModel, rest: ScanModel)
    requires
        m == with_diag(d, rest),
    ensures
        m.tokens == rest.tokens,
        m.diags == cons_diags(d, rest.diags),
{
    let target = seq![d] + rest.diags;
    assert(with_diag(d, rest) == ScanModel { tokens: rest.tokens, diags: target });
    assert(cons_diags(d, rest.diags) == target);
}

/// A dispatcher step on a punctuation mark.
pub proof fn lemma_scan_step_punct(s: Seq<char>, i: int, line: nat)
    requires
        0 <= i < s.len(),
        is_punct(s[i]),
    ensures
        scan_from(s, i, line).tokens == cons_tokens(
            punct_token(s[i], line),
            scan_from(s, i + 1, line).tokens,
        ),
        scan_from(s, i, line).diags == scan_from(s, i + 1, line).diags,
{
    let t = punct_token(s[i], line);
    let rest = scan_from(s, i + 1, line);
    assert(scan_from(s, i, line) == with_token(t, rest));
    lemma_cons_token_shape(scan_from(s, i, line), t, rest);
}

/// A dispatcher step on an operator followed by `=`: maximal munch, the
/// doubled form wins.
pub proof fn lemma_scan_step_operator2(s: Seq<char>, i: int, line: nat)
    requires
        0 <= i < s.len(),
        is_operator_start(s[i]),
        i + 1 < s.len(),
        s[i + 1] == '=',
    ensures
        scan_from(s, i, line).tokens == cons_tokens(
            double_op_token(s[i], line),
            scan_from(s, i + 2, line).tokens,
        ),
        scan_from(s, i, line).diags == scan_from(s, i + 2, line).diags,
{
    let t = double_op_token(s[i], line);
    let rest = scan_from(s, i + 2, line);
    assert(scan_from(s, i, line) == with_token(t, rest));
    lemma_cons_token_shape(scan_from(s, i, line), t, rest);
}

/// A dispatcher step on an operator not followed by `=`.
pub proof fn lemma_scan_step_operator1(s: Seq<char>, i: int, line: nat)
    requires
        0 <= i < s.len(),
        is_operator_start(s[i]),
        !(i + 1 < s.len() && s[i + 1] == '='),
    ensures
        scan_from(s, i, line).tokens == cons_tokens(
            single_op_token(s[i], line),
            scan_from(s, i + 1, line).tokens,
        ),
        scan_from(s, i, line).diags == scan_from(s, i + 1, line).diags,
{
    let t = single_op_token(s[i], line);
    let rest = scan_from(s, i + 1, line);
    assert(scan_from(s, i, line) == with_token(t, rest));
    lemma_cons_token_shape(scan_from(s, i, line), t, rest);
}

/// A dispatcher step on a line comment: everything up to the next newline is
/// discarded and nothing is emitted.
pub proof fn lemma_scan_step_comment(s: Seq<char>, i: int, line: nat)
    requires
        0 <= i < s.len(),
        s[i] == '/',
        i + 1 < s.len(),
        s[i + 1] == '/',
    ensures
        scan_from(s, i, line).tokens == scan_from(s, char_pos(s, '\n', i + 2), line).tokens,
        scan_from(s, i, line).diags == scan_from(s, char_pos(s, '\n', i + 2), line).diags,
{
    lemma_char_pos(s, '\n', i + 2);
    assert(scan_from(s, i, line) == scan_from(s, char_pos(s, '\n', i + 2), line));
}

/// A dispatcher step on a lone slash.
pub proof fn lemma_scan_step_slash(s: Seq<char>, i: int, line: nat)
    requires
        0 <= i < s.len(),
        s[i] == '/',
        !(i + 1 < s.len() && s[i + 1] == '/'),
    ensures
        scan_from(s, i, line).tokens == cons_tokens(
            slash_token(line),
            scan_from(s, i + 1, line).tokens,
        ),
        scan_from(s, i, line).diags == scan_from(s, i + 1, line).diags,
{
    let t = slash_token(line);
    let rest = scan_from(s, i + 1, line);
    assert(scan_from(s, i, line) == with_token(t, rest));
    lemma_cons_token_shape(scan_from(s, i, line), t, rest);
}

/// A dispatcher step on a terminated string literal.
pub proof fn lemma_scan_step_string_ok(s: Seq<char>, i: int, line: nat)
    requires
        0 <= i < s.len(),
        s[i] == '"',
        char_pos(s, '"', i + 1) < s.len(),
    ensures
        scan_from(s, i, line).tokens == cons_tokens(
            string_token(s, i, line),
            scan_from(
                s,
                char_pos(s, '"', i + 1) + 1,
                line + newline_count(s, i + 1, char_pos(s, '"', i + 1)),
            ).tokens,
        ),
        scan_from(s, i, line).diags == scan_from(
            s,
            char_pos(s, '"', i + 1) + 1,
            line + newline_count(s, i + 1, char_pos(s, '"', i + 1)),
        ).diags,
{
    lemma_char_pos(s, '"', i + 1);
    let t = string_token(s, i, line);
    let rest = scan_from(
        s,
        char_pos(s, '"', i + 1) + 1,
        line + newline_count(s, i + 1, char_pos(s, '"', i + 1)),
    );
    assert(scan_from(s, i, line) == with_token(t, rest));
    lemma_cons_token_shape(scan_from(s, i, line), t, rest);
}

/// A dispatcher step on a string still open when the input ends: the scan
/// fails closed with one diagnostic on the line the string began, and the
/// end-of-file token follows at once.
pub proof fn lemma_scan_step_string_err(s: Seq<char>, i: int, line: nat)
    requires
        0 <= i < s.len(),
        s[i] == '"',
        char_pos(s, '"', i + 1) >= s.len(),
    ensures
        scan_from(s, i, line).tokens == cons_tokens(
            eof_token(line + newline_count(s, i + 1, s.len() as int)),
            Seq::<TokenModel>::empty(),
        ),
        scan_from(s, i, line).diags == cons_diags(
            unterminated_diag(line),
            Seq::<DiagModel>::empty(),
        ),
{
    let te = eof_token(line + newline_count(s, i + 1, s.len() as int));
    let de = unterminated_diag(line);
    let target_t = seq![te];
    let target_d = seq![de];
    assert(scan_from(s, i, line).tokens =~= target_t);
    assert(scan_from(s, i, line).diags =~= target_d);
    assert(cons_tokens(te, Seq::<TokenModel>::empty()) =~= target_t);
    assert(cons_diags(de, Seq::<DiagModel>::empty()) =~= target_d);
}

/// A dispatcher step on a number literal.
pub proof fn lemma_scan_step_number(s: Seq<char>, i: int, line: nat)
    requires
        0 <= i < s.len(),
        is_digit(s[i]),
    ensures
        scan_from(s, i, line).tokens == cons_tokens(
            number_token(s.subrange(i, number_end(s, i)), line),
            scan_from(s, number_end(s, i), line).tokens,
        ),
        scan_from(s, i, line).diags == scan_from(s, number_end(s, i), line).diags,
{
    lemma_number_end(s, i);
    let t = number_token(s.subrange(i, number_end(s, i)), line);
    let rest = scan_from(s, number_end(s, i), line);
    assert(scan_from(s, i, line) == with_token(t, rest));
    lemma_cons_token_shape(scan_from(s, i, line), t, rest);
}

/// A dispatcher step on a newline: the line counter advances and nothing is
/// emitted.
pub proof fn lemma_scan_step_newline(s: Seq<char>, i: int, line: nat)
    requires
        0 <= i < s.len(),
        s[i] == '\n',
    ensures
        scan_from(s, i, line).tokens == scan_from(s, i + 1, line + 1).tokens,
        scan_from(s, i, line).diags == scan_from(s, i + 1, line + 1).diags,
{
    assert(scan_from(s, i, line) == scan_from(s, i + 1, line + 1));
}

/// A dispatcher step on a space or tab: nothing is emitted.
pub proof fn lemma_scan_step_blank(s: Seq<char>, i: int, line: nat)
    requires
        0 <= i < s.len(),
        s[i] == ' ' || s[i] == '\t',
    ensures
        scan_from(s, i, line).tokens == scan_from(s, i + 1, line).tokens,
        scan_from(s, i, line).diags == scan_from(s, i + 1, line).diags,
{
    assert(scan_from(s, i, line) == scan_from(s, i + 1, line));
}

/// A dispatcher step on an identifier or keyword.
pub proof fn lemma_scan_step_ident(s: Seq<char>, i: int, line: nat)
    requires
        0 <= i < s.len(),
        is_alpha(s[i]),
    ensures
        scan_from(s, i, line).tokens == cons_tokens(
            ident_token(s.subrange(i, ident_run_end(s, i)), line),
            scan_from(s, ident_run_end(s, i), line).tokens,
        ),
        scan_from(s, i, line).diags == scan_from(s, ident_run_end(s, i), line).diags,
{
    lemma_ident_run_end(s, i);
    let t = ident_token(s.subrange(i, ident_run_end(s, i)), line);
    let rest = scan_from(s, ident_run_end(s, i), line);
    assert(scan_from(s, i, line) == with_token(t, rest));
    lemma_cons_token_shape(scan_from(s, i, line), t, rest);
}

/// A dispatcher step on a character no other branch accepts: an
/// unexpected-character diagnostic is recorded and the scan moves past it.
pub proof fn lemma_scan_step_unexpected(s: Seq<char>, i: int, line: nat)
    requires
        0 <= i < s.len(),
        !is_punct(s[i]),
        !is_operator_start(s[i]),
        s[i] != '/',
        s[i] != '"',
        !is_digit(s[i]),
        s[i] != '\n',
        s[i] != ' ',
        s[i] != '\t',
        !is_alpha(s[i]),
    ensures
        scan_from(s, i, line).tokens == scan_from(s, i + 1, line).tokens,
        scan_from(s, i, line).diags == cons_diags(
            unexpected_diag(line, s[i]),
            scan_from(s, i + 1, line).diags,
        ),
{
    let d = unexpected_diag(line, s[i]);
    let rest = scan_from(s, i + 1, line);
    assert(scan_from(s, i, line) == with_diag(d, rest));
    lemma_cons_diag_shape(scan_from(s, i, line), d, rest);
}

/// The end of the scan: once the input is exhausted the end-of-file token is
/// appended and nothing else follows.
pub proof fn lemma_scan_end(s: Seq<char>, i: int, line: nat)
    requires
        i == s.len(),
    ensures
        scan_from(s, i, line).tokens == cons_tokens(eof_token(line), Seq::<TokenModel>::empty()),
        scan_from(s, i, line).diags == Seq::<DiagModel>::empty(),
{
    let te = eof_token(line);
    let target = seq![te];
    assert(scan_from(s, i, line).tokens =~= target);
    assert(scan_from(s, i, line).diags =~= Seq::<DiagModel>::empty());
    assert(cons_tokens(te, Seq::<TokenModel>::empty()) =~= target);
}

} // verus!
