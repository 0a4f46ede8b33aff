use vstd::prelude::*;
use crate::ast::{decimal, digit_char, Ast};
use crate::diagnostic::DiagnosticView;
use crate::frontend::front_end;
use crate::frontend::lemma_lex_valid;
use crate::lexer::{
    alpha_end, eof_view, followed_by_if, is_alpha, is_digit, lemma_alpha_end_bounds, lemma_scan_number_bounds,
    lemma_step_advances, lex, lex_from, loc_after, operator_kind, pairs_with, scan_number, step, Step,
};
use crate::parser::{digits_value, p_binary, p_chain, p_expr, p_operand, p_primary, p_program, p_stmt, p_unary, Parsed};
use crate::position::Loc;
use crate::token::TokenView;
use crate::token_type::TokenType;

verus! {

/// Each two-character operator (`== != >= <= && || //`) is read as one token that
/// spans both characters, never as two tokens of one character.
pub proof fn law_two_character_operator(s: Seq<char>, i: int)
    requires
        0 <= i,
        i + 1 < s.len(),
        pairs_with(s[i], s[i + 1]),
    ensures
        step(s, i) == (Step::Emit { kind: operator_kind(s[i], true), from: i, to: i + 2, next: i + 2 }),
        lex_from(s, i) matches Ok(ts) ==> ts[0] == (TokenView {
            kind: operator_kind(s[i], true),
            text: s.subrange(i, i + 2),
            start: loc_after(s, i),
            end: loc_after(s, i + 2),
        }),
{
}

/// `else` followed by exactly one space and the word `if` is read as one `ElseIf` token.
pub proof fn law_else_if(s: Seq<char>, i: int)
    requires
        0 <= i,
        i + 7 <= s.len(),
        s.subrange(i, i + 7) == "else if"@,
        i + 7 == s.len() || !is_alpha(s[i + 7]),
    ensures
        step(s, i) == (Step::Emit { kind: TokenType::ElseIf, from: i, to: i + 7, next: i + 7 }),
{
    reveal_strlit("else if");
    reveal_strlit("else");
    let w = s.subrange(i, i + 7);
    assert(w[0] == s[i] && w[1] == s[i + 1] && w[2] == s[i + 2] && w[3] == s[i + 3]);
    assert(w[4] == s[i + 4] && w[5] == s[i + 5] && w[6] == s[i + 6]);
    assert(s[i] == 'e' && s[i + 1] == 'l' && s[i + 2] == 's' && s[i + 3] == 'e' && s[i + 4] == ' ');
    assert(s[i + 5] == 'i' && s[i + 6] == 'f');
    assert(alpha_end(s, i + 4) == i + 4);
    assert(alpha_end(s, i + 3) == i + 4);
    assert(alpha_end(s, i + 2) == i + 4);
    assert(alpha_end(s, i + 1) == i + 4);
    assert(s.subrange(i, i + 4) =~= "else"@);
}

/// The word `else` that is not followed by one space and the word `if` is read as an
/// `Else` token.
pub proof fn law_bare_else(s: Seq<char>, i: int)
    requires
        0 <= i,
        i + 4 <= s.len(),
        s.subrange(i, i + 4) == "else"@,
        i + 4 == s.len() || !is_alpha(s[i + 4]),
        !followed_by_if(s, i + 4),
    ensures
        step(s, i) == (Step::Emit { kind: TokenType::Else, from: i, to: i + 4, next: i + 4 }),
{
    reveal_strlit("else");
    reveal_strlit("func");
    reveal_strlit("mutable");
    reveal_strlit("true");
    reveal_strlit("false");
    reveal_strlit("int");
    reveal_strlit("float");
    reveal_strlit("string");
    reveal_strlit("boolean");
    reveal_strlit("if");
    let w = s.subrange(i, i + 4);
    assert(w[0] == s[i] && w[1] == s[i + 1] && w[2] == s[i + 2] && w[3] == s[i + 3]);
    assert(s[i] == 'e' && s[i + 1] == 'l' && s[i + 2] == 's' && s[i + 3] == 'e');
    assert(alpha_end(s, i + 4) == i + 4);
    assert(alpha_end(s, i + 3) == i + 4);
    assert(alpha_end(s, i + 2) == i + 4);
    assert(alpha_end(s, i + 1) == i + 4);
    assert(w[3] == 'e');
    assert(w != "func"@ && w != "true"@ && w != "false"@ && w != "int"@ && w != "float"@ && w != "string"@
        && w != "boolean"@ && w != "if"@ && w != "mutable"@);
}

/// The front end is a function of the text alone: the same text always gives the
/// same tree, or the same error at the same line and column.
pub proof fn law_deterministic(s1: Seq<char>, s2: Seq<char>)
    requires
        s1 == s2,
    ensures
        front_end(s1) == front_end(s2),
        front_end(s1) matches Err(d1) ==> front_end(s2) matches Err(d2) && d1.at == d2.at && d1.kind == d2.kind
            && d1.found == d2.found,
{
}


proof fn lemma_digit_char(d: nat)
    requires
        d < 10,
    ensures
        is_digit(digit_char(d)),
        digit_char(d) as int - '0' as int == d,
{
}

proof fn lemma_decimal(n: nat)
    ensures
        decimal(n).len() >= 1,
        forall|k: int| 0 <= k < decimal(n).len() ==> is_digit(#[trigger] decimal(n)[k]),
        digits_value(decimal(n)) == n,
    decreases n,
{
    lemma_digit_char(n % 10);
    if n >= 10 {
        lemma_decimal(n / 10);
        let s = decimal(n);
        assert(s.drop_last() =~= decimal(n / 10));
        assert(s.last() == digit_char(n % 10));
        assert(digits_value(s) == digits_value(s.drop_last()) * 10 + (s.last() as int - '0' as int));
        assert(digits_value(s) == (n / 10) * 10 + n % 10);
        assert forall|k: int| 0 <= k < s.len() implies is_digit(#[trigger] s[k]) by {
            if k < s.len() - 1 {
                assert(s[k] == decimal(n / 10)[k]);
            }
        }
    } else {
        let s = decimal(n);
        assert(s.drop_last() =~= Seq::<char>::empty());
        assert(digits_value(Seq::<char>::empty()) == 0);
        assert(digits_value(s) == digits_value(s.drop_last()) * 10 + (s.last() as int - '0' as int));
    }
}

proof fn lemma_scan_digits(s: Seq<char>, j: int)
    requires
        0 <= j <= s.len(),
        forall|k: int| j <= k < s.len() ==> is_digit(#[trigger] s[k]),
    ensures
        scan_number(s, j, false) == (s.len() as int, false),
    decreases s.len() - j,
{
    if j < s.len() {
        lemma_scan_digits(s, j + 1);
    }
}

proof fn lemma_loc_one_line(s: Seq<char>, k: int)
    requires
        0 <= k <= s.len(),
        forall|m: int| 0 <= m < k ==> #[trigger] s[m] != '\n',
    ensures
        loc_after(s, k) == (Loc { line: 1, column: k + 1 }),
    decreases k,
{
    if k > 0 {
        lemma_loc_one_line(s, k - 1);
    }
}

/// An integer literal is read as one `Integer` token, on one line, and parses as a
/// program that holds just that integer.
pub proof fn law_integer_literal(n: nat)
    requires
        n <= i64::MAX,
    ensures
        lex(decimal(n)) == Ok::<Seq<TokenView>, crate::lexer::LexFail>(seq![
            TokenView {
                kind: TokenType::Integer,
                text: decimal(n),
                start: Loc { line: 1, column: 1 },
                end: Loc { line: 1, column: decimal(n).len() + 1int },
            },
            eof_view(decimal(n)),
        ]),
        front_end(decimal(n)) == Ok::<Ast, DiagnosticView>(Ast::Program(seq![Ast::Integer(n as int)])),
{
    let s = decimal(n);
    lemma_decimal(n);
    lemma_scan_digits(s, 1);
    lemma_loc_one_line(s, 0);
    lemma_loc_one_line(s, s.len() as int);
    let t = TokenView {
        kind: TokenType::Integer,
        text: s,
        start: Loc { line: 1, column: 1 },
        end: Loc { line: 1, column: s.len() + 1int },
    };
    assert(s.subrange(0, s.len() as int) =~= s);
    assert(step(s, 0) == (Step::Emit { kind: TokenType::Integer, from: 0, to: s.len() as int, next: s.len() as int }));
    assert(lex_from(s, s.len() as int) == Ok::<Seq<TokenView>, crate::lexer::LexFail>(seq![eof_view(s)]));
    assert(seq![t] + seq![eof_view(s)] =~= seq![t, eof_view(s)]);
    let ts = seq![t, eof_view(s)];
    let x = Ast::Integer(n as int);
    assert(p_primary(ts, 0) == Parsed::Done(x, 1));
    assert(p_unary(ts, 0) == Parsed::Done(x, 1));
    assert(p_chain(ts, 1, 3, x) == Parsed::Done(x, 1));
    assert(p_binary(ts, 0, 3) == Parsed::Done(x, 1));
    assert(p_chain(ts, 1, 2, x) == Parsed::Done(x, 1));
    assert(p_operand(ts, 0, 2) == Parsed::Done(x, 1));
    assert(p_binary(ts, 0, 2) == Parsed::Done(x, 1));
    assert(p_chain(ts, 1, 1, x) == Parsed::Done(x, 1));
    assert(p_operand(ts, 0, 1) == Parsed::Done(x, 1));
    assert(p_binary(ts, 0, 1) == Parsed::Done(x, 1));
    assert(p_chain(ts, 1, 0, x) == Parsed::Done(x, 1));
    assert(p_operand(ts, 0, 0) == Parsed::Done(x, 1));
    assert(p_binary(ts, 0, 0) == Parsed::Done(x, 1));
    assert(p_expr(ts, 0) == Parsed::Done(x, 1));
    assert(p_stmt(ts, 0) == Parsed::Done(x, 1));
    assert(Seq::<Ast>::empty().push(x) =~= seq![x]);
    assert(p_program(ts, 1, seq![x]) == Parsed::Done(Ast::Program(seq![x]), 1));
    assert(p_program(ts, 0, Seq::empty()) == Parsed::Done(Ast::Program(seq![x]), 1));
}


/// Whether `t` has the kind and text that the lexer emits at index `j`.
pub open spec fn emitted_at(s: Seq<char>, j: int, t: TokenView) -> bool {
    &&& 0 <= j < s.len()
    &&& match step(s, j) {
        Step::Emit { kind, from, to, .. } => t.kind == kind && t.text == s.subrange(from, to),
        _ => false,
    }
}

/// Every token but the last is emitted by the step at some index.
proof fn lemma_token_origin(s: Seq<char>, i: int, m: int) -> (j: int)
    requires
        lex_from(s, i) is Ok,
        0 <= m < lex_from(s, i)->Ok_0.len() - 1,
    ensures
        emitted_at(s, j, lex_from(s, i)->Ok_0[m]),
    decreases s.len() - i,
{
    lemma_step_advances(s, i);
    match step(s, i) {
        Step::Skip { next } => lemma_token_origin(s, next, m),
        Step::Emit { next, .. } => {
            if m == 0 {
                i
            } else {
                let ts = lex_from(s, i)->Ok_0;
                let rest = lex_from(s, next)->Ok_0;
                assert(ts[m] == rest[m - 1]);
                lemma_token_origin(s, next, m - 1)
            }
        },
        Step::Fail { .. } => i,
    }
}

proof fn lemma_scan_number_sub(s: Seq<char>, j: int, k: int, dot: bool)
    requires
        0 <= j < k <= s.len(),
    ensures
        scan_number(s.subrange(j, scan_number(s, k, dot).0), k - j, dot) == (scan_number(s, k, dot).0 - j, scan_number(
            s,
            k,
            dot,
        ).1),
    decreases s.len() - k,
{
    lemma_scan_number_bounds(s, k, dot);
    let e = scan_number(s, k, dot).0;
    let w = s.subrange(j, e);
    if k < s.len() {
        if is_digit(s[k]) {
            lemma_scan_number_sub(s, j, k + 1, dot);
            lemma_scan_number_bounds(s, k + 1, dot);
            assert(w[k - j] == s[k]);
        } else if s[k] == '.' && !dot {
            lemma_scan_number_sub(s, j, k + 1, true);
            lemma_scan_number_bounds(s, k + 1, true);
            assert(w[k - j] == s[k]);
        }
    }
}

proof fn lemma_alpha_end_sub(s: Seq<char>, j: int, k: int)
    requires
        0 <= j < k <= s.len(),
    ensures
        alpha_end(s.subrange(j, alpha_end(s, k)), k - j) == alpha_end(s, k) - j,
    decreases s.len() - k,
{
    lemma_alpha_end_bounds(s, k);
    let e = alpha_end(s, k);
    let w = s.subrange(j, e);
    if k < s.len() && is_alpha(s[k]) {
        lemma_alpha_end_sub(s, j, k + 1);
        lemma_alpha_end_bounds(s, k + 1);
        assert(w[k - j] == s[k]);
    }
}

/// The text of a token emitted at `j`, other than a string literal, lexes on its own
/// as one token of the same kind and text.
proof fn lemma_relex(s: Seq<char>, j: int)
    requires
        0 <= j < s.len(),
        step(s, j) is Emit,
        step(s, j)->Emit_kind != TokenType::String,
    ensures
        ({
            let w = s.subrange(step(s, j)->Emit_from, step(s, j)->Emit_to);
            lex(w) matches Ok(us) && us.len() == 2 && us[0].kind == step(s, j)->Emit_kind && us[0].text == w
                && us[1] == eof_view(w)
        }),
{
    lemma_step_advances(s, j);
    let st = step(s, j);
    let kind = st->Emit_kind;
    let w = s.subrange(st->Emit_from, st->Emit_to);
    let c = s[j];
    if is_digit(c) {
        lemma_scan_number_sub(s, j, j + 1, false);
        assert(w[0] == c);
    } else if is_alpha(c) {
        let e = alpha_end(s, j + 1);
        lemma_alpha_end_bounds(s, j + 1);
        if s.subrange(j, e) == "else"@ && followed_by_if(s, e) {
            reveal_strlit("else");
            reveal_strlit("else if");
            assert(w.len() == 7);
            assert(w[4] == s[e] && w[5] == s[e + 1] && w[6] == s[e + 2]);
            assert(w.subrange(0, 4) =~= s.subrange(j, e));
            assert(w.subrange(0, 7) =~= "else if"@);
            law_else_if(w, 0);
        } else {
            lemma_alpha_end_sub(s, j, j + 1);
            assert(w[0] == c);
            assert(w.subrange(0, w.len() as int) =~= w);
        }
    } else {
        assert(w[0] == c);
        if st->Emit_to == j + 2 {
            assert(w[1] == s[j + 1]);
        }
    }
    let ws = step(w, 0);
    assert(ws == (Step::Emit { kind, from: 0, to: w.len() as int, next: w.len() as int }));
    assert(w.subrange(0, w.len() as int) =~= w);
    let first = TokenView { kind, text: w, start: loc_after(w, 0), end: loc_after(w, w.len() as int) };
    assert(lex_from(w, w.len() as int) == Ok::<Seq<TokenView>, crate::lexer::LexFail>(seq![eof_view(w)]));
    assert(seq![first] + seq![eof_view(w)] =~= seq![first, eof_view(w)]);
}

/// Reading the text of any token again on its own, other than a string literal or
/// the end of the file, gives exactly one token of the same kind and text.
pub proof fn law_relex_token(s: Seq<char>, m: int)
    requires
        lex(s) is Ok,
        0 <= m < lex(s)->Ok_0.len(),
        lex(s)->Ok_0[m].kind != TokenType::String,
        lex(s)->Ok_0[m].kind != TokenType::EOF,
    ensures
        ({
            let t = lex(s)->Ok_0[m];
            lex(t.text) matches Ok(us) && us.len() == 2 && us[0].kind == t.kind && us[0].text == t.text
                && us[1].kind == TokenType::EOF
        }),
{
    lemma_lex_valid(s, 0);
    let ts = lex(s)->Ok_0;
    assert(m < ts.len() - 1);
    let j = lemma_token_origin(s, 0, m);
    lemma_relex(s, j);
}

} // verus!
