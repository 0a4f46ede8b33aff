use vstd::prelude::*;
use crate::ast::{asts_of, binary_node, push_node, Ast, BinOp, Node};
use crate::diagnostic::{Diagnostic, DiagnosticView, ErrorKind};
use crate::lexer::{is_digit, views_of};
use crate::token::{Token, TokenView};
use crate::token_type::TokenType;

verus! {

// ---------------------------------------------------------------------------
// The grammar
// ---------------------------------------------------------------------------

/// The outcome of parsing from some index: a value and the index after it, or an
/// error and the index of the offending token.
pub enum Parsed<T> {
    Done(T, int),
    Failed(ErrorKind, int),
}

/// The kind of token `i`; past either end there is only the end of the file.
pub open spec fn kind_at(ts: Seq<TokenView>, i: int) -> TokenType {
    if 0 <= i < ts.len() {
        ts[i].kind
    } else {
        TokenType::EOF
    }
}

/// The text of token `i`.
pub open spec fn text_at(ts: Seq<TokenView>, i: int) -> Seq<char> {
    if 0 <= i < ts.len() {
        ts[i].text
    } else {
        Seq::empty()
    }
}

/// The value of a sequence of decimal digits.
pub open spec fn digits_value(s: Seq<char>) -> int
    decreases s.len(),
{
    if s.len() == 0 {
        0
    } else {
        digits_value(s.drop_last()) * 10 + (s.last() as int - '0' as int)
    }
}

/// Whether `s` is a non-empty run of decimal digits.
pub open spec fn is_decimal(s: Seq<char>) -> bool {
    s.len() > 0 && forall|k: int| 0 <= k < s.len() ==> is_digit(#[trigger] s[k])
}

/// The operator of precedence level `lvl` that token `i` stands for, if any. Level 0
/// holds comparisons, 1 addition and subtraction, 2 multiplication, division and
/// modulo, 3 the power operator. Each operator token gives the operator of its own
/// name: `>=` is `GreaterOrEqual`, not `GreaterThan`.
pub open spec fn binop_at(ts: Seq<TokenView>, i: int, lvl: nat) -> Option<BinOp> {
    let k = kind_at(ts, i);
    if lvl == 0 {
        if k == TokenType::Equal {
            Some(BinOp::Equal)
        } else if k == TokenType::NotEqual {
            Some(BinOp::NotEqual)
        } else if k == TokenType::GreaterThan {
            Some(BinOp::GreaterThan)
        } else if k == TokenType::GreaterOrEqual {
            Some(BinOp::GreaterOrEqual)
        } else if k == TokenType::LessThan {
            Some(BinOp::LessThan)
        } else if k == TokenType::LessOrEqual {
            Some(BinOp::LessOrEqual)
        } else {
            None
        }
    } else if lvl == 1 {
        if k == TokenType::Addition {
            Some(BinOp::Addition)
        } else if k == TokenType::Subtraction {
            Some(BinOp::Subtraction)
        } else {
            None
        }
    } else if lvl == 2 {
        if k == TokenType::Multiplication {
            Some(BinOp::Multiplication)
        } else if k == TokenType::Division {
            Some(BinOp::Division)
        } else if k == TokenType::IntegerDivision {
            Some(BinOp::IntegerDivision)
        } else if k == TokenType::Modulo {
            Some(BinOp::Modulo)
        } else {
            None
        }
    } else if k == TokenType::Power {
        Some(BinOp::Power)
    } else {
        None
    }
}

/// How many levels lie below `lvl`.
pub open spec fn levels_below(lvl: nat) -> nat {
    if lvl >= 3 {
        0
    } else {
        (3 - lvl) as nat
    }
}

/// Whether a token of kind `k` can start an expression.
pub open spec fn starts_expression(k: TokenType) -> bool {
    k == TokenType::Integer || k == TokenType::Float || k == TokenType::String || k == TokenType::Boolean
        || k == TokenType::LeftParen || k == TokenType::LeftBracket || k == TokenType::Addition
        || k == TokenType::Subtraction
}

// Every parse that succeeds consumes at least one token; the checks `i < j <= ts.len()`
// below never fail, and keep the definitions well-founded.

/// An expression: the loosest level, comparisons.
pub open spec fn p_expr(ts: Seq<TokenView>, i: int) -> Parsed<Ast>
    decreases ts.len() - i, 20nat,
{
    p_binary(ts, i, 0)
}

/// A left-associative chain of operators of level `lvl` and their operands.
pub open spec fn p_binary(ts: Seq<TokenView>, i: int, lvl: nat) -> Parsed<Ast>
    decreases ts.len() - i, 10 + 3 * levels_below(lvl),
{
    match p_operand(ts, i, lvl) {
        Parsed::Done(left, j) => if i < j <= ts.len() {
            p_chain(ts, j, lvl, left)
        } else {
            Parsed::Failed(ErrorKind::UnexpectedToken, i)
        },
        Parsed::Failed(e, k) => Parsed::Failed(e, k),
    }
}

/// An operand of level `lvl`: the next tighter level, or a unary expression.
pub open spec fn p_operand(ts: Seq<TokenView>, i: int, lvl: nat) -> Parsed<Ast>
    decreases ts.len() - i, 8 + 3 * levels_below(lvl),
{
    if lvl >= 3 {
        p_unary(ts, i)
    } else {
        p_binary(ts, i, lvl + 1)
    }
}

/// The rest of a chain of level `lvl` whose left part is `left`, from index `j`.
pub open spec fn p_chain(ts: Seq<TokenView>, j: int, lvl: nat, left: Ast) -> Parsed<Ast>
    decreases ts.len() - j, 9 + 3 * levels_below(lvl),
{
    match binop_at(ts, j, lvl) {
        Some(op) => match p_operand(ts, j + 1, lvl) {
            Parsed::Done(right, k) => if j < k <= ts.len() {
                p_chain(ts, k, lvl, Ast::Binary(op, Box::new(left), Box::new(right)))
            } else {
                Parsed::Failed(ErrorKind::UnexpectedToken, j)
            },
            Parsed::Failed(e, k) => Parsed::Failed(e, k),
        },
        None => Parsed::Done(left, j),
    }
}

/// A primary with any number of leading signs.
pub open spec fn p_unary(ts: Seq<TokenView>, i: int) -> Parsed<Ast>
    decreases ts.len() - i, 5nat,
{
    if kind_at(ts, i) == TokenType::Addition {
        match p_unary(ts, i + 1) {
            Parsed::Done(e, j) => Parsed::Done(Ast::UnaryPlus(Box::new(e)), j),
            Parsed::Failed(e, k) => Parsed::Failed(e, k),
        }
    } else if kind_at(ts, i) == TokenType::Subtraction {
        match p_unary(ts, i + 1) {
            Parsed::Done(e, j) => Parsed::Done(Ast::UnaryMinus(Box::new(e)), j),
            Parsed::Failed(e, k) => Parsed::Failed(e, k),
        }
    } else {
        p_primary(ts, i)
    }
}

/// A literal, a vector or a parenthesised expression.
pub open spec fn p_primary(ts: Seq<TokenView>, i: int) -> Parsed<Ast>
    decreases ts.len() - i, 4nat,
{
    let k = kind_at(ts, i);
    let text = text_at(ts, i);
    if k == TokenType::LeftBracket {
        p_vector(ts, i)
    } else if k == TokenType::LeftParen {
        p_parens(ts, i)
    } else if k == TokenType::Integer {
        if is_decimal(text) && digits_value(text) <= i64::MAX {
            Parsed::Done(Ast::Integer(digits_value(text)), i + 1)
        } else {
            Parsed::Failed(ErrorKind::IntegerTooLarge, i)
        }
    } else if k == TokenType::Float {
        Parsed::Done(Ast::Float(text), i + 1)
    } else if k == TokenType::String {
        Parsed::Done(Ast::Str(text), i + 1)
    } else if k == TokenType::Boolean {
        Parsed::Done(Ast::Boolean(text == "true"@), i + 1)
    } else {
        Parsed::Failed(ErrorKind::UnexpectedToken, i)
    }
}

/// `( expr )`, from the `(` at index `i`.
pub open spec fn p_parens(ts: Seq<TokenView>, i: int) -> Parsed<Ast>
    decreases ts.len() - i, 3nat,
{
    if kind_at(ts, i) != TokenType::LeftParen {
        Parsed::Failed(ErrorKind::UnexpectedToken, i)
    } else {
        match p_expr(ts, i + 1) {
            Parsed::Done(e, j) => if kind_at(ts, j) == TokenType::RightParen {
                Parsed::Done(e, j + 1)
            } else {
                Parsed::Failed(ErrorKind::ExpectedRightParen, j)
            },
            Parsed::Failed(e, k) => Parsed::Failed(e, k),
        }
    }
}

/// `[ ]` or `[ expr (, expr)* ]`, from the `[` at index `i`.
pub open spec fn p_vector(ts: Seq<TokenView>, i: int) -> Parsed<Ast>
    decreases ts.len() - i, 3nat,
{
    if kind_at(ts, i) != TokenType::LeftBracket {
        Parsed::Failed(ErrorKind::UnexpectedToken, i)
    } else if kind_at(ts, i + 1) == TokenType::RightBracket {
        Parsed::Done(Ast::Vector(Seq::empty()), i + 2)
    } else {
        p_items(ts, i + 1, Seq::empty())
    }
}

/// The items of a vector from index `j`, after the items `acc`.
pub open spec fn p_items(ts: Seq<TokenView>, j: int, acc: Seq<Ast>) -> Parsed<Ast>
    decreases ts.len() - j, 21nat,
{
    match p_expr(ts, j) {
        Parsed::Done(e, k) => if !(j < k <= ts.len()) {
            Parsed::Failed(ErrorKind::UnexpectedToken, j)
        } else if kind_at(ts, k) == TokenType::Comma {
            p_items(ts, k + 1, acc.push(e))
        } else if kind_at(ts, k) == TokenType::RightBracket {
            Parsed::Done(Ast::Vector(acc.push(e)), k + 1)
        } else {
            Parsed::Failed(ErrorKind::VectorExpectedCommaOrBracket, k)
        },
        Parsed::Failed(e, k) => Parsed::Failed(e, k),
    }
}

/// A statement: a declaration, an assignment, a loop, or an expression.
pub open spec fn p_stmt(ts: Seq<TokenView>, i: int) -> Parsed<Ast>
    decreases ts.len() - i, 23nat,
{
    let k = kind_at(ts, i);
    if k == TokenType::VarModifiers || k == TokenType::Type {
        p_decl(ts, i)
    } else if k == TokenType::Identifier {
        p_assign(ts, i)
    } else if k == TokenType::While {
        p_while(ts, i)
    } else if k == TokenType::ForEach {
        p_foreach(ts, i)
    } else {
        p_expr(ts, i)
    }
}

/// `[mutable] type name [= expr] ;`. Only a mutable declaration may leave out its
/// value, which is then the text `undefined`.
pub open spec fn p_decl(ts: Seq<TokenView>, i: int) -> Parsed<Ast>
    decreases ts.len() - i, 22nat,
{
    let m = kind_at(ts, i) == TokenType::VarModifiers;
    let t = if m { i + 1 } else { i };
    if kind_at(ts, t) != TokenType::Type {
        Parsed::Failed(ErrorKind::ExpectedType, t)
    } else if kind_at(ts, t + 1) != TokenType::Identifier {
        Parsed::Failed(ErrorKind::ExpectedIdentifier, t + 1)
    } else {
        let a = t + 2;
        let init = if kind_at(ts, a) == TokenType::Assign {
            p_expr(ts, a + 1)
        } else if m {
            Parsed::Done(Ast::Str("undefined"@), a)
        } else {
            Parsed::Failed(ErrorKind::MissingInitializer, a)
        };
        match init {
            Parsed::Done(v, k) => if kind_at(ts, k) == TokenType::SemiColon {
                Parsed::Done(
                    Ast::Declaration {
                        is_mutable: m,
                        var_type: text_at(ts, t),
                        identifier: text_at(ts, t + 1),
                        initializer: Box::new(v),
                    },
                    k + 1,
                )
            } else {
                Parsed::Failed(ErrorKind::ExpectedSemicolon, k)
            },
            Parsed::Failed(e, k) => Parsed::Failed(e, k),
        }
    }
}

/// `name = expr ;`.
pub open spec fn p_assign(ts: Seq<TokenView>, i: int) -> Parsed<Ast>
    decreases ts.len() - i, 22nat,
{
    if kind_at(ts, i) != TokenType::Identifier {
        Parsed::Failed(ErrorKind::UnexpectedToken, i)
    } else if kind_at(ts, i + 1) != TokenType::Assign {
        Parsed::Failed(ErrorKind::ExpectedAssignment, i)
    } else {
        match p_expr(ts, i + 2) {
            Parsed::Done(v, k) => if kind_at(ts, k) == TokenType::SemiColon {
                Parsed::Done(Ast::Assignment { identifier: text_at(ts, i), value: Box::new(v) }, k + 1)
            } else {
                Parsed::Failed(ErrorKind::ExpectedSemicolon, k)
            },
            Parsed::Failed(e, k) => Parsed::Failed(e, k),
        }
    }
}

/// The conditions of a while loop from index `j`, after the conditions `acc`: one
/// or more expressions, then `)`.
pub open spec fn p_conds(ts: Seq<TokenView>, j: int, acc: Seq<Ast>) -> Parsed<Seq<Ast>>
    decreases ts.len() - j, 21nat,
{
    match p_expr(ts, j) {
        Parsed::Done(e, k) => if !(j < k <= ts.len()) {
            Parsed::Failed(ErrorKind::UnexpectedToken, j)
        } else if kind_at(ts, k) == TokenType::RightParen {
            Parsed::Done(acc.push(e), k + 1)
        } else if starts_expression(kind_at(ts, k)) {
            p_conds(ts, k, acc.push(e))
        } else {
            Parsed::Failed(ErrorKind::WhileExpectedRightParen, k)
        },
        Parsed::Failed(e, k) => Parsed::Failed(e, k),
    }
}

/// The statements of a block from index `j`, after the statements `acc`, up to and
/// including the closing `}`; `missing` is the error when the file ends first.
pub open spec fn p_block(ts: Seq<TokenView>, j: int, acc: Seq<Ast>, missing: ErrorKind) -> Parsed<Seq<Ast>>
    decreases ts.len() - j, 24nat,
{
    if kind_at(ts, j) == TokenType::RightBrace {
        Parsed::Done(acc, j + 1)
    } else if kind_at(ts, j) == TokenType::EOF {
        Parsed::Failed(missing, j)
    } else {
        match p_stmt(ts, j) {
            Parsed::Done(s, k) => if j < k <= ts.len() {
                p_block(ts, k, acc.push(s), missing)
            } else {
                Parsed::Failed(ErrorKind::UnexpectedToken, j)
            },
            Parsed::Failed(e, k) => Parsed::Failed(e, k),
        }
    }
}

/// `while ( expr+ ) { stmt* }`.
pub open spec fn p_while(ts: Seq<TokenView>, i: int) -> Parsed<Ast>
    decreases ts.len() - i, 22nat,
{
    if kind_at(ts, i) != TokenType::While {
        Parsed::Failed(ErrorKind::UnexpectedToken, i)
    } else if kind_at(ts, i + 1) != TokenType::LeftParen {
        Parsed::Failed(ErrorKind::WhileExpectedLeftParen, i + 1)
    } else {
        match p_conds(ts, i + 2, Seq::empty()) {
            Parsed::Done(condition, j) => if !(i < j) || kind_at(ts, j) != TokenType::LeftBrace {
                Parsed::Failed(ErrorKind::WhileExpectedLeftBrace, j)
            } else {
                match p_block(ts, j + 1, Seq::empty(), ErrorKind::WhileExpectedRightBrace) {
                    Parsed::Done(block, k) => Parsed::Done(Ast::While { condition, block }, k),
                    Parsed::Failed(e, k) => Parsed::Failed(e, k),
                }
            },
            Parsed::Failed(e, k) => Parsed::Failed(e, k),
        }
    }
}

/// `foreach ( type name in collection ) { stmt* }`.
pub open spec fn p_foreach(ts: Seq<TokenView>, i: int) -> Parsed<Ast>
    decreases ts.len() - i, 22nat,
{
    if kind_at(ts, i) != TokenType::ForEach {
        Parsed::Failed(ErrorKind::UnexpectedToken, i)
    } else if kind_at(ts, i + 1) != TokenType::LeftParen {
        Parsed::Failed(ErrorKind::ForEachExpectedLeftParen, i + 1)
    } else if kind_at(ts, i + 2) != TokenType::Type {
        Parsed::Failed(ErrorKind::ForEachExpectedType, i + 2)
    } else if kind_at(ts, i + 3) != TokenType::Identifier {
        Parsed::Failed(ErrorKind::ForEachExpectedItemName, i + 3)
    } else if kind_at(ts, i + 4) != TokenType::In {
        Parsed::Failed(ErrorKind::ForEachExpectedIn, i + 4)
    } else if kind_at(ts, i + 5) != TokenType::Identifier {
        Parsed::Failed(ErrorKind::ForEachExpectedCollection, i + 5)
    } else if kind_at(ts, i + 6) != TokenType::RightParen {
        Parsed::Failed(ErrorKind::ForEachExpectedRightParen, i + 6)
    } else if kind_at(ts, i + 7) != TokenType::LeftBrace {
        Parsed::Failed(ErrorKind::ForEachExpectedLeftBrace, i + 7)
    } else {
        match p_block(ts, i + 8, Seq::empty(), ErrorKind::ForEachExpectedRightBrace) {
            Parsed::Done(block, k) => Parsed::Done(
                Ast::ForEach {
                    item_type: text_at(ts, i + 2),
                    item_name: text_at(ts, i + 3),
                    collection: text_at(ts, i + 5),
                    block,
                },
                k,
            ),
            Parsed::Failed(e, k) => Parsed::Failed(e, k),
        }
    }
}

/// The statements of a program from index `i` to the end of the file, after the
/// statements `acc`.
pub open spec fn p_program(ts: Seq<TokenView>, i: int, acc: Seq<Ast>) -> Parsed<Ast>
    decreases ts.len() - i, 25nat,
{
    if kind_at(ts, i) == TokenType::EOF {
        Parsed::Done(Ast::Program(acc), i)
    } else {
        match p_stmt(ts, i) {
            Parsed::Done(s, k) => if i < k <= ts.len() {
                p_program(ts, k, acc.push(s))
            } else {
                Parsed::Failed(ErrorKind::UnexpectedToken, i)
            },
            Parsed::Failed(e, k) => Parsed::Failed(e, k),
        }
    }
}

/// The syntax tree of a whole token sequence.
pub open spec fn parse_tokens(ts: Seq<TokenView>) -> Parsed<Ast> {
    p_program(ts, 0, Seq::empty())
}


// ---------------------------------------------------------------------------
// Results
// ---------------------------------------------------------------------------

/// Whether `ts` is a token sequence that ends with the end-of-file token.
pub open spec fn valid_stream(ts: Seq<TokenView>) -> bool {
    ts.len() > 0 && ts.last().kind == TokenType::EOF
}

/// What a diagnostic for error `e` at token `k` holds.
pub open spec fn parse_diagnostic(ts: Seq<TokenView>, e: ErrorKind, k: int) -> DiagnosticView {
    DiagnosticView { kind: e, found: text_at(ts, k), at: ts[k].start }
}

/// Whether `r`, with the parser left at `end`, is the outcome `p`.
pub open spec fn parsed_as(ts: Seq<TokenView>, p: Parsed<Ast>, r: Result<Node, Diagnostic>, end: int) -> bool {
    match p {
        Parsed::Done(a, j) => r is Ok && r->Ok_0@ == a && end == j,
        Parsed::Failed(e, k) => r is Err && r->Err_0@ == parse_diagnostic(ts, e, k),
    }
}

/// Whether `r`, with the parser left at `end`, is the outcome `p`, for a sequence of nodes.
pub open spec fn parsed_all_as(
    ts: Seq<TokenView>,
    p: Parsed<Seq<Ast>>,
    r: Result<Vec<Box<Node>>, Diagnostic>,
    end: int,
) -> bool {
    match p {
        Parsed::Done(a, j) => r is Ok && asts_of(r->Ok_0@) == a && end == j,
        Parsed::Failed(e, k) => r is Err && r->Err_0@ == parse_diagnostic(ts, e, k),
    }
}

pub proof fn lemma_digits_prefix(s: Seq<char>, k: int)
    requires
        0 <= k <= s.len(),
        forall|m: int| 0 <= m < s.len() ==> is_digit(#[trigger] s[m]),
    ensures
        digits_value(s.subrange(0, k)) <= digits_value(s),
        0 <= digits_value(s.subrange(0, k)),
    decreases s.len(),
{
    if k < s.len() {
        lemma_digits_prefix(s.drop_last(), k);
        assert(s.drop_last().subrange(0, k) =~= s.subrange(0, k));
        lemma_digits_prefix(s.drop_last(), s.len() - 1);
        assert(s.drop_last().subrange(0, s.len() - 1) =~= s.drop_last());
    } else {
        assert(s.subrange(0, k) =~= s);
        if s.len() > 0 {
            lemma_digits_prefix(s.drop_last(), s.len() - 1);
            assert(s.drop_last().subrange(0, s.len() - 1) =~= s.drop_last());
        }
    }
}

/// The value of an integer literal, if it is a run of digits that fits in an `i64`.
pub fn integer_value(text: &str) -> (r: Option<i64>)
    ensures
        r matches Some(v) ==> is_decimal(text@) && v == digits_value(text@),
        r is None ==> !(is_decimal(text@) && digits_value(text@) <= i64::MAX),
{
    let n = text.unicode_len();
    if n == 0 {
        return None;
    }
    let mut value: i64 = 0;
    let mut k: usize = 0;
    while k < n
        invariant
            n == text@.len(),
            k <= n,
            forall|m: int| 0 <= m < k ==> is_digit(#[trigger] text@[m]),
            value == digits_value(text@.subrange(0, k as int)),
            value >= 0,
        decreases n - k,
    {
        let c = text.get_char(k);
        if !('0' <= c && c <= '9') {
            return None;
        }
        let d = (c as u32 - '0' as u32) as i64;
        assert(text@.subrange(0, k + 1).drop_last() =~= text@.subrange(0, k as int));
        if value > (i64::MAX - d) / 10 {
            proof {
                let s = text@;
                assert(value * 10 + d > i64::MAX) by (nonlinear_arith)
                    requires
                        value > (i64::MAX - d) / 10,
                        0 <= d <= 9,
                ;
                if is_decimal(s) {
                    lemma_digits_prefix(s, k + 1);
                }
            }
            return None;
        }
        assert(value * 10 + d <= i64::MAX) by (nonlinear_arith)
            requires
                value <= (i64::MAX - d) / 10,
                0 <= d <= 9,
                value >= 0,
        ;
        value = value * 10 + d;
        k = k + 1;
    }
    assert(text@.subrange(0, n as int) =~= text@);
    Some(value)
}

/// Whether two texts are equal.
fn same_text(a: &str, b: &str) -> (r: bool)
    ensures
        r == (a@ == b@),
{
    let n = a.unicode_len();
    if n != b.unicode_len() {
        return false;
    }
    let mut k: usize = 0;
    while k < n
        invariant
            n == a@.len() == b@.len(),
            k <= n,
            forall|m: int| 0 <= m < k ==> a@[m] == b@[m],
        decreases n - k,
    {
        if a.get_char(k) != b.get_char(k) {
            return false;
        }
        k = k + 1;
    }
    assert(a@ =~= b@);
    true
}

// ---------------------------------------------------------------------------
// The parser
// ---------------------------------------------------------------------------

/// A recursive-descent parser over a token sequence.
pub struct Parser<'a> {
    /// The source text the tokens were read from
    source_text: &'a str,
    /// The tokens to parse
    tokens: &'a [Token],
    /// Index of the current token
    index: usize,
}

impl<'a> Parser<'a> {
    /// The tokens, seen mathematically.
    pub closed spec fn token_views(&self) -> Seq<TokenView> {
        views_of(self.tokens@)
    }

    /// Index of the current token.
    pub closed spec fn cursor(&self) -> int {
        self.index as int
    }

    pub closed spec fn wf(&self) -> bool {
        &&& valid_stream(views_of(self.tokens@))
        &&& self.index < self.tokens@.len()
    }

    spec fn keeps(&self, before: &Self) -> bool {
        &&& self.tokens == before.tokens
        &&& self.source_text == before.source_text
        &&& self.wf()
    }

    /// A parser at the first of `tokens`.
    pub fn new(source_text: &'a str, tokens: &'a [Token]) -> (r: Self)
        requires
            valid_stream(views_of(tokens@)),
        ensures
            r.wf(),
            r.token_views() == views_of(tokens@),
            r.cursor() == 0,
    {
        Parser { source_text, tokens, index: 0 }
    }

    /// The current token.
    fn current_token(&self) -> (t: &Token)
        requires
            self.wf(),
        ensures
            *t == self.tokens@[self.index as int],
            t@ == views_of(self.tokens@)[self.index as int],
    {
        &self.tokens[self.index]
    }

    /// Moves past the current token, which is not the end of the file.
    fn advance(&mut self)
        requires
            old(self).wf(),
            old(self).tokens@[old(self).index as int].token_type != TokenType::EOF,
        ensures
            final(self).keeps(old(self)),
            final(self).index == old(self).index + 1,
    {
        let n = self.tokens.len();
        proof {
            let ts = views_of(self.tokens@);
            assert(ts[ts.len() - 1] == self.tokens@[self.tokens@.len() - 1]@);
            assert(self.tokens@[self.tokens@.len() - 1].token_type == TokenType::EOF);
            assert(self.index < self.tokens@.len() - 1);
        }
        self.index = self.index + 1;
    }

    /// The diagnostic for an error of `kind` at the current token. Parsing stops at
    /// the first error, and this is what it returns.
    pub fn throw_error(&self, kind: ErrorKind) -> (d: Diagnostic)
        requires
            self.wf(),
        ensures
            d@ == parse_diagnostic(self.token_views(), kind, self.cursor()),
    {
        let t = self.current_token();
        Diagnostic { kind, found: t.value.clone(), position: t.start_position }
    }

    /// The operator of level `lvl` that the current token stands for, if any.
    fn binop_here(&self, lvl: u8) -> (r: Option<BinOp>)
        requires
            self.wf(),
        ensures
            r == binop_at(views_of(self.tokens@), self.index as int, lvl as nat),
    {
        let k = self.current_token().token_type;
        if lvl == 0 {
            match k {
                TokenType::Equal => Some(BinOp::Equal),
                TokenType::NotEqual => Some(BinOp::NotEqual),
                TokenType::GreaterThan => Some(BinOp::GreaterThan),
                TokenType::GreaterOrEqual => Some(BinOp::GreaterOrEqual),
                TokenType::LessThan => Some(BinOp::LessThan),
                TokenType::LessOrEqual => Some(BinOp::LessOrEqual),
                _ => None,
            }
        } else if lvl == 1 {
            match k {
                TokenType::Addition => Some(BinOp::Addition),
                TokenType::Subtraction => Some(BinOp::Subtraction),
                _ => None,
            }
        } else if lvl == 2 {
            match k {
                TokenType::Multiplication => Some(BinOp::Multiplication),
                TokenType::Division => Some(BinOp::Division),
                TokenType::IntegerDivision => Some(BinOp::IntegerDivision),
                TokenType::Modulo => Some(BinOp::Modulo),
                _ => None,
            }
        } else {
            match k {
                TokenType::Power => Some(BinOp::Power),
                _ => None,
            }
        }
    }

    /// Parses an expression.
    fn parse_expr(&mut self) -> (r: Result<Node, Diagnostic>)
        requires
            old(self).wf(),
        ensures
            final(self).keeps(old(self)),
            parsed_as(views_of(old(self).tokens@), p_expr(views_of(old(self).tokens@), old(self).index as int), r, final(self).index as int),
            r is Ok ==> old(self).index < final(self).index,
        decreases old(self).tokens@.len() - old(self).index, 20nat,
    {
        self.parse_comparison()
    }

    /// Parses comparisons: `== != > >= < <=`, left-associative.
    fn parse_comparison(&mut self) -> (r: Result<Node, Diagnostic>)
        requires
            old(self).wf(),
        ensures
            final(self).keeps(old(self)),
            parsed_as(views_of(old(self).tokens@), p_binary(views_of(old(self).tokens@), old(self).index as int, 0), r, final(self).index as int),
            r is Ok ==> old(self).index < final(self).index,
        decreases old(self).tokens@.len() - old(self).index, 19nat,
    {
        let ghost ts = views_of(self.tokens@);
        let ghost i = self.index as int;
        let mut node = match self.parse_term() {
            Ok(n) => n,
            Err(d) => return Err(d),
        };
        let mut op = self.binop_here(0);
        while op.is_some()
            invariant
                self.keeps(old(self)),
                i == old(self).index,
                i < self.index,
                ts == views_of(self.tokens@),
                op == binop_at(ts, self.index as int, 0),
                p_binary(ts, i, 0) == p_chain(ts, self.index as int, 0, node@),
            decreases self.tokens@.len() - self.index,
        {
            let o = op.unwrap();
            let ghost j = self.index as int;
            self.advance();
            let right = match self.parse_term() {
                Ok(n) => n,
                Err(d) => return Err(d),
            };
            proof {
                assert(ts.len() == self.tokens@.len());
                assert(p_operand(ts, j + 1, 0) == Parsed::Done(right@, self.index as int));
            }
            node = binary_node(o, node, right);
            op = self.binop_here(0);
        }
        Ok(node)
    }

    /// Parses terms: `+ -`, left-associative.
    fn parse_term(&mut self) -> (r: Result<Node, Diagnostic>)
        requires
            old(self).wf(),
        ensures
            final(self).keeps(old(self)),
            parsed_as(views_of(old(self).tokens@), p_binary(views_of(old(self).tokens@), old(self).index as int, 1), r, final(self).index as int),
            r is Ok ==> old(self).index < final(self).index,
        decreases old(self).tokens@.len() - old(self).index, 16nat,
    {
        let ghost ts = views_of(self.tokens@);
        let ghost i = self.index as int;
        let mut node = match self.parse_factor() {
            Ok(n) => n,
            Err(d) => return Err(d),
        };
        let mut op = self.binop_here(1);
        while op.is_some()
            invariant
                self.keeps(old(self)),
                i == old(self).index,
                i < self.index,
                ts == views_of(self.tokens@),
                op == binop_at(ts, self.index as int, 1),
                p_binary(ts, i, 1) == p_chain(ts, self.index as int, 1, node@),
            decreases self.tokens@.len() - self.index,
        {
            let o = op.unwrap();
            let ghost j = self.index as int;
            self.advance();
            let right = match self.parse_factor() {
                Ok(n) => n,
                Err(d) => return Err(d),
            };
            proof {
                assert(ts.len() == self.tokens@.len());
                assert(p_operand(ts, j + 1, 1) == Parsed::Done(right@, self.index as int));
            }
            node = binary_node(o, node, right);
            op = self.binop_here(1);
        }
        Ok(node)
    }

    /// Parses factors: `* / // %`, left-associative.
    fn parse_factor(&mut self) -> (r: Result<Node, Diagnostic>)
        requires
            old(self).wf(),
        ensures
            final(self).keeps(old(self)),
            parsed_as(views_of(old(self).tokens@), p_binary(views_of(old(self).tokens@), old(self).index as int, 2), r, final(self).index as int),
            r is Ok ==> old(self).index < final(self).index,
        decreases old(self).tokens@.len() - old(self).index, 13nat,
    {
        let ghost ts = views_of(self.tokens@);
        let ghost i = self.index as int;
        let mut node = match self.parse_exponents() {
            Ok(n) => n,
            Err(d) => return Err(d),
        };
        let mut op = self.binop_here(2);
        while op.is_some()
            invariant
                self.keeps(old(self)),
                i == old(self).index,
                i < self.index,
                ts == views_of(self.tokens@),
                op == binop_at(ts, self.index as int, 2),
                p_binary(ts, i, 2) == p_chain(ts, self.index as int, 2, node@),
            decreases self.tokens@.len() - self.index,
        {
            let o = op.unwrap();
            let ghost j = self.index as int;
            self.advance();
            let right = match self.parse_exponents() {
                Ok(n) => n,
                Err(d) => return Err(d),
            };
            proof {
                assert(ts.len() == self.tokens@.len());
                assert(p_operand(ts, j + 1, 2) == Parsed::Done(right@, self.index as int));
            }
            node = binary_node(o, node, right);
            op = self.binop_here(2);
        }
        Ok(node)
    }

    /// Parses powers: `^`, left-associative like the other levels.
    fn parse_exponents(&mut self) -> (r: Result<Node, Diagnostic>)
        requires
            old(self).wf(),
        ensures
            final(self).keeps(old(self)),
            parsed_as(views_of(old(self).tokens@), p_binary(views_of(old(self).tokens@), old(self).index as int, 3), r, final(self).index as int),
            r is Ok ==> old(self).index < final(self).index,
        decreases old(self).tokens@.len() - old(self).index, 10nat,
    {
        let ghost ts = views_of(self.tokens@);
        let ghost i = self.index as int;
        let mut node = match self.parse_unary() {
            Ok(n) => n,
            Err(d) => return Err(d),
        };
        let mut op = self.binop_here(3);
        while op.is_some()
            invariant
                self.keeps(old(self)),
                i == old(self).index,
                i < self.index,
                ts == views_of(self.tokens@),
                op == binop_at(ts, self.index as int, 3),
                p_binary(ts, i, 3) == p_chain(ts, self.index as int, 3, node@),
            decreases self.tokens@.len() - self.index,
        {
            let o = op.unwrap();
            let ghost j = self.index as int;
            self.advance();
            let right = match self.parse_unary() {
                Ok(n) => n,
                Err(d) => return Err(d),
            };
            proof {
                assert(ts.len() == self.tokens@.len());
                assert(p_operand(ts, j + 1, 3) == Parsed::Done(right@, self.index as int));
            }
            node = binary_node(o, node, right);
            op = self.binop_here(3);
        }
        Ok(node)
    }

    /// Whether a sign here is a unary operator: at the very first token, or wherever
    /// the current token is `+` or `-`.
    fn is_unary_context(&self) -> (r: bool)
        requires
            self.wf(),
        ensures
            r == (self.index == 0 || kind_at(views_of(self.tokens@), self.index as int) == TokenType::Addition
                || kind_at(views_of(self.tokens@), self.index as int) == TokenType::Subtraction),
    {
        if self.index == 0 {
            return true;
        }
        match self.current_token().token_type {
            TokenType::Addition | TokenType::Subtraction => true,
            _ => false,
        }
    }

    /// Parses a primary with any number of leading signs.
    fn parse_unary(&mut self) -> (r: Result<Node, Diagnostic>)
        requires
            old(self).wf(),
        ensures
            final(self).keeps(old(self)),
            parsed_as(views_of(old(self).tokens@), p_unary(views_of(old(self).tokens@), old(self).index as int), r, final(self).index as int),
            r is Ok ==> old(self).index < final(self).index,
        decreases old(self).tokens@.len() - old(self).index, 5nat,
    {
        if self.is_unary_context() {
            match self.current_token().token_type {
                TokenType::Addition => {
                    self.advance();
                    match self.parse_unary() {
                        Ok(e) => Ok(Node::UnaryPlus { expr: Box::new(e) }),
                        Err(d) => Err(d),
                    }
                },
                TokenType::Subtraction => {
                    self.advance();
                    match self.parse_unary() {
                        Ok(e) => Ok(Node::UnaryMinus { expr: Box::new(e) }),
                        Err(d) => Err(d),
                    }
                },
                _ => self.parse_primitive(),
            }
        } else {
            self.parse_primitive()
        }
    }

    /// Parses `( expr )`.
    fn parse_parentheses(&mut self) -> (r: Result<Node, Diagnostic>)
        requires
            old(self).wf(),
        ensures
            final(self).keeps(old(self)),
            parsed_as(views_of(old(self).tokens@), p_parens(views_of(old(self).tokens@), old(self).index as int), r, final(self).index as int),
            r is Ok ==> old(self).index < final(self).index,
        decreases old(self).tokens@.len() - old(self).index, 3nat,
    {
        if self.current_token().token_type != TokenType::LeftParen {
            return Err(self.throw_error(ErrorKind::UnexpectedToken));
        }
        self.advance();
        let node = match self.parse_expr() {
            Ok(n) => n,
            Err(d) => return Err(d),
        };
        if self.current_token().token_type != TokenType::RightParen {
            return Err(self.throw_error(ErrorKind::ExpectedRightParen));
        }
        self.advance();
        Ok(node)
    }

    /// Parses a vector literal: `[ ]` or `[ expr (, expr)* ]`.
    fn parse_vector(&mut self) -> (r: Result<Node, Diagnostic>)
        requires
            old(self).wf(),
        ensures
            final(self).keeps(old(self)),
            parsed_as(views_of(old(self).tokens@), p_vector(views_of(old(self).tokens@), old(self).index as int), r, final(self).index as int),
            r is Ok ==> old(self).index < final(self).index,
        decreases old(self).tokens@.len() - old(self).index, 3nat,
    {
        let ghost ts = views_of(self.tokens@);
        let ghost i = self.index as int;
        if self.current_token().token_type != TokenType::LeftBracket {
            return Err(self.throw_error(ErrorKind::UnexpectedToken));
        }
        self.advance();
        let mut items: Vec<Box<Node>> = Vec::new();
        if self.current_token().token_type == TokenType::RightBracket {
            self.advance();
            assert(asts_of(items@) =~= Seq::<Ast>::empty());
            return Ok(Node::Vector { items });
        }
        assert(asts_of(items@) =~= Seq::<Ast>::empty());
        loop
            invariant_except_break
                self.keeps(old(self)),
                i == old(self).index,
                i < self.index,
                ts == views_of(self.tokens@),
                p_vector(ts, i) == p_items(ts, self.index as int, asts_of(items@)),
            ensures
                self.keeps(old(self)),
                i == old(self).index,
                i < self.index,
                ts == views_of(self.tokens@),
                p_vector(ts, i) == Parsed::Done(Ast::Vector(asts_of(items@)), self.index as int),
            decreases self.tokens@.len() - self.index,
        {
            let item = match self.parse_expr() {
                Ok(n) => n,
                Err(d) => return Err(d),
            };
            push_node(&mut items, item);
            let k = self.current_token().token_type;
            if k == TokenType::Comma {
                self.advance();
            } else if k == TokenType::RightBracket {
                self.advance();
                break;
            } else {
                return Err(self.throw_error(ErrorKind::VectorExpectedCommaOrBracket));
            }
        }
        Ok(Node::Vector { items })
    }

    /// Parses a literal, a vector or a parenthesised expression.
    fn parse_primitive(&mut self) -> (r: Result<Node, Diagnostic>)
        requires
            old(self).wf(),
        ensures
            final(self).keeps(old(self)),
            parsed_as(views_of(old(self).tokens@), p_primary(views_of(old(self).tokens@), old(self).index as int), r, final(self).index as int),
            r is Ok ==> old(self).index < final(self).index,
        decreases old(self).tokens@.len() - old(self).index, 4nat,
    {
        let t = self.current_token();
        match t.token_type {
            TokenType::LeftBracket => self.parse_vector(),
            TokenType::LeftParen => self.parse_parentheses(),
            TokenType::Integer => {
                match integer_value(t.value.as_str()) {
                    Some(value) => {
                        self.advance();
                        Ok(Node::Integer { value })
                    },
                    None => Err(self.throw_error(ErrorKind::IntegerTooLarge)),
                }
            },
            TokenType::Float => {
                let value = t.value.clone();
                self.advance();
                Ok(Node::Float { value })
            },
            TokenType::String => {
                let value = t.value.clone();
                self.advance();
                Ok(Node::String { value })
            },
            TokenType::Boolean => {
                let value = same_text(t.value.as_str(), "true");
                self.advance();
                Ok(Node::Boolean { value })
            },
            _ => Err(self.throw_error(ErrorKind::UnexpectedToken)),
        }
    }

    /// Parses a statement: a declaration, an assignment, a loop, or an expression.
    fn parse(&mut self) -> (r: Result<Node, Diagnostic>)
        requires
            old(self).wf(),
        ensures
            final(self).keeps(old(self)),
            parsed_as(views_of(old(self).tokens@), p_stmt(views_of(old(self).tokens@), old(self).index as int), r, final(self).index as int),
            r is Ok ==> old(self).index < final(self).index,
        decreases old(self).tokens@.len() - old(self).index, 23nat,
    {
        match self.current_token().token_type {
            TokenType::VarModifiers | TokenType::Type => self.parse_declaration(),
            TokenType::Identifier => self.parse_assignment_or_function(),
            TokenType::While => self.parse_while_loop(),
            TokenType::ForEach => self.parse_foreach_loop(),
            _ => self.parse_expr(),
        }
    }

    /// Parses `[mutable] type name [= expr] ;`. A declaration that is not mutable must
    /// have a value; a mutable one without a value holds the text `undefined`.
    fn parse_declaration(&mut self) -> (r: Result<Node, Diagnostic>)
        requires
            old(self).wf(),
        ensures
            final(self).keeps(old(self)),
            parsed_as(views_of(old(self).tokens@), p_decl(views_of(old(self).tokens@), old(self).index as int), r, final(self).index as int),
            r is Ok ==> old(self).index < final(self).index,
        decreases old(self).tokens@.len() - old(self).index, 22nat,
    {
        let ghost ts = views_of(self.tokens@);
        let is_mutable = if self.current_token().token_type == TokenType::VarModifiers {
            self.advance();
            true
        } else {
            false
        };
        let ghost t = self.index as int;
        if self.current_token().token_type != TokenType::Type {
            return Err(self.throw_error(ErrorKind::ExpectedType));
        }
        let var_type = self.current_token().value.clone();
        self.advance();
        if self.current_token().token_type != TokenType::Identifier {
            return Err(self.throw_error(ErrorKind::ExpectedIdentifier));
        }
        let identifier = self.current_token().value.clone();
        self.advance();
        assert(var_type@ == text_at(ts, t));
        assert(identifier@ == text_at(ts, t + 1));
        let ghost a = self.index as int;
        let ghost m = is_mutable;
        let ghost init = if kind_at(ts, a) == TokenType::Assign {
            p_expr(ts, a + 1)
        } else if m {
            Parsed::Done(Ast::Str("undefined"@), a)
        } else {
            Parsed::Failed(ErrorKind::MissingInitializer, a)
        };
        let value = if self.current_token().token_type == TokenType::Assign {
            self.advance();
            match self.parse_expr() {
                Ok(n) => n,
                Err(d) => return Err(d),
            }
        } else if !is_mutable {
            return Err(self.throw_error(ErrorKind::MissingInitializer));
        } else {
            Node::String { value: "undefined".to_owned() }
        };
        assert(init == Parsed::Done(value@, self.index as int));
        if self.current_token().token_type != TokenType::SemiColon {
            return Err(self.throw_error(ErrorKind::ExpectedSemicolon));
        }
        self.advance();
        let node = Node::Declaration { is_mutable, var_type, identifier, initializer: Box::new(value) };
        assert(p_decl(ts, old(self).index as int) == Parsed::Done(node@, self.index as int));
        Ok(node)
    }

    /// Parses a statement that starts with a name: only an assignment is supported.
    fn parse_assignment_or_function(&mut self) -> (r: Result<Node, Diagnostic>)
        requires
            old(self).wf(),
        ensures
            final(self).keeps(old(self)),
            parsed_as(views_of(old(self).tokens@), p_assign(views_of(old(self).tokens@), old(self).index as int), r, final(self).index as int),
            r is Ok ==> old(self).index < final(self).index,
        decreases old(self).tokens@.len() - old(self).index, 22nat,
    {
        if self.current_token().token_type != TokenType::Identifier {
            return Err(self.throw_error(ErrorKind::UnexpectedToken));
        }
        if self.next_is_assign() {
            self.parse_assignment()
        } else {
            Err(self.throw_error(ErrorKind::ExpectedAssignment))
        }
    }

    /// Whether the token after the current one, which is not the end of the file, is `=`.
    fn next_is_assign(&self) -> (r: bool)
        requires
            self.wf(),
            self.tokens@[self.index as int].token_type != TokenType::EOF,
        ensures
            r == (kind_at(views_of(self.tokens@), self.index + 1) == TokenType::Assign),
    {
        let n = self.tokens.len();
        proof {
            let ts = views_of(self.tokens@);
            assert(ts[ts.len() - 1] == self.tokens@[self.tokens@.len() - 1]@);
            assert(self.index < n - 1);
        }
        self.tokens[self.index + 1].token_type == TokenType::Assign
    }

    /// Parses `name = expr ;`.
    fn parse_assignment(&mut self) -> (r: Result<Node, Diagnostic>)
        requires
            old(self).wf(),
        ensures
            final(self).keeps(old(self)),
            parsed_as(views_of(old(self).tokens@), p_assign(views_of(old(self).tokens@), old(self).index as int), r, final(self).index as int),
            r is Ok ==> old(self).index < final(self).index,
        decreases old(self).tokens@.len() - old(self).index, 21nat,
    {
        if self.current_token().token_type != TokenType::Identifier {
            return Err(self.throw_error(ErrorKind::UnexpectedToken));
        }
        if !self.next_is_assign() {
            return Err(self.throw_error(ErrorKind::ExpectedAssignment));
        }
        let identifier = self.current_token().value.clone();
        self.advance();
        self.advance();
        let value = match self.parse_expr() {
            Ok(n) => n,
            Err(d) => return Err(d),
        };
        if self.current_token().token_type != TokenType::SemiColon {
            return Err(self.throw_error(ErrorKind::ExpectedSemicolon));
        }
        self.advance();
        Ok(Node::Assignment { identifier, value: Box::new(value) })
    }

    /// Parses the statements of a block up to and including its `}`; `missing` is
    /// the error when the file ends first.
    fn parse_block(&mut self, missing: ErrorKind) -> (r: Result<Vec<Box<Node>>, Diagnostic>)
        requires
            old(self).wf(),
        ensures
            final(self).keeps(old(self)),
            parsed_all_as(views_of(old(self).tokens@), p_block(views_of(old(self).tokens@), old(self).index as int, Seq::empty(), missing), r, final(self).index as int),
            r is Ok ==> old(self).index < final(self).index,
        decreases old(self).tokens@.len() - old(self).index, 24nat,
    {
        let ghost ts = views_of(self.tokens@);
        let ghost i = self.index as int;
        let mut statements: Vec<Box<Node>> = Vec::new();
        assert(asts_of(statements@) =~= Seq::<Ast>::empty());
        loop
            invariant_except_break
                self.keeps(old(self)),
                i == old(self).index,
                i <= self.index,
                ts == views_of(self.tokens@),
                p_block(ts, i, Seq::empty(), missing) == p_block(ts, self.index as int, asts_of(statements@), missing),
            ensures
                self.keeps(old(self)),
                i < self.index,
                p_block(ts, i, Seq::empty(), missing) == Parsed::Done(asts_of(statements@), self.index as int),
            decreases self.tokens@.len() - self.index,
        {
            let k = self.current_token().token_type;
            if k == TokenType::RightBrace {
                self.advance();
                break;
            }
            if k == TokenType::EOF {
                return Err(self.throw_error(missing));
            }
            let statement = match self.parse() {
                Ok(n) => n,
                Err(d) => return Err(d),
            };
            push_node(&mut statements, statement);
        }
        Ok(statements)
    }

    /// Parses `while ( expr+ ) { stmt* }`.
    fn parse_while_loop(&mut self) -> (r: Result<Node, Diagnostic>)
        requires
            old(self).wf(),
        ensures
            final(self).keeps(old(self)),
            parsed_as(views_of(old(self).tokens@), p_while(views_of(old(self).tokens@), old(self).index as int), r, final(self).index as int),
            r is Ok ==> old(self).index < final(self).index,
        decreases old(self).tokens@.len() - old(self).index, 22nat,
    {
        let ghost ts = views_of(self.tokens@);
        let ghost i = self.index as int;
        if self.current_token().token_type != TokenType::While {
            return Err(self.throw_error(ErrorKind::UnexpectedToken));
        }
        self.advance();
        if self.current_token().token_type != TokenType::LeftParen {
            return Err(self.throw_error(ErrorKind::WhileExpectedLeftParen));
        }
        self.advance();
        let mut condition: Vec<Box<Node>> = Vec::new();
        assert(asts_of(condition@) =~= Seq::<Ast>::empty());
        loop
            invariant_except_break
                self.keeps(old(self)),
                i == old(self).index,
                i + 2 <= self.index,
                ts == views_of(self.tokens@),
                kind_at(ts, i) == TokenType::While,
                kind_at(ts, i + 1) == TokenType::LeftParen,
                p_conds(ts, i + 2, Seq::empty()) == p_conds(ts, self.index as int, asts_of(condition@)),
            ensures
                self.keeps(old(self)),
                i == old(self).index,
                i < self.index,
                kind_at(ts, i) == TokenType::While,
                kind_at(ts, i + 1) == TokenType::LeftParen,
                ts == views_of(self.tokens@),
                p_conds(ts, i + 2, Seq::empty()) == Parsed::Done(asts_of(condition@), self.index as int),
            decreases self.tokens@.len() - self.index,
        {
            let e = match self.parse_expr() {
                Ok(n) => n,
                Err(d) => return Err(d),
            };
            push_node(&mut condition, e);
            let k = self.current_token().token_type;
            if k == TokenType::RightParen {
                self.advance();
                break;
            }
            let more = match k {
                TokenType::Integer | TokenType::Float | TokenType::String | TokenType::Boolean
                | TokenType::LeftParen | TokenType::LeftBracket | TokenType::Addition
                | TokenType::Subtraction => true,
                _ => false,
            };
            if !more {
                return Err(self.throw_error(ErrorKind::WhileExpectedRightParen));
            }
        }
        if self.current_token().token_type != TokenType::LeftBrace {
            return Err(self.throw_error(ErrorKind::WhileExpectedLeftBrace));
        }
        self.advance();
        let block = match self.parse_block(ErrorKind::WhileExpectedRightBrace) {
            Ok(b) => b,
            Err(d) => return Err(d),
        };
        Ok(Node::While { condition, block })
    }

    /// Parses `foreach ( type name in collection ) { stmt* }`.
    fn parse_foreach_loop(&mut self) -> (r: Result<Node, Diagnostic>)
        requires
            old(self).wf(),
        ensures
            final(self).keeps(old(self)),
            parsed_as(views_of(old(self).tokens@), p_foreach(views_of(old(self).tokens@), old(self).index as int), r, final(self).index as int),
            r is Ok ==> old(self).index < final(self).index,
        decreases old(self).tokens@.len() - old(self).index, 22nat,
    {
        if self.current_token().token_type != TokenType::ForEach {
            return Err(self.throw_error(ErrorKind::UnexpectedToken));
        }
        self.advance();
        if self.current_token().token_type != TokenType::LeftParen {
            return Err(self.throw_error(ErrorKind::ForEachExpectedLeftParen));
        }
        self.advance();
        if self.current_token().token_type != TokenType::Type {
            return Err(self.throw_error(ErrorKind::ForEachExpectedType));
        }
        let item_type = self.current_token().value.clone();
        self.advance();
        if self.current_token().token_type != TokenType::Identifier {
            return Err(self.throw_error(ErrorKind::ForEachExpectedItemName));
        }
        let item_name = self.current_token().value.clone();
        self.advance();
        if self.current_token().token_type != TokenType::In {
            return Err(self.throw_error(ErrorKind::ForEachExpectedIn));
        }
        self.advance();
        if self.current_token().token_type != TokenType::Identifier {
            return Err(self.throw_error(ErrorKind::ForEachExpectedCollection));
        }
        let collection = self.current_token().value.clone();
        self.advance();
        if self.current_token().token_type != TokenType::RightParen {
            return Err(self.throw_error(ErrorKind::ForEachExpectedRightParen));
        }
        self.advance();
        if self.current_token().token_type != TokenType::LeftBrace {
            return Err(self.throw_error(ErrorKind::ForEachExpectedLeftBrace));
        }
        self.advance();
        let block = match self.parse_block(ErrorKind::ForEachExpectedRightBrace) {
            Ok(b) => b,
            Err(d) => return Err(d),
        };
        Ok(
            Node::ForEach {
                item_type: Box::new(item_type),
                item_name: Box::new(item_name),
                collection: Box::new(collection),
                block,
            },
        )
    }

    /// Parses statements up to the end of the file into a program.
    pub fn produce_ast(&mut self) -> (r: Result<Node, Diagnostic>)
        requires
            old(self).wf(),
        ensures
            final(self).wf(),
            final(self).token_views() == old(self).token_views(),
            parsed_as(
                old(self).token_views(),
                p_program(old(self).token_views(), old(self).cursor(), Seq::empty()),
                r,
                final(self).cursor(),
            ),
    {
        let ghost ts = views_of(self.tokens@);
        let ghost i = self.index as int;
        let mut program: Vec<Box<Node>> = Vec::new();
        assert(asts_of(program@) =~= Seq::<Ast>::empty());
        while self.current_token().token_type != TokenType::EOF
            invariant
                self.keeps(old(self)),
                i == old(self).index,
                ts == views_of(self.tokens@),
                p_program(ts, i, Seq::empty()) == p_program(ts, self.index as int, asts_of(program@)),
            decreases self.tokens@.len() - self.index,
        {
            let ghost j = self.index as int;
            let ghost acc = asts_of(program@);
            let statement = match self.parse() {
                Ok(n) => n,
                Err(d) => {
                    return Err(d);
                },
            };
            proof {
                assert(p_stmt(ts, j) == Parsed::Done(statement@, self.index as int));
                assert(p_program(ts, j, acc) == p_program(ts, self.index as int, acc.push(statement@)));
            }
            push_node(&mut program, statement);
        }
        Ok(Node::Program { expressions: program })
    }
}

} // verus!
