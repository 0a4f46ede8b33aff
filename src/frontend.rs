use vstd::prelude::*;
use crate::ast::{Ast, Node};
use crate::diagnostic::{Diagnostic, DiagnosticView};
use crate::lexer::{lemma_step_advances, lex, lex_diagnostic, lex_from, step, Lexer, Step};
use crate::parser::{parse_diagnostic, parse_tokens, valid_stream, Parsed, Parser};
use crate::token_type::TokenType;

verus! {

/// What the front end makes of the text `s`: the syntax tree of its tokens, or the
/// first lexical or syntax error.
pub open spec fn front_end(s: Seq<char>) -> Result<Ast, DiagnosticView> {
    match lex(s) {
        Err(f) => Err(lex_diagnostic(s, f)),
        Ok(ts) => match parse_tokens(ts) {
            Parsed::Done(a, _) => Ok(a),
            Parsed::Failed(e, k) => Err(parse_diagnostic(ts, e, k)),
        },
    }
}

/// Lexing from any index gives tokens that end with exactly one end-of-file token.
pub proof fn lemma_lex_valid(s: Seq<char>, i: int)
    ensures
        lex_from(s, i) matches Ok(ts) ==> valid_stream(ts) && forall|k: int|
            0 <= k < ts.len() - 1 ==> #[trigger] ts[k].kind != TokenType::EOF,
    decreases s.len() - i,
{
    if 0 <= i < s.len() {
        lemma_step_advances(s, i);
        match step(s, i) {
            Step::Skip { next } => lemma_lex_valid(s, next),
            Step::Emit { kind, next, .. } => {
                lemma_lex_valid(s, next);
                if let Ok(ts) = lex_from(s, i) {
                    let rest = lex_from(s, next)->Ok_0;
                    assert(ts == seq![ts[0]] + rest);
                    assert(kind != TokenType::EOF) by {
                        reveal_with_fuel(crate::lexer::step, 1);
                    }
                    assert forall|k: int| 0 <= k < ts.len() - 1 implies #[trigger] ts[k].kind != TokenType::EOF by {
                        if k > 0 {
                            assert(ts[k] == rest[k - 1]);
                        }
                    }
                }
            },
            Step::Fail { .. } => {},
        }
    }
}

/// Lexes and parses the text `src` into a program, or returns the first error.
pub fn parse_source(src: &str) -> (r: Result<Node, Diagnostic>)
    requires
        src@.len() + 2 <= i32::MAX,
    ensures
        match front_end(src@) {
            Ok(a) => r is Ok && r->Ok_0@ == a,
            Err(d) => r is Err && r->Err_0@ == d,
        },
{
    let mut lexer = Lexer::new(src);
    let tokens = match lexer.tokenize() {
        Ok(t) => t,
        Err(d) => return Err(d),
    };
    proof {
        lemma_lex_valid(src@, 0);
    }
    let mut parser = Parser::new(src, tokens.as_slice());
    parser.produce_ast()
}

} // verus!
