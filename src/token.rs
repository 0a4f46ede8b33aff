use vstd::prelude::*;
use crate::position::{Loc, Position};
use crate::token_type::TokenType;

verus! {

/// What a token is, seen mathematically: its kind, its text and where it starts and ends.
pub struct TokenView {
    pub kind: TokenType,
    pub text: Seq<char>,
    pub start: Loc,
    pub end: Loc,
}

/// A single lexical unit of the source text.
#[derive(Debug)]
pub struct Token {
    /// The kind of token
    pub token_type: TokenType,
    /// The text of the token
    pub value: String,
    /// Where the token starts in the source text
    pub start_position: Position,
    /// Where the token ends in the source text (one past its last character)
    pub end_position: Position,
}

impl View for Token {
    type V = TokenView;

    open spec fn view(&self) -> TokenView {
        TokenView {
            kind: self.token_type,
            text: self.value@,
            start: self.start_position@,
            end: self.end_position@,
        }
    }
}

impl Token {
    pub fn new(token_type: TokenType, value: &str, start_position: Position, end_position: Position) -> (r: Self)
        ensures
            r.token_type == token_type,
            r.value@ == value@,
            r.start_position == start_position,
            r.end_position == end_position,
    {
        Token { token_type, value: value.to_owned(), start_position, end_position }
    }
}

} // verus!
