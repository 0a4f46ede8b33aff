use vstd::prelude::*;

verus! {

/// Every kind of token that the lexer can produce.
#[derive(Debug, Clone, Copy, PartialEq, Eq, Structural)]
pub enum TokenType {
    Type,
    VarModifiers,
    Keyword,
    // Conditionals
    If,
    ElseIf,
    Else,
    // Loops
    While,
    For,
    ForEach,
    In,
    Integer,
    Float,
    String,
    Boolean,
    Unknown,
    Identifier,
    Assign,
    // Delimiters
    Colon,
    SemiColon,
    Dot,
    Comma,
    // Binary operators
    Addition,
    Subtraction,
    Multiplication,
    Division,
    IntegerDivision,
    Modulo,
    Power,
    // Comparison operators
    Equal,
    NotEqual,
    GreaterThan,
    GreaterOrEqual,
    LessThan,
    LessOrEqual,
    // Logical operators
    And,
    Or,
    Not,
    // Brackets
    LeftParen,
    RightParen,
    LeftBracket,
    RightBracket,
    LeftBrace,
    RightBrace,
    // End of file
    EOF,
}

} // verus!
