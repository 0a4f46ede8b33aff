use vstd::prelude::*;
use crate::lexer::{chars_of, find_char};
use crate::position::{Loc, Position};

verus! {

/// Every way in which lexing or parsing can fail.
#[derive(Debug, Clone, Copy, PartialEq, Eq, Structural)]
pub enum ErrorKind {
    // Lexical errors
    UnknownCharacter,
    UnclosedComment,
    // Syntax errors
    MissingInitializer,
    ExpectedSemicolon,
    ExpectedType,
    ExpectedIdentifier,
    ExpectedAssignment,
    WhileExpectedLeftParen,
    WhileExpectedRightParen,
    WhileExpectedLeftBrace,
    WhileExpectedRightBrace,
    ForEachExpectedLeftParen,
    ForEachExpectedType,
    ForEachExpectedItemName,
    ForEachExpectedIn,
    ForEachExpectedCollection,
    ForEachExpectedRightParen,
    ForEachExpectedLeftBrace,
    ForEachExpectedRightBrace,
    VectorExpectedCommaOrBracket,
    ExpectedRightParen,
    UnexpectedToken,
    IntegerTooLarge,
}

/// A diagnostic seen mathematically: what went wrong, the text of the offending
/// token (empty for lexical errors) and where it happened.
pub struct DiagnosticView {
    pub kind: ErrorKind,
    pub found: Seq<char>,
    pub at: Loc,
}

/// The first error met while lexing or parsing, with its place in the source.
#[derive(Debug)]
pub struct Diagnostic {
    pub kind: ErrorKind,
    pub found: String,
    pub position: Position,
}

impl View for Diagnostic {
    type V = DiagnosticView;

    open spec fn view(&self) -> DiagnosticView {
        DiagnosticView { kind: self.kind, found: self.found@, at: self.position@ }
    }
}

/// The category of an error.
pub open spec fn error_type_of(k: ErrorKind) -> Seq<char> {
    match k {
        ErrorKind::UnknownCharacter => "Type error"@,
        ErrorKind::UnclosedComment => "Syntax error"@,
        ErrorKind::MissingInitializer => "InitializationError"@,
        ErrorKind::ExpectedSemicolon => "SyntaxError"@,
        ErrorKind::ExpectedType => "TypeError"@,
        ErrorKind::ExpectedIdentifier => "SyntaxError"@,
        ErrorKind::ExpectedAssignment => "SyntaxError"@,
        ErrorKind::WhileExpectedLeftParen => "SyntaxError"@,
        ErrorKind::WhileExpectedRightParen => "SyntaxError"@,
        ErrorKind::WhileExpectedLeftBrace => "SyntaxError"@,
        ErrorKind::WhileExpectedRightBrace => "SyntaxError"@,
        ErrorKind::ForEachExpectedLeftParen => "SyntaxError"@,
        ErrorKind::ForEachExpectedType => "TypeError"@,
        ErrorKind::ForEachExpectedItemName => "SyntaxError"@,
        ErrorKind::ForEachExpectedIn => "SyntaxError"@,
        ErrorKind::ForEachExpectedCollection => "SyntaxError"@,
        ErrorKind::ForEachExpectedRightParen => "SyntaxError"@,
        ErrorKind::ForEachExpectedLeftBrace => "SyntaxError"@,
        ErrorKind::ForEachExpectedRightBrace => "SyntaxError"@,
        ErrorKind::VectorExpectedCommaOrBracket => "SyntaxError"@,
        ErrorKind::ExpectedRightParen => "SyntaxError"@,
        ErrorKind::UnexpectedToken => "Unknown Token Error"@,
        ErrorKind::IntegerTooLarge => "SyntaxError"@,
    }
}

/// What went wrong, naming the offending token where that helps.
pub open spec fn message_of(k: ErrorKind, found: Seq<char>) -> Seq<char> {
    match k {
        ErrorKind::UnknownCharacter => "Unknown token encountered"@,
        ErrorKind::UnclosedComment => "Unclosed multi-line comment"@,
        ErrorKind::MissingInitializer => "Non-mutable variables must be initialized"@,
        ErrorKind::ExpectedSemicolon => "Expected a semi-colon"@,
        ErrorKind::ExpectedType => "Expected a type in the declaration"@,
        ErrorKind::ExpectedIdentifier => "Expected a variable name in the declaration"@,
        ErrorKind::ExpectedAssignment => "Expected '=' or '(', got "@ + found,
        ErrorKind::WhileExpectedLeftParen => "'while' keyword must be followed by '('"@,
        ErrorKind::WhileExpectedRightParen => "'while' condition must be closed with ')'"@,
        ErrorKind::WhileExpectedLeftBrace => "'while' condition must be followed by '{', got "@ + found,
        ErrorKind::WhileExpectedRightBrace => "'while' block must be closed with '}'"@,
        ErrorKind::ForEachExpectedLeftParen => "'foreach' keyword must be followed by '('"@,
        ErrorKind::ForEachExpectedType => "Type expected for the iterated variable."@,
        ErrorKind::ForEachExpectedItemName => "Expected a name for the iterated variable."@,
        ErrorKind::ForEachExpectedIn => "Expected an 'in' keyword."@,
        ErrorKind::ForEachExpectedCollection => "Expected the name of the iterated collection."@,
        ErrorKind::ForEachExpectedRightParen => "Expected an ')' keyword."@,
        ErrorKind::ForEachExpectedLeftBrace => "'foreach' condition must be followed by '{', got "@ + found,
        ErrorKind::ForEachExpectedRightBrace => "'foreach' block must be closed with '}'"@,
        ErrorKind::VectorExpectedCommaOrBracket => "Expected ',' or ']' in vector declaration."@,
        ErrorKind::ExpectedRightParen => "Expected ')'"@,
        ErrorKind::UnexpectedToken => "Unexpected token"@,
        ErrorKind::IntegerTooLarge => "Integer literal does not fit in 64 bits"@,
    }
}

/// How to mend the error.
pub open spec fn hint_of(k: ErrorKind, found: Seq<char>) -> Seq<char> {
    match k {
        ErrorKind::UnknownCharacter => "Remove this character: it is not part of the language"@,
        ErrorKind::UnclosedComment => "Did you forget to close the multi-line comment ?"@,
        ErrorKind::MissingInitializer => "Make sure to provide an initial value for immutable variables"@,
        ErrorKind::ExpectedSemicolon => "Make sure to end the statement with ';'"@,
        ErrorKind::ExpectedType => "Declarations are written '[mutable] type name = value;'"@,
        ErrorKind::ExpectedIdentifier => "Declarations are written '[mutable] type name = value;'"@,
        ErrorKind::ExpectedAssignment => "Function calls are not supported yet: use '=' to assign a value"@,
        ErrorKind::WhileExpectedLeftParen => "Make sure to add parenthesis around your while condition."@,
        ErrorKind::WhileExpectedRightParen => "Make sure to add parenthesis around your while condition."@,
        ErrorKind::WhileExpectedLeftBrace => "Make sure to add braces around your while block."@,
        ErrorKind::WhileExpectedRightBrace => "Make sure to add braces around your while block."@,
        ErrorKind::ForEachExpectedLeftParen => "Make sure to add parenthesis around your foreach iterator."@,
        ErrorKind::ForEachExpectedType => "Make sure to add a type to your iterated variable."@,
        ErrorKind::ForEachExpectedItemName => "Make sure to name your iterated variable."@,
        ErrorKind::ForEachExpectedIn => "Make sure to add an 'in' keyword between the iterated and the iterable."@,
        ErrorKind::ForEachExpectedCollection => "Make sure to name the collection after 'in'."@,
        ErrorKind::ForEachExpectedRightParen => "Make sure to add an ')' after the foreach declaration."@,
        ErrorKind::ForEachExpectedLeftBrace => "Make sure to add braces around your foreach block."@,
        ErrorKind::ForEachExpectedRightBrace => "Make sure to add braces around your foreach block."@,
        ErrorKind::VectorExpectedCommaOrBracket => "Got unexpected token: "@ + found,
        ErrorKind::ExpectedRightParen => "Got unexpected token: "@ + found,
        ErrorKind::UnexpectedToken => "Got unexpected token: "@ + found,
        ErrorKind::IntegerTooLarge => "Integer literals range from 0 to 9223372036854775807"@,
    }
}

impl Diagnostic {
    /// The category of the error.
    pub fn error_type(&self) -> (r: &'static str)
        ensures
            r@ == error_type_of(self.kind),
    {
        match self.kind {
            ErrorKind::UnknownCharacter => "Type error",
            ErrorKind::UnclosedComment => "Syntax error",
            ErrorKind::MissingInitializer => "InitializationError",
            ErrorKind::ExpectedSemicolon => "SyntaxError",
            ErrorKind::ExpectedType => "TypeError",
            ErrorKind::ExpectedIdentifier => "SyntaxError",
            ErrorKind::ExpectedAssignment => "SyntaxError",
            ErrorKind::WhileExpectedLeftParen => "SyntaxError",
            ErrorKind::WhileExpectedRightParen => "SyntaxError",
            ErrorKind::WhileExpectedLeftBrace => "SyntaxError",
            ErrorKind::WhileExpectedRightBrace => "SyntaxError",
            ErrorKind::ForEachExpectedLeftParen => "SyntaxError",
            ErrorKind::ForEachExpectedType => "TypeError",
            ErrorKind::ForEachExpectedItemName => "SyntaxError",
            ErrorKind::ForEachExpectedIn => "SyntaxError",
            ErrorKind::ForEachExpectedCollection => "SyntaxError",
            ErrorKind::ForEachExpectedRightParen => "SyntaxError",
            ErrorKind::ForEachExpectedLeftBrace => "SyntaxError",
            ErrorKind::ForEachExpectedRightBrace => "SyntaxError",
            ErrorKind::VectorExpectedCommaOrBracket => "SyntaxError",
            ErrorKind::ExpectedRightParen => "SyntaxError",
            ErrorKind::UnexpectedToken => "Unknown Token Error",
            ErrorKind::IntegerTooLarge => "SyntaxError",
        }
    }

    /// What went wrong.
    pub fn message(&self) -> (r: String)
        ensures
            r@ == message_of(self.kind, self.found@),
    {
        let (text, with_found) = match self.kind {
            ErrorKind::UnknownCharacter => ("Unknown token encountered", false),
            ErrorKind::UnclosedComment => ("Unclosed multi-line comment", false),
            ErrorKind::MissingInitializer => ("Non-mutable variables must be initialized", false),
            ErrorKind::ExpectedSemicolon => ("Expected a semi-colon", false),
            ErrorKind::ExpectedType => ("Expected a type in the declaration", false),
            ErrorKind::ExpectedIdentifier => ("Expected a variable name in the declaration", false),
            ErrorKind::ExpectedAssignment => ("Expected '=' or '(', got ", true),
            ErrorKind::WhileExpectedLeftParen => ("'while' keyword must be followed by '('", false),
            ErrorKind::WhileExpectedRightParen => ("'while' condition must be closed with ')'", false),
            ErrorKind::WhileExpectedLeftBrace => ("'while' condition must be followed by '{', got ", true),
            ErrorKind::WhileExpectedRightBrace => ("'while' block must be closed with '}'", false),
            ErrorKind::ForEachExpectedLeftParen => ("'foreach' keyword must be followed by '('", false),
            ErrorKind::ForEachExpectedType => ("Type expected for the iterated variable.", false),
            ErrorKind::ForEachExpectedItemName => ("Expected a name for the iterated variable.", false),
            ErrorKind::ForEachExpectedIn => ("Expected an 'in' keyword.", false),
            ErrorKind::ForEachExpectedCollection => ("Expected the name of the iterated collection.", false),
            ErrorKind::ForEachExpectedRightParen => ("Expected an ')' keyword.", false),
            ErrorKind::ForEachExpectedLeftBrace => ("'foreach' condition must be followed by '{', got ", true),
            ErrorKind::ForEachExpectedRightBrace => ("'foreach' block must be closed with '}'", false),
            ErrorKind::VectorExpectedCommaOrBracket => ("Expected ',' or ']' in vector declaration.", false),
            ErrorKind::ExpectedRightParen => ("Expected ')'", false),
            ErrorKind::UnexpectedToken => ("Unexpected token", false),
            ErrorKind::IntegerTooLarge => ("Integer literal does not fit in 64 bits", false),
        };
        let mut r = text.to_owned();
        if with_found {
            r.append(self.found.as_str());
        }
        r
    }

    /// How to mend the error.
    pub fn hint(&self) -> (r: String)
        ensures
            r@ == hint_of(self.kind, self.found@),
    {
        let (text, with_found) = match self.kind {
            ErrorKind::UnknownCharacter => ("Remove this character: it is not part of the language", false),
            ErrorKind::UnclosedComment => ("Did you forget to close the multi-line comment ?", false),
            ErrorKind::MissingInitializer => ("Make sure to provide an initial value for immutable variables", false),
            ErrorKind::ExpectedSemicolon => ("Make sure to end the statement with ';'", false),
            ErrorKind::ExpectedType => ("Declarations are written '[mutable] type name = value;'", false),
            ErrorKind::ExpectedIdentifier => ("Declarations are written '[mutable] type name = value;'", false),
            ErrorKind::ExpectedAssignment => ("Function calls are not supported yet: use '=' to assign a value", false),
            ErrorKind::WhileExpectedLeftParen => ("Make sure to add parenthesis around your while condition.", false),
            ErrorKind::WhileExpectedRightParen => ("Make sure to add parenthesis around your while condition.", false),
            ErrorKind::WhileExpectedLeftBrace => ("Make sure to add braces around your while block.", false),
            ErrorKind::WhileExpectedRightBrace => ("Make sure to add braces around your while block.", false),
            ErrorKind::ForEachExpectedLeftParen => ("Make sure to add parenthesis around your foreach iterator.", false),
            ErrorKind::ForEachExpectedType => ("Make sure to add a type to your iterated variable.", false),
            ErrorKind::ForEachExpectedItemName => ("Make sure to name your iterated variable.", false),
            ErrorKind::ForEachExpectedIn => ("Make sure to add an 'in' keyword between the iterated and the iterable.", false),
            ErrorKind::ForEachExpectedCollection => ("Make sure to name the collection after 'in'.", false),
            ErrorKind::ForEachExpectedRightParen => ("Make sure to add an ')' after the foreach declaration.", false),
            ErrorKind::ForEachExpectedLeftBrace => ("Make sure to add braces around your foreach block.", false),
            ErrorKind::ForEachExpectedRightBrace => ("Make sure to add braces around your foreach block.", false),
            ErrorKind::VectorExpectedCommaOrBracket => ("Got unexpected token: ", true),
            ErrorKind::ExpectedRightParen => ("Got unexpected token: ", true),
            ErrorKind::UnexpectedToken => ("Got unexpected token: ", true),
            ErrorKind::IntegerTooLarge => ("Integer literals range from 0 to 9223372036854775807", false),
        };
        let mut r = text.to_owned();
        if with_found {
            r.append(self.found.as_str());
        }
        r
    }
}


/// Where line `n` (counted from 1) of `s` starts; past the last line, an index beyond
/// the end of `s`.
pub open spec fn line_start(s: Seq<char>, n: int) -> int
    decreases n,
{
    if n <= 1 {
        0
    } else {
        let p = line_start(s, n - 1);
        if p > s.len() {
            p
        } else {
            find_char(s, p, '\n') + 1
        }
    }
}

/// The text of line `n` (counted from 1) of `s`, without its newline; empty where `s`
/// has no such line.
pub open spec fn line_of(s: Seq<char>, n: int) -> Seq<char> {
    let p = line_start(s, n);
    if 1 <= n && p <= s.len() {
        s.subrange(p, find_char(s, p, '\n'))
    } else {
        Seq::empty()
    }
}

proof fn lemma_line_start_past(s: Seq<char>, a: int, b: int)
    requires
        1 <= a <= b,
        line_start(s, a) > s.len(),
    ensures
        line_start(s, b) > s.len(),
    decreases b - a,
{
    if a < b {
        lemma_line_start_past(s, a, b - 1);
    }
}

/// The first newline at or after `from`, or the length of `chars`.
fn next_newline(chars: &Vec<char>, from: usize) -> (r: usize)
    requires
        from <= chars@.len(),
    ensures
        r == find_char(chars@, from as int, '\n'),
{
    let mut k = from;
    while k < chars.len() && chars[k] != '\n'
        invariant
            from <= k <= chars@.len(),
            find_char(chars@, from as int, '\n') == find_char(chars@, k as int, '\n'),
        decreases chars@.len() - k,
    {
        k = k + 1;
    }
    k
}

/// Line `line` (counted from 1) of `src`, without its newline; empty where `src` has
/// no such line.
pub fn source_line(src: &str, line: i32) -> (r: String)
    ensures
        r@ == line_of(src@, line as int),
{
    if line < 1 {
        return String::new();
    }
    let chars = chars_of(src);
    let len = chars.len();
    let mut p: usize = 0;
    let mut cur: i32 = 1;
    while cur < line
        invariant
            1 <= cur <= line,
            p as int == line_start(src@, cur as int),
            p <= len,
            chars@ == src@,
            len == chars@.len(),
        decreases line - cur,
    {
        let k = next_newline(&chars, p);
        proof {
            crate::lexer::lemma_find_char_bounds(chars@, p as int, '\n');
        }
        if k == len {
            proof {
                lemma_line_start_past(src@, cur + 1, line as int);
            }
            return String::new();
        }
        p = k + 1;
        cur = cur + 1;
    }
    let k = next_newline(&chars, p);
    proof {
        crate::lexer::lemma_find_char_bounds(chars@, p as int, '\n');
    }
    src.substring_char(p, k).to_owned()
}

} // verus!
