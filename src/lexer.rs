use vstd::prelude::*;
use crate::diagnostic::{Diagnostic, DiagnosticView, ErrorKind};
use crate::position::{Loc, Position};
use crate::token::{Token, TokenView};
use crate::token_type::TokenType;
use vstd::std_specs::iter::IteratorSpec;

verus! {

// ---------------------------------------------------------------------------
// Character classes (ASCII only)
// ---------------------------------------------------------------------------

pub open spec fn is_digit(c: char) -> bool {
    '0' <= c && c <= '9'
}

pub open spec fn is_alpha(c: char) -> bool {
    ('a' <= c && c <= 'z') || ('A' <= c && c <= 'Z')
}

pub open spec fn is_space(c: char) -> bool {
    c == ' ' || c == '\t' || c == '\n' || c == '\r' || c == '\x0B' || c == '\x0C'
}

pub open spec fn is_operator_char(c: char) -> bool {
    c == '=' || c == '!' || c == '>' || c == '<' || c == '+' || c == '-' || c == '*' || c == '/'
        || c == '&' || c == '|' || c == '%' || c == '^'
}

pub open spec fn is_delimiter_char(c: char) -> bool {
    c == ';' || c == '.' || c == ':' || c == ','
}

pub open spec fn is_bracket_char(c: char) -> bool {
    c == '(' || c == ')' || c == '[' || c == ']' || c == '{' || c == '}'
}

// ---------------------------------------------------------------------------
// Locations
// ---------------------------------------------------------------------------

/// The location reached after reading the first `n` characters of `s`: every
/// character moves one column right, except a newline, which starts the next line.
pub open spec fn loc_after(s: Seq<char>, n: int) -> Loc
    decreases n,
{
    if n <= 0 {
        Loc { line: 1, column: 1 }
    } else {
        let p = loc_after(s, n - 1);
        if s[n - 1] == '\n' {
            Loc { line: p.line + 1, column: 1 }
        } else {
            Loc { line: p.line, column: p.column + 1 }
        }
    }
}

// ---------------------------------------------------------------------------
// Scanning one token
// ---------------------------------------------------------------------------

/// End of a numeric literal whose rest starts at `j`, and whether it holds a `.`:
/// digits, and at most one `.`; a second `.` ends the literal.
pub open spec fn scan_number(s: Seq<char>, j: int, dot: bool) -> (int, bool)
    decreases s.len() - j,
{
    if j >= s.len() {
        (s.len() as int, dot)
    } else if is_digit(s[j]) {
        scan_number(s, j + 1, dot)
    } else if s[j] == '.' && !dot {
        scan_number(s, j + 1, true)
    } else {
        (j, dot)
    }
}

/// End of the run of letters that starts at `j`.
pub open spec fn alpha_end(s: Seq<char>, j: int) -> int
    decreases s.len() - j,
{
    if j >= s.len() {
        s.len() as int
    } else if is_alpha(s[j]) {
        alpha_end(s, j + 1)
    } else {
        j
    }
}

/// The first index at or after `j` that holds `c`, or the length of `s`.
pub open spec fn find_char(s: Seq<char>, j: int, c: char) -> int
    decreases s.len() - j,
{
    if j >= s.len() {
        s.len() as int
    } else if s[j] == c {
        j
    } else {
        find_char(s, j + 1, c)
    }
}

/// The first index `k` at or after `j` where `*/` starts, or the length of `s`.
pub open spec fn block_close(s: Seq<char>, j: int) -> int
    decreases s.len() - j,
{
    if j + 1 >= s.len() {
        s.len() as int
    } else if s[j] == '*' && s[j + 1] == '/' {
        j
    } else {
        block_close(s, j + 1)
    }
}

/// The kind of a word: keywords, modifiers, booleans, type names, conditionals and
/// loops, in that order, and any other word is an identifier.
pub open spec fn word_kind(w: Seq<char>) -> TokenType {
    if w == "func"@ {
        TokenType::Keyword
    } else if w == "mutable"@ {
        TokenType::VarModifiers
    } else if w == "true"@ || w == "false"@ {
        TokenType::Boolean
    } else if w == "int"@ || w == "float"@ || w == "string"@ || w == "boolean"@ {
        TokenType::Type
    } else if w == "if"@ {
        TokenType::If
    } else if w == "else"@ {
        TokenType::Else
    } else if w == "while"@ {
        TokenType::While
    } else if w == "for"@ {
        TokenType::For
    } else {
        TokenType::Identifier
    }
}

/// Whether the word that ends at `e` is followed by exactly one space and the word `if`.
pub open spec fn followed_by_if(s: Seq<char>, e: int) -> bool {
    &&& 0 <= e
    &&& e + 3 <= s.len()
    &&& s[e] == ' '
    &&& s[e + 1] == 'i'
    &&& s[e + 2] == 'f'
    &&& (e + 3 == s.len() || !is_alpha(s[e + 3]))
}

/// Whether the operator character `a` followed by `b` is one two-character operator:
/// `== != >= <= && || //`.
pub open spec fn pairs_with(a: char, b: char) -> bool {
    ||| (a == '=' || a == '!' || a == '>' || a == '<') && b == '='
    ||| a == '&' && b == '&'
    ||| a == '|' && b == '|'
    ||| a == '/' && b == '/'
}

/// The kind of the operator that starts with `a`, of two characters when `pair` holds.
pub open spec fn operator_kind(a: char, pair: bool) -> TokenType {
    if pair {
        if a == '=' {
            TokenType::Equal
        } else if a == '!' {
            TokenType::NotEqual
        } else if a == '>' {
            TokenType::GreaterOrEqual
        } else if a == '<' {
            TokenType::LessOrEqual
        } else if a == '&' {
            TokenType::And
        } else if a == '|' {
            TokenType::Or
        } else {
            TokenType::IntegerDivision
        }
    } else if a == '=' {
        TokenType::Assign
    } else if a == '+' {
        TokenType::Addition
    } else if a == '-' {
        TokenType::Subtraction
    } else if a == '*' {
        TokenType::Multiplication
    } else if a == '/' {
        TokenType::Division
    } else if a == '%' {
        TokenType::Modulo
    } else if a == '^' {
        TokenType::Power
    } else if a == '>' {
        TokenType::GreaterThan
    } else if a == '<' {
        TokenType::LessThan
    } else if a == '!' {
        TokenType::Not
    } else {
        TokenType::Unknown
    }
}

pub open spec fn delimiter_kind(c: char) -> TokenType {
    if c == ';' {
        TokenType::SemiColon
    } else if c == '.' {
        TokenType::Dot
    } else if c == ':' {
        TokenType::Colon
    } else {
        TokenType::Comma
    }
}

pub open spec fn bracket_kind(c: char) -> TokenType {
    if c == '(' {
        TokenType::LeftParen
    } else if c == ')' {
        TokenType::RightParen
    } else if c == '[' {
        TokenType::LeftBracket
    } else if c == ']' {
        TokenType::RightBracket
    } else if c == '{' {
        TokenType::LeftBrace
    } else {
        TokenType::RightBrace
    }
}

/// What the lexer does at index `i`.
pub enum Step {
    /// Nothing is emitted; lexing resumes at `next`.
    Skip { next: int },
    /// A token of `kind` whose text is `s[from..to]` is emitted; lexing resumes at `next`.
    Emit { kind: TokenType, from: int, to: int, next: int },
    /// Lexing fails with `kind` at index `at`.
    Fail { error: ErrorKind, at: int },
}

/// One step of the lexer on the character at index `i`. Only ASCII letters, digits
/// and spaces are classified: any other character that is not one of the quotes,
/// comment starts, operators, delimiters or brackets below is an unknown character.
pub open spec fn step(s: Seq<char>, i: int) -> Step {
    let c = s[i];
    if is_digit(c) {
        let r = scan_number(s, i + 1, false);
        Step::Emit {
            kind: if r.1 { TokenType::Float } else { TokenType::Integer },
            from: i,
            to: r.0,
            next: r.0,
        }
    } else if c == '"' {
        let q = find_char(s, i + 1, '"');
        Step::Emit { kind: TokenType::String, from: i + 1, to: q, next: if q < s.len() { q + 1 } else { q } }
    } else if is_alpha(c) {
        let e = alpha_end(s, i + 1);
        if s.subrange(i, e) == "else"@ && followed_by_if(s, e) {
            Step::Emit { kind: TokenType::ElseIf, from: i, to: e + 3, next: e + 3 }
        } else {
            Step::Emit { kind: word_kind(s.subrange(i, e)), from: i, to: e, next: e }
        }
    } else if is_space(c) {
        Step::Skip { next: i + 1 }
    } else if c == '#' {
        Step::Skip { next: find_char(s, i + 1, '\n') }
    } else if c == '/' && i + 1 < s.len() && s[i + 1] == '*' {
        let k = block_close(s, i + 1);
        if k + 1 < s.len() {
            Step::Skip { next: k + 2 }
        } else {
            Step::Fail { error: ErrorKind::UnclosedComment, at: s.len() as int }
        }
    } else if is_operator_char(c) {
        let pair = i + 1 < s.len() && pairs_with(c, s[i + 1]);
        let n = if pair { i + 2 } else { i + 1 };
        Step::Emit { kind: operator_kind(c, pair), from: i, to: n, next: n }
    } else if is_delimiter_char(c) {
        Step::Emit { kind: delimiter_kind(c), from: i, to: i + 1, next: i + 1 }
    } else if is_bracket_char(c) {
        Step::Emit { kind: bracket_kind(c), from: i, to: i + 1, next: i + 1 }
    } else {
        Step::Fail { error: ErrorKind::UnknownCharacter, at: i }
    }
}

/// Where a step resumes; a failing step resumes nowhere.
pub open spec fn step_next(st: Step) -> int {
    match st {
        Step::Skip { next } => next,
        Step::Emit { next, .. } => next,
        Step::Fail { .. } => -1,
    }
}

// ---------------------------------------------------------------------------
// The whole token sequence
// ---------------------------------------------------------------------------

/// A lexical error and the index of the character where it is reported.
pub struct LexFail {
    pub kind: ErrorKind,
    pub at: int,
}

/// The end-of-file token: it starts where the text ends and is one column wide.
pub open spec fn eof_view(s: Seq<char>) -> TokenView {
    let p = loc_after(s, s.len() as int);
    TokenView {
        kind: TokenType::EOF,
        text: "End Of File"@,
        start: p,
        end: Loc { line: p.line, column: p.column + 1 },
    }
}

/// The tokens lexed from index `i` of `s` to its end, ending with the end-of-file token.
pub open spec fn lex_from(s: Seq<char>, i: int) -> Result<Seq<TokenView>, LexFail>
    decreases s.len() - i,
    via lex_from_decreases
{
    if !(0 <= i < s.len()) {
        Ok(seq![eof_view(s)])
    } else {
        match step(s, i) {
            Step::Skip { next } => lex_from(s, next),
            Step::Emit { kind, from, to, next } => {
                let t = TokenView {
                    kind,
                    text: s.subrange(from, to),
                    start: loc_after(s, i),
                    end: loc_after(s, next),
                };
                match lex_from(s, next) {
                    Ok(rest) => Ok(seq![t] + rest),
                    Err(e) => Err(e),
                }
            },
            Step::Fail { error, at } => Err(LexFail { kind: error, at }),
        }
    }
}

/// The tokens of the whole text `s`.
pub open spec fn lex(s: Seq<char>) -> Result<Seq<TokenView>, LexFail> {
    lex_from(s, 0)
}

#[via_fn]
proof fn lex_from_decreases(s: Seq<char>, i: int) {
    if 0 <= i < s.len() {
        lemma_step_advances(s, i);
    }
}

pub proof fn lemma_scan_number_bounds(s: Seq<char>, j: int, dot: bool)
    requires
        0 <= j,
    ensures
        j <= scan_number(s, j, dot).0 <= s.len() || (j > s.len() && scan_number(s, j, dot).0 == s.len()),
    decreases s.len() - j,
{
    if j < s.len() && (is_digit(s[j]) || (s[j] == '.' && !dot)) {
        lemma_scan_number_bounds(s, j + 1, if is_digit(s[j]) { dot } else { true });
    }
}

pub proof fn lemma_alpha_end_bounds(s: Seq<char>, j: int)
    requires
        0 <= j <= s.len(),
    ensures
        j <= alpha_end(s, j) <= s.len(),
    decreases s.len() - j,
{
    if j < s.len() && is_alpha(s[j]) {
        lemma_alpha_end_bounds(s, j + 1);
    }
}

pub proof fn lemma_find_char_bounds(s: Seq<char>, j: int, c: char)
    requires
        0 <= j <= s.len(),
    ensures
        j <= find_char(s, j, c) <= s.len(),
        find_char(s, j, c) < s.len() ==> s[find_char(s, j, c)] == c,
        forall|k: int| j <= k < find_char(s, j, c) ==> s[k] != c,
    decreases s.len() - j,
{
    if j < s.len() && s[j] != c {
        lemma_find_char_bounds(s, j + 1, c);
    }
}

pub proof fn lemma_block_close_bounds(s: Seq<char>, j: int)
    requires
        0 <= j <= s.len(),
    ensures
        j <= block_close(s, j) <= s.len(),
    decreases s.len() - j,
{
    if j + 1 < s.len() && !(s[j] == '*' && s[j + 1] == '/') {
        lemma_block_close_bounds(s, j + 1);
    }
}

/// A step that does not fail moves forward and stays within the text.
pub proof fn lemma_step_advances(s: Seq<char>, i: int)
    requires
        0 <= i < s.len(),
    ensures
        !(step(s, i) is Fail) ==> i < step_next(step(s, i)) <= s.len(),
        step(s, i) matches Step::Emit { from, to, next, .. } ==> 0 <= from <= to <= next,
{
    lemma_scan_number_bounds(s, i + 1, false);
    lemma_alpha_end_bounds(s, i + 1);
    lemma_find_char_bounds(s, i + 1, '"');
    lemma_find_char_bounds(s, i + 1, '\n');
    lemma_block_close_bounds(s, i + 1);
}


/// Prepends `ts` to the tokens of a successful lexing result; a failure stays as it is.
pub open spec fn prepend(ts: Seq<TokenView>, r: Result<Seq<TokenView>, LexFail>) -> Result<Seq<TokenView>, LexFail> {
    match r {
        Ok(rest) => Ok(ts + rest),
        Err(e) => Err(e),
    }
}

/// The mathematical views of a sequence of tokens.
pub open spec fn views_of(v: Seq<Token>) -> Seq<TokenView> {
    v.map_values(|t: Token| t@)
}

/// What a diagnostic for a lexical failure holds.
pub open spec fn lex_diagnostic(s: Seq<char>, f: LexFail) -> DiagnosticView {
    DiagnosticView { kind: f.kind, found: Seq::empty(), at: loc_after(s, f.at) }
}

/// Whether `r` is what lexing `s` from index `i` gives.
pub open spec fn lexed_as(s: Seq<char>, i: int, r: Result<Vec<Token>, Diagnostic>) -> bool {
    match lex_from(s, i) {
        Ok(ts) => r is Ok && views_of(r->Ok_0@) == ts,
        Err(f) => r is Err && r->Err_0@ == lex_diagnostic(s, f),
    }
}

/// Whether, at index `i`, the lexer emits `t` and resumes at `j`.
pub open spec fn emits(s: Seq<char>, i: int, t: TokenView, j: int) -> bool {
    match step(s, i) {
        Step::Emit { kind, from, to, next } => {
            &&& next == j
            &&& t.kind == kind
            &&& t.text == s.subrange(from, to)
            &&& t.start == loc_after(s, i)
            &&& t.end == loc_after(s, next)
        },
        _ => false,
    }
}

pub proof fn lemma_loc_bounds(s: Seq<char>, n: int)
    requires
        0 <= n,
    ensures
        1 <= loc_after(s, n).line <= n + 1,
        1 <= loc_after(s, n).column <= n + 1,
    decreases n,
{
    if n > 0 {
        lemma_loc_bounds(s, n - 1);
    }
}

/// A lexical analyser: a cursor over the characters of a source text.
pub struct Lexer<'a> {
    /// The complete source text
    source_text: &'a str,
    /// The characters of the source text
    chars: Vec<char>,
    /// Index of the next character to read
    index: usize,
    /// Location of the next character to read
    position: Position,
}

pub(crate) fn chars_of(s: &str) -> (r: Vec<char>)
    ensures
        r@ == s@,
{
    broadcast use vstd::string::group_string_axioms;

    let mut it = s.chars();
    let mut v: Vec<char> = Vec::new();
    loop
        invariant
            v@ + it.remaining() == s@,
            it.obeys_prophetic_iter_laws(),
            it.decrease() is Some,
        ensures
            v@ == s@,
        decreases it.decrease()->0,
    {
        match it.next() {
            Some(c) => {
                v.push(c);
                assert(v@ + it.remaining() =~= s@);
            },
            None => {
                assert(v@ =~= s@);
                break;
            },
        }
    }
    v
}

impl<'a> Lexer<'a> {
    /// The source text.
    pub closed spec fn source(&self) -> Seq<char> {
        self.chars@
    }

    /// Position of the next character to read.
    pub closed spec fn current(&self) -> Position {
        self.position
    }

    /// Index of the next character to read.
    pub closed spec fn cursor(&self) -> int {
        self.index as int
    }

    pub closed spec fn wf(&self) -> bool {
        &&& self.chars@ == self.source_text@
        &&& self.index <= self.chars@.len()
        &&& self.chars@.len() + 2 <= i32::MAX
        &&& self.position@ == loc_after(self.chars@, self.index as int)
        &&& self.position.initial_column == 1
    }

    /// A lexer at the start of `src`.
    pub fn new(src: &'a str) -> (r: Self)
        requires
            src@.len() + 2 <= i32::MAX,
        ensures
            r.wf(),
            r.source() == src@,
            r.cursor() == 0,
    {
        Lexer { source_text: src, chars: chars_of(src), index: 0, position: Position::new(1, 1) }
    }

    /// Reads one character, moving to the next line after a newline.
    fn advance(&mut self)
        requires
            old(self).wf(),
            old(self).index < old(self).chars@.len(),
        ensures
            final(self).wf(),
            final(self).chars == old(self).chars,
            final(self).source_text == old(self).source_text,
            final(self).index == old(self).index + 1,
    {
        proof {
            lemma_loc_bounds(self.chars@, self.index as int);
        }
        if self.chars[self.index] == '\n' {
            self.reset_column();
            self.advance_line();
        } else {
            self.advance_column();
        }
        self.index = self.index + 1;
    }

    /// Moves to the next column of the current line.
    fn advance_column(&mut self)
        requires
            old(self).position.column < i32::MAX,
        ensures
            final(self).position.column == old(self).position.column + 1,
            final(self).position.line == old(self).position.line,
            final(self).position.initial_column == old(self).position.initial_column,
            final(self).chars == old(self).chars,
            final(self).source_text == old(self).source_text,
            final(self).index == old(self).index,
    {
        self.position.next_column();
    }

    /// Moves back to the first column.
    fn reset_column(&mut self)
        ensures
            final(self).position.column == 1,
            final(self).position.line == old(self).position.line,
            final(self).position.initial_column == old(self).position.initial_column,
            final(self).chars == old(self).chars,
            final(self).source_text == old(self).source_text,
            final(self).index == old(self).index,
    {
        self.position.column = 1;
    }

    /// Moves to the next line, keeping the column.
    fn advance_line(&mut self)
        requires
            old(self).position.line < i32::MAX,
        ensures
            final(self).position.line == old(self).position.line + 1,
            final(self).position.column == old(self).position.column,
            final(self).position.initial_column == old(self).position.initial_column,
            final(self).chars == old(self).chars,
            final(self).source_text == old(self).source_text,
            final(self).index == old(self).index,
    {
        self.position.line = self.position.line + 1;
    }

    /// The diagnostic for a lexical error of `kind` at the current location. Lexing
    /// stops at the first error, and this is what it returns.
    pub fn throw_error(&self, kind: ErrorKind) -> (d: Diagnostic)
        ensures
            d@ == (DiagnosticView { kind, found: Seq::empty(), at: self.current()@ }),
    {
        Diagnostic { kind, found: String::new(), position: self.position }
    }

    /// The current location.
    pub fn get_current_position(&self) -> (r: Position)
        ensures
            r == self.current(),
    {
        self.position
    }

    /// Whether the characters `from..to` spell `w`.
    fn word_is(&self, from: usize, to: usize, w: &str) -> (r: bool)
        requires
            from <= to <= self.chars@.len(),
        ensures
            r == (self.chars@.subrange(from as int, to as int) == w@),
    {
        let n = w.unicode_len();
        if to - from != n {
            return false;
        }
        let mut k: usize = 0;
        while k < n
            invariant
                from <= to <= self.chars@.len(),
                to - from == n == w@.len(),
                k <= n,
                forall|m: int| 0 <= m < k ==> self.chars@[from + m] == w@[m],
            decreases n - k,
        {
            if self.chars[from + k] != w.get_char(k) {
                assert(self.chars@.subrange(from as int, to as int)[k as int] != w@[k as int]);
                return false;
            }
            k = k + 1;
        }
        assert(self.chars@.subrange(from as int, to as int) =~= w@);
        true
    }

    fn token_from(&self, kind: TokenType, from: usize, to: usize, start: Position) -> (t: Token)
        requires
            self.wf(),
            from <= to <= self.chars@.len(),
        ensures
            t@ == (TokenView {
                kind,
                text: self.chars@.subrange(from as int, to as int),
                start: start@,
                end: self.position@,
            }),
    {
        Token::new(kind, self.source_text.substring_char(from, to), start, self.position)
    }

    /// Reads a numeric literal: digits with at most one `.`.
    fn handle_numeric(&mut self) -> (t: Token)
        requires
            old(self).wf(),
            old(self).index < old(self).chars@.len(),
            is_digit(old(self).chars@[old(self).index as int]),
        ensures
            final(self).wf(),
            final(self).chars == old(self).chars,
            final(self).source_text == old(self).source_text,
            emits(old(self).chars@, old(self).index as int, t@, final(self).index as int),
    {
        let i = self.index;
        let start = self.get_current_position();
        self.advance();
        let mut has_decimal = false;
        while self.index < self.chars.len()
            invariant_except_break
                self.wf(),
                self.chars == old(self).chars,
                self.source_text == old(self).source_text,
                i < self.index <= self.chars@.len(),
                scan_number(self.chars@, i + 1, false) == scan_number(self.chars@, self.index as int, has_decimal),
            ensures
                self.wf(),
                self.chars == old(self).chars,
                self.source_text == old(self).source_text,
                i < self.index <= self.chars@.len(),
                scan_number(self.chars@, i + 1, false) == (self.index as int, has_decimal),
            decreases self.chars@.len() - self.index,
        {
            let c = self.chars[self.index];
            if '0' <= c && c <= '9' {
            } else if c == '.' && !has_decimal {
                has_decimal = true;
            } else {
                break;
            }
            self.advance();
        }
        let kind = if has_decimal { TokenType::Float } else { TokenType::Integer };
        self.token_from(kind, i, self.index, start)
    }

    /// Reads a string literal; the quotes are not part of its text.
    fn handle_string(&mut self) -> (t: Token)
        requires
            old(self).wf(),
            old(self).index < old(self).chars@.len(),
            old(self).chars@[old(self).index as int] == '"',
        ensures
            final(self).wf(),
            final(self).chars == old(self).chars,
            final(self).source_text == old(self).source_text,
            emits(old(self).chars@, old(self).index as int, t@, final(self).index as int),
    {
        let i = self.index;
        let start = self.get_current_position();
        self.advance();
        while self.index < self.chars.len() && self.chars[self.index] != '"'
            invariant
                self.wf(),
                self.chars == old(self).chars,
                self.source_text == old(self).source_text,
                i < self.index <= self.chars@.len(),
                find_char(self.chars@, i + 1, '"') == find_char(self.chars@, self.index as int, '"'),
            decreases self.chars@.len() - self.index,
        {
            self.advance();
        }
        let q = self.index;
        if self.index < self.chars.len() {
            self.advance();
        }
        self.token_from(TokenType::String, i + 1, q, start)
    }

    /// The kind of the word in the characters `from..to`.
    fn classify_word(&self, from: usize, to: usize) -> (k: TokenType)
        requires
            from <= to <= self.chars@.len(),
        ensures
            k == word_kind(self.chars@.subrange(from as int, to as int)),
    {
        if self.word_is(from, to, "func") {
            TokenType::Keyword
        } else if self.word_is(from, to, "mutable") {
            TokenType::VarModifiers
        } else if self.word_is(from, to, "true") || self.word_is(from, to, "false") {
            TokenType::Boolean
        } else if self.word_is(from, to, "int") || self.word_is(from, to, "float")
            || self.word_is(from, to, "string") || self.word_is(from, to, "boolean") {
            TokenType::Type
        } else if self.word_is(from, to, "if") {
            TokenType::If
        } else if self.word_is(from, to, "else") {
            TokenType::Else
        } else if self.word_is(from, to, "while") {
            TokenType::While
        } else if self.word_is(from, to, "for") {
            TokenType::For
        } else {
            TokenType::Identifier
        }
    }

    /// Reads a word: a keyword, a modifier, a boolean, a type name, a conditional,
    /// a loop keyword or an identifier. `else if` is read as one token.
    fn handle_alpha(&mut self) -> (t: Token)
        requires
            old(self).wf(),
            old(self).index < old(self).chars@.len(),
            is_alpha(old(self).chars@[old(self).index as int]),
        ensures
            final(self).wf(),
            final(self).chars == old(self).chars,
            final(self).source_text == old(self).source_text,
            emits(old(self).chars@, old(self).index as int, t@, final(self).index as int),
    {
        let i = self.index;
        let start = self.get_current_position();
        self.advance();
        while self.index < self.chars.len() && ('a' <= self.chars[self.index] && self.chars[self.index] <= 'z'
            || 'A' <= self.chars[self.index] && self.chars[self.index] <= 'Z')
            invariant
                self.wf(),
                self.chars == old(self).chars,
                self.source_text == old(self).source_text,
                i < self.index <= self.chars@.len(),
                alpha_end(self.chars@, i + 1) == alpha_end(self.chars@, self.index as int),
            decreases self.chars@.len() - self.index,
        {
            self.advance();
        }
        let e = self.index;
        let len = self.chars.len();
        if self.word_is(i, e, "else") && e + 3 <= len && self.chars[e] == ' ' && self.chars[e + 1] == 'i'
            && self.chars[e + 2] == 'f' && (e + 3 == len || !('a' <= self.chars[e + 3] && self.chars[e + 3] <= 'z'
            || 'A' <= self.chars[e + 3] && self.chars[e + 3] <= 'Z')) {
            self.advance();
            self.advance();
            self.advance();
            self.token_from(TokenType::ElseIf, i, e + 3, start)
        } else {
            let kind = self.classify_word(i, e);
            self.token_from(kind, i, e, start)
        }
    }

    /// Reads an operator, of two characters where the next one extends it.
    fn handle_operator(&mut self) -> (t: Token)
        requires
            old(self).wf(),
            old(self).index < old(self).chars@.len(),
            is_operator_char(old(self).chars@[old(self).index as int]),
            !(old(self).chars@[old(self).index as int] == '/' && old(self).index + 1 < old(self).chars@.len()
                && old(self).chars@[old(self).index + 1] == '*'),
        ensures
            final(self).wf(),
            final(self).chars == old(self).chars,
            final(self).source_text == old(self).source_text,
            emits(old(self).chars@, old(self).index as int, t@, final(self).index as int),
    {
        let i = self.index;
        let start = self.get_current_position();
        let c = self.chars[i];
        let pair = i + 1 < self.chars.len() && operator_pairs_with(c, self.chars[i + 1]);
        self.advance();
        if pair {
            self.advance();
        }
        self.token_from(operator_kind_of(c, pair), i, self.index, start)
    }

    /// Reads one of `; . : ,`.
    fn handle_delimiter(&mut self) -> (t: Token)
        requires
            old(self).wf(),
            old(self).index < old(self).chars@.len(),
            is_delimiter_char(old(self).chars@[old(self).index as int]),
        ensures
            final(self).wf(),
            final(self).chars == old(self).chars,
            final(self).source_text == old(self).source_text,
            emits(old(self).chars@, old(self).index as int, t@, final(self).index as int),
    {
        let i = self.index;
        let start = self.get_current_position();
        let c = self.chars[i];
        self.advance();
        let kind = if c == ';' {
            TokenType::SemiColon
        } else if c == '.' {
            TokenType::Dot
        } else if c == ':' {
            TokenType::Colon
        } else {
            TokenType::Comma
        };
        self.token_from(kind, i, self.index, start)
    }

    /// Reads one of `( ) [ ] { }`.
    fn handle_braces(&mut self) -> (t: Token)
        requires
            old(self).wf(),
            old(self).index < old(self).chars@.len(),
            is_bracket_char(old(self).chars@[old(self).index as int]),
        ensures
            final(self).wf(),
            final(self).chars == old(self).chars,
            final(self).source_text == old(self).source_text,
            emits(old(self).chars@, old(self).index as int, t@, final(self).index as int),
    {
        let i = self.index;
        let start = self.get_current_position();
        let c = self.chars[i];
        self.advance();
        let kind = if c == '(' {
            TokenType::LeftParen
        } else if c == ')' {
            TokenType::RightParen
        } else if c == '[' {
            TokenType::LeftBracket
        } else if c == ']' {
            TokenType::RightBracket
        } else if c == '{' {
            TokenType::LeftBrace
        } else {
            TokenType::RightBrace
        };
        self.token_from(kind, i, self.index, start)
    }

    /// Skips a comment: `#` up to the end of the line, or `/*` up to the next `*/`.
    /// A block comment that is never closed is an error at the end of the text.
    fn handle_comments(&mut self) -> (r: Result<(), Diagnostic>)
        requires
            old(self).wf(),
            old(self).index < old(self).chars@.len(),
            old(self).chars@[old(self).index as int] == '#' || (old(self).chars@[old(self).index as int] == '/'
                && old(self).index + 1 < old(self).chars@.len() && old(self).chars@[old(self).index + 1] == '*'),
        ensures
            final(self).wf(),
            final(self).chars == old(self).chars,
            final(self).source_text == old(self).source_text,
            match step(old(self).chars@, old(self).index as int) {
                Step::Skip { next } => r is Ok && final(self).index == next,
                Step::Fail { error, at } => r is Err && r->Err_0@ == lex_diagnostic(
                    old(self).chars@,
                    LexFail { kind: error, at },
                ),
                _ => false,
            },
    {
        let i = self.index;
        if self.chars[i] == '#' {
            self.advance();
            while self.index < self.chars.len() && self.chars[self.index] != '\n'
                invariant
                    self.wf(),
                    self.chars == old(self).chars,
                    self.source_text == old(self).source_text,
                    i < self.index <= self.chars@.len(),
                    find_char(self.chars@, i + 1, '\n') == find_char(self.chars@, self.index as int, '\n'),
                decreases self.chars@.len() - self.index,
            {
                self.advance();
            }
            Ok(())
        } else {
            self.advance();
            while self.index + 1 < self.chars.len() && !(self.chars[self.index] == '*' && self.chars[self.index
                + 1] == '/')
                invariant
                    self.wf(),
                    self.chars == old(self).chars,
                    self.source_text == old(self).source_text,
                    i < self.index <= self.chars@.len(),
                    block_close(self.chars@, i + 1) == block_close(self.chars@, self.index as int),
                decreases self.chars@.len() - self.index,
            {
                self.advance();
            }
            if self.index + 1 < self.chars.len() {
                self.advance();
                self.advance();
                Ok(())
            } else {
                while self.index < self.chars.len()
                    invariant
                        self.wf(),
                        self.chars == old(self).chars,
                        self.source_text == old(self).source_text,
                    decreases self.chars@.len() - self.index,
                {
                    self.advance();
                }
                Err(self.throw_error(ErrorKind::UnclosedComment))
            }
        }
    }

    /// Reads the rest of the text into tokens, ending with one end-of-file token, or
    /// returns the first lexical error.
    pub fn tokenize(&mut self) -> (r: Result<Vec<Token>, Diagnostic>)
        requires
            old(self).wf(),
        ensures
            final(self).wf(),
            final(self).source() == old(self).source(),
            lexed_as(old(self).source(), old(self).cursor(), r),
    {
        let ghost s = self.chars@;
        let ghost i0 = self.index as int;
        let mut tokens: Vec<Token> = Vec::new();
        while self.index < self.chars.len()
            invariant
                self.wf(),
                self.chars@ == s,
                s == old(self).chars@,
                i0 == old(self).index,
                lex_from(s, i0) == prepend(views_of(tokens@), lex_from(s, self.index as int)),
            decreases self.chars@.len() - self.index,
        {
            let i = self.index;
            let c = self.chars[i];
            let ghost before = tokens@;
            proof {
                lemma_step_advances(s, i as int);
            }
            let emitted = if '0' <= c && c <= '9' {
                Some(self.handle_numeric())
            } else if c == '"' {
                Some(self.handle_string())
            } else if 'a' <= c && c <= 'z' || 'A' <= c && c <= 'Z' {
                Some(self.handle_alpha())
            } else if c == ' ' || c == '\t' || c == '\n' || c == '\r' || c == '\x0B' || c == '\x0C' {
                self.advance();
                None
            } else if c == '#' || (c == '/' && i + 1 < self.chars.len() && self.chars[i + 1] == '*') {
                match self.handle_comments() {
                    Ok(()) => None,
                    Err(d) => {
                        return Err(d);
                    },
                }
            } else if c == '=' || c == '!' || c == '>' || c == '<' || c == '+' || c == '-' || c == '*' || c == '/'
                || c == '&' || c == '|' || c == '%' || c == '^' {
                Some(self.handle_operator())
            } else if c == ';' || c == '.' || c == ':' || c == ',' {
                Some(self.handle_delimiter())
            } else if c == '(' || c == ')' || c == '[' || c == ']' || c == '{' || c == '}' {
                Some(self.handle_braces())
            } else {
                return Err(self.throw_error(ErrorKind::UnknownCharacter));
            };
            match emitted {
                Some(t) => {
                    tokens.push(t);
                    proof {
                        assert(views_of(tokens@) =~= views_of(before) + seq![t@]);
                        let rest = lex_from(s, self.index as int);
                        if rest is Ok {
                            assert(views_of(before) + (seq![t@] + rest->Ok_0) =~= views_of(tokens@)
                                + rest->Ok_0);
                        }
                    }
                },
                None => {},
            }
        }
        let start = self.get_current_position();
        let mut end = start;
        proof {
            lemma_loc_bounds(s, s.len() as int);
        }
        end.next_column();
        let ghost before = tokens@;
        tokens.push(Token::new(TokenType::EOF, "End Of File", start, end));
        proof {
            assert(views_of(tokens@) =~= views_of(before) + seq![eof_view(s)]);
        }
        Ok(tokens)
    }
}

/// Whether `a` and `b` form one two-character operator.
fn operator_pairs_with(a: char, b: char) -> (r: bool)
    ensures
        r == pairs_with(a, b),
{
    ((a == '=' || a == '!' || a == '>' || a == '<') && b == '=') || (a == '&' && b == '&') || (a == '|' && b
        == '|') || (a == '/' && b == '/')
}

/// The kind of the operator that starts with `a`.
fn operator_kind_of(a: char, pair: bool) -> (k: TokenType)
    ensures
        k == operator_kind(a, pair),
{
    if pair {
        if a == '=' {
            TokenType::Equal
        } else if a == '!' {
            TokenType::NotEqual
        } else if a == '>' {
            TokenType::GreaterOrEqual
        } else if a == '<' {
            TokenType::LessOrEqual
        } else if a == '&' {
            TokenType::And
        } else if a == '|' {
            TokenType::Or
        } else {
            TokenType::IntegerDivision
        }
    } else if a == '=' {
        TokenType::Assign
    } else if a == '+' {
        TokenType::Addition
    } else if a == '-' {
        TokenType::Subtraction
    } else if a == '*' {
        TokenType::Multiplication
    } else if a == '/' {
        TokenType::Division
    } else if a == '%' {
        TokenType::Modulo
    } else if a == '^' {
        TokenType::Power
    } else if a == '>' {
        TokenType::GreaterThan
    } else if a == '<' {
        TokenType::LessThan
    } else if a == '!' {
        TokenType::Not
    } else {
        TokenType::Unknown
    }
}

} // verus!
