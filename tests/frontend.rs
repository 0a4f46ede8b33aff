use haf_frontend::ast::{pretty_ast, Node};
use haf_frontend::diagnostic::{source_line, Diagnostic, ErrorKind};
use haf_frontend::frontend::parse_source;
use haf_frontend::lexer::Lexer;
use haf_frontend::parser::{integer_value, Parser};
use haf_frontend::position::Position;
use haf_frontend::scope::Scope;
use haf_frontend::symbol::{Symbol, SymbolType};
use haf_frontend::token::Token;
use haf_frontend::token_type::TokenType;

fn lex(src: &str) -> Vec<Token> {
    Lexer::new(src).tokenize().expect("lexing failed")
}

fn lex_err(src: &str) -> Diagnostic {
    match Lexer::new(src).tokenize() {
        Ok(_) => panic!("lexing succeeded"),
        Err(d) => d,
    }
}

fn kinds(src: &str) -> Vec<TokenType> {
    lex(src).iter().map(|t| t.token_type).collect()
}

fn list(items: &[Box<Node>]) -> String {
    items.iter().map(|n| show(n)).collect::<Vec<_>>().join(" ")
}

fn show(n: &Node) -> String {
    match n {
        Node::Integer { value } => format!("{}", value),
        Node::Float { value } => format!("f{}", value),
        Node::String { value } => format!("{:?}", value),
        Node::Boolean { value } => format!("{}", value),
        Node::Addition { left, right } => format!("(+ {} {})", show(left), show(right)),
        Node::Subtraction { left, right } => format!("(- {} {})", show(left), show(right)),
        Node::Multiplication { left, right } => format!("(* {} {})", show(left), show(right)),
        Node::Division { left, right } => format!("(/ {} {})", show(left), show(right)),
        Node::IntegerDivision { left, right } => format!("(// {} {})", show(left), show(right)),
        Node::Modulo { left, right } => format!("(% {} {})", show(left), show(right)),
        Node::Power { left, right } => format!("(^ {} {})", show(left), show(right)),
        Node::Equal { left, right } => format!("(== {} {})", show(left), show(right)),
        Node::NotEqual { left, right } => format!("(!= {} {})", show(left), show(right)),
        Node::GreaterThan { left, right } => format!("(> {} {})", show(left), show(right)),
        Node::GreaterOrEqual { left, right } => format!("(>= {} {})", show(left), show(right)),
        Node::LessThan { left, right } => format!("(< {} {})", show(left), show(right)),
        Node::LessOrEqual { left, right } => format!("(<= {} {})", show(left), show(right)),
        Node::Vector { items } => format!("[{}]", list(items)),
        Node::UnaryPlus { expr } => format!("(u+ {})", show(expr)),
        Node::UnaryMinus { expr } => format!("(u- {})", show(expr)),
        Node::While { condition, block } => format!("(while ({}) {{{}}})", list(condition), list(block)),
        Node::ForEach { item_type, item_name, collection, block } => {
            format!("(foreach {} {} {} {{{}}})", item_type, item_name, collection, list(block))
        }
        Node::Declaration { is_mutable, var_type, identifier, initializer } => {
            format!("(decl {} {} {} {})", is_mutable, var_type, identifier, show(initializer))
        }
        Node::Assignment { identifier, value } => format!("(= {} {})", identifier, show(value)),
        Node::Program { expressions } => format!("{{{}}}", list(expressions)),
    }
}

fn parsed(src: &str) -> String {
    match parse_source(src) {
        Ok(n) => show(&n),
        Err(d) => panic!("unexpected error {:?}", d),
    }
}

fn parse_err(src: &str) -> Diagnostic {
    match parse_source(src) {
        Ok(n) => panic!("parsed as {}", show(&n)),
        Err(d) => d,
    }
}

#[test]
fn integer_literal_round_trip() {
    for n in ["0", "7", "42", "1000", "9223372036854775807"] {
        let tokens = lex(n);
        assert_eq!(tokens.len(), 2);
        assert_eq!(tokens[0].token_type, TokenType::Integer);
        assert_eq!(tokens[0].value, n);
        assert_eq!(tokens[0].start_position.line, tokens[0].end_position.line);
        assert_eq!(tokens[0].start_position.column, 1);
        assert_eq!(tokens[0].end_position.column, n.len() as i32 + 1);
        assert_eq!(parsed(n), format!("{{{}}}", n));
    }
}

#[test]
fn integer_literal_too_large() {
    let d = parse_err("9223372036854775808");
    assert_eq!(d.kind, ErrorKind::IntegerTooLarge);
    assert_eq!(integer_value("9223372036854775807"), Some(i64::MAX));
    assert_eq!(integer_value("9223372036854775808"), None);
    assert_eq!(integer_value(""), None);
    assert_eq!(integer_value("12a"), None);
    assert_eq!(integer_value("0012"), Some(12));
}

#[test]
fn two_character_operators_are_one_token() {
    let cases = [
        ("==", TokenType::Equal),
        ("!=", TokenType::NotEqual),
        (">=", TokenType::GreaterOrEqual),
        ("<=", TokenType::LessOrEqual),
        ("&&", TokenType::And),
        ("||", TokenType::Or),
        ("//", TokenType::IntegerDivision),
    ];
    for (text, kind) in cases {
        let tokens = lex(text);
        assert_eq!(tokens.len(), 2, "{}", text);
        assert_eq!(tokens[0].token_type, kind);
        assert_eq!(tokens[0].value, text);
        assert_eq!(tokens[0].start_position.column, 1);
        assert_eq!(tokens[0].end_position.column, 3);
        assert_eq!(tokens[1].token_type, TokenType::EOF);
    }
}

#[test]
fn single_character_operators() {
    assert_eq!(
        kinds("= + - * / % ^ > < ! & |"),
        vec![
            TokenType::Assign,
            TokenType::Addition,
            TokenType::Subtraction,
            TokenType::Multiplication,
            TokenType::Division,
            TokenType::Modulo,
            TokenType::Power,
            TokenType::GreaterThan,
            TokenType::LessThan,
            TokenType::Not,
            TokenType::Unknown,
            TokenType::Unknown,
            TokenType::EOF,
        ]
    );
    assert_eq!(kinds("=!"), vec![TokenType::Assign, TokenType::Not, TokenType::EOF]);
}

#[test]
fn else_if_is_one_token() {
    let tokens = lex("else if");
    assert_eq!(tokens.len(), 2);
    assert_eq!(tokens[0].token_type, TokenType::ElseIf);
    assert_eq!(tokens[0].value, "else if");
    assert_eq!(kinds("else"), vec![TokenType::Else, TokenType::EOF]);
    assert_eq!(kinds("else x"), vec![TokenType::Else, TokenType::Identifier, TokenType::EOF]);
    assert_eq!(kinds("else  if"), vec![TokenType::Else, TokenType::If, TokenType::EOF]);
    assert_eq!(kinds("else iffy"), vec![TokenType::Else, TokenType::Identifier, TokenType::EOF]);
    assert_eq!(kinds("else if {"), vec![TokenType::ElseIf, TokenType::LeftBrace, TokenType::EOF]);
}

#[test]
fn words_are_classified() {
    assert_eq!(
        kinds("func mutable true false int float string boolean if else while for foreach in x"),
        vec![
            TokenType::Keyword,
            TokenType::VarModifiers,
            TokenType::Boolean,
            TokenType::Boolean,
            TokenType::Type,
            TokenType::Type,
            TokenType::Type,
            TokenType::Type,
            TokenType::If,
            TokenType::Else,
            TokenType::While,
            TokenType::For,
            TokenType::Identifier,
            TokenType::Identifier,
            TokenType::Identifier,
            TokenType::EOF,
        ]
    );
    let tokens = lex("abc1");
    assert_eq!(tokens[0].value, "abc");
    assert_eq!(tokens[1].token_type, TokenType::Integer);
}

#[test]
fn numeric_literals() {
    let tokens = lex("3.25");
    assert_eq!(tokens[0].token_type, TokenType::Float);
    assert_eq!(tokens[0].value, "3.25");
    let tokens = lex("1.2.3");
    assert_eq!(
        tokens.iter().map(|t| (t.token_type, t.value.as_str())).collect::<Vec<_>>(),
        vec![
            (TokenType::Float, "1.2"),
            (TokenType::Dot, "."),
            (TokenType::Integer, "3"),
            (TokenType::EOF, "End Of File"),
        ]
    );
    assert_eq!(parsed("3.25"), "{f3.25}");
}

#[test]
fn string_literals() {
    let tokens = lex("\"hello world\" x");
    assert_eq!(tokens[0].token_type, TokenType::String);
    assert_eq!(tokens[0].value, "hello world");
    assert_eq!(tokens[0].start_position.column, 1);
    assert_eq!(tokens[0].end_position.column, 14);
    assert_eq!(tokens[1].start_position.column, 15);
    let tokens = lex("\"open");
    assert_eq!(tokens[0].value, "open");
    assert_eq!(parsed("\"hi\""), "{\"hi\"}");
}

#[test]
fn delimiters_and_brackets() {
    assert_eq!(
        kinds("; . : , ( ) [ ] { }"),
        vec![
            TokenType::SemiColon,
            TokenType::Dot,
            TokenType::Colon,
            TokenType::Comma,
            TokenType::LeftParen,
            TokenType::RightParen,
            TokenType::LeftBracket,
            TokenType::RightBracket,
            TokenType::LeftBrace,
            TokenType::RightBrace,
            TokenType::EOF,
        ]
    );
}

#[test]
fn positions_follow_lines() {
    let tokens = lex("a\n  bc");
    assert_eq!((tokens[0].start_position.line, tokens[0].start_position.column), (1, 1));
    assert_eq!((tokens[1].start_position.line, tokens[1].start_position.column), (2, 3));
    assert_eq!((tokens[1].end_position.line, tokens[1].end_position.column), (2, 5));
    let eof = &tokens[2];
    assert_eq!(eof.token_type, TokenType::EOF);
    assert_eq!(eof.value, "End Of File");
    assert_eq!((eof.start_position.line, eof.start_position.column), (2, 5));
    assert_eq!((eof.end_position.line, eof.end_position.column), (2, 6));
}

#[test]
fn empty_source() {
    let tokens = lex("");
    assert_eq!(tokens.len(), 1);
    assert_eq!(tokens[0].token_type, TokenType::EOF);
    assert_eq!(tokens[0].start_position.column, 1);
    assert_eq!(tokens[0].end_position.column, 2);
    assert_eq!(parsed(""), "{}");
    assert_eq!(parsed("  # only a comment"), "{}");
}

#[test]
fn comments_are_skipped() {
    assert_eq!(kinds("1 # one\n2"), vec![TokenType::Integer, TokenType::Integer, TokenType::EOF]);
    let tokens = lex("1 /* a\n b */ 2");
    assert_eq!(tokens.len(), 3);
    assert_eq!((tokens[1].start_position.line, tokens[1].start_position.column), (2, 7));
    assert_eq!(kinds("/*/ 5"), vec![TokenType::Integer, TokenType::EOF]);
}

#[test]
fn unclosed_comment_is_an_error() {
    let d = lex_err("1 /* never closed");
    assert_eq!(d.kind, ErrorKind::UnclosedComment);
    assert_eq!(d.position.line, 1);
    assert_eq!(d.position.column, 18);
    assert_eq!(d.error_type(), "Syntax error");
    assert_eq!(d.message(), "Unclosed multi-line comment");
}

#[test]
fn unknown_character_is_an_error() {
    let d = lex_err("x = 1;\n  @");
    assert_eq!(d.kind, ErrorKind::UnknownCharacter);
    assert_eq!((d.position.line, d.position.column), (2, 3));
    assert_eq!(d.found, "");
    assert_eq!(d.error_type(), "Type error");
}

#[test]
fn multiplication_binds_tighter_than_addition() {
    assert_eq!(parsed("1 + 2 * 3"), "{(+ 1 (* 2 3))}");
    assert_eq!(parsed("1 * 2 + 3"), "{(+ (* 1 2) 3)}");
    assert_eq!(parsed("1 + 2 == 3"), "{(== (+ 1 2) 3)}");
    assert_eq!(parsed("2 * 3 ^ 2"), "{(* 2 (^ 3 2))}");
    assert_eq!(parsed("(1 + 2) * 3"), "{(* (+ 1 2) 3)}");
}

#[test]
fn subtraction_is_left_associative() {
    assert_eq!(parsed("1 - 2 - 3"), "{(- (- 1 2) 3)}");
    assert_eq!(parsed("2 ^ 3 ^ 2"), "{(^ (^ 2 3) 2)}");
    assert_eq!(parsed("1 == 2 == 3"), "{(== (== 1 2) 3)}");
    assert_eq!(parsed("8 / 4 // 2 % 3"), "{(% (// (/ 8 4) 2) 3)}");
}

#[test]
fn unary_signs_chain() {
    assert_eq!(parsed("--5"), "{(u- (u- 5))}");
    assert_eq!(parsed("+-5"), "{(u+ (u- 5))}");
    assert_eq!(parsed("1 - -2"), "{(- 1 (u- 2))}");
}

#[test]
fn comparison_operators() {
    assert_eq!(parsed("1 > 2"), "{(> 1 2)}");
    assert_eq!(parsed("1 >= 2"), "{(>= 1 2)}");
    assert_eq!(parsed("1 < 2"), "{(< 1 2)}");
    assert_eq!(parsed("1 <= 2"), "{(<= 1 2)}");
    assert_eq!(parsed("1 != 2"), "{(!= 1 2)}");
}

#[test]
fn immutable_declaration_needs_a_value() {
    let d = parse_err("int x;");
    assert_eq!(d.kind, ErrorKind::MissingInitializer);
    assert_eq!(d.error_type(), "InitializationError");
    assert_eq!((d.position.line, d.position.column), (1, 6));
    assert_eq!(parsed("mutable int x;"), "{(decl true int x \"undefined\")}");
    assert_eq!(parsed("int x = 1 + 2;"), "{(decl false int x (+ 1 2))}");
}

#[test]
fn declaration_errors() {
    assert_eq!(parse_err("mutable x = 1;").kind, ErrorKind::ExpectedType);
    assert_eq!(parse_err("int = 1;").kind, ErrorKind::ExpectedIdentifier);
    assert_eq!(parse_err("int x = 1").kind, ErrorKind::ExpectedSemicolon);
    assert_eq!(parse_err("int").kind, ErrorKind::ExpectedIdentifier);
}

#[test]
fn assignments() {
    assert_eq!(parsed("x = 4;"), "{(= x 4)}");
    let d = parse_err("x + 1;");
    assert_eq!(d.kind, ErrorKind::ExpectedAssignment);
    assert_eq!(d.found, "x");
    assert_eq!(d.message(), "Expected '=' or '(', got x");
    assert_eq!(parse_err("x = 4").kind, ErrorKind::ExpectedSemicolon);
}

#[test]
fn vector_literals() {
    assert_eq!(parsed("[1, 2, 3]"), "{[1 2 3]}");
    assert_eq!(parsed("[]"), "{[]}");
    assert_eq!(parsed("[[1], 2 + 3]"), "{[[1] (+ 2 3)]}");
    let d = parse_err("[1, 2,]");
    assert_eq!(d.kind, ErrorKind::UnexpectedToken);
    assert_eq!(d.found, "]");
    let d = parse_err("[1 2]");
    assert_eq!(d.kind, ErrorKind::VectorExpectedCommaOrBracket);
    assert_eq!(d.hint(), "Got unexpected token: 2");
}

#[test]
fn parentheses_must_close() {
    let d = parse_err("(1 + 2");
    assert_eq!(d.kind, ErrorKind::ExpectedRightParen);
    assert_eq!(d.found, "End Of File");
}

#[test]
fn while_loop_round_trip() {
    assert_eq!(
        parsed("while (true) { mutable int x = 1; }"),
        "{(while (true) {(decl true int x 1)})}"
    );
    assert_eq!(parsed("while (1 2) { }"), "{(while (1 2) {})}");
}

#[test]
fn while_loop_errors() {
    assert_eq!(parse_err("while true) { }").kind, ErrorKind::WhileExpectedLeftParen);
    assert_eq!(parse_err("while (true { }").kind, ErrorKind::WhileExpectedRightParen);
    let d = parse_err("while (true) x = 1; }");
    assert_eq!(d.kind, ErrorKind::WhileExpectedLeftBrace);
    assert_eq!(d.message(), "'while' condition must be followed by '{', got x");
    assert_eq!(parse_err("while (true) { x = 1;").kind, ErrorKind::WhileExpectedRightBrace);
    assert_eq!(parse_err("while () { }").kind, ErrorKind::UnexpectedToken);
}

fn token(kind: TokenType, text: &str, column: i32) -> Token {
    Token::new(kind, text, Position::new(column, 1), Position::new(column + 1, 1))
}

fn foreach_tokens() -> Vec<Token> {
    vec![
        token(TokenType::ForEach, "foreach", 1),
        token(TokenType::LeftParen, "(", 2),
        token(TokenType::Type, "int", 3),
        token(TokenType::Identifier, "x", 4),
        token(TokenType::In, "in", 5),
        token(TokenType::Identifier, "xs", 6),
        token(TokenType::RightParen, ")", 7),
        token(TokenType::LeftBrace, "{", 8),
        token(TokenType::Identifier, "y", 9),
        token(TokenType::Assign, "=", 10),
        token(TokenType::Identifier, "x", 11),
        token(TokenType::SemiColon, ";", 12),
        token(TokenType::RightBrace, "}", 13),
        token(TokenType::EOF, "End Of File", 14),
    ]
}

#[test]
fn foreach_loop() {
    let tokens = foreach_tokens();
    let mut tokens_ok = foreach_tokens();
    tokens_ok[10] = token(TokenType::Integer, "3", 11);
    let ast = Parser::new("", &tokens_ok).produce_ast().expect("foreach parses");
    assert_eq!(show(&ast), "{(foreach int x xs {(= y 3)})}");
    let d = Parser::new("", &tokens).produce_ast().unwrap_err();
    assert_eq!(d.kind, ErrorKind::UnexpectedToken);
    assert_eq!(d.position.column, 11);
}

#[test]
fn foreach_loop_errors() {
    let expected = [
        (1, ErrorKind::ForEachExpectedLeftParen),
        (2, ErrorKind::ForEachExpectedType),
        (3, ErrorKind::ForEachExpectedItemName),
        (4, ErrorKind::ForEachExpectedIn),
        (5, ErrorKind::ForEachExpectedCollection),
        (6, ErrorKind::ForEachExpectedRightParen),
        (7, ErrorKind::ForEachExpectedLeftBrace),
    ];
    for (at, kind) in expected {
        let mut tokens = foreach_tokens();
        tokens[at] = token(TokenType::SemiColon, ";", at as i32 + 1);
        let d = Parser::new("", &tokens).produce_ast().unwrap_err();
        assert_eq!(d.kind, kind);
        assert_eq!(d.position.column, at as i32 + 1);
    }
    let mut tokens = foreach_tokens();
    tokens.truncate(12);
    tokens.push(token(TokenType::EOF, "End Of File", 13));
    let mut tokens_ok = tokens;
    tokens_ok[10] = token(TokenType::Integer, "3", 11);
    let d = Parser::new("", &tokens_ok).produce_ast().unwrap_err();
    assert_eq!(d.kind, ErrorKind::ForEachExpectedRightBrace);
}

#[test]
fn unexpected_token_at_primary() {
    let d = parse_err("1 + ;");
    assert_eq!(d.kind, ErrorKind::UnexpectedToken);
    assert_eq!(d.found, ";");
    assert_eq!((d.position.line, d.position.column), (1, 5));
    assert_eq!(d.error_type(), "Unknown Token Error");
    assert_eq!(d.message(), "Unexpected token");
    assert_eq!(d.hint(), "Got unexpected token: ;");
}

#[test]
fn program_of_several_statements() {
    assert_eq!(
        parsed("mutable int a = 1;\na = 2 + 1;\n[3, \"s\", false]"),
        "{(decl true int a 1) (= a (+ 2 1)) [3 \"s\" false]}"
    );
}

#[test]
fn relexing_a_lexeme_gives_the_same_kind() {
    let src = "mutable int x = 12 + 3.5; else if y >= 2 // 3 && z || !w\nwhile (x) { [a, b] } else : & ^ 1.";
    for t in lex(src) {
        if t.token_type == TokenType::String || t.token_type == TokenType::EOF {
            continue;
        }
        let again = lex(&t.value);
        assert_eq!(again.len(), 2, "{:?}", t.value);
        assert_eq!(again[0].token_type, t.token_type);
        assert_eq!(again[0].value, t.value);
    }
}

#[test]
fn fatal_errors_are_deterministic() {
    for src in ["int x;", "1 + ;", "x = 1 @", "/* open", "while (1 { }"] {
        let a = parse_err(src);
        let b = parse_err(src);
        assert_eq!(a.kind, b.kind);
        assert_eq!(a.found, b.found);
        assert_eq!(a.position.line, b.position.line);
        assert_eq!(a.position.column, b.position.column);
        assert_eq!(a.message(), b.message());
    }
}

#[test]
fn source_lines_for_context() {
    let src = "first\nsecond line\n\nlast";
    assert_eq!(source_line(src, 1), "first");
    assert_eq!(source_line(src, 2), "second line");
    assert_eq!(source_line(src, 3), "");
    assert_eq!(source_line(src, 4), "last");
    assert_eq!(source_line(src, 5), "");
    assert_eq!(source_line(src, 0), "");
    assert_eq!(source_line("", 1), "");
}

#[test]
fn position_moves() {
    let mut p = Position::new(1, 1);
    p.next_column();
    p.next_column();
    assert_eq!((p.line, p.column), (1, 3));
    p.next_line();
    assert_eq!((p.line, p.column, p.initial_column), (2, 1, 1));
}

#[test]
fn token_new_keeps_its_fields() {
    let t = Token::new(TokenType::Identifier, "abc", Position::new(4, 2), Position::new(7, 2));
    assert_eq!(t.token_type, TokenType::Identifier);
    assert_eq!(t.value, "abc");
    assert_eq!(t.start_position.column, 4);
    assert_eq!(t.end_position.column, 7);
}

#[test]
fn scopes_nest() {
    let global = Scope::new(None);
    assert!(global.parent().is_none());
    let inner = Scope::new(Some(Box::new(Scope::new(None))));
    assert!(inner.parent().is_some());
    let s = Scope::new(None);
    assert!(s.symbols().is_empty());
    let sym = Symbol { name: "x".to_string(), symbol_type: SymbolType::Variable, data_type: Some("int".to_string()) };
    assert_eq!(sym.symbol_type, SymbolType::Variable);
}

#[test]
fn every_error_has_text() {
    let d = parse_err("9999999999999999999999");
    assert_eq!(d.error_type(), "SyntaxError");
    assert!(!d.message().is_empty());
    assert!(!d.hint().is_empty());
}

#[test]
fn tree_rendering() {
    let ast = parse_source("1 + 2").unwrap();
    assert_eq!(
        pretty_ast(&ast, 0, false),
        "Program\n└─Addition\n│  ├─└─ Integer: 1\n│  └─└─ Integer: 2\n"
    );
    let ast = parse_source("while (true) { x = 1; }").unwrap();
    assert_eq!(
        pretty_ast(&ast, 0, false),
        "Program\n└─While\n└─├─ Condition\n│  └─└─ Boolean: true\n└─└─ Block\n│  └─Assignment\n│  └─    Identifier: x\n│  │  │  └─└─ Integer: 1\n"
    );
    let ast = parse_source("mutable int x;").unwrap();
    assert_eq!(
        pretty_ast(&ast, 0, false),
        "Program\n└─Declaration\n└─└─ Is Mutable: true\n└─└─ Var Type: int\n└─└─ Identifier: x\n│  └─└─ String: undefined\n"
    );
    assert_eq!(pretty_ast(&parse_source("").unwrap(), 0, false), "Program\n");
    assert_eq!(pretty_ast(&Node::Integer { value: -5 }, 0, false), "└─ Integer: -5\n");
    assert_eq!(pretty_ast(&Node::Integer { value: i64::MIN }, 0, true), "└─ Integer: -9223372036854775808\n");
    assert_eq!(pretty_ast(&Node::Boolean { value: false }, 1, false), "├─└─ Boolean: false\n");
    assert_eq!(
        pretty_ast(&parse_source("[-2.5]").unwrap(), 0, false),
        "Program\n└─Vector\n│  └─UnaryMinus\n│  │  └─└─ Float: 2.5\n"
    );
}
