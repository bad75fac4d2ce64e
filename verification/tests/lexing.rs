use sanskriti::lexer::{tokenize, Lexer};
use sanskriti::token::{unquote, LexError, Token, TokenKind};

fn tok(kind: TokenKind, lexeme: &str, line: usize) -> Result<Token, LexError> {
    Ok(Token { kind, lexeme: lexeme.to_string(), line })
}

fn kinds(source: &str) -> Vec<TokenKind> {
    tokenize(source).into_iter().map(|step| step.unwrap().kind).collect()
}

#[test]
fn empty_text_has_no_items() {
    assert_eq!(tokenize(""), vec![]);
    assert_eq!(tokenize("   \t\r\n  "), vec![]);
    assert_eq!(tokenize("// only a remark"), vec![]);
    assert_eq!(tokenize("// one\n// two\n"), vec![]);
}

#[test]
fn punctuation() {
    assert_eq!(
        kinds("(){},.-+;*/"),
        vec![
            TokenKind::LeftParen,
            TokenKind::RightParen,
            TokenKind::LeftBrace,
            TokenKind::RightBrace,
            TokenKind::Comma,
            TokenKind::Dot,
            TokenKind::Minus,
            TokenKind::Plus,
            TokenKind::Semicolon,
            TokenKind::Star,
            TokenKind::Slash,
        ]
    );
}

#[test]
fn one_and_two_character_operators() {
    assert_eq!(
        kinds("! != = == < <= > >="),
        vec![
            TokenKind::Bang,
            TokenKind::BangEqual,
            TokenKind::Equal,
            TokenKind::EqualEqual,
            TokenKind::Less,
            TokenKind::LessEqual,
            TokenKind::Greater,
            TokenKind::GreaterEqual,
        ]
    );
    assert_eq!(kinds("==="), vec![TokenKind::EqualEqual, TokenKind::Equal]);
    assert_eq!(kinds("!=="), vec![TokenKind::BangEqual, TokenKind::Equal]);
    assert_eq!(kinds("<=>"), vec![TokenKind::LessEqual, TokenKind::Greater]);
    assert_eq!(kinds("!"), vec![TokenKind::Bang]);
}

#[test]
fn keywords_and_names() {
    assert_eq!(
        kinds("and class else false for fun if nil or print return super this true var while"),
        vec![
            TokenKind::And,
            TokenKind::Class,
            TokenKind::Else,
            TokenKind::False,
            TokenKind::For,
            TokenKind::Fun,
            TokenKind::If,
            TokenKind::Nil,
            TokenKind::Or,
            TokenKind::Print,
            TokenKind::Return,
            TokenKind::Super,
            TokenKind::This,
            TokenKind::True,
            TokenKind::Var,
            TokenKind::While,
        ]
    );
    assert_eq!(
        tokenize("andy _x x1 While printer"),
        vec![
            tok(TokenKind::Ident, "andy", 1),
            tok(TokenKind::Ident, "_x", 1),
            tok(TokenKind::Ident, "x1", 1),
            tok(TokenKind::Ident, "While", 1),
            tok(TokenKind::Ident, "printer", 1),
        ]
    );
}

#[test]
fn number_literals_keep_their_text() {
    assert_eq!(tokenize("0"), vec![tok(TokenKind::Number, "0", 1)]);
    assert_eq!(tokenize("123"), vec![tok(TokenKind::Number, "123", 1)]);
    assert_eq!(tokenize("123.456"), vec![tok(TokenKind::Number, "123.456", 1)]);
    assert_eq!(tokenize("007.50"), vec![tok(TokenKind::Number, "007.50", 1)]);
    assert_eq!(
        tokenize("3.14159265358979323846"),
        vec![tok(TokenKind::Number, "3.14159265358979323846", 1)]
    );
}

#[test]
fn number_literals_read_back_to_the_same_double() {
    for (text, value) in [
        ("0", 0.0f64),
        ("1", 1.0),
        ("42", 42.0),
        ("0.1", 0.1),
        ("123.456", 123.456),
        ("9007199254740993", 9007199254740992.0),
        ("179769313486231570000000000000000000000", 1.797_693_134_862_315_7e38),
    ] {
        let steps = tokenize(text);
        assert_eq!(steps.len(), 1);
        let token = steps[0].clone().unwrap();
        assert_eq!(token.kind, TokenKind::Number);
        assert_eq!(token.lexeme, text);
        assert_eq!(token.lexeme.parse::<f64>().unwrap().to_bits(), value.to_bits());
    }
}

#[test]
fn a_point_needs_a_digit_behind_it() {
    assert_eq!(
        tokenize("1."),
        vec![tok(TokenKind::Number, "1", 1), tok(TokenKind::Dot, ".", 1)]
    );
    assert_eq!(
        tokenize(".5"),
        vec![tok(TokenKind::Dot, ".", 1), tok(TokenKind::Number, "5", 1)]
    );
    assert_eq!(
        tokenize("1.2.3"),
        vec![
            tok(TokenKind::Number, "1.2", 1),
            tok(TokenKind::Dot, ".", 1),
            tok(TokenKind::Number, "3", 1),
        ]
    );
    assert_eq!(
        tokenize("12abc"),
        vec![tok(TokenKind::Number, "12", 1), tok(TokenKind::Ident, "abc", 1)]
    );
}

#[test]
fn string_literals() {
    assert_eq!(tokenize("\"\""), vec![tok(TokenKind::String, "\"\"", 1)]);
    assert_eq!(tokenize("\"abc\""), vec![tok(TokenKind::String, "\"abc\"", 1)]);
    assert_eq!(
        tokenize("\"a // b\" x"),
        vec![tok(TokenKind::String, "\"a // b\"", 1), tok(TokenKind::Ident, "x", 1)]
    );
    assert_eq!(unquote(&"\"abc\"".to_string()), "abc");
    assert_eq!(unquote(&"\"\"".to_string()), "");
    assert_eq!(unquote(&"x".to_string()), "x");
}

#[test]
fn a_string_may_span_lines() {
    assert_eq!(
        tokenize("\"a\nb\" c\n d"),
        vec![
            tok(TokenKind::String, "\"a\nb\"", 1),
            tok(TokenKind::Ident, "c", 2),
            tok(TokenKind::Ident, "d", 3),
        ]
    );
}

#[test]
fn comments_and_lines() {
    assert_eq!(
        tokenize("a // remark ( \" \nb\n\n  c / d //"),
        vec![
            tok(TokenKind::Ident, "a", 1),
            tok(TokenKind::Ident, "b", 2),
            tok(TokenKind::Ident, "c", 4),
            tok(TokenKind::Slash, "/", 4),
            tok(TokenKind::Ident, "d", 4),
        ]
    );
}

#[test]
fn unicode_white_space_is_skipped() {
    assert_eq!(
        tokenize("a\u{a0}b\u{2003}c\u{3000}d\u{b}e\u{c}f"),
        vec![
            tok(TokenKind::Ident, "a", 1),
            tok(TokenKind::Ident, "b", 1),
            tok(TokenKind::Ident, "c", 1),
            tok(TokenKind::Ident, "d", 1),
            tok(TokenKind::Ident, "e", 1),
            tok(TokenKind::Ident, "f", 1),
        ]
    );
}

#[test]
fn white_space_agrees_with_the_standard_library() {
    for n in 0..0x11_0000u32 {
        if let Some(c) = char::from_u32(n) {
            let source: String = [c].iter().collect();
            let skipped = tokenize(&source).is_empty();
            if n < 0x4000 {
                assert_eq!(skipped, c.is_whitespace(), "U+{n:04X}");
            } else if c.is_whitespace() {
                assert!(skipped, "U+{n:04X}");
            }
        }
    }
}

#[test]
fn an_unexpected_character_is_reported_and_lexing_goes_on() {
    assert_eq!(
        tokenize(",.$(#"),
        vec![
            tok(TokenKind::Comma, ",", 1),
            tok(TokenKind::Dot, ".", 1),
            Err(LexError::UnexpectedCharacter { character: '$', line: 1 }),
            tok(TokenKind::LeftParen, "(", 1),
            Err(LexError::UnexpectedCharacter { character: '#', line: 1 }),
        ]
    );
    assert_eq!(
        tokenize("a\n@\nb é"),
        vec![
            tok(TokenKind::Ident, "a", 1),
            Err(LexError::UnexpectedCharacter { character: '@', line: 2 }),
            tok(TokenKind::Ident, "b", 3),
            Err(LexError::UnexpectedCharacter { character: 'é', line: 3 }),
        ]
    );
}

#[test]
fn an_unterminated_string_is_reported_on_its_opening_line() {
    assert_eq!(tokenize("\"abc"), vec![Err(LexError::UnterminatedString { line: 1 })]);
    assert_eq!(tokenize("\""), vec![Err(LexError::UnterminatedString { line: 1 })]);
    assert_eq!(
        tokenize("var a = \"hello\nworld\n\nmore\n"),
        vec![
            tok(TokenKind::Var, "var", 1),
            tok(TokenKind::Ident, "a", 1),
            tok(TokenKind::Equal, "=", 1),
            Err(LexError::UnterminatedString { line: 1 }),
        ]
    );
    assert_eq!(
        tokenize("x\n\n  \"never closed\n ; ( \n"),
        vec![tok(TokenKind::Ident, "x", 1), Err(LexError::UnterminatedString { line: 3 })]
    );
}

#[test]
fn unterminated_string_scenario() {
    let steps = tokenize("print \"ok\";\nprint \"oops;\nprint 1;\n");
    let errors: Vec<LexError> = steps.iter().filter_map(|s| s.clone().err()).collect();
    assert_eq!(errors, vec![LexError::UnterminatedString { line: 2 }]);
    assert_eq!(errors[0].line(), 2);
    assert!(matches!(steps.last(), Some(Err(LexError::UnterminatedString { line: 2 }))));
    assert_eq!(steps.len(), 5);
}

#[test]
fn error_lines() {
    assert_eq!(LexError::UnexpectedCharacter { character: '@', line: 7 }.line(), 7);
    assert_eq!(LexError::UnterminatedString { line: 9 }.line(), 9);
}

#[test]
fn the_lexer_hands_out_one_item_at_a_time() {
    let mut lexer = Lexer::new("a = 1 ;");
    assert_eq!(lexer.next_token(), Some(tok(TokenKind::Ident, "a", 1)));
    assert_eq!(lexer.next_token(), Some(tok(TokenKind::Equal, "=", 1)));
    assert_eq!(lexer.next_token(), Some(tok(TokenKind::Number, "1", 1)));
    assert_eq!(lexer.next_token(), Some(tok(TokenKind::Semicolon, ";", 1)));
    assert_eq!(lexer.next_token(), None);
    assert_eq!(lexer.next_token(), None);
}

#[test]
fn lexing_again_from_scratch_gives_the_same_items() {
    let source = "var x = (1 + 2) * 3; // done\nprint x;";
    assert_eq!(tokenize(source), tokenize(source));
    let mut lexer = Lexer::new(source);
    let mut steps = Vec::new();
    while let Some(step) = lexer.next_token() {
        steps.push(step);
    }
    assert_eq!(steps, tokenize(source));
}

#[test]
fn token_duplicate() {
    let token = Token { kind: TokenKind::Ident, lexeme: "abc".to_string(), line: 3 };
    assert_eq!(token.duplicate(), token);
}

#[test]
fn kind_names() {
    assert_eq!(TokenKind::LeftParen.name(), "LEFT_PAREN");
    assert_eq!(TokenKind::RightBrace.name(), "RIGHT_BRACE");
    assert_eq!(TokenKind::BangEqual.name(), "BANG_EQUAL");
    assert_eq!(TokenKind::GreaterEqual.name(), "GREATER_EQUAL");
    assert_eq!(TokenKind::Ident.name(), "IDENTIFIER");
    assert_eq!(TokenKind::String.name(), "STRING");
    assert_eq!(TokenKind::Number.name(), "NUMBER");
    assert_eq!(TokenKind::While.name(), "WHILE");
}

#[test]
fn listing_lines() {
    let list = |source: &str, number: &str| tokenize(source)[0].clone().unwrap().list(number);
    assert_eq!(list("(", ""), "LEFT_PAREN ( null");
    assert_eq!(list("==", "ignored"), "EQUAL_EQUAL == null");
    assert_eq!(list("and", ""), "AND and null");
    assert_eq!(list("foo", ""), "IDENTIFIER foo null");
    assert_eq!(list("\"hello world\"", ""), "STRING \"hello world\" hello world");
    assert_eq!(list("12", "12.0"), "NUMBER 12 12.0");
    assert_eq!(list("12.50", "12.5"), "NUMBER 12.50 12.5");
}
