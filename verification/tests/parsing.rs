use sanskriti::parser::{ParseError, Parser};
use sanskriti::token::{LexError, TokenKind};
use sanskriti::tree::{Atom, Op, TokenTree};

fn num(text: &str) -> TokenTree {
    TokenTree::Atom(Atom::Number(text.to_string()))
}

fn name(text: &str) -> TokenTree {
    TokenTree::Atom(Atom::Ident(text.to_string()))
}

fn string(text: &str) -> TokenTree {
    TokenTree::Atom(Atom::String(text.to_string()))
}

fn cons(op: Op, kids: Vec<TokenTree>) -> TokenTree {
    TokenTree::Cons(op, kids)
}

fn expr(source: &str) -> Result<TokenTree, ParseError> {
    Parser::new(source).parse_expression()
}

fn program(source: &str) -> Result<Vec<TokenTree>, ParseError> {
    Parser::new(source).parse_program()
}

#[test]
fn terminals() {
    assert_eq!(expr("12.5"), Ok(num("12.5")));
    assert_eq!(expr("\"hi there\""), Ok(string("hi there")));
    assert_eq!(expr("\"\""), Ok(string("")));
    assert_eq!(expr("true"), Ok(TokenTree::Atom(Atom::Bool(true))));
    assert_eq!(expr("false"), Ok(TokenTree::Atom(Atom::Bool(false))));
    assert_eq!(expr("nil"), Ok(TokenTree::Atom(Atom::Nil)));
    assert_eq!(expr("x"), Ok(name("x")));
    assert_eq!(expr("this"), Ok(TokenTree::Atom(Atom::This)));
    assert_eq!(expr("super"), Ok(TokenTree::Atom(Atom::Super)));
}

#[test]
fn product_binds_tighter_than_sum() {
    assert_eq!(
        expr("1 + 2 * 3"),
        Ok(cons(Op::Plus, vec![num("1"), cons(Op::Star, vec![num("2"), num("3")])]))
    );
    assert_eq!(
        expr("1 * 2 + 3"),
        Ok(cons(Op::Plus, vec![cons(Op::Star, vec![num("1"), num("2")]), num("3")]))
    );
}

#[test]
fn binary_operators_group_to_the_left() {
    assert_eq!(
        expr("1 - 2 - 3"),
        Ok(cons(Op::Minus, vec![cons(Op::Minus, vec![num("1"), num("2")]), num("3")]))
    );
    assert_eq!(
        expr("8 / 4 / 2 * 3"),
        Ok(cons(
            Op::Star,
            vec![
                cons(Op::Slash, vec![cons(Op::Slash, vec![num("8"), num("4")]), num("2")]),
                num("3"),
            ]
        ))
    );
    assert_eq!(
        expr("a == b != c"),
        Ok(cons(
            Op::BangEqual,
            vec![cons(Op::EqualEqual, vec![name("a"), name("b")]), name("c")]
        ))
    );
    assert_eq!(
        expr("a < b <= c > d >= e"),
        Ok(cons(
            Op::GreaterEqual,
            vec![
                cons(
                    Op::Greater,
                    vec![
                        cons(
                            Op::LessEqual,
                            vec![cons(Op::Less, vec![name("a"), name("b")]), name("c")]
                        ),
                        name("d"),
                    ]
                ),
                name("e"),
            ]
        ))
    );
    assert_eq!(
        expr("a or b or c"),
        Ok(cons(Op::Or, vec![cons(Op::Or, vec![name("a"), name("b")]), name("c")]))
    );
}

#[test]
fn the_levels_of_precedence() {
    assert_eq!(
        expr("a or b and c == d < e + f * -g"),
        Ok(cons(
            Op::Or,
            vec![
                name("a"),
                cons(
                    Op::And,
                    vec![
                        name("b"),
                        cons(
                            Op::EqualEqual,
                            vec![
                                name("c"),
                                cons(
                                    Op::Less,
                                    vec![
                                        name("d"),
                                        cons(
                                            Op::Plus,
                                            vec![
                                                name("e"),
                                                cons(
                                                    Op::Star,
                                                    vec![
                                                        name("f"),
                                                        cons(Op::Minus, vec![name("g")]),
                                                    ]
                                                ),
                                            ]
                                        ),
                                    ]
                                ),
                            ]
                        ),
                    ]
                ),
            ]
        ))
    );
}

#[test]
fn unary_operators() {
    assert_eq!(expr("-1"), Ok(cons(Op::Minus, vec![num("1")])));
    assert_eq!(expr("!true"), Ok(cons(Op::Bang, vec![TokenTree::Atom(Atom::Bool(true))])));
    assert_eq!(
        expr("!-!x"),
        Ok(cons(Op::Bang, vec![cons(Op::Minus, vec![cons(Op::Bang, vec![name("x")])])]))
    );
    assert_eq!(
        expr("1 - -2"),
        Ok(cons(Op::Minus, vec![num("1"), cons(Op::Minus, vec![num("2")])]))
    );
}

#[test]
fn parentheses_make_a_group() {
    assert_eq!(expr("(1)"), Ok(cons(Op::Group, vec![num("1")])));
    assert_eq!(
        expr("(1 + 2) * 3"),
        Ok(cons(
            Op::Star,
            vec![cons(Op::Group, vec![cons(Op::Plus, vec![num("1"), num("2")])]), num("3")]
        ))
    );
    assert_eq!(
        expr("((x))"),
        Ok(cons(Op::Group, vec![cons(Op::Group, vec![name("x")])]))
    );
}

#[test]
fn assignment_groups_to_the_right() {
    assert_eq!(expr("a = 1"), Ok(cons(Op::Assign, vec![name("a"), num("1")])));
    assert_eq!(
        expr("a = b = 3"),
        Ok(cons(Op::Assign, vec![name("a"), cons(Op::Assign, vec![name("b"), num("3")])]))
    );
    assert_eq!(
        expr("a = b or c"),
        Ok(cons(Op::Assign, vec![name("a"), cons(Op::Or, vec![name("b"), name("c")])]))
    );
}

#[test]
fn an_assignment_needs_a_name_on_its_left() {
    assert_eq!(expr("1 = 2"), Err(ParseError::InvalidAssignmentTarget { line: 1 }));
    assert_eq!(expr("a + b = 2"), Err(ParseError::InvalidAssignmentTarget { line: 1 }));
    assert_eq!(expr("(a) = 2"), Err(ParseError::InvalidAssignmentTarget { line: 1 }));
    assert_eq!(expr("a\n=\n1\n\n=\n2"), Err(ParseError::InvalidAssignmentTarget { line: 5 }));
}

#[test]
fn an_expression_that_ends_early() {
    assert_eq!(expr(""), Err(ParseError::UnexpectedEnd));
    assert_eq!(expr("1 +"), Err(ParseError::UnexpectedEnd));
    assert_eq!(expr("(1 + 2"), Err(ParseError::UnexpectedEnd));
    assert_eq!(expr("-"), Err(ParseError::UnexpectedEnd));
    assert_eq!(expr("a ="), Err(ParseError::UnexpectedEnd));
}

#[test]
fn a_token_out_of_place() {
    assert_eq!(
        expr(")"),
        Err(ParseError::UnexpectedToken { kind: TokenKind::RightParen, line: 1 })
    );
    assert_eq!(
        expr("1 + * 2"),
        Err(ParseError::UnexpectedToken { kind: TokenKind::Star, line: 1 })
    );
    assert_eq!(
        expr("(1 2)"),
        Err(ParseError::UnexpectedToken { kind: TokenKind::Number, line: 1 })
    );
    assert_eq!(
        expr("1\n+\nwhile"),
        Err(ParseError::UnexpectedToken { kind: TokenKind::While, line: 3 })
    );
    assert_eq!(
        expr("fun"),
        Err(ParseError::UnexpectedToken { kind: TokenKind::Fun, line: 1 })
    );
}

#[test]
fn one_expression_and_nothing_more() {
    assert_eq!(
        expr("1 2"),
        Err(ParseError::UnexpectedToken { kind: TokenKind::Number, line: 1 })
    );
    assert_eq!(
        expr("1;"),
        Err(ParseError::UnexpectedToken { kind: TokenKind::Semicolon, line: 1 })
    );
}

#[test]
fn a_text_that_does_not_lex_does_not_parse() {
    assert_eq!(
        expr("1 + @"),
        Err(ParseError::Lexical(LexError::UnexpectedCharacter { character: '@', line: 1 }))
    );
    assert_eq!(
        program("print 1;\nprint \"abc;\n"),
        Err(ParseError::Lexical(LexError::UnterminatedString { line: 2 }))
    );
    assert_eq!(
        program("# \"open"),
        Err(ParseError::Lexical(LexError::UnexpectedCharacter { character: '#', line: 1 }))
    );
}

#[test]
fn an_empty_program() {
    assert_eq!(program(""), Ok(vec![]));
    assert_eq!(program("// nothing here\n"), Ok(vec![]));
}

#[test]
fn declarations() {
    assert_eq!(program("var x = 1;"), Ok(vec![cons(Op::Var, vec![name("x"), num("1")])]));
    assert_eq!(
        program("var x;"),
        Ok(vec![cons(Op::Var, vec![name("x"), TokenTree::Atom(Atom::Nil)])])
    );
    assert_eq!(
        program("var x = 1 + 2;"),
        Ok(vec![cons(Op::Var, vec![name("x"), cons(Op::Plus, vec![num("1"), num("2")])])])
    );
    assert_eq!(
        program("var 1 = 2;"),
        Err(ParseError::UnexpectedToken { kind: TokenKind::Number, line: 1 })
    );
    assert_eq!(
        program("var x 1;"),
        Err(ParseError::UnexpectedToken { kind: TokenKind::Number, line: 1 })
    );
    assert_eq!(program("var"), Err(ParseError::UnexpectedEnd));
    assert_eq!(program("var x"), Err(ParseError::UnexpectedEnd));
    assert_eq!(program("var x = 1"), Err(ParseError::UnexpectedEnd));
}

#[test]
fn print_and_expression_statements() {
    assert_eq!(
        program("print 1; x = 2; 3;"),
        Ok(vec![
            cons(Op::Print, vec![num("1")]),
            cons(Op::Assign, vec![name("x"), num("2")]),
            num("3"),
        ])
    );
    assert_eq!(program("print 1"), Err(ParseError::UnexpectedEnd));
    assert_eq!(
        program("print;"),
        Err(ParseError::UnexpectedToken { kind: TokenKind::Semicolon, line: 1 })
    );
    assert_eq!(
        program("1 2;"),
        Err(ParseError::UnexpectedToken { kind: TokenKind::Number, line: 1 })
    );
}

#[test]
fn blocks() {
    assert_eq!(program("{}"), Ok(vec![cons(Op::Group, vec![])]));
    assert_eq!(
        program("{ print 1; { x; } }"),
        Ok(vec![cons(
            Op::Group,
            vec![cons(Op::Print, vec![num("1")]), cons(Op::Group, vec![name("x")])]
        )])
    );
    assert_eq!(program("{ print 1;"), Err(ParseError::UnexpectedEnd));
    assert_eq!(
        program("}"),
        Err(ParseError::UnexpectedToken { kind: TokenKind::RightBrace, line: 1 })
    );
}

#[test]
fn if_statements() {
    assert_eq!(
        program("if (a) print 1;"),
        Ok(vec![TokenTree::If {
            condition: Box::new(name("a")),
            yes: Box::new(cons(Op::Print, vec![num("1")])),
            no: None,
        }])
    );
    assert_eq!(
        program("if (a) print 1; else { print 2; }"),
        Ok(vec![TokenTree::If {
            condition: Box::new(name("a")),
            yes: Box::new(cons(Op::Print, vec![num("1")])),
            no: Some(Box::new(cons(Op::Group, vec![cons(Op::Print, vec![num("2")])]))),
        }])
    );
    assert_eq!(
        program("if a print 1;"),
        Err(ParseError::UnexpectedToken { kind: TokenKind::Ident, line: 1 })
    );
    assert_eq!(
        program("if (a print 1;"),
        Err(ParseError::UnexpectedToken { kind: TokenKind::Print, line: 1 })
    );
    assert_eq!(program("if (a)"), Err(ParseError::UnexpectedEnd));
}

#[test]
fn an_else_belongs_to_the_nearest_if() {
    assert_eq!(
        program("if (a) if (b) 1; else 2;"),
        Ok(vec![TokenTree::If {
            condition: Box::new(name("a")),
            yes: Box::new(TokenTree::If {
                condition: Box::new(name("b")),
                yes: Box::new(num("1")),
                no: Some(Box::new(num("2"))),
            }),
            no: None,
        }])
    );
}

#[test]
fn while_statements() {
    assert_eq!(
        program("while (x < 4) { print x; x = x + 1; }"),
        Ok(vec![cons(
            Op::While,
            vec![
                cons(Op::Less, vec![name("x"), num("4")]),
                cons(
                    Op::Group,
                    vec![
                        cons(Op::Print, vec![name("x")]),
                        cons(
                            Op::Assign,
                            vec![name("x"), cons(Op::Plus, vec![name("x"), num("1")])]
                        ),
                    ]
                ),
            ]
        )])
    );
    assert_eq!(
        program("while x;"),
        Err(ParseError::UnexpectedToken { kind: TokenKind::Ident, line: 1 })
    );
    assert_eq!(program("while (x)"), Err(ParseError::UnexpectedEnd));
}

#[test]
fn what_is_not_part_of_the_language_yet() {
    assert_eq!(
        program("fun f() {}"),
        Err(ParseError::UnexpectedToken { kind: TokenKind::Fun, line: 1 })
    );
    assert_eq!(
        program("f(1);"),
        Err(ParseError::UnexpectedToken { kind: TokenKind::LeftParen, line: 1 })
    );
    assert_eq!(
        program("return 1;"),
        Err(ParseError::UnexpectedToken { kind: TokenKind::Return, line: 1 })
    );
    assert_eq!(
        program("\n\nfor (;;) {}"),
        Err(ParseError::UnexpectedToken { kind: TokenKind::For, line: 3 })
    );
}

#[test]
fn parsing_again_gives_the_same_tree() {
    let source = "var x = 1; while (x < 4) { print x; x = x + 1; }";
    assert_eq!(program(source), program(source));
}
