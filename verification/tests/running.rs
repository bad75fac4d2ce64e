use sanskriti::interpreter::{Host, Interpreter};
use sanskriti::number::Number;
use sanskriti::parser::Parser;
use sanskriti::tree::{Atom, Op, TokenTree};
use sanskriti::value::Value;

/// A host that computes with the machine's doubles and keeps what is
/// printed.
#[derive(Default)]
struct Doubles {
    lines: Vec<String>,
    asked: usize,
    questions: Vec<String>,
}

fn float(n: Number) -> f64 {
    f64::from_bits(n.to_bits())
}

fn number(x: f64) -> Number {
    Number::from_bits(x.to_bits())
}

impl Host for Doubles {
    fn number(&mut self, literal: &str) -> Number {
        self.asked += 1;
        self.questions.push(format!("number {literal}"));
        number(literal.parse::<f64>().unwrap())
    }

    fn add(&mut self, a: Number, b: Number) -> Number {
        self.asked += 1;
        self.questions.push(format!("{} + {}", float(a), float(b)));
        number(float(a) + float(b))
    }

    fn subtract(&mut self, a: Number, b: Number) -> Number {
        self.asked += 1;
        self.questions.push(format!("{} - {}", float(a), float(b)));
        number(float(a) - float(b))
    }

    fn multiply(&mut self, a: Number, b: Number) -> Number {
        self.asked += 1;
        self.questions.push(format!("{} * {}", float(a), float(b)));
        number(float(a) * float(b))
    }

    fn divide(&mut self, a: Number, b: Number) -> Number {
        self.asked += 1;
        self.questions.push(format!("{} / {}", float(a), float(b)));
        assert!(float(b) != 0.0);
        number(float(a) / float(b))
    }

    fn numeral(&mut self, n: Number) -> String {
        self.asked += 1;
        self.questions.push(format!("text {}", float(n)));
        format!("{}", float(n))
    }

    fn print(&mut self, line: &str) {
        self.lines.push(line.to_string());
    }
}

fn run(source: &str) -> Vec<String> {
    let program = Parser::new(source).parse_program().unwrap();
    let mut interpreter = Interpreter::new(Doubles::default());
    assert!(interpreter.eval_program(&program));
    interpreter.into_host().lines
}

fn show(source: &str) -> String {
    let lines = run(&format!("print {source};"));
    assert_eq!(lines.len(), 1);
    lines.into_iter().next().unwrap()
}

fn num(text: &str) -> TokenTree {
    TokenTree::Atom(Atom::Number(text.to_string()))
}

fn name(text: &str) -> TokenTree {
    TokenTree::Atom(Atom::Ident(text.to_string()))
}

fn eval(tree: &TokenTree) -> Value {
    Interpreter::new(Doubles::default()).eval_expr(tree)
}

#[test]
fn scenario_counting_loop() {
    assert_eq!(
        run("var x = 1; while (x < 4) { print x; x = x + 1; }"),
        vec!["1.0", "2.0", "3.0"]
    );
}

#[test]
fn scenario_counting_loop_in_devanagari() {
    let source = "चर x = 1; यावद (x < 4) { कथय x; x = x + 1; }";
    let translated = sanskriti::translator::translate_file_contents(source);
    assert_eq!(run(&translated), vec!["1.0", "2.0", "3.0"]);
}

#[test]
fn scenario_string_plus_number() {
    assert_eq!(run("print \"a\" + 1;"), vec!["a1.0"]);
}

#[test]
fn scenario_nil_is_not_false() {
    assert_eq!(run("print nil == false;"), vec!["false"]);
}

#[test]
fn a_new_interpreter_binds_nothing() {
    let interpreter = Interpreter::new(Doubles::default());
    assert!(matches!(interpreter.lookup(&"x".to_string()), Value::Nil));
    assert!(interpreter.host().lines.is_empty());
    assert_eq!(interpreter.host().asked, 0);
}

#[test]
fn printed_forms() {
    assert_eq!(show("nil"), "nil");
    assert_eq!(show("true"), "true");
    assert_eq!(show("false"), "false");
    assert_eq!(show("\"hello\""), "hello");
    assert_eq!(show("\"\""), "");
    assert_eq!(show("3"), "3.0");
    assert_eq!(show("3.0"), "3.0");
    assert_eq!(show("1.5"), "1.5");
    assert_eq!(show("0.1 + 0.2"), "0.30000000000000004");
    assert_eq!(show("-0"), "-0.0");
    assert_eq!(show("1000000000000000000000"), "1000000000000000000000.0");
    assert_eq!(show("123456789.125"), "123456789.125");
}

#[test]
fn arithmetic() {
    assert_eq!(show("1 + 2"), "3.0");
    assert_eq!(show("1 - 2"), "-1.0");
    assert_eq!(show("3 * 4"), "12.0");
    assert_eq!(show("7 / 2"), "3.5");
    assert_eq!(show("1 + 2 * 3"), "7.0");
    assert_eq!(show("(1 + 2) * 3"), "9.0");
    assert_eq!(show("10 - 4 - 3"), "3.0");
    assert_eq!(show("-(1 + 2)"), "-3.0");
    assert_eq!(show("--1"), "1.0");
}

#[test]
fn arithmetic_on_what_is_no_number_is_nil() {
    assert_eq!(show("1 + true"), "nil");
    assert_eq!(show("nil + nil"), "nil");
    assert_eq!(show("true + false"), "nil");
    assert_eq!(show("1 - \"a\""), "nil");
    assert_eq!(show("\"a\" - \"b\""), "nil");
    assert_eq!(show("\"a\" * 2"), "nil");
    assert_eq!(show("nil / 2"), "nil");
    assert_eq!(show("2 / true"), "nil");
    assert_eq!(show("-\"a\""), "nil");
    assert_eq!(show("-nil"), "nil");
    assert_eq!(show("-true"), "nil");
}

#[test]
fn string_concatenation() {
    assert_eq!(show("\"a\" + \"b\""), "ab");
    assert_eq!(show("\"a\" + 1"), "a1.0");
    assert_eq!(show("1 + \"a\""), "1.0a");
    assert_eq!(show("\"a\" + 1.5"), "a1.5");
    assert_eq!(show("\"a\" + nil"), "anil");
    assert_eq!(show("nil + \"a\""), "nila");
    assert_eq!(show("\"a\" + true"), "atrue");
    assert_eq!(show("false + \"a\""), "falsea");
    assert_eq!(show("\"a\" + 1 + 2"), "a1.02.0");
    assert_eq!(show("1 + 2 + \"a\""), "3.0a");
}

#[test]
fn division_by_zero_is_nil() {
    assert_eq!(show("1 / 0"), "nil");
    assert_eq!(show("0 / 0"), "nil");
    assert_eq!(show("-1 / 0"), "nil");
    assert_eq!(show("1 / 0.0"), "nil");
    assert_eq!(show("1 / -0"), "nil");
    assert_eq!(show("1 / (1 - 1)"), "nil");
    assert_eq!(show("123456.789 / 0"), "nil");
    assert_eq!(show("1 / 0 == nil"), "true");
    assert_eq!(show("0 / 1"), "0.0");
}

#[test]
fn the_host_is_not_asked_for_a_quotient_by_zero() {
    let tree = TokenTree::Cons(Op::Slash, vec![num("1"), num("0")]);
    let mut interpreter = Interpreter::new(Doubles::default());
    assert!(matches!(interpreter.eval_expr(&tree), Value::Nil));
    assert_eq!(interpreter.host().asked, 2);
}

#[test]
fn comparisons() {
    assert_eq!(show("1 < 2"), "true");
    assert_eq!(show("2 < 1"), "false");
    assert_eq!(show("1 < 1"), "false");
    assert_eq!(show("1 <= 1"), "true");
    assert_eq!(show("2 <= 1"), "false");
    assert_eq!(show("2 > 1"), "true");
    assert_eq!(show("1 > 1"), "false");
    assert_eq!(show("1 >= 1"), "true");
    assert_eq!(show("1 >= 2"), "false");
    assert_eq!(show("-1 < 0"), "true");
    assert_eq!(show("-2 < -1"), "true");
    assert_eq!(show("0 < -0"), "false");
    assert_eq!(show("0 >= -0"), "true");
}

#[test]
fn comparisons_of_what_is_no_number_are_false() {
    assert_eq!(show("\"a\" < \"b\""), "false");
    assert_eq!(show("\"a\" <= \"a\""), "false");
    assert_eq!(show("1 < \"2\""), "false");
    assert_eq!(show("nil < 1"), "false");
    assert_eq!(show("nil >= nil"), "false");
    assert_eq!(show("true > false"), "false");
    assert_eq!(show("1 >= true"), "false");
}

#[test]
fn equality() {
    assert_eq!(show("nil == nil"), "true");
    assert_eq!(show("true == true"), "true");
    assert_eq!(show("true == false"), "false");
    assert_eq!(show("1 == 1"), "true");
    assert_eq!(show("1 == 2"), "false");
    assert_eq!(show("0 == -0"), "true");
    assert_eq!(show("\"a\" == \"a\""), "true");
    assert_eq!(show("\"a\" == \"b\""), "false");
    assert_eq!(show("1 != 1"), "false");
    assert_eq!(show("1 != 2"), "true");
    assert_eq!(show("\"a\" != \"a\""), "false");
    assert_eq!(show("nil != nil"), "false");
}

#[test]
fn programs_find_values_of_different_kinds_unequal() {
    assert_eq!(show("nil == false"), "false");
    assert_eq!(show("false == nil"), "false");
    assert_eq!(show("0 == false"), "false");
    assert_eq!(show("1 == \"1\""), "false");
    assert_eq!(show("\"nil\" == nil"), "false");
    assert_eq!(show("\"\" == false"), "false");
    assert_eq!(show("nil != false"), "true");
    assert_eq!(show("1 != \"1\""), "true");
}

#[test]
fn equality_is_symmetric_in_programs() {
    let operands = ["nil", "true", "false", "0", "1", "\"\"", "\"1\""];
    for a in operands {
        for b in operands {
            assert_eq!(show(&format!("{a} == {b}")), show(&format!("{b} == {a}")));
            assert_eq!(show(&format!("{a} == {b}")) == "true", a == b);
            assert_eq!(show(&format!("{a} != {b}")) == "true", a != b);
        }
    }
}

#[test]
fn not_gives_a_boolean() {
    assert_eq!(show("!true"), "false");
    assert_eq!(show("!false"), "true");
    assert_eq!(show("!nil"), "true");
    assert_eq!(show("!0"), "false");
    assert_eq!(show("!\"\""), "false");
    assert_eq!(show("!!nil"), "false");
}

#[test]
fn and_or_give_an_operand() {
    assert_eq!(show("1 and 2"), "2.0");
    assert_eq!(show("nil and 2"), "nil");
    assert_eq!(show("false and 2"), "false");
    assert_eq!(show("1 or 2"), "1.0");
    assert_eq!(show("nil or 2"), "2.0");
    assert_eq!(show("false or nil"), "nil");
    assert_eq!(show("0 and \"zero is truthy\""), "zero is truthy");
    assert_eq!(show("\"\" or 1"), "");
}

#[test]
fn and_does_not_run_its_right_side_behind_a_falsy_left() {
    assert_eq!(run("var x = 0; false and (x = 1); print x;"), vec!["0.0"]);
    assert_eq!(run("var x = 0; nil and (x = 1); print x;"), vec!["0.0"]);
    assert_eq!(run("var x = 0; true and (x = 1); print x;"), vec!["1.0"]);
}

#[test]
fn or_does_not_run_its_right_side_behind_a_truthy_left() {
    assert_eq!(run("var x = 0; true or (x = 1); print x;"), vec!["0.0"]);
    assert_eq!(run("var x = 0; 1 or (x = 1); print x;"), vec!["0.0"]);
    assert_eq!(run("var x = 0; false or (x = 1); print x;"), vec!["1.0"]);
}

#[test]
fn a_short_circuit_asks_the_host_nothing_for_its_right_side() {
    let right = TokenTree::Cons(Op::Plus, vec![num("1"), num("2")]);
    let tree = TokenTree::Cons(Op::And, vec![TokenTree::Atom(Atom::Bool(false)), right]);
    let mut interpreter = Interpreter::new(Doubles::default());
    assert!(matches!(interpreter.eval_expr(&tree), Value::Bool(false)));
    assert_eq!(interpreter.host().asked, 0);
    let right = TokenTree::Cons(Op::Plus, vec![num("1"), num("2")]);
    let tree = TokenTree::Cons(Op::Or, vec![TokenTree::Atom(Atom::Bool(true)), right]);
    assert!(matches!(interpreter.eval_expr(&tree), Value::Bool(true)));
    assert_eq!(interpreter.host().asked, 0);
}

#[test]
fn variables() {
    assert_eq!(run("var x = 1; print x;"), vec!["1.0"]);
    assert_eq!(run("var x; print x;"), vec!["nil"]);
    assert_eq!(run("print unbound;"), vec!["nil"]);
    assert_eq!(run("var x = 1; var x = \"again\"; print x;"), vec!["again"]);
    assert_eq!(run("var x = 1; x = x + 1; print x;"), vec!["2.0"]);
    assert_eq!(run("x = 5; print x;"), vec!["5.0"]);
}

#[test]
fn assignment_is_an_expression() {
    assert_eq!(run("var x; print x = 3;"), vec!["3.0"]);
    assert_eq!(run("var a; var b; a = b = 2; print a; print b;"), vec!["2.0", "2.0"]);
    assert_eq!(run("var x = 1; print (x = 2) + x;"), vec!["4.0"]);
}

#[test]
fn operands_are_evaluated_left_to_right() {
    assert_eq!(run("var x = 1; print x + (x = 10); print x;"), vec!["11.0", "10.0"]);
    assert_eq!(run("var x = 1; print (x = 10) - x;"), vec!["0.0"]);
}

#[test]
fn blocks_share_the_one_namespace() {
    assert_eq!(run("var x = 1; { var x = 2; } print x;"), vec!["2.0"]);
    assert_eq!(run("{ var y = 3; } print y;"), vec!["3.0"]);
    assert_eq!(run("{ print 1; { print 2; } print 3; }"), vec!["1.0", "2.0", "3.0"]);
}

#[test]
fn running_if_statements() {
    assert_eq!(run("if (true) print 1; else print 2;"), vec!["1.0"]);
    assert_eq!(run("if (false) print 1; else print 2;"), vec!["2.0"]);
    assert_eq!(run("if (nil) print 1;"), Vec::<String>::new());
    assert_eq!(run("if (0) print \"zero\";"), vec!["zero"]);
    assert_eq!(run("if (\"\") print \"empty\";"), vec!["empty"]);
    assert_eq!(run("var x = 0; if (x = 1) print x;"), vec!["1.0"]);
}

#[test]
fn while_runs_once_for_each_truthy_condition() {
    assert_eq!(run("var n = 0; while (n < 5) n = n + 1; print n;"), vec!["5.0"]);
    assert_eq!(run("while (false) print 1;"), Vec::<String>::new());
    assert_eq!(run("while (nil) print 1; print 2;"), vec!["2.0"]);
    assert_eq!(
        run("var tops = 0; var runs = 0; var i = 0; \
             while ((tops = tops + 1) and i < 7) { runs = runs + 1; i = i + 1; } \
             print tops; print runs;"),
        vec!["8.0", "7.0"]
    );
    assert_eq!(
        run("var i = 0; while (i < 2) { var j = 0; while (j < 2) { print i + j; j = j + 1; } i = i + 1; }"),
        vec!["0.0", "1.0", "1.0", "2.0"]
    );
}

#[test]
fn a_loop_stops_at_its_limit() {
    let program = Parser::new("print 0; while (true) print 1; print 2;").parse_program().unwrap();
    let mut interpreter = Interpreter::with_loop_limit(Doubles::default(), 3);
    assert!(!interpreter.eval_program(&program));
    assert_eq!(interpreter.into_host().lines, vec!["0.0", "1.0", "1.0", "1.0"]);
}

#[test]
fn a_loop_within_its_limit_runs_to_its_end() {
    let source = "var i = 0; while (i < 3) { print i; i = i + 1; } print \"done\";";
    let program = Parser::new(source).parse_program().unwrap();
    let mut interpreter = Interpreter::with_loop_limit(Doubles::default(), 3);
    assert!(interpreter.eval_program(&program));
    assert_eq!(interpreter.into_host().lines, vec!["0.0", "1.0", "2.0", "done"]);
    let program = Parser::new(source).parse_program().unwrap();
    let mut interpreter = Interpreter::with_loop_limit(Doubles::default(), 2);
    assert!(!interpreter.eval_program(&program));
    assert_eq!(interpreter.into_host().lines, vec!["0.0", "1.0"]);
}

#[test]
fn each_loop_has_the_whole_limit() {
    let source = "var i = 0; while (i < 2) { var j = 0; while (j < 2) { print j; j = j + 1; } i = i + 1; }";
    let program = Parser::new(source).parse_program().unwrap();
    let mut interpreter = Interpreter::with_loop_limit(Doubles::default(), 2);
    assert!(interpreter.eval_program(&program));
    assert_eq!(interpreter.into_host().lines, vec!["0.0", "1.0", "0.0", "1.0"]);
}

#[test]
fn a_limit_of_zero_lets_no_loop_go_round() {
    let program = Parser::new("while (false) print 1; print 2;").parse_program().unwrap();
    let mut interpreter = Interpreter::with_loop_limit(Doubles::default(), 0);
    assert!(interpreter.eval_program(&program));
    assert_eq!(interpreter.host().lines, vec!["2.0"]);
    let program = Parser::new("while (true) print 1;").parse_program().unwrap();
    let mut interpreter = Interpreter::with_loop_limit(Doubles::default(), 0);
    assert!(!interpreter.eval_program(&program));
    assert!(interpreter.host().lines.is_empty());
}

#[test]
fn exec_runs_one_statement() {
    let mut interpreter = Interpreter::new(Doubles::default());
    let declare = TokenTree::Cons(Op::Var, vec![name("x"), num("2")]);
    assert!(interpreter.exec(&declare));
    let print = TokenTree::Cons(
        Op::Print,
        vec![TokenTree::Cons(Op::Star, vec![name("x"), name("x")])],
    );
    assert!(interpreter.exec(&print));
    assert!(matches!(interpreter.lookup(&"x".to_string()), Value::Number(n) if float(n) == 2.0));
    assert_eq!(interpreter.into_host().lines, vec!["4.0"]);
}

#[test]
fn a_group_evaluates_to_its_first_child() {
    assert!(matches!(eval(&TokenTree::Cons(Op::Group, vec![])), Value::Nil));
    assert!(matches!(
        eval(&TokenTree::Cons(Op::Group, vec![num("1"), num("2")])),
        Value::Number(n) if float(n) == 1.0
    ));
}

#[test]
fn an_operator_with_the_wrong_number_of_children_is_nil() {
    assert!(matches!(eval(&TokenTree::Cons(Op::Plus, vec![])), Value::Nil));
    assert!(matches!(eval(&TokenTree::Cons(Op::Plus, vec![num("1")])), Value::Nil));
    assert!(matches!(
        eval(&TokenTree::Cons(Op::Plus, vec![num("1"), num("2"), num("3")])),
        Value::Nil
    ));
    assert!(matches!(eval(&TokenTree::Cons(Op::Bang, vec![num("1"), num("2")])), Value::Nil));
    assert!(matches!(eval(&TokenTree::Cons(Op::Less, vec![num("1")])), Value::Nil));
    assert!(matches!(eval(&TokenTree::Cons(Op::Assign, vec![num("1"), num("2")])), Value::Nil));
    assert!(matches!(eval(&TokenTree::Cons(Op::And, vec![num("1")])), Value::Nil));
}

#[test]
fn a_statement_with_the_wrong_shape_does_nothing() {
    let mut interpreter = Interpreter::new(Doubles::default());
    assert!(interpreter.exec(&TokenTree::Cons(Op::Var, vec![name("x")])));
    assert!(interpreter.exec(&TokenTree::Cons(Op::Var, vec![num("1"), num("2")])));
    assert!(interpreter.exec(&TokenTree::Cons(Op::Print, vec![])));
    assert!(interpreter.exec(&TokenTree::Cons(Op::Print, vec![num("1"), num("2")])));
    assert!(interpreter.exec(&TokenTree::Cons(Op::While, vec![TokenTree::Atom(Atom::Bool(true))])));
    assert!(matches!(interpreter.lookup(&"x".to_string()), Value::Nil));
    let host = interpreter.into_host();
    assert!(host.lines.is_empty());
    assert_eq!(host.asked, 0);
}

#[test]
fn statements_are_nil_as_expressions() {
    assert!(matches!(eval(&TokenTree::Cons(Op::Print, vec![num("1")])), Value::Nil));
    assert!(matches!(eval(&TokenTree::Cons(Op::Var, vec![name("x"), num("1")])), Value::Nil));
    assert!(matches!(
        eval(&TokenTree::If {
            condition: Box::new(TokenTree::Atom(Atom::Bool(true))),
            yes: Box::new(num("1")),
            no: None,
        }),
        Value::Nil
    ));
}

#[test]
fn functions_and_calls_have_no_meaning_yet() {
    let fun = TokenTree::Fun {
        name: "f".to_string(),
        parameters: vec!["a".to_string()],
        body: Box::new(TokenTree::Cons(Op::Print, vec![num("1")])),
    };
    let call = TokenTree::Call { callee: Box::new(name("f")), arguments: vec![num("1")] };
    assert!(matches!(eval(&fun), Value::Nil));
    assert!(matches!(eval(&call), Value::Nil));
    let mut interpreter = Interpreter::new(Doubles::default());
    assert!(interpreter.exec(&fun));
    assert!(interpreter.exec(&call));
    assert!(matches!(interpreter.lookup(&"f".to_string()), Value::Nil));
    assert!(interpreter.into_host().lines.is_empty());
}

#[test]
fn this_and_super_are_nil() {
    assert!(matches!(eval(&TokenTree::Atom(Atom::This)), Value::Nil));
    assert!(matches!(eval(&TokenTree::Atom(Atom::Super)), Value::Nil));
    assert_eq!(show("this"), "nil");
}

#[test]
fn not_a_number_is_unequal_to_itself() {
    let source = "var big = 100000000000000000000; var i = 0; \
                  while (i < 4) { big = big * big; i = i + 1; } \
                  var nan = big - big; print big; print nan; print nan == nan; print nan != nan;";
    assert_eq!(run(source), vec!["inf.0", "NaN", "false", "true"]);
}

#[test]
fn run_source_parses_and_runs() {
    let mut interpreter = Interpreter::new(Doubles::default());
    assert_eq!(interpreter.run_source("var x = 2; print x * 3;"), Ok(true));
    assert_eq!(interpreter.run_source("print x;"), Ok(true));
    assert_eq!(interpreter.into_host().lines, vec!["6.0", "2.0"]);
}

#[test]
fn run_source_runs_nothing_of_a_text_that_is_no_program() {
    let mut interpreter = Interpreter::new(Doubles::default());
    assert_eq!(
        interpreter.run_source("print 1; var x = 2; print (;"),
        Err(sanskriti::parser::ParseError::UnexpectedToken {
            kind: sanskriti::token::TokenKind::Semicolon,
            line: 1
        })
    );
    assert_eq!(
        interpreter.run_source("print 1;\nprint \"open"),
        Err(sanskriti::parser::ParseError::Lexical(
            sanskriti::token::LexError::UnterminatedString { line: 2 }
        ))
    );
    assert!(matches!(interpreter.lookup(&"x".to_string()), Value::Nil));
    let host = interpreter.into_host();
    assert!(host.lines.is_empty());
    assert_eq!(host.asked, 0);
}

#[test]
fn run_source_reports_a_loop_at_its_limit() {
    let mut interpreter = Interpreter::with_loop_limit(Doubles::default(), 2);
    assert_eq!(interpreter.run_source("while (1) print \"again\";"), Ok(false));
    assert_eq!(interpreter.into_host().lines, vec!["again", "again"]);
}

#[test]
fn the_host_is_asked_in_the_order_of_evaluation() {
    let mut interpreter = Interpreter::new(Doubles::default());
    assert_eq!(interpreter.run_source("print 1 + 2 * 3;"), Ok(true));
    assert_eq!(interpreter.run_source("print \"n=\" + (8 - 6) / 4;"), Ok(true));
    assert_eq!(interpreter.run_source("print nil == false or \"s\";"), Ok(true));
    let host = interpreter.into_host();
    assert_eq!(host.lines, vec!["7.0", "n=0.5", "s"]);
    assert_eq!(
        host.questions,
        vec![
            "number 1",
            "number 2",
            "number 3",
            "2 * 3",
            "1 + 6",
            "text 7",
            "number 8",
            "number 6",
            "8 - 6",
            "number 4",
            "2 / 4",
            "text 0.5",
        ]
    );
}

/// A host that answers every question with the same number and text.
struct Stubborn;

impl Host for Stubborn {
    fn number(&mut self, _literal: &str) -> Number {
        number(7.0)
    }

    fn add(&mut self, _a: Number, _b: Number) -> Number {
        number(7.0)
    }

    fn subtract(&mut self, _a: Number, _b: Number) -> Number {
        number(7.0)
    }

    fn multiply(&mut self, _a: Number, _b: Number) -> Number {
        number(7.0)
    }

    fn divide(&mut self, _a: Number, _b: Number) -> Number {
        number(7.0)
    }

    fn numeral(&mut self, _n: Number) -> String {
        "seven".to_string()
    }

    fn print(&mut self, _line: &str) {}
}

#[test]
fn what_the_language_decides_holds_whatever_the_host_replies() {
    let mut interpreter = Interpreter::new(Stubborn);
    let show = |interpreter: &mut Interpreter<Stubborn>, source: &str| {
        let tree = Parser::new(source).parse_expression().unwrap();
        interpreter.eval_expr(&tree).to_display("seven")
    };
    assert_eq!(show(&mut interpreter, "nil == false"), "false");
    assert_eq!(show(&mut interpreter, "\"a\" + \"b\""), "ab");
    assert_eq!(show(&mut interpreter, "\"a\" + 1"), "aseven.0");
    assert_eq!(show(&mut interpreter, "1 / (2 - 2)"), "seven.0");
    assert_eq!(show(&mut interpreter, "1 < 2"), "false");
    assert_eq!(show(&mut interpreter, "1 <= 2"), "true");
    assert_eq!(show(&mut interpreter, "false and 1"), "false");
    assert_eq!(show(&mut interpreter, "nil or \"x\""), "x");
    assert_eq!(show(&mut interpreter, "-\"x\""), "nil");
    assert_eq!(show(&mut interpreter, "true + 1"), "nil");
}
