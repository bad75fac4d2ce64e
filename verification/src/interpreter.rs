//! The tree-walking evaluator.
//!
//! It runs a program against one environment and a [`Host`]. The host does
//! what this crate does not: rounded floating-point arithmetic, the decimal
//! text of a number, and output. The evaluator keeps, as ghost state, a
//! record of what it asked the host and what the host replied, and of the
//! lines it handed over; its contracts say that the run is the one that the
//! semantics describe for the replies that the host gave.
use vstd::prelude::*;
use vstd::string::*;
use crate::env::Env;
use crate::grammar::{parsed_program, Fault};
use crate::number::{is_zero, Number};
use crate::parser::{ParseError, Parser};
use crate::replies::{begins_with, eval_reads_its_replies, records_agree, run_reads_its_replies};
use crate::semantics::{
    binary, binary_asks, divides_by_no_zero, eval, is_binary, questions_of, replies_of, run,
    run_each, run_loop, shown, shown_asks, Bindings, Evaluated, Exchange, Question, Ran, Reply,
};
use crate::tree::{views, views_are, Atom, Op, TokenTree, Tree};
use crate::value::{Datum, Value};

verus! {

/// What the evaluator asks of its surroundings. Numbers go in and out as
/// doubles.
pub trait Host {
    /// The double nearest to a number literal.
    fn number(&mut self, literal: &str) -> Number;

    /// `a + b`, rounded.
    fn add(&mut self, a: Number, b: Number) -> Number;

    /// `a - b`, rounded.
    fn subtract(&mut self, a: Number, b: Number) -> Number;

    /// `a * b`, rounded.
    fn multiply(&mut self, a: Number, b: Number) -> Number;

    /// `a / b`, rounded. It is not asked for a quotient by zero.
    fn divide(&mut self, a: Number, b: Number) -> Number;

    /// The decimal text of a number.
    fn numeral(&mut self, n: Number) -> String;

    /// Writes one line of output.
    fn print(&mut self, line: &str);
}

/// The question that an arithmetic operator puts on two numbers.
pub open spec fn arithmetic(op: Op, a: u64, b: u64) -> Question {
    match op {
        Op::Plus => Question::Sum { a, b },
        Op::Minus => Question::Difference { a, b },
        Op::Star => Question::Product { a, b },
        _ => Question::Quotient { a, b },
    }
}

/// The host, with a record of what passed between it and the evaluator.
struct Link<H: Host> {
    host: H,
    heard: Ghost<Seq<Exchange>>,
    printed: Ghost<Seq<Seq<char>>>,
}

impl<H: Host> Link<H> {
    /// The host has been asked for no quotient by zero.
    spec fn sound(&self) -> bool {
        divides_by_no_zero(questions_of(self.heard@))
    }

    /// The link has gone on from `before` by asking `asked`, and nothing was
    /// printed.
    spec fn has_asked(&self, before: &Self, asked: Seq<Question>) -> bool {
        &&& begins_with(self.heard@, before.heard@)
        &&& questions_of(self.heard@) =~= questions_of(before.heard@) + asked
        &&& self.printed@ == before.printed@
        &&& before.sound() ==> self.sound()
    }

    proof fn asked_one(before: Seq<Exchange>, x: Exchange)
        ensures
            begins_with(before.push(x), before),
            questions_of(before.push(x)) =~= questions_of(before) + seq![x.question],
            replies_of(before.push(x))[before.len() as int] == x.reply,
            divides_by_no_zero(questions_of(before)) && !(x.question matches Question::Quotient {
                b,
                ..
            } && is_zero(b)) ==> divides_by_no_zero(questions_of(before.push(x))),
    {
        let after = before.push(x);
        if divides_by_no_zero(questions_of(before)) && !(x.question matches Question::Quotient {
            b,
            ..
        } && is_zero(b)) {
            assert forall|i: int| 0 <= i < questions_of(after).len() implies (
            #[trigger] questions_of(after)[i] matches Question::Quotient { b, .. } ==> !is_zero(
                b,
            )) by {
                if i < before.len() {
                    assert(questions_of(after)[i] == questions_of(before)[i]);
                }
            }
        }
    }

    fn literal(&mut self, text: &String) -> (n: Number)
        ensures
            final(self).heard@ == old(self).heard@.push(
                Exchange {
                    question: Question::Literal { text: text@ },
                    reply: Reply::Number(n.bits),
                },
            ),
            final(self).has_asked(old(self), seq![Question::Literal { text: text@ }]),
    {
        let n = self.host.number(text.as_str());
        proof {
            let x = Exchange {
                question: Question::Literal { text: text@ },
                reply: Reply::Number(n.bits),
            };
            Self::asked_one(self.heard@, x);
            self.heard@ = self.heard@.push(x);
        }
        n
    }

    fn arith(&mut self, op: Op, a: Number, b: Number) -> (r: Number)
        requires
            op == Op::Plus || op == Op::Minus || op == Op::Star || op == Op::Slash,
            op == Op::Slash ==> !is_zero(b.bits),
        ensures
            final(self).heard@ == old(self).heard@.push(
                Exchange {
                    question: arithmetic(op, a.bits, b.bits),
                    reply: Reply::Number(r.bits),
                },
            ),
            final(self).has_asked(old(self), seq![arithmetic(op, a.bits, b.bits)]),
    {
        let r = match op {
            Op::Plus => self.host.add(a, b),
            Op::Minus => self.host.subtract(a, b),
            Op::Star => self.host.multiply(a, b),
            _ => self.host.divide(a, b),
        };
        proof {
            let x = Exchange {
                question: arithmetic(op, a.bits, b.bits),
                reply: Reply::Number(r.bits),
            };
            Self::asked_one(self.heard@, x);
            self.heard@ = self.heard@.push(x);
        }
        r
    }

    fn show(&mut self, v: &Value) -> (text: String)
        ensures
            final(self).has_asked(old(self), shown_asks(v@)),
            text@ == shown(v@, replies_of(final(self).heard@), old(self).heard@.len() as int),
    {
        match v {
            Value::Number(n) => {
                let numeral = self.host.numeral(*n);
                proof {
                    let x = Exchange {
                        question: Question::Numeral { bits: n.bits },
                        reply: Reply::Text(numeral@),
                    };
                    Self::asked_one(self.heard@, x);
                    self.heard@ = self.heard@.push(x);
                }
                v.to_display(numeral.as_str())
            },
            _ => v.to_display(""),
        }
    }

    fn print(&mut self, line: &String)
        ensures
            final(self).heard@ == old(self).heard@,
            final(self).printed@ == old(self).printed@.push(line@),
    {
        self.host.print(line.as_str());
        proof {
            self.printed@ = self.printed@.push(line@);
        }
    }

    fn apply(&mut self, op: Op, a: Value, b: Value) -> (value: Value)
        requires
            is_binary(op),
        ensures
            final(self).has_asked(old(self), binary_asks(op, a@, b@)),
            value@ == binary(
                op,
                a@,
                b@,
                replies_of(final(self).heard@),
                old(self).heard@.len() as int,
            ),
    {
        match op {
            Op::Plus => match (a, b) {
                (Value::Number(x), Value::Number(y)) => Value::Number(self.arith(Op::Plus, x, y)),
                (Value::String(x), Value::String(y)) => Value::String(x.concat(y.as_str())),
                (Value::String(x), other) => {
                    let text = self.show(&other);
                    Value::String(x.concat(text.as_str()))
                },
                (other, Value::String(y)) => {
                    let text = self.show(&other);
                    Value::String(text.concat(y.as_str()))
                },
                _ => Value::Nil,
            },
            Op::Minus => match (a, b) {
                (Value::Number(x), Value::Number(y)) => Value::Number(self.arith(Op::Minus, x, y)),
                _ => Value::Nil,
            },
            Op::Star => match (a, b) {
                (Value::Number(x), Value::Number(y)) => Value::Number(self.arith(Op::Star, x, y)),
                _ => Value::Nil,
            },
            Op::Slash => match (a, b) {
                (Value::Number(x), Value::Number(y)) => {
                    if y.is_zero() {
                        Value::Nil
                    } else {
                        Value::Number(self.arith(Op::Slash, x, y))
                    }
                },
                _ => Value::Nil,
            },
            Op::Less => match (a, b) {
                (Value::Number(x), Value::Number(y)) => Value::Bool(x.less_than(&y)),
                _ => Value::Bool(false),
            },
            Op::LessEqual => match (a, b) {
                (Value::Number(x), Value::Number(y)) => Value::Bool(x.at_most(&y)),
                _ => Value::Bool(false),
            },
            Op::Greater => match (a, b) {
                (Value::Number(x), Value::Number(y)) => Value::Bool(y.less_than(&x)),
                _ => Value::Bool(false),
            },
            Op::GreaterEqual => match (a, b) {
                (Value::Number(x), Value::Number(y)) => Value::Bool(y.at_most(&x)),
                _ => Value::Bool(false),
            },
            Op::EqualEqual => Value::Bool(a.equals(&b)),
            _ => Value::Bool(!a.equals(&b)),
        }
    }
}

/// An evaluator: one environment, a host, and the number of rounds that a
/// loop may make.
pub struct Interpreter<H: Host> {
    env: Env,
    link: Link<H>,
    loop_limit: u64,
}

impl<H: Host> Interpreter<H> {
    /// The environment is in order, and the host has been asked for no
    /// quotient by zero.
    pub closed spec fn wf(&self) -> bool {
        self.env.wf() && self.link.sound()
    }

    /// The host is never asked to divide by zero.
    pub proof fn never_divides_by_zero(&self)
        requires
            self.wf(),
        ensures
            divides_by_no_zero(questions_of(self.heard())),
    {
    }

    /// What each bound name stands for.
    pub closed spec fn bindings(&self) -> Bindings {
        self.env@
    }

    /// What the host has been asked and has replied so far, oldest first.
    pub closed spec fn heard(&self) -> Seq<Exchange> {
        self.link.heard@
    }

    /// The lines handed to the host for output so far, oldest first.
    pub closed spec fn printed(&self) -> Seq<Seq<char>> {
        self.link.printed@
    }

    /// The number of rounds that each loop may make.
    pub closed spec fn limit(&self) -> nat {
        self.loop_limit as nat
    }

    /// The host, as a value.
    pub closed spec fn the_host(&self) -> H {
        self.link.host
    }

    /// The evaluator has gone on from `before`: what the host had been
    /// asked and had replied stands as it was, and the loop limit is what
    /// it was.
    pub open spec fn continues(&self, before: &Self) -> bool {
        &&& self.wf()
        &&& self.limit() == before.limit()
        &&& begins_with(self.heard(), before.heard())
    }

    /// The evaluator has found, since `before`, the value that `e`
    /// describes, has bound what `e` binds and has asked what `e` asks.
    pub open spec fn has_evaluated(&self, before: &Self, e: Evaluated, value: Datum) -> bool {
        &&& value == e.value
        &&& self.bindings() == e.env
        &&& questions_of(self.heard()) =~= questions_of(before.heard()) + e.asked
    }

    /// The evaluator has done, since `before`, what `ran` describes, and
    /// `done` reports whether it ran to the end.
    pub open spec fn has_run(&self, before: &Self, ran: Ran, done: bool) -> bool {
        &&& done == ran.done
        &&& self.bindings() == ran.env
        &&& self.printed() =~= before.printed() + ran.printed
        &&& questions_of(self.heard()) =~= questions_of(before.heard()) + ran.asked
    }

    /// An evaluator with nothing bound, whose loops may make as many rounds
    /// as a counter of 64 bits can count.
    pub fn new(host: H) -> (interpreter: Self)
        ensures
            interpreter.wf(),
            interpreter.bindings() == Map::<Seq<char>, Datum>::empty(),
            interpreter.limit() == u64::MAX,
            interpreter.heard() == Seq::<Exchange>::empty(),
            interpreter.printed() == Seq::<Seq<char>>::empty(),
            interpreter.the_host() == host,
    {
        Self::with_loop_limit(host, u64::MAX)
    }

    /// An evaluator with nothing bound, whose loops stop after `limit`
    /// rounds.
    pub fn with_loop_limit(host: H, limit: u64) -> (interpreter: Self)
        ensures
            interpreter.wf(),
            interpreter.bindings() == Map::<Seq<char>, Datum>::empty(),
            interpreter.limit() == limit,
            interpreter.heard() == Seq::<Exchange>::empty(),
            interpreter.printed() == Seq::<Seq<char>>::empty(),
            interpreter.the_host() == host,
    {
        Interpreter {
            env: Env::new(),
            link: Link { host, heard: Ghost(Seq::empty()), printed: Ghost(Seq::empty()) },
            loop_limit: limit,
        }
    }

    /// The host.
    pub fn host(&self) -> (host: &H)
        ensures
            *host == self.the_host(),
    {
        &self.link.host
    }

    /// Gives the host back.
    pub fn into_host(self) -> (host: H)
        ensures
            host == self.the_host(),
    {
        self.link.host
    }

    /// The value of a variable; `nil` where it is not bound.
    pub fn lookup(&self, name: &String) -> (value: Value)
        requires
            self.wf(),
        ensures
            value@ == crate::env::lookup(self.bindings(), name@),
    {
        self.env.get(name)
    }

    /// What was evaluated when the record was `earlier` is what the
    /// semantics give for the record `later` too.
    proof fn eval_stands(
        node: Tree,
        env: Bindings,
        earlier: Seq<Exchange>,
        later: Seq<Exchange>,
        at: int,
    )
        requires
            begins_with(later, earlier),
            0 <= at,
            at + eval(node, env, replies_of(earlier), at).asked.len() <= earlier.len(),
        ensures
            eval(node, env, replies_of(later), at) == eval(node, env, replies_of(earlier), at),
    {
        let n = eval(node, env, replies_of(earlier), at).asked.len() as int;
        records_agree(earlier, later, at, n);
        eval_reads_its_replies(node, env, replies_of(earlier), replies_of(later), at);
    }

    /// What was run when the record was `earlier` is what the semantics
    /// give for the record `later` too.
    proof fn run_stands(
        node: Tree,
        env: Bindings,
        limit: nat,
        earlier: Seq<Exchange>,
        later: Seq<Exchange>,
        at: int,
    )
        requires
            begins_with(later, earlier),
            0 <= at,
            at + run(node, env, limit, replies_of(earlier), at).asked.len() <= earlier.len(),
        ensures
            run(node, env, limit, replies_of(later), at) == run(
                node,
                env,
                limit,
                replies_of(earlier),
                at,
            ),
    {
        let n = run(node, env, limit, replies_of(earlier), at).asked.len() as int;
        records_agree(earlier, later, at, n);
        run_reads_its_replies(node, env, limit, replies_of(earlier), replies_of(later), at);
    }

    /// Evaluates an expression. The value, the bindings it leaves and what
    /// the host is asked are those of [`eval`], for the replies that the
    /// host gives; nothing is printed.
    pub fn eval_expr(&mut self, node: &TokenTree) -> (value: Value)
        requires
            old(self).wf(),
        ensures
            final(self).continues(old(self)),
            final(self).printed() == old(self).printed(),
            final(self).has_evaluated(
                old(self),
                eval(
                    node@,
                    old(self).bindings(),
                    replies_of(final(self).heard()),
                    old(self).heard().len() as int,
                ),
                value@,
            ),
        decreases node,
    {
        let ghost start = *self;
        let ghost at = self.heard().len() as int;
        match node {
            TokenTree::Atom(atom) => match atom {
                Atom::Number(text) => Value::Number(self.link.literal(text)),
                Atom::Bool(b) => Value::Bool(*b),
                Atom::Nil => Value::Nil,
                Atom::String(s) => Value::String(s.clone()),
                Atom::Ident(name) => self.env.get(name),
                Atom::Super => Value::Nil,
                Atom::This => Value::Nil,
            },
            TokenTree::Cons(op, kids) => {
                proof {
                    views_are(kids@);
                }
                if *op == Op::Group {
                    if kids.len() == 0 {
                        Value::Nil
                    } else {
                        self.eval_expr(&kids[0])
                    }
                } else if kids.len() == 1 {
                    if *op == Op::Minus {
                        match self.eval_expr(&kids[0]) {
                            Value::Number(n) => Value::Number(n.negate()),
                            _ => Value::Nil,
                        }
                    } else if *op == Op::Bang {
                        let v = self.eval_expr(&kids[0]);
                        Value::Bool(!v.is_truthy())
                    } else {
                        Value::Nil
                    }
                } else if kids.len() == 2 {
                    if *op == Op::Assign {
                        match &kids[0] {
                            TokenTree::Atom(Atom::Ident(name)) => {
                                let value = self.eval_expr(&kids[1]);
                                self.env.assign(name, value.duplicate());
                                value
                            },
                            _ => Value::Nil,
                        }
                    } else if *op == Op::And || *op == Op::Or {
                        let left = self.eval_expr(&kids[0]);
                        if left.is_truthy() != (*op == Op::And) {
                            left
                        } else {
                            let ghost mid = *self;
                            let right = self.eval_expr(&kids[1]);
                            proof {
                                Self::eval_stands(
                                    kids[0]@,
                                    start.bindings(),
                                    mid.heard(),
                                    self.heard(),
                                    at,
                                );
                            }
                            right
                        }
                    } else if *op == Op::Plus || *op == Op::Minus || *op == Op::Star || *op
                        == Op::Slash || *op == Op::Less || *op == Op::LessEqual || *op
                        == Op::Greater || *op == Op::GreaterEqual || *op == Op::EqualEqual || *op
                        == Op::BangEqual {
                        let a = self.eval_expr(&kids[0]);
                        let ghost mid = *self;
                        let b = self.eval_expr(&kids[1]);
                        let ghost late = *self;
                        let value = self.link.apply(*op, a, b);
                        proof {
                            Self::eval_stands(
                                kids[0]@,
                                start.bindings(),
                                mid.heard(),
                                self.heard(),
                                at,
                            );
                            Self::eval_stands(
                                kids[1]@,
                                mid.bindings(),
                                late.heard(),
                                self.heard(),
                                mid.heard().len() as int,
                            );
                        }
                        value
                    } else {
                        Value::Nil
                    }
                } else {
                    Value::Nil
                }
            },
            _ => Value::Nil,
        }
    }
}

impl<H: Host> Interpreter<H> {
    /// What is still to run, `rest`, ends where the whole run from `start`
    /// ends.
    spec fn resumes(&self, start: &Self, whole: Ran, rest: Ran) -> bool {
        &&& whole.done == rest.done
        &&& whole.env == rest.env
        &&& start.printed() + whole.printed =~= self.printed() + rest.printed
        &&& questions_of(start.heard()) + whole.asked =~= questions_of(self.heard()) + rest.asked
    }

    /// Runs the statements of a program in order, and reports whether it ran
    /// to its end. What it leaves, what it prints and what it asks the host
    /// are those of [`run_each`], for the replies that the host gives.
    pub fn eval_program(&mut self, stmts: &[TokenTree]) -> (done: bool)
        requires
            old(self).wf(),
        ensures
            final(self).continues(old(self)),
            final(self).has_run(
                old(self),
                run_each(
                    views(stmts@),
                    0,
                    old(self).bindings(),
                    old(self).limit(),
                    replies_of(final(self).heard()),
                    old(self).heard().len() as int,
                ),
                done,
            ),
        decreases stmts@, 0nat,
    {
        let ghost start = *self;
        let ghost at = self.heard().len() as int;
        let ghost trees = views(stmts@);
        let mut i: usize = 0;
        proof {
            views_are(stmts@);
        }
        while i < stmts.len()
            invariant
                i <= stmts.len(),
                start == *old(self),
                at == start.heard().len(),
                trees == views(stmts@),
                trees.len() == stmts.len(),
                self.continues(&start),
                forall|later: Seq<Exchange>| #[trigger]
                    begins_with(later, self.heard()) ==> self.resumes(
                        &start,
                        run_each(trees, 0, start.bindings(), start.limit(), replies_of(later), at),
                        run_each(
                            trees,
                            i as int,
                            self.bindings(),
                            start.limit(),
                            replies_of(later),
                            self.heard().len() as int,
                        ),
                    ),
            decreases stmts.len() - i,
        {
            let ghost before = *self;
            let ghost here = self.heard().len() as int;
            proof {
                views_are(stmts@);
            }
            let done = self.exec(&stmts[i]);
            assert forall|later: Seq<Exchange>| #[trigger]
                begins_with(later, self.heard()) implies ({
                let whole = run_each(
                    trees,
                    0,
                    start.bindings(),
                    start.limit(),
                    replies_of(later),
                    at,
                );
                &&& !done ==> self.has_run(&start, whole, false)
                &&& done ==> self.resumes(
                    &start,
                    whole,
                    run_each(
                        trees,
                        i + 1,
                        self.bindings(),
                        start.limit(),
                        replies_of(later),
                        self.heard().len() as int,
                    ),
                )
            }) by {
                assert(begins_with(later, before.heard()));
                Self::run_stands(
                    trees[i as int],
                    before.bindings(),
                    start.limit(),
                    self.heard(),
                    later,
                    here,
                );
            }
            if !done {
                assert(begins_with(self.heard(), self.heard()));
                return false;
            }
            i += 1;
        }
        assert(begins_with(self.heard(), self.heard()));
        true
    }

    /// Runs one statement, and reports whether it ran to its end. What it
    /// leaves, what it prints and what it asks the host are those of
    /// [`run`], for the replies that the host gives.
    pub fn exec(&mut self, node: &TokenTree) -> (done: bool)
        requires
            old(self).wf(),
        ensures
            final(self).continues(old(self)),
            final(self).has_run(
                old(self),
                run(
                    node@,
                    old(self).bindings(),
                    old(self).limit(),
                    replies_of(final(self).heard()),
                    old(self).heard().len() as int,
                ),
                done,
            ),
        decreases node, 0nat,
    {
        let ghost start = *self;
        let ghost at = self.heard().len() as int;
        match node {
            TokenTree::Cons(op, kids) => {
                proof {
                    views_are(kids@);
                }
                if *op == Op::Group {
                    self.eval_program(kids.as_slice())
                } else if *op == Op::Var {
                    if kids.len() == 2 {
                        match &kids[0] {
                            TokenTree::Atom(Atom::Ident(name)) => {
                                let value = self.eval_expr(&kids[1]);
                                self.env.define(name, value);
                            },
                            _ => {},
                        }
                    }
                    true
                } else if *op == Op::Print {
                    if kids.len() == 1 {
                        let value = self.eval_expr(&kids[0]);
                        let ghost mid = *self;
                        let text = self.link.show(&value);
                        self.link.print(&text);
                        proof {
                            Self::eval_stands(
                                kids[0]@,
                                start.bindings(),
                                mid.heard(),
                                self.heard(),
                                at,
                            );
                        }
                    }
                    true
                } else if *op == Op::While {
                    if kids.len() == 2 {
                        self.exec_while(&kids[0], &kids[1])
                    } else {
                        true
                    }
                } else {
                    let _ = self.eval_expr(node);
                    true
                }
            },
            TokenTree::If { condition, yes, no } => {
                let c = self.eval_expr(condition);
                let ghost mid = *self;
                if c.is_truthy() {
                    let done = self.exec(yes);
                    proof {
                        Self::eval_stands(
                            condition@,
                            start.bindings(),
                            mid.heard(),
                            self.heard(),
                            at,
                        );
                    }
                    done
                } else {
                    match no {
                        Some(otherwise) => {
                            let done = self.exec(otherwise);
                            proof {
                                Self::eval_stands(
                                    condition@,
                                    start.bindings(),
                                    mid.heard(),
                                    self.heard(),
                                    at,
                                );
                            }
                            done
                        },
                        None => true,
                    }
                }
            },
            _ => {
                let _ = self.eval_expr(node);
                true
            },
        }
    }

    /// Runs a `while` loop: the condition before each round, then the body,
    /// until the condition is falsy or the rounds are used up.
    fn exec_while(&mut self, cond: &TokenTree, body: &TokenTree) -> (done: bool)
        requires
            old(self).wf(),
        ensures
            final(self).continues(old(self)),
            final(self).has_run(
                old(self),
                run_loop(
                    cond@,
                    body@,
                    old(self).bindings(),
                    old(self).limit(),
                    old(self).limit(),
                    replies_of(final(self).heard()),
                    old(self).heard().len() as int,
                ),
                done,
            ),
        decreases body, 1nat,
    {
        let ghost start = *self;
        let ghost at = self.heard().len() as int;
        let mut left: u64 = self.loop_limit;
        loop
            invariant
                start == *old(self),
                at == start.heard().len(),
                self.continues(&start),
                forall|later: Seq<Exchange>| #[trigger]
                    begins_with(later, self.heard()) ==> self.resumes(
                        &start,
                        run_loop(
                            cond@,
                            body@,
                            start.bindings(),
                            start.limit(),
                            start.limit(),
                            replies_of(later),
                            at,
                        ),
                        run_loop(
                            cond@,
                            body@,
                            self.bindings(),
                            start.limit(),
                            left as nat,
                            replies_of(later),
                            self.heard().len() as int,
                        ),
                    ),
            decreases left,
        {
            let ghost before = *self;
            let ghost here = self.heard().len() as int;
            let c = self.eval_expr(cond);
            let ghost mid = *self;
            let ghost there = self.heard().len() as int;
            if !c.is_truthy() || left == 0 {
                assert(begins_with(self.heard(), self.heard()));
                assert(begins_with(self.heard(), before.heard()));
                return !c.is_truthy();
            }
            let done = self.exec(body);
            assert forall|later: Seq<Exchange>| #[trigger]
                begins_with(later, self.heard()) implies ({
                let whole = run_loop(
                    cond@,
                    body@,
                    start.bindings(),
                    start.limit(),
                    start.limit(),
                    replies_of(later),
                    at,
                );
                &&& !done ==> self.has_run(&start, whole, false)
                &&& done ==> self.resumes(
                    &start,
                    whole,
                    run_loop(
                        cond@,
                        body@,
                        self.bindings(),
                        start.limit(),
                        (left - 1) as nat,
                        replies_of(later),
                        self.heard().len() as int,
                    ),
                )
            }) by {
                assert(begins_with(later, before.heard()));
                assert(begins_with(later, mid.heard()));
                Self::eval_stands(cond@, before.bindings(), mid.heard(), later, here);
                Self::run_stands(body@, mid.bindings(), start.limit(), self.heard(), later, there);
            }
            if !done {
                assert(begins_with(self.heard(), self.heard()));
                return false;
            }
            left -= 1;
        }
    }

    /// Parses a text as a program and runs it. A text that is no program
    /// is not run at all: nothing is bound, asked or printed.
    pub fn run_source(&mut self, source: &str) -> (r: Result<bool, ParseError>)
        requires
            old(self).wf(),
        ensures
            final(self).continues(old(self)),
            match r {
                Err(e) => {
                    &&& parsed_program(source@) == Err::<Seq<Tree>, Fault>(e@)
                    &&& final(self).bindings() == old(self).bindings()
                    &&& final(self).heard() == old(self).heard()
                    &&& final(self).printed() == old(self).printed()
                },
                Ok(done) => {
                    &&& parsed_program(source@) is Ok
                    &&& final(self).has_run(
                        old(self),
                        run_each(
                            parsed_program(source@)->Ok_0,
                            0,
                            old(self).bindings(),
                            old(self).limit(),
                            replies_of(final(self).heard()),
                            old(self).heard().len() as int,
                        ),
                        done,
                    )
                },
            },
    {
        match Parser::new(source).parse_program() {
            Err(e) => Err(e),
            Ok(program) => Ok(self.eval_program(program.as_slice())),
        }
    }
}

} // verus!
