//! What a program means: the value of an expression and the effect of a
//! statement, as mathematical functions of the tree, the bindings and the
//! host's replies.
//!
//! Rounded arithmetic and the decimal text of a number are not defined here:
//! the host is asked for them. The meaning of a program is given for every
//! sequence of replies that the host may give, taken in the order in which
//! it is asked.
use vstd::prelude::*;
use crate::env::lookup;
use crate::number::{at_most, is_zero, less, negated};
use crate::tree::{Leaf, Op, Tree};
use crate::value::{display, equal, truthy, Datum};

verus! {

/// What the host is asked. Numbers are bits of doubles.
pub enum Question {
    /// The double of a number as it is written in a program.
    Literal { text: Seq<char> },
    Sum { a: u64, b: u64 },
    Difference { a: u64, b: u64 },
    Product { a: u64, b: u64 },
    Quotient { a: u64, b: u64 },
    /// The decimal text of a number.
    Numeral { bits: u64 },
}

/// What the host answers.
pub enum Reply {
    Number(u64),
    Text(Seq<char>),
}

/// One question put to the host, with the reply it gave.
pub struct Exchange {
    pub question: Question,
    pub reply: Reply,
}

/// The questions of a record of exchanges, in order.
pub open spec fn questions_of(heard: Seq<Exchange>) -> Seq<Question> {
    Seq::new(heard.len(), |i: int| heard[i].question)
}

/// The replies of a record of exchanges, in order.
pub open spec fn replies_of(heard: Seq<Exchange>) -> Seq<Reply> {
    Seq::new(heard.len(), |i: int| heard[i].reply)
}

/// The reply at index `at`, read as a number.
pub open spec fn number_at(replies: Seq<Reply>, at: int) -> u64 {
    if 0 <= at < replies.len() {
        match replies[at] {
            Reply::Number(bits) => bits,
            Reply::Text(_) => 0,
        }
    } else {
        0
    }
}

/// The reply at index `at`, read as a text.
pub open spec fn text_at(replies: Seq<Reply>, at: int) -> Seq<char> {
    if 0 <= at < replies.len() {
        match replies[at] {
            Reply::Text(text) => text,
            Reply::Number(_) => Seq::empty(),
        }
    } else {
        Seq::empty()
    }
}

/// No question of `asked` is for a quotient by zero.
pub open spec fn divides_by_no_zero(asked: Seq<Question>) -> bool {
    forall|i: int|
        0 <= i < asked.len() ==> (#[trigger] asked[i] matches Question::Quotient { b, .. }
            ==> !is_zero(b))
}

/// The bindings of a run: what each bound name stands for.
pub type Bindings = Map<Seq<char>, Datum>;

/// A value, and the questions that the host was asked for it.
pub struct Answered {
    pub value: Datum,
    pub asked: Seq<Question>,
}

/// An expression's value, the bindings once it has been evaluated, and the
/// questions that the host was asked on the way, in order.
pub struct Evaluated {
    pub value: Datum,
    pub env: Bindings,
    pub asked: Seq<Question>,
}

/// What running a statement did: the bindings it left, the lines it
/// printed, the questions that the host was asked, and whether it ran to
/// its end. It did not if a loop was still going when it had used up its
/// rounds.
pub struct Ran {
    pub env: Bindings,
    pub printed: Seq<Seq<char>>,
    pub done: bool,
    pub asked: Seq<Question>,
}

/// The text of a value. That of a number is the decimal text that the host
/// gives, the reply at `at`, with `.0` behind it where the number is whole;
/// for no other value is the host asked.
pub open spec fn shown(d: Datum, replies: Seq<Reply>, at: int) -> Seq<char> {
    match d {
        Datum::Number(bits) => display(d, text_at(replies, at)),
        _ => display(d, Seq::empty()),
    }
}

/// What the host is asked for the text of a value.
pub open spec fn shown_asks(d: Datum) -> Seq<Question> {
    match d {
        Datum::Number(bits) => seq![Question::Numeral { bits }],
        _ => Seq::empty(),
    }
}

/// The operators that evaluate both operands, left then right, and then
/// combine the two values.
pub open spec fn is_binary(op: Op) -> bool {
    op == Op::Plus || op == Op::Minus || op == Op::Star || op == Op::Slash || op == Op::Less
        || op == Op::LessEqual || op == Op::Greater || op == Op::GreaterEqual || op
        == Op::EqualEqual || op == Op::BangEqual
}

/// What the host is asked for a binary operator on two values: the sum,
/// difference, product or quotient of two numbers, but no quotient by zero;
/// for `+` on a string and a value that is none, the text of that value;
/// else nothing. It is never asked more than one question.
pub open spec fn binary_asks(op: Op, a: Datum, b: Datum) -> Seq<Question> {
    match (a, b) {
        (Datum::Number(x), Datum::Number(y)) => {
            if op == Op::Plus {
                seq![Question::Sum { a: x, b: y }]
            } else if op == Op::Minus {
                seq![Question::Difference { a: x, b: y }]
            } else if op == Op::Star {
                seq![Question::Product { a: x, b: y }]
            } else if op == Op::Slash && !is_zero(y) {
                seq![Question::Quotient { a: x, b: y }]
            } else {
                Seq::empty()
            }
        },
        (Datum::Text(_), Datum::Text(_)) => Seq::empty(),
        (Datum::Text(_), _) => if op == Op::Plus {
            shown_asks(b)
        } else {
            Seq::empty()
        },
        (_, Datum::Text(_)) => if op == Op::Plus {
            shown_asks(a)
        } else {
            Seq::empty()
        },
        _ => Seq::empty(),
    }
}

/// The value of a binary operator on two values, the host's reply to what
/// it is asked being the one at `at`. No pairing of operands is an error:
/// where an operator has no meaning on what it is given, an arithmetic
/// operator gives `nil` and a comparison gives `false`.
pub open spec fn binary(op: Op, a: Datum, b: Datum, replies: Seq<Reply>, at: int) -> Datum {
    match op {
        Op::Plus => match (a, b) {
            (Datum::Number(_), Datum::Number(_)) => Datum::Number(number_at(replies, at)),
            (Datum::Text(x), Datum::Text(y)) => Datum::Text(x + y),
            (Datum::Text(x), _) => Datum::Text(x + shown(b, replies, at)),
            (_, Datum::Text(y)) => Datum::Text(shown(a, replies, at) + y),
            _ => Datum::Nil,
        },
        Op::Minus => match (a, b) {
            (Datum::Number(_), Datum::Number(_)) => Datum::Number(number_at(replies, at)),
            _ => Datum::Nil,
        },
        Op::Star => match (a, b) {
            (Datum::Number(_), Datum::Number(_)) => Datum::Number(number_at(replies, at)),
            _ => Datum::Nil,
        },
        Op::Slash => match (a, b) {
            (Datum::Number(_), Datum::Number(y)) => if is_zero(y) {
                Datum::Nil
            } else {
                Datum::Number(number_at(replies, at))
            },
            _ => Datum::Nil,
        },
        Op::Less => match (a, b) {
            (Datum::Number(x), Datum::Number(y)) => Datum::Bool(less(x, y)),
            _ => Datum::Bool(false),
        },
        Op::LessEqual => match (a, b) {
            (Datum::Number(x), Datum::Number(y)) => Datum::Bool(at_most(x, y)),
            _ => Datum::Bool(false),
        },
        Op::Greater => match (a, b) {
            (Datum::Number(x), Datum::Number(y)) => Datum::Bool(less(y, x)),
            _ => Datum::Bool(false),
        },
        Op::GreaterEqual => match (a, b) {
            (Datum::Number(x), Datum::Number(y)) => Datum::Bool(at_most(y, x)),
            _ => Datum::Bool(false),
        },
        Op::EqualEqual => Datum::Bool(equal(a, b)),
        Op::BangEqual => Datum::Bool(!equal(a, b)),
        _ => Datum::Nil,
    }
}

/// The value of a terminal. That of a number literal is the double that
/// the host gives, the reply at `at`. A name that is not bound is `nil`.
pub open spec fn atom_value(atom: Leaf, env: Bindings, replies: Seq<Reply>, at: int) -> Datum {
    match atom {
        Leaf::Number(_) => Datum::Number(number_at(replies, at)),
        Leaf::Bool(b) => Datum::Bool(b),
        Leaf::Nil => Datum::Nil,
        Leaf::Text(s) => Datum::Text(s),
        Leaf::Ident(name) => lookup(env, name),
        Leaf::Super => Datum::Nil,
        Leaf::This => Datum::Nil,
    }
}

/// What the host is asked for a terminal: the double of a number literal.
pub open spec fn atom_asks(atom: Leaf) -> Seq<Question> {
    match atom {
        Leaf::Number(text) => seq![Question::Literal { text }],
        _ => Seq::empty(),
    }
}

/// Unary minus: the number with its sign flipped; `nil` for what is not a
/// number.
pub open spec fn minus(d: Datum) -> Datum {
    match d {
        Datum::Number(bits) => Datum::Number(negated(bits)),
        _ => Datum::Nil,
    }
}

/// `nil`, with nothing changed and nothing asked.
pub open spec fn nothing(env: Bindings) -> Evaluated {
    Evaluated { value: Datum::Nil, env, asked: Seq::empty() }
}

/// The value of an expression, the bindings it leaves, and what it asks
/// the host. The replies to what it asks are those of `replies` from index
/// `at` on, one for each question, in order.
///
/// A node that is no expression, or an operator with the wrong number of
/// operands, is `nil` and changes nothing.
pub open spec fn eval(node: Tree, env: Bindings, replies: Seq<Reply>, at: int) -> Evaluated
    decreases node,
{
    match node {
        Tree::Atom(atom) => Evaluated {
            value: atom_value(atom, env, replies, at),
            env,
            asked: atom_asks(atom),
        },
        Tree::Cons(op, kids) => {
            if op == Op::Group {
                if kids.len() == 0 {
                    nothing(env)
                } else {
                    eval(kids[0], env, replies, at)
                }
            } else if kids.len() == 1 {
                if op == Op::Minus {
                    let e = eval(kids[0], env, replies, at);
                    Evaluated { value: minus(e.value), env: e.env, asked: e.asked }
                } else if op == Op::Bang {
                    let e = eval(kids[0], env, replies, at);
                    Evaluated { value: Datum::Bool(!truthy(e.value)), env: e.env, asked: e.asked }
                } else {
                    nothing(env)
                }
            } else if kids.len() == 2 {
                if op == Op::Assign {
                    match kids[0] {
                        Tree::Atom(Leaf::Ident(name)) => {
                            let e = eval(kids[1], env, replies, at);
                            Evaluated {
                                value: e.value,
                                env: e.env.insert(name, e.value),
                                asked: e.asked,
                            }
                        },
                        _ => nothing(env),
                    }
                } else if op == Op::And {
                    let left = eval(kids[0], env, replies, at);
                    if !truthy(left.value) {
                        left
                    } else {
                        let right = eval(kids[1], left.env, replies, at + left.asked.len());
                        Evaluated {
                            value: right.value,
                            env: right.env,
                            asked: left.asked + right.asked,
                        }
                    }
                } else if op == Op::Or {
                    let left = eval(kids[0], env, replies, at);
                    if truthy(left.value) {
                        left
                    } else {
                        let right = eval(kids[1], left.env, replies, at + left.asked.len());
                        Evaluated {
                            value: right.value,
                            env: right.env,
                            asked: left.asked + right.asked,
                        }
                    }
                } else if is_binary(op) {
                    let left = eval(kids[0], env, replies, at);
                    let right = eval(kids[1], left.env, replies, at + left.asked.len());
                    Evaluated {
                        value: binary(
                            op,
                            left.value,
                            right.value,
                            replies,
                            at + left.asked.len() + right.asked.len(),
                        ),
                        env: right.env,
                        asked: left.asked + right.asked + binary_asks(op, left.value, right.value),
                    }
                } else {
                    nothing(env)
                }
            } else {
                nothing(env)
            }
        },
        _ => nothing(env),
    }
}

/// A statement that did nothing.
pub open spec fn idle(env: Bindings) -> Ran {
    Ran { env, printed: Seq::empty(), done: true, asked: Seq::empty() }
}

/// An expression evaluated as a statement: its value is dropped.
pub open spec fn dropped(e: Evaluated) -> Ran {
    Ran { env: e.env, printed: Seq::empty(), done: true, asked: e.asked }
}

/// One run followed by another: the second happens only if the first ran to
/// its end.
pub open spec fn then_ran(first: Ran, rest: Ran) -> Ran {
    if first.done {
        Ran {
            env: rest.env,
            printed: first.printed + rest.printed,
            done: rest.done,
            asked: first.asked + rest.asked,
        }
    } else {
        first
    }
}

/// The effect of a statement. `limit` is the number of rounds that each
/// loop may make from the moment it is entered; the replies to what the
/// host is asked are those of `replies` from index `at` on.
pub open spec fn run(node: Tree, env: Bindings, limit: nat, replies: Seq<Reply>, at: int) -> Ran
    decreases node, 0nat,
{
    match node {
        Tree::Cons(op, kids) => {
            if op == Op::Group {
                run_each(kids, 0, env, limit, replies, at)
            } else if op == Op::Var {
                if kids.len() == 2 {
                    match kids[0] {
                        Tree::Atom(Leaf::Ident(name)) => {
                            let e = eval(kids[1], env, replies, at);
                            Ran {
                                env: e.env.insert(name, e.value),
                                printed: Seq::empty(),
                                done: true,
                                asked: e.asked,
                            }
                        },
                        _ => idle(env),
                    }
                } else {
                    idle(env)
                }
            } else if op == Op::Print {
                if kids.len() == 1 {
                    let e = eval(kids[0], env, replies, at);
                    Ran {
                        env: e.env,
                        printed: seq![shown(e.value, replies, at + e.asked.len())],
                        done: true,
                        asked: e.asked + shown_asks(e.value),
                    }
                } else {
                    idle(env)
                }
            } else if op == Op::While {
                if kids.len() == 2 {
                    run_loop(kids[0], kids[1], env, limit, limit, replies, at)
                } else {
                    idle(env)
                }
            } else {
                dropped(eval(node, env, replies, at))
            }
        },
        Tree::If { condition, yes, no } => {
            let c = eval(*condition, env, replies, at);
            if truthy(c.value) {
                then_ran(dropped(c), run(*yes, c.env, limit, replies, at + c.asked.len()))
            } else {
                match no {
                    Some(otherwise) => then_ran(
                        dropped(c),
                        run(*otherwise, c.env, limit, replies, at + c.asked.len()),
                    ),
                    None => dropped(c),
                }
            }
        },
        _ => dropped(eval(node, env, replies, at)),
    }
}

/// The statements of `stmts` from index `from` on, one after the other.
pub open spec fn run_each(
    stmts: Seq<Tree>,
    from: int,
    env: Bindings,
    limit: nat,
    replies: Seq<Reply>,
    at: int,
) -> Ran
    decreases stmts, stmts.len() - from,
{
    if 0 <= from < stmts.len() {
        let first = run(stmts[from], env, limit, replies, at);
        if first.done {
            then_ran(
                first,
                run_each(stmts, from + 1, first.env, limit, replies, at + first.asked.len()),
            )
        } else {
            first
        }
    } else {
        idle(env)
    }
}

/// A `while` loop with `left` rounds to go. The condition is evaluated
/// before each round; the loop ends the first time it is falsy. A loop whose
/// condition is still truthy when no round is left stops there, not done.
pub open spec fn run_loop(
    cond: Tree,
    body: Tree,
    env: Bindings,
    limit: nat,
    left: nat,
    replies: Seq<Reply>,
    at: int,
) -> Ran
    decreases body, left + 1,
{
    let c = eval(cond, env, replies, at);
    if !truthy(c.value) {
        dropped(c)
    } else if left == 0 {
        Ran { env: c.env, printed: Seq::empty(), done: false, asked: c.asked }
    } else {
        let round = run(body, c.env, limit, replies, at + c.asked.len());
        if round.done {
            then_ran(
                dropped(c),
                then_ran(
                    round,
                    run_loop(
                        cond,
                        body,
                        round.env,
                        limit,
                        (left - 1) as nat,
                        replies,
                        at + c.asked.len() + round.asked.len(),
                    ),
                ),
            )
        } else {
            then_ran(dropped(c), round)
        }
    }
}

} // verus!
