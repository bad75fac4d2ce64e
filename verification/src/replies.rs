//! A run reads only the replies to its own questions: what comes before
//! them and what comes after them in the record does not matter.
use vstd::prelude::*;
use crate::semantics::{
    binary, binary_asks, eval, is_binary, number_at, replies_of, run, run_each, run_loop,
    text_at, Bindings, Exchange, Reply,
};
use crate::tree::{Leaf, Op, Tree};
use crate::value::truthy;

verus! {

/// Two sequences of replies say the same at the `n` indices from `from` on.
pub open spec fn agree(r1: Seq<Reply>, r2: Seq<Reply>, from: int, n: int) -> bool {
    forall|i: int|
        #![trigger number_at(r1, i)]
        #![trigger text_at(r1, i)]
        from <= i < from + n ==> number_at(r1, i) == number_at(r2, i) && text_at(r1, i)
            == text_at(r2, i)
}

/// A record begins with another: it holds the same exchanges, and perhaps
/// more behind them.
pub open spec fn begins_with(more: Seq<Exchange>, less: Seq<Exchange>) -> bool {
    less.len() <= more.len() && forall|i: int| 0 <= i < less.len() ==> more[i] == less[i]
}

/// A record and one that begins with it give the same replies as far as
/// the shorter one goes.
pub proof fn records_agree(less: Seq<Exchange>, more: Seq<Exchange>, from: int, n: int)
    requires
        begins_with(more, less),
        0 <= from,
        from + n <= less.len(),
    ensures
        agree(replies_of(less), replies_of(more), from, n),
{
}

/// The value of an expression depends on no reply but those to its own
/// questions.
pub proof fn eval_reads_its_replies(
    node: Tree,
    env: Bindings,
    r1: Seq<Reply>,
    r2: Seq<Reply>,
    at: int,
)
    requires
        agree(r1, r2, at, eval(node, env, r1, at).asked.len() as int),
    ensures
        eval(node, env, r1, at) == eval(node, env, r2, at),
    decreases node,
{
    match node {
        Tree::Cons(op, kids) => {
            if op == Op::Group {
                if kids.len() > 0 {
                    eval_reads_its_replies(kids[0], env, r1, r2, at);
                }
            } else if kids.len() == 1 {
                if op == Op::Minus || op == Op::Bang {
                    eval_reads_its_replies(kids[0], env, r1, r2, at);
                }
            } else if kids.len() == 2 {
                if op == Op::Assign {
                    if kids[0] matches Tree::Atom(Leaf::Ident(_)) {
                        eval_reads_its_replies(kids[1], env, r1, r2, at);
                    }
                } else if op == Op::And || op == Op::Or || is_binary(op) {
                    let left = eval(kids[0], env, r1, at);
                    eval_reads_its_replies(kids[0], env, r1, r2, at);
                    let stops = (op == Op::And && !truthy(left.value)) || (op == Op::Or && truthy(
                        left.value,
                    ));
                    if !stops {
                        let right = eval(kids[1], left.env, r1, at + left.asked.len());
                        eval_reads_its_replies(kids[1], left.env, r1, r2, at + left.asked.len());
                        if is_binary(op) {
                            let here = at + left.asked.len() + right.asked.len();
                            let own = binary_asks(op, left.value, right.value);
                            assert(own.len() <= 1);
                            if own.len() == 1 {
                                assert(number_at(r1, here) == number_at(r2, here));
                                assert(text_at(r1, here) == text_at(r2, here));
                            }
                            assert(binary(op, left.value, right.value, r1, here) == binary(
                                op,
                                left.value,
                                right.value,
                                r2,
                                here,
                            ));
                        }
                    }
                }
            }
        },
        Tree::Atom(atom) => {
            if atom is Number {
                assert(number_at(r1, at) == number_at(r2, at));
            }
        },
        _ => {},
    }
}

/// The effect of a statement depends on no reply but those to its own
/// questions.
pub proof fn run_reads_its_replies(
    node: Tree,
    env: Bindings,
    limit: nat,
    r1: Seq<Reply>,
    r2: Seq<Reply>,
    at: int,
)
    requires
        agree(r1, r2, at, run(node, env, limit, r1, at).asked.len() as int),
    ensures
        run(node, env, limit, r1, at) == run(node, env, limit, r2, at),
    decreases node, 0nat,
{
    match node {
        Tree::Cons(op, kids) => {
            if op == Op::Group {
                run_each_reads_its_replies(kids, 0, env, limit, r1, r2, at);
            } else if op == Op::Var {
                if kids.len() == 2 && kids[0] matches Tree::Atom(Leaf::Ident(_)) {
                    eval_reads_its_replies(kids[1], env, r1, r2, at);
                }
            } else if op == Op::Print {
                if kids.len() == 1 {
                    let e = eval(kids[0], env, r1, at);
                    eval_reads_its_replies(kids[0], env, r1, r2, at);
                    if e.value is Number {
                        assert(text_at(r1, at + e.asked.len()) == text_at(r2, at + e.asked.len()));
                    }
                }
            } else if op == Op::While {
                if kids.len() == 2 {
                    run_loop_reads_its_replies(kids[0], kids[1], env, limit, limit, r1, r2, at);
                }
            } else {
                eval_reads_its_replies(node, env, r1, r2, at);
            }
        },
        Tree::If { condition, yes, no } => {
            let c = eval(*condition, env, r1, at);
            eval_reads_its_replies(*condition, env, r1, r2, at);
            if truthy(c.value) {
                run_reads_its_replies(*yes, c.env, limit, r1, r2, at + c.asked.len());
            } else {
                match no {
                    Some(otherwise) => {
                        run_reads_its_replies(
                            *otherwise,
                            c.env,
                            limit,
                            r1,
                            r2,
                            at + c.asked.len(),
                        );
                    },
                    None => {},
                }
            }
        },
        _ => {
            eval_reads_its_replies(node, env, r1, r2, at);
        },
    }
}

/// Statements run one after the other depend on no reply but those to
/// their own questions.
pub proof fn run_each_reads_its_replies(
    stmts: Seq<Tree>,
    from: int,
    env: Bindings,
    limit: nat,
    r1: Seq<Reply>,
    r2: Seq<Reply>,
    at: int,
)
    requires
        agree(r1, r2, at, run_each(stmts, from, env, limit, r1, at).asked.len() as int),
    ensures
        run_each(stmts, from, env, limit, r1, at) == run_each(stmts, from, env, limit, r2, at),
    decreases stmts, stmts.len() - from,
{
    if 0 <= from < stmts.len() {
        let first = run(stmts[from], env, limit, r1, at);
        run_reads_its_replies(stmts[from], env, limit, r1, r2, at);
        if first.done {
            run_each_reads_its_replies(
                stmts,
                from + 1,
                first.env,
                limit,
                r1,
                r2,
                at + first.asked.len(),
            );
        }
    }
}

/// A loop depends on no reply but those to its own questions.
pub proof fn run_loop_reads_its_replies(
    cond: Tree,
    body: Tree,
    env: Bindings,
    limit: nat,
    left: nat,
    r1: Seq<Reply>,
    r2: Seq<Reply>,
    at: int,
)
    requires
        agree(r1, r2, at, run_loop(cond, body, env, limit, left, r1, at).asked.len() as int),
    ensures
        run_loop(cond, body, env, limit, left, r1, at) == run_loop(
            cond,
            body,
            env,
            limit,
            left,
            r2,
            at,
        ),
    decreases body, left + 1,
{
    let c = eval(cond, env, r1, at);
    eval_reads_its_replies(cond, env, r1, r2, at);
    if truthy(c.value) && left > 0 {
        let round = run(body, c.env, limit, r1, at + c.asked.len());
        run_reads_its_replies(body, c.env, limit, r1, r2, at + c.asked.len());
        if round.done {
            run_loop_reads_its_replies(
                cond,
                body,
                round.env,
                limit,
                (left - 1) as nat,
                r1,
                r2,
                at + c.asked.len() + round.asked.len(),
            );
        }
    }
}

} // verus!
