//! Laws of the language, proved of the semantics for every sequence of
//! replies that the host may give.
use vstd::prelude::*;
use crate::number::is_zero;
use crate::semantics::{
    binary, binary_asks, eval, run, run_loop, Bindings, Evaluated, Question, Reply,
};
use crate::tree::{Op, Tree};
use crate::value::{equal, truthy, Datum};

verus! {

/// `and` stops at a falsy left operand: the whole expression is then the
/// left operand alone, in its value, in what it leaves bound and in what it
/// asks of the host, whatever the right operand is. Behind a truthy left
/// operand it is the right one, evaluated in what the left one left bound.
pub proof fn and_short_circuits(
    left: Tree,
    right: Tree,
    env: Bindings,
    replies: Seq<Reply>,
    at: int,
)
    ensures
        ({
            let whole = eval(Tree::Cons(Op::And, seq![left, right]), env, replies, at);
            let l = eval(left, env, replies, at);
            let r = eval(right, l.env, replies, at + l.asked.len());
            if truthy(l.value) {
                whole.value == r.value && whole.env == r.env && whole.asked == l.asked + r.asked
            } else {
                whole == l
            }
        }),
{
    let kids = seq![left, right];
    assert(kids.len() == 2 && kids[0] == left && kids[1] == right);
}

/// `or` stops at a truthy left operand: the whole expression is then the
/// left operand alone, in its value, in what it leaves bound and in what it
/// asks of the host, whatever the right operand is. Behind a falsy left
/// operand it is the right one, evaluated in what the left one left bound.
pub proof fn or_short_circuits(
    left: Tree,
    right: Tree,
    env: Bindings,
    replies: Seq<Reply>,
    at: int,
)
    ensures
        ({
            let whole = eval(Tree::Cons(Op::Or, seq![left, right]), env, replies, at);
            let l = eval(left, env, replies, at);
            let r = eval(right, l.env, replies, at + l.asked.len());
            if truthy(l.value) {
                whole == l
            } else {
                whole.value == r.value && whole.env == r.env && whole.asked == l.asked + r.asked
            }
        }),
{
    let kids = seq![left, right];
    assert(kids.len() == 2 && kids[0] == left && kids[1] == right);
}

/// A division evaluates both operands, left then right; where the right one
/// is a number that is zero, of either sign, the quotient is `nil`, whatever
/// the left one is, and the host is asked for no quotient.
pub proof fn division_by_zero_evaluates_to_nil(
    left: Tree,
    right: Tree,
    env: Bindings,
    replies: Seq<Reply>,
    at: int,
)
    ensures
        ({
            let l = eval(left, env, replies, at);
            let r = eval(right, l.env, replies, at + l.asked.len());
            (r.value matches Datum::Number(bits) && is_zero(bits)) ==> eval(
                Tree::Cons(Op::Slash, seq![left, right]),
                env,
                replies,
                at,
            ) == (Evaluated { value: Datum::Nil, env: r.env, asked: l.asked + r.asked })
        }),
{
    let kids = seq![left, right];
    assert(kids.len() == 2 && kids[0] == left && kids[1] == right);
    let l = eval(left, env, replies, at);
    let r = eval(right, l.env, replies, at + l.asked.len());
    if r.value matches Datum::Number(bits) && is_zero(bits) {
        assert(l.asked + r.asked + Seq::<Question>::empty() =~= l.asked + r.asked);
    }
}

/// A number divided by zero, of either sign, is `nil`, whatever the
/// dividend and whatever the host would reply; the host is not asked.
pub proof fn division_by_zero_is_nil(dividend: u64, divisor: u64, replies: Seq<Reply>, at: int)
    requires
        is_zero(divisor),
    ensures
        binary(Op::Slash, Datum::Number(dividend), Datum::Number(divisor), replies, at)
            == Datum::Nil,
        binary_asks(Op::Slash, Datum::Number(dividend), Datum::Number(divisor))
            == Seq::<Question>::empty(),
{
}

/// `==` and `!=` ask the host nothing, and `!=` is the negation of `==`, on
/// every pair of values.
pub proof fn unequal_negates_equal(a: Datum, b: Datum, replies: Seq<Reply>, at: int)
    ensures
        binary(Op::EqualEqual, a, b, replies, at) == Datum::Bool(equal(a, b)),
        binary(Op::BangEqual, a, b, replies, at) == Datum::Bool(!equal(a, b)),
        binary_asks(Op::EqualEqual, a, b) == Seq::<Question>::empty(),
        binary_asks(Op::BangEqual, a, b) == Seq::<Question>::empty(),
{
}

/// Where a loop stands at the top of a round: the bindings, and the index
/// of the next reply.
pub struct Top {
    pub env: Bindings,
    pub at: int,
}

/// The top of round `k` of a loop entered at `top`, each earlier round
/// having evaluated the condition and run the body.
pub open spec fn at_round(
    cond: Tree,
    body: Tree,
    top: Top,
    limit: nat,
    replies: Seq<Reply>,
    k: nat,
) -> Top
    decreases k,
{
    if k == 0 {
        top
    } else {
        let c = eval(cond, top.env, replies, top.at);
        let round = run(body, c.env, limit, replies, top.at + c.asked.len());
        at_round(
            cond,
            body,
            Top { env: round.env, at: top.at + c.asked.len() + round.asked.len() },
            limit,
            replies,
            (k - 1) as nat,
        )
    }
}

/// The lines printed by the first `k` rounds of a loop entered at `top`.
pub open spec fn printed_in_rounds(
    cond: Tree,
    body: Tree,
    top: Top,
    limit: nat,
    replies: Seq<Reply>,
    k: nat,
) -> Seq<Seq<char>>
    decreases k,
{
    if k == 0 {
        Seq::empty()
    } else {
        let c = eval(cond, top.env, replies, top.at);
        let round = run(body, c.env, limit, replies, top.at + c.asked.len());
        round.printed + printed_in_rounds(
            cond,
            body,
            Top { env: round.env, at: top.at + c.asked.len() + round.asked.len() },
            limit,
            replies,
            (k - 1) as nat,
        )
    }
}

/// The number of times a loop with `left` rounds to go runs its body.
pub open spec fn rounds(
    cond: Tree,
    body: Tree,
    top: Top,
    limit: nat,
    left: nat,
    replies: Seq<Reply>,
) -> nat
    decreases left,
{
    let c = eval(cond, top.env, replies, top.at);
    if !truthy(c.value) || left == 0 {
        0
    } else {
        let round = run(body, c.env, limit, replies, top.at + c.asked.len());
        if round.done {
            1 + rounds(
                cond,
                body,
                Top { env: round.env, at: top.at + c.asked.len() + round.asked.len() },
                limit,
                (left - 1) as nat,
                replies,
            )
        } else {
            1
        }
    }
}

/// The condition of a loop as it is found at `top`.
pub open spec fn condition_at(cond: Tree, top: Top, replies: Seq<Reply>) -> Evaluated {
    eval(cond, top.env, replies, top.at)
}

/// A loop that runs to its end runs its body once for each time the
/// condition was truthy at the top, and ends the first time it is falsy:
/// with `n` the number of rounds, the condition is truthy at the top of each
/// round before the `n`th and falsy at the top of the `n`th, and what the
/// loop leaves and prints is what those `n` rounds and the last evaluation
/// of the condition leave and print.
pub proof fn while_runs_once_per_truthy_condition(
    cond: Tree,
    body: Tree,
    top: Top,
    limit: nat,
    left: nat,
    replies: Seq<Reply>,
)
    requires
        run_loop(cond, body, top.env, limit, left, replies, top.at).done,
    ensures
        ({
            let n = rounds(cond, body, top, limit, left, replies);
            let ran = run_loop(cond, body, top.env, limit, left, replies, top.at);
            let last = at_round(cond, body, top, limit, replies, n);
            &&& n <= left
            &&& forall|k: nat|
                k < n ==> truthy(
                    condition_at(
                        cond,
                        #[trigger] at_round(cond, body, top, limit, replies, k),
                        replies,
                    ).value,
                )
            &&& !truthy(condition_at(cond, last, replies).value)
            &&& ran.env == condition_at(cond, last, replies).env
            &&& ran.printed =~= printed_in_rounds(cond, body, top, limit, replies, n)
        }),
    decreases left,
{
    let c = eval(cond, top.env, replies, top.at);
    if truthy(c.value) && left > 0 {
        let round = run(body, c.env, limit, replies, top.at + c.asked.len());
        let next = Top { env: round.env, at: top.at + c.asked.len() + round.asked.len() };
        let n = rounds(cond, body, top, limit, left, replies);
        let m = rounds(cond, body, next, limit, (left - 1) as nat, replies);
        while_runs_once_per_truthy_condition(cond, body, next, limit, (left - 1) as nat, replies);
        assert(n == m + 1);
        assert forall|k: nat| k < n implies truthy(
            condition_at(
                cond,
                #[trigger] at_round(cond, body, top, limit, replies, k),
                replies,
            ).value,
        ) by {
            if k > 0 {
                let j = (k - 1) as nat;
                assert(at_round(cond, body, top, limit, replies, k) == at_round(
                    cond,
                    body,
                    next,
                    limit,
                    replies,
                    j,
                ));
                assert(truthy(
                    condition_at(cond, at_round(cond, body, next, limit, replies, j), replies).value,
                ));
            }
        }
        assert(at_round(cond, body, top, limit, replies, n) == at_round(
            cond,
            body,
            next,
            limit,
            replies,
            m,
        ));
    }
}

/// A loop whose condition is falsy on entry is done at once: it has run
/// nothing and printed nothing, and has asked what its condition asks.
pub proof fn while_with_falsy_condition_is_idle(
    cond: Tree,
    body: Tree,
    top: Top,
    limit: nat,
    left: nat,
    replies: Seq<Reply>,
)
    requires
        !truthy(condition_at(cond, top, replies).value),
    ensures
        run_loop(cond, body, top.env, limit, left, replies, top.at).done,
        run_loop(cond, body, top.env, limit, left, replies, top.at).env == condition_at(
            cond,
            top,
            replies,
        ).env,
        run_loop(cond, body, top.env, limit, left, replies, top.at).printed == Seq::<
            Seq<char>,
        >::empty(),
        run_loop(cond, body, top.env, limit, left, replies, top.at).asked == condition_at(
            cond,
            top,
            replies,
        ).asked,
        rounds(cond, body, top, limit, left, replies) == 0,
{
}

} // verus!
