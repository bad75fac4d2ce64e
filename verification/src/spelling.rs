//! What an expression is written with: the tree that the grammar makes of
//! tokens has those very tokens as its spelling, in their order, and none
//! beyond the end of the text.
use vstd::prelude::*;
use crate::grammar::{
    assignment, binary, binary_tail, expression, expression_of, operator, primary, rest, unary,
    weight, Parsed,
};
use crate::token::{Lexeme, TokenKind};
use crate::tree::{Leaf, Op, Tree};

verus! {

/// The kinds of the tokens from index `from` up to `to`.
pub open spec fn kinds(t: Seq<Lexeme>, from: int, to: int) -> Seq<TokenKind> {
    Seq::new((to - from) as nat, |i: int| t[from + i].kind)
}

/// The token that an operator is written as. A group is written with
/// parentheses, and stands here for the opening one.
pub open spec fn sign(op: Op) -> TokenKind {
    match op {
        Op::Minus => TokenKind::Minus,
        Op::Plus => TokenKind::Plus,
        Op::Star => TokenKind::Star,
        Op::Slash => TokenKind::Slash,
        Op::Bang => TokenKind::Bang,
        Op::BangEqual => TokenKind::BangEqual,
        Op::EqualEqual => TokenKind::EqualEqual,
        Op::Less => TokenKind::Less,
        Op::LessEqual => TokenKind::LessEqual,
        Op::Greater => TokenKind::Greater,
        Op::GreaterEqual => TokenKind::GreaterEqual,
        Op::And => TokenKind::And,
        Op::Or => TokenKind::Or,
        Op::Assign => TokenKind::Equal,
        Op::Group => TokenKind::LeftParen,
        Op::Var => TokenKind::Var,
        Op::Print => TokenKind::Print,
        Op::While => TokenKind::While,
    }
}

/// The token that a terminal is written as.
pub open spec fn leaf_kind(leaf: Leaf) -> TokenKind {
    match leaf {
        Leaf::Text(_) => TokenKind::String,
        Leaf::Number(_) => TokenKind::Number,
        Leaf::Nil => TokenKind::Nil,
        Leaf::Bool(b) => if b {
            TokenKind::True
        } else {
            TokenKind::False
        },
        Leaf::Ident(_) => TokenKind::Ident,
        Leaf::Super => TokenKind::Super,
        Leaf::This => TokenKind::This,
    }
}

/// The tokens that an expression is written with: a terminal is one token,
/// a group its expression in parentheses, a unary operator stands before
/// its operand and a binary operator between its two.
pub open spec fn spelling(tree: Tree) -> Seq<TokenKind>
    decreases tree,
{
    match tree {
        Tree::Atom(leaf) => seq![leaf_kind(leaf)],
        Tree::Cons(op, kids) => {
            if kids.len() == 1 {
                if op == Op::Group {
                    seq![TokenKind::LeftParen] + spelling(kids[0]) + seq![TokenKind::RightParen]
                } else {
                    seq![sign(op)] + spelling(kids[0])
                }
            } else if kids.len() == 2 {
                spelling(kids[0]) + seq![sign(op)] + spelling(kids[1])
            } else {
                Seq::empty()
            }
        },
        _ => Seq::empty(),
    }
}

/// `parsed` was read from the tokens at `pos`: they are there, and they
/// are the spelling of its tree.
pub open spec fn reads(t: Seq<Lexeme>, pos: int, parsed: Parsed) -> bool {
    pos + parsed.used <= t.len() && kinds(t, pos, pos + parsed.used) == spelling(parsed.tree)
}

proof fn kinds_join(t: Seq<Lexeme>, from: int, mid: int, to: int)
    requires
        0 <= from <= mid <= to <= t.len(),
    ensures
        kinds(t, from, to) == kinds(t, from, mid) + kinds(t, mid, to),
{
    assert(kinds(t, from, to) =~= kinds(t, from, mid) + kinds(t, mid, to));
}

proof fn kinds_one(t: Seq<Lexeme>, at: int)
    requires
        0 <= at < t.len(),
    ensures
        kinds(t, at, at + 1) == seq![t[at].kind],
{
    assert(kinds(t, at, at + 1) =~= seq![t[at].kind]);
}

proof fn primary_spelled(t: Seq<Lexeme>, pos: int)
    requires
        0 <= pos,
    ensures
        primary(t, pos) matches Ok(p) ==> reads(t, pos, p),
    decreases rest(t, pos), 0nat,
{
    if pos < t.len() {
        kinds_one(t, pos);
        if t[pos].kind == TokenKind::LeftParen {
            expression_spelled(t, pos + 1);
            if let Ok(inner) = expression(t, pos + 1) {
                let close = pos + 1 + inner.used;
                if 0 <= close < t.len() && t[close].kind == TokenKind::RightParen {
                    let kids = seq![inner.tree];
                    assert(kids.len() == 1 && kids[0] == inner.tree);
                    kinds_one(t, close);
                    kinds_join(t, pos, pos + 1, close + 1);
                    kinds_join(t, pos + 1, close, close + 1);
                    assert(kinds(t, pos, close + 1) =~= seq![TokenKind::LeftParen] + spelling(
                        inner.tree,
                    ) + seq![TokenKind::RightParen]);
                }
            }
        }
    }
}

proof fn unary_spelled(t: Seq<Lexeme>, pos: int)
    requires
        0 <= pos,
    ensures
        unary(t, pos) matches Ok(p) ==> reads(t, pos, p),
    decreases rest(t, pos), 1nat,
{
    if pos < t.len() && (t[pos].kind == TokenKind::Bang || t[pos].kind == TokenKind::Minus) {
        unary_spelled(t, pos + 1);
        if let Ok(inner) = unary(t, pos + 1) {
            let kids = seq![inner.tree];
            assert(kids.len() == 1 && kids[0] == inner.tree);
            kinds_one(t, pos);
            kinds_join(t, pos, pos + 1, pos + 1 + inner.used);
        }
    } else {
        primary_spelled(t, pos);
    }
}

proof fn binary_spelled(t: Seq<Lexeme>, pos: int, level: nat)
    requires
        0 <= pos,
    ensures
        binary(t, pos, level) matches Ok(p) ==> reads(t, pos, p),
    decreases rest(t, pos), 2 * weight(level) + 3,
{
    if level >= 6 {
        unary_spelled(t, pos);
    } else {
        binary_spelled(t, pos, level + 1);
    }
    let first = if level >= 6 {
        unary(t, pos)
    } else {
        binary(t, pos, level + 1)
    };
    if let Ok(left) = first {
        tail_spelled(t, pos, level, left);
    }
}

/// An operator of a binary level is written as the token it was read from.
proof fn operator_sign(level: nat, kind: TokenKind)
    ensures
        operator(level, kind) matches Some(op) ==> sign(op) == kind,
{
}

proof fn tail_spelled(t: Seq<Lexeme>, pos: int, level: nat, left: Parsed)
    requires
        0 <= pos,
        reads(t, pos, left),
    ensures
        binary_tail(t, pos, level, left) matches Ok(p) ==> reads(t, pos, p),
    decreases rest(t, pos + left.used), 2 * weight(level) + 2,
{
    let at = pos + left.used;
    if 0 <= at < t.len() && operator(level, t[at].kind) is Some {
        if level >= 6 {
            unary_spelled(t, at + 1);
        } else {
            binary_spelled(t, at + 1, level + 1);
        }
        let second = if level >= 6 {
            unary(t, at + 1)
        } else {
            binary(t, at + 1, level + 1)
        };
        if let Ok(right) = second {
            let op = operator(level, t[at].kind)->0;
            operator_sign(level, t[at].kind);
            let kids = seq![left.tree, right.tree];
            assert(kids.len() == 2 && kids[0] == left.tree && kids[1] == right.tree);
            let tree = Tree::Cons(op, kids);
            let end = at + 1 + right.used;
            kinds_one(t, at);
            kinds_join(t, pos, at, end);
            kinds_join(t, at, at + 1, end);
            assert(kinds(t, pos, end) =~= spelling(left.tree) + seq![sign(op)] + spelling(
                right.tree,
            ));
            tail_spelled(t, pos, level, Parsed { tree, used: left.used + 1 + right.used });
        }
    }
}

proof fn assignment_spelled(t: Seq<Lexeme>, pos: int)
    requires
        0 <= pos,
    ensures
        assignment(t, pos) matches Ok(p) ==> reads(t, pos, p),
    decreases rest(t, pos), 20nat,
{
    binary_spelled(t, pos, 1);
    if let Ok(left) = binary(t, pos, 1) {
        let at = pos + left.used;
        if 0 <= at < t.len() && t[at].kind == TokenKind::Equal {
            assignment_spelled(t, at + 1);
            if let Ok(right) = assignment(t, at + 1) {
                let kids = seq![left.tree, right.tree];
                assert(kids.len() == 2 && kids[0] == left.tree && kids[1] == right.tree);
                let end = at + 1 + right.used;
                kinds_one(t, at);
                kinds_join(t, pos, at, end);
                kinds_join(t, at, at + 1, end);
                assert(kinds(t, pos, end) =~= spelling(left.tree) + seq![TokenKind::Equal]
                    + spelling(right.tree));
            }
        }
    }
}

/// An expression that the grammar reads at `pos` is written with the
/// tokens it was read from, which lie within the text.
pub proof fn expression_spelled(t: Seq<Lexeme>, pos: int)
    requires
        0 <= pos,
    ensures
        expression(t, pos) matches Ok(p) ==> reads(t, pos, p),
    decreases rest(t, pos), 21nat,
{
    assignment_spelled(t, pos);
}

/// The tree of tokens that are one expression is written with exactly
/// those tokens.
pub proof fn expression_is_spelled_by_its_tokens(t: Seq<Lexeme>)
    ensures
        expression_of(t) matches Ok(tree) ==> spelling(tree) == kinds(t, 0, t.len() as int),
{
    expression_spelled(t, 0);
}

} // verus!
