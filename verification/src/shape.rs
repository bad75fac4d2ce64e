//! The shape of the trees that the grammar makes: every operator has the
//! operands it is defined on.
use vstd::prelude::*;
use crate::grammar::{
    assignment, binary, binary_tail, block, condition, conditional, declaration, ended,
    expression, expression_of, operator, parsed_expression, parsed_program, primary, printing,
    program_of, repetition, rest, statement, statements, unary, weight, Parsed, ParsedAll,
};
use crate::token::{Lexeme, TokenKind};
use crate::tree::{Leaf, Op, Tree};

verus! {

/// A tree that is a name.
pub open spec fn is_name(tree: Tree) -> bool {
    tree matches Tree::Atom(Leaf::Ident(_))
}

/// A tree that is an expression in good shape: `!` and a group have one
/// operand, `-` one or two, an assignment a name and an expression, and
/// every other operator of expressions two.
pub open spec fn is_expression(tree: Tree) -> bool
    decreases tree,
{
    match tree {
        Tree::Atom(_) => true,
        Tree::Cons(op, kids) => {
            if op == Op::Group || op == Op::Bang {
                kids.len() == 1 && is_expression(kids[0])
            } else if op == Op::Minus {
                (kids.len() == 1 && is_expression(kids[0])) || (kids.len() == 2 && is_expression(
                    kids[0],
                ) && is_expression(kids[1]))
            } else if op == Op::Assign {
                kids.len() == 2 && is_name(kids[0]) && is_expression(kids[1])
            } else if op == Op::Var || op == Op::Print || op == Op::While {
                false
            } else {
                kids.len() == 2 && is_expression(kids[0]) && is_expression(kids[1])
            }
        },
        _ => false,
    }
}

/// A tree that is a statement in good shape: a declaration has a name and
/// an expression, `print` an expression, `while` an expression and a
/// statement, `if` an expression and one or two statements, a block has
/// statements, and anything else is an expression.
pub open spec fn is_statement(tree: Tree) -> bool
    decreases tree,
{
    match tree {
        Tree::Cons(op, kids) => {
            if op == Op::Var {
                kids.len() == 2 && is_name(kids[0]) && is_expression(kids[1])
            } else if op == Op::Print {
                kids.len() == 1 && is_expression(kids[0])
            } else if op == Op::While {
                kids.len() == 2 && is_expression(kids[0]) && is_statement(kids[1])
            } else if op == Op::Group {
                forall|i: int| 0 <= i < kids.len() ==> is_statement(#[trigger] kids[i])
            } else {
                is_expression(tree)
            }
        },
        Tree::If { condition, yes, no } => is_expression(*condition) && is_statement(*yes) && (
        match no {
            Some(otherwise) => is_statement(*otherwise),
            None => true,
        }),
        Tree::Atom(_) => true,
        _ => false,
    }
}

/// Every tree of `trees` is a statement in good shape.
pub open spec fn are_statements(trees: Seq<Tree>) -> bool {
    forall|i: int| 0 <= i < trees.len() ==> is_statement(#[trigger] trees[i])
}

/// An expression is a statement.
pub proof fn expression_is_statement(tree: Tree)
    requires
        is_expression(tree),
    ensures
        is_statement(tree),
    decreases tree,
{
    match tree {
        Tree::Cons(op, kids) => {
            if op == Op::Group {
                expression_is_statement(kids[0]);
            }
        },
        _ => {},
    }
}

proof fn primary_shaped(t: Seq<Lexeme>, pos: int)
    ensures
        primary(t, pos) matches Ok(p) ==> is_expression(p.tree),
    decreases rest(t, pos), 0nat,
{
    if 0 <= pos < t.len() && t[pos].kind == TokenKind::LeftParen {
        expression_shaped(t, pos + 1);
        if let Ok(inner) = expression(t, pos + 1) {
            let kids = seq![inner.tree];
            assert(kids.len() == 1 && kids[0] == inner.tree);
        }
    }
}

proof fn unary_shaped(t: Seq<Lexeme>, pos: int)
    ensures
        unary(t, pos) matches Ok(p) ==> is_expression(p.tree),
    decreases rest(t, pos), 1nat,
{
    if 0 <= pos < t.len() && (t[pos].kind == TokenKind::Bang || t[pos].kind == TokenKind::Minus) {
        unary_shaped(t, pos + 1);
        if let Ok(inner) = unary(t, pos + 1) {
            let kids = seq![inner.tree];
            assert(kids.len() == 1 && kids[0] == inner.tree);
        }
    } else {
        primary_shaped(t, pos);
    }
}

proof fn binary_shaped(t: Seq<Lexeme>, pos: int, level: nat)
    ensures
        binary(t, pos, level) matches Ok(p) ==> is_expression(p.tree),
    decreases rest(t, pos), 2 * weight(level) + 3,
{
    if level >= 6 {
        unary_shaped(t, pos);
    } else {
        binary_shaped(t, pos, level + 1);
    }
    let first = if level >= 6 {
        unary(t, pos)
    } else {
        binary(t, pos, level + 1)
    };
    if let Ok(left) = first {
        tail_shaped(t, pos, level, left);
    }
}

proof fn tail_shaped(t: Seq<Lexeme>, pos: int, level: nat, left: Parsed)
    requires
        is_expression(left.tree),
    ensures
        binary_tail(t, pos, level, left) matches Ok(p) ==> is_expression(p.tree),
    decreases rest(t, pos + left.used), 2 * weight(level) + 2,
{
    let at = pos + left.used;
    if 0 <= at < t.len() && operator(level, t[at].kind) is Some {
        if level >= 6 {
            unary_shaped(t, at + 1);
        } else {
            binary_shaped(t, at + 1, level + 1);
        }
        let second = if level >= 6 {
            unary(t, at + 1)
        } else {
            binary(t, at + 1, level + 1)
        };
        if let Ok(right) = second {
            let op = operator(level, t[at].kind)->0;
            let kids = seq![left.tree, right.tree];
            assert(kids.len() == 2 && kids[0] == left.tree && kids[1] == right.tree);
            let tree = Tree::Cons(op, kids);
            assert(is_expression(tree));
            tail_shaped(t, pos, level, Parsed { tree, used: left.used + 1 + right.used });
        }
    }
}

proof fn assignment_shaped(t: Seq<Lexeme>, pos: int)
    ensures
        assignment(t, pos) matches Ok(p) ==> is_expression(p.tree),
    decreases rest(t, pos), 20nat,
{
    binary_shaped(t, pos, 1);
    if let Ok(left) = binary(t, pos, 1) {
        let at = pos + left.used;
        if 0 <= at < t.len() && t[at].kind == TokenKind::Equal {
            assignment_shaped(t, at + 1);
            if let Ok(right) = assignment(t, at + 1) {
                let kids = seq![left.tree, right.tree];
                assert(kids.len() == 2 && kids[0] == left.tree && kids[1] == right.tree);
            }
        }
    }
}

proof fn expression_shaped(t: Seq<Lexeme>, pos: int)
    ensures
        expression(t, pos) matches Ok(p) ==> is_expression(p.tree),
    decreases rest(t, pos), 21nat,
{
    assignment_shaped(t, pos);
}

proof fn condition_shaped(t: Seq<Lexeme>, pos: int)
    ensures
        condition(t, pos) matches Ok(p) ==> is_expression(p.tree),
    decreases rest(t, pos), 22nat,
{
    if 0 <= pos < t.len() {
        expression_shaped(t, pos + 1);
    }
}

proof fn ended_shaped(t: Seq<Lexeme>, pos: int)
    ensures
        ended(t, pos) matches Ok(p) ==> is_expression(p.tree),
    decreases rest(t, pos), 22nat,
{
    expression_shaped(t, pos);
}

proof fn declaration_shaped(t: Seq<Lexeme>, pos: int)
    ensures
        declaration(t, pos) matches Ok(p) ==> is_statement(p.tree),
    decreases rest(t, pos), 29nat,
{
    if 0 <= pos < t.len() {
        ended_shaped(t, pos + 3);
        let name = Tree::Atom(Leaf::Ident(t[pos + 1].text));
        if let Ok(value) = ended(t, pos + 3) {
            let kids = seq![name, value.tree];
            assert(kids.len() == 2 && kids[0] == name && kids[1] == value.tree);
        }
        let kids = seq![name, Tree::Atom(Leaf::Nil)];
        assert(kids.len() == 2 && kids[0] == name && kids[1] == Tree::Atom(Leaf::Nil));
    }
}

proof fn printing_shaped(t: Seq<Lexeme>, pos: int)
    ensures
        printing(t, pos) matches Ok(p) ==> is_statement(p.tree),
    decreases rest(t, pos), 29nat,
{
    if 0 <= pos < t.len() {
        ended_shaped(t, pos + 1);
        if let Ok(value) = ended(t, pos + 1) {
            let kids = seq![value.tree];
            assert(kids.len() == 1 && kids[0] == value.tree);
        }
    }
}

proof fn block_shaped(t: Seq<Lexeme>, pos: int)
    ensures
        block(t, pos) matches Ok(p) ==> is_statement(p.tree),
    decreases rest(t, pos), 29nat,
{
    if 0 <= pos < t.len() {
        statements_shaped(t, pos + 1, true, ParsedAll { trees: Seq::empty(), used: 0 });
    }
}

proof fn conditional_shaped(t: Seq<Lexeme>, pos: int)
    ensures
        conditional(t, pos) matches Ok(p) ==> is_statement(p.tree),
    decreases rest(t, pos), 29nat,
{
    if 0 <= pos < t.len() {
        condition_shaped(t, pos + 1);
        if let Ok(cond) = condition(t, pos + 1) {
            statement_shaped(t, pos + 1 + cond.used);
            if let Ok(yes) = statement(t, pos + 1 + cond.used) {
                let at = pos + 1 + cond.used + yes.used;
                if 0 <= at < t.len() {
                    statement_shaped(t, at + 1);
                }
            }
        }
    }
}

proof fn repetition_shaped(t: Seq<Lexeme>, pos: int)
    ensures
        repetition(t, pos) matches Ok(p) ==> is_statement(p.tree),
    decreases rest(t, pos), 29nat,
{
    if 0 <= pos < t.len() {
        condition_shaped(t, pos + 1);
        if let Ok(cond) = condition(t, pos + 1) {
            statement_shaped(t, pos + 1 + cond.used);
            if let Ok(body) = statement(t, pos + 1 + cond.used) {
                let kids = seq![cond.tree, body.tree];
                assert(kids.len() == 2 && kids[0] == cond.tree && kids[1] == body.tree);
            }
        }
    }
}

proof fn statement_shaped(t: Seq<Lexeme>, pos: int)
    ensures
        statement(t, pos) matches Ok(p) ==> is_statement(p.tree),
    decreases rest(t, pos), 30nat,
{
    if 0 <= pos < t.len() {
        match t[pos].kind {
            TokenKind::Var => declaration_shaped(t, pos),
            TokenKind::Print => printing_shaped(t, pos),
            TokenKind::LeftBrace => block_shaped(t, pos),
            TokenKind::If => conditional_shaped(t, pos),
            TokenKind::While => repetition_shaped(t, pos),
            _ => {
                ended_shaped(t, pos);
                if let Ok(p) = ended(t, pos) {
                    expression_is_statement(p.tree);
                }
            },
        }
    }
}

proof fn statements_shaped(t: Seq<Lexeme>, pos: int, closing: bool, sofar: ParsedAll)
    requires
        are_statements(sofar.trees),
    ensures
        statements(t, pos, closing, sofar) matches Ok(all) ==> are_statements(all.trees),
    decreases rest(t, pos + sofar.used), 31nat,
{
    let at = pos + sofar.used;
    if 0 <= at < t.len() && !(closing && t[at].kind == TokenKind::RightBrace) {
        statement_shaped(t, at);
        if let Ok(next) = statement(t, at) {
            let more = ParsedAll {
                trees: sofar.trees.push(next.tree),
                used: sofar.used + crate::grammar::at_least_one(next.used),
            };
            assert(are_statements(more.trees)) by {
                assert forall|i: int| 0 <= i < more.trees.len() implies is_statement(
                    #[trigger] more.trees[i],
                ) by {
                    if i < sofar.trees.len() {
                        assert(more.trees[i] == sofar.trees[i]);
                    }
                }
            }
            statements_shaped(t, pos, closing, more);
        }
    }
}

/// The tree of a text that is an expression is an expression in good
/// shape.
pub proof fn parsed_expression_is_in_shape(source: Seq<char>)
    ensures
        parsed_expression(source) matches Ok(tree) ==> is_expression(tree),
{
    let t = crate::grammar::lexemes(crate::scan::lex(source));
    expression_shaped(t, 0);
    assert(expression_of(t) matches Ok(tree) ==> is_expression(tree));
}

/// The trees of a text that is a program are statements in good shape.
pub proof fn parsed_program_is_in_shape(source: Seq<char>)
    ensures
        parsed_program(source) matches Ok(trees) ==> are_statements(trees),
{
    let t = crate::grammar::lexemes(crate::scan::lex(source));
    statements_shaped(t, 0, false, ParsedAll { trees: Seq::empty(), used: 0 });
    assert(program_of(t) matches Ok(trees) ==> are_statements(trees));
}

} // verus!
