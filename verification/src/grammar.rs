//! The grammar: the tree that a sequence of tokens stands for, or the fault
//! that they do not make a program.
//!
//! Expressions are read by descent through the levels of precedence, from
//! assignment, which binds loosest, down to the terminals. Every binary
//! operator groups to the left; assignment groups to the right.
use vstd::prelude::*;
use crate::scan::lex;
use crate::token::{unquoted, Item, Lexeme, TokenKind};
use crate::tree::{Leaf, Op, Tree};

verus! {

/// Why a text is no program.
pub enum Fault {
    /// The text has a place where no token begins: the first such item.
    Lexical(Item),
    /// A token that cannot stand where it stands.
    UnexpectedToken { kind: TokenKind, line: nat },
    /// The tokens end where more must follow.
    UnexpectedEnd,
    /// An `=`, on the given line, whose left side is not a name.
    InvalidAssignmentTarget { line: nat },
}

/// A tree, and the number of tokens it was read from.
pub struct Parsed {
    pub tree: Tree,
    pub used: nat,
}

/// Trees in order, and the number of tokens they were read from.
pub struct ParsedAll {
    pub trees: Seq<Tree>,
    pub used: nat,
}

/// The number of tokens from `pos` on.
pub open spec fn rest(t: Seq<Lexeme>, pos: int) -> nat {
    if pos <= t.len() {
        (t.len() - pos) as nat
    } else {
        0
    }
}

/// Whether the token at `pos` is of kind `kind`.
pub open spec fn expect(t: Seq<Lexeme>, pos: int, kind: TokenKind) -> bool {
    0 <= pos < t.len() && t[pos].kind == kind
}

/// The fault of finding, at `pos`, what cannot stand there.
pub open spec fn unexpected(t: Seq<Lexeme>, pos: int) -> Fault {
    if 0 <= pos < t.len() {
        Fault::UnexpectedToken { kind: t[pos].kind, line: t[pos].line }
    } else {
        Fault::UnexpectedEnd
    }
}

/// The levels of the binary operators, from the loosest: `or`, `and`,
/// equality, comparison, sum, product.
pub open spec fn operator(level: nat, kind: TokenKind) -> Option<Op> {
    if level == 1 {
        if kind == TokenKind::Or {
            Some(Op::Or)
        } else {
            None
        }
    } else if level == 2 {
        if kind == TokenKind::And {
            Some(Op::And)
        } else {
            None
        }
    } else if level == 3 {
        if kind == TokenKind::BangEqual {
            Some(Op::BangEqual)
        } else if kind == TokenKind::EqualEqual {
            Some(Op::EqualEqual)
        } else {
            None
        }
    } else if level == 4 {
        if kind == TokenKind::Less {
            Some(Op::Less)
        } else if kind == TokenKind::LessEqual {
            Some(Op::LessEqual)
        } else if kind == TokenKind::Greater {
            Some(Op::Greater)
        } else if kind == TokenKind::GreaterEqual {
            Some(Op::GreaterEqual)
        } else {
            None
        }
    } else if level == 5 {
        if kind == TokenKind::Minus {
            Some(Op::Minus)
        } else if kind == TokenKind::Plus {
            Some(Op::Plus)
        } else {
            None
        }
    } else if level == 6 {
        if kind == TokenKind::Slash {
            Some(Op::Slash)
        } else if kind == TokenKind::Star {
            Some(Op::Star)
        } else {
            None
        }
    } else {
        None
    }
}

/// How many levels lie between `level` and the tightest one.
pub open spec fn weight(level: nat) -> nat {
    if level >= 6 {
        0
    } else {
        (6 - level) as nat
    }
}

/// A terminal, or an expression in parentheses, which makes a `Group` of
/// one child.
pub open spec fn primary(t: Seq<Lexeme>, pos: int) -> Result<Parsed, Fault>
    decreases rest(t, pos), 0nat,
{
    if !(0 <= pos < t.len()) {
        Err(Fault::UnexpectedEnd)
    } else {
        let text = t[pos].text;
        match t[pos].kind {
            TokenKind::Number => Ok(Parsed { tree: Tree::Atom(Leaf::Number(text)), used: 1 }),
            TokenKind::String => Ok(
                Parsed { tree: Tree::Atom(Leaf::Text(unquoted(text))), used: 1 },
            ),
            TokenKind::True => Ok(Parsed { tree: Tree::Atom(Leaf::Bool(true)), used: 1 }),
            TokenKind::False => Ok(Parsed { tree: Tree::Atom(Leaf::Bool(false)), used: 1 }),
            TokenKind::Nil => Ok(Parsed { tree: Tree::Atom(Leaf::Nil), used: 1 }),
            TokenKind::Ident => Ok(Parsed { tree: Tree::Atom(Leaf::Ident(text)), used: 1 }),
            TokenKind::This => Ok(Parsed { tree: Tree::Atom(Leaf::This), used: 1 }),
            TokenKind::Super => Ok(Parsed { tree: Tree::Atom(Leaf::Super), used: 1 }),
            TokenKind::LeftParen => match expression(t, pos + 1) {
                Err(fault) => Err(fault),
                Ok(inner) => if expect(t, pos + 1 + inner.used, TokenKind::RightParen) {
                    Ok(
                        Parsed {
                            tree: Tree::Cons(Op::Group, seq![inner.tree]),
                            used: inner.used + 2,
                        },
                    )
                } else {
                    Err(unexpected(t, pos + 1 + inner.used))
                },
            },
            _ => Err(unexpected(t, pos)),
        }
    }
}

/// `!` or `-` before a unary expression, or a primary one.
pub open spec fn unary(t: Seq<Lexeme>, pos: int) -> Result<Parsed, Fault>
    decreases rest(t, pos), 1nat,
{
    if expect(t, pos, TokenKind::Bang) || expect(t, pos, TokenKind::Minus) {
        let op = if t[pos].kind == TokenKind::Bang {
            Op::Bang
        } else {
            Op::Minus
        };
        match unary(t, pos + 1) {
            Err(fault) => Err(fault),
            Ok(inner) => Ok(
                Parsed { tree: Tree::Cons(op, seq![inner.tree]), used: inner.used + 1 },
            ),
        }
    } else {
        primary(t, pos)
    }
}

/// An expression of the binary level `level`: operands of the next tighter
/// level with operators of this level between them, grouped to the left.
pub open spec fn binary(t: Seq<Lexeme>, pos: int, level: nat) -> Result<Parsed, Fault>
    decreases rest(t, pos), 2 * weight(level) + 3,
{
    let first = if level >= 6 {
        unary(t, pos)
    } else {
        binary(t, pos, level + 1)
    };
    match first {
        Err(fault) => Err(fault),
        Ok(left) => binary_tail(t, pos, level, left),
    }
}

/// What follows `left`, an expression read from `pos`: as long as an
/// operator of `level` comes next, it takes `left` and the operand behind
/// it as its children, and the tree so made is the new `left`.
pub open spec fn binary_tail(t: Seq<Lexeme>, pos: int, level: nat, left: Parsed) -> Result<
    Parsed,
    Fault,
>
    decreases rest(t, pos + left.used), 2 * weight(level) + 2,
{
    let at = pos + left.used;
    if 0 <= at < t.len() && operator(level, t[at].kind) is Some {
        let second = if level >= 6 {
            unary(t, at + 1)
        } else {
            binary(t, at + 1, level + 1)
        };
        match second {
            Err(fault) => Err(fault),
            Ok(right) => binary_tail(
                t,
                pos,
                level,
                Parsed {
                    tree: Tree::Cons(operator(level, t[at].kind)->0, seq![left.tree, right.tree]),
                    used: left.used + 1 + right.used,
                },
            ),
        }
    } else {
        Ok(left)
    }
}

/// An assignment, or an expression of the loosest binary level. What
/// stands left of `=` must be a name, and what stands right of it is an
/// assignment again.
pub open spec fn assignment(t: Seq<Lexeme>, pos: int) -> Result<Parsed, Fault>
    decreases rest(t, pos), 20nat,
{
    match binary(t, pos, 1) {
        Err(fault) => Err(fault),
        Ok(left) => {
            let at = pos + left.used;
            if expect(t, at, TokenKind::Equal) {
                match assignment(t, at + 1) {
                    Err(fault) => Err(fault),
                    Ok(right) => if left.tree matches Tree::Atom(Leaf::Ident(_)) {
                        Ok(
                            Parsed {
                                tree: Tree::Cons(Op::Assign, seq![left.tree, right.tree]),
                                used: left.used + 1 + right.used,
                            },
                        )
                    } else {
                        Err(Fault::InvalidAssignmentTarget { line: t[at].line })
                    },
                }
            } else {
                Ok(left)
            }
        },
    }
}

/// An expression.
pub open spec fn expression(t: Seq<Lexeme>, pos: int) -> Result<Parsed, Fault>
    decreases rest(t, pos), 21nat,
{
    assignment(t, pos)
}

/// An expression in parentheses, as it stands behind `if` and `while`: the
/// tree is that of the expression.
pub open spec fn condition(t: Seq<Lexeme>, pos: int) -> Result<Parsed, Fault>
    decreases rest(t, pos), 22nat,
{
    if !expect(t, pos, TokenKind::LeftParen) {
        Err(unexpected(t, pos))
    } else {
        match expression(t, pos + 1) {
            Err(fault) => Err(fault),
            Ok(inner) => if expect(t, pos + 1 + inner.used, TokenKind::RightParen) {
                Ok(Parsed { tree: inner.tree, used: inner.used + 2 })
            } else {
                Err(unexpected(t, pos + 1 + inner.used))
            },
        }
    }
}

/// An expression with a `;` behind it, which is counted as used.
pub open spec fn ended(t: Seq<Lexeme>, pos: int) -> Result<Parsed, Fault>
    decreases rest(t, pos), 22nat,
{
    match expression(t, pos) {
        Err(fault) => Err(fault),
        Ok(inner) => if expect(t, pos + inner.used, TokenKind::Semicolon) {
            Ok(Parsed { tree: inner.tree, used: inner.used + 1 })
        } else {
            Err(unexpected(t, pos + inner.used))
        },
    }
}

/// A declaration, whose `var` stands at `pos`: a name, and perhaps `=` and
/// an expression, then `;`. Without a value the name is declared as `nil`.
pub open spec fn declaration(t: Seq<Lexeme>, pos: int) -> Result<Parsed, Fault>
    decreases rest(t, pos), 29nat,
{
    if !expect(t, pos, TokenKind::Var) || !expect(t, pos + 1, TokenKind::Ident) {
        Err(unexpected(t, pos + 1))
    } else {
        let name = Tree::Atom(Leaf::Ident(t[pos + 1].text));
        if expect(t, pos + 2, TokenKind::Equal) {
            match ended(t, pos + 3) {
                Err(fault) => Err(fault),
                Ok(value) => Ok(
                    Parsed {
                        tree: Tree::Cons(Op::Var, seq![name, value.tree]),
                        used: value.used + 3,
                    },
                ),
            }
        } else if expect(t, pos + 2, TokenKind::Semicolon) {
            Ok(Parsed { tree: Tree::Cons(Op::Var, seq![name, Tree::Atom(Leaf::Nil)]), used: 3 })
        } else {
            Err(unexpected(t, pos + 2))
        }
    }
}

/// A `print` statement, whose `print` stands at `pos`.
pub open spec fn printing(t: Seq<Lexeme>, pos: int) -> Result<Parsed, Fault>
    decreases rest(t, pos), 29nat,
{
    if !expect(t, pos, TokenKind::Print) {
        Err(unexpected(t, pos))
    } else {
        match ended(t, pos + 1) {
            Err(fault) => Err(fault),
            Ok(value) => Ok(
                Parsed { tree: Tree::Cons(Op::Print, seq![value.tree]), used: value.used + 1 },
            ),
        }
    }
}

/// A block, whose `{` stands at `pos`: a `Group` of its statements.
pub open spec fn block(t: Seq<Lexeme>, pos: int) -> Result<Parsed, Fault>
    decreases rest(t, pos), 29nat,
{
    if !expect(t, pos, TokenKind::LeftBrace) {
        Err(unexpected(t, pos))
    } else {
        match statements(t, pos + 1, true, ParsedAll { trees: Seq::empty(), used: 0 }) {
            Err(fault) => Err(fault),
            Ok(body) => Ok(Parsed { tree: Tree::Cons(Op::Group, body.trees), used: body.used + 1 }),
        }
    }
}

/// An `if` statement, whose `if` stands at `pos`. An `else` belongs to the
/// nearest `if`.
pub open spec fn conditional(t: Seq<Lexeme>, pos: int) -> Result<Parsed, Fault>
    decreases rest(t, pos), 29nat,
{
    if !expect(t, pos, TokenKind::If) {
        Err(unexpected(t, pos))
    } else {
        match condition(t, pos + 1) {
            Err(fault) => Err(fault),
            Ok(cond) => match statement(t, pos + 1 + cond.used) {
                Err(fault) => Err(fault),
                Ok(yes) => {
                    let at = pos + 1 + cond.used + yes.used;
                    if expect(t, at, TokenKind::Else) {
                        match statement(t, at + 1) {
                            Err(fault) => Err(fault),
                            Ok(no) => Ok(
                                Parsed {
                                    tree: Tree::If {
                                        condition: Box::new(cond.tree),
                                        yes: Box::new(yes.tree),
                                        no: Some(Box::new(no.tree)),
                                    },
                                    used: cond.used + yes.used + no.used + 2,
                                },
                            ),
                        }
                    } else {
                        Ok(
                            Parsed {
                                tree: Tree::If {
                                    condition: Box::new(cond.tree),
                                    yes: Box::new(yes.tree),
                                    no: None,
                                },
                                used: cond.used + yes.used + 1,
                            },
                        )
                    }
                },
            },
        }
    }
}

/// A `while` statement, whose `while` stands at `pos`.
pub open spec fn repetition(t: Seq<Lexeme>, pos: int) -> Result<Parsed, Fault>
    decreases rest(t, pos), 29nat,
{
    if !expect(t, pos, TokenKind::While) {
        Err(unexpected(t, pos))
    } else {
        match condition(t, pos + 1) {
            Err(fault) => Err(fault),
            Ok(cond) => match statement(t, pos + 1 + cond.used) {
                Err(fault) => Err(fault),
                Ok(body) => Ok(
                    Parsed {
                        tree: Tree::Cons(Op::While, seq![cond.tree, body.tree]),
                        used: cond.used + body.used + 1,
                    },
                ),
            },
        }
    }
}

/// A statement: a declaration, `print`, a block, `if`, `while`, or an
/// expression with `;` behind it, which is the tree of its expression.
pub open spec fn statement(t: Seq<Lexeme>, pos: int) -> Result<Parsed, Fault>
    decreases rest(t, pos), 30nat,
{
    if !(0 <= pos < t.len()) {
        Err(Fault::UnexpectedEnd)
    } else {
        match t[pos].kind {
            TokenKind::Var => declaration(t, pos),
            TokenKind::Print => printing(t, pos),
            TokenKind::LeftBrace => block(t, pos),
            TokenKind::If => conditional(t, pos),
            TokenKind::While => repetition(t, pos),
            _ => ended(t, pos),
        }
    }
}

/// At least one: a statement is never read from no token at all (see
/// [`statement_uses_tokens`]).
pub open spec fn at_least_one(used: nat) -> nat {
    if used == 0 {
        1
    } else {
        used
    }
}

/// The statements that follow `sofar`, which was read from `pos`. Inside a
/// block (`closing`) they go up to the `}`, which is counted as used, and
/// the tokens must not end before it; outside they go to the end of the
/// tokens.
pub open spec fn statements(t: Seq<Lexeme>, pos: int, closing: bool, sofar: ParsedAll) -> Result<
    ParsedAll,
    Fault,
>
    decreases rest(t, pos + sofar.used), 31nat,
{
    let at = pos + sofar.used;
    if !(0 <= at < t.len()) {
        if closing {
            Err(Fault::UnexpectedEnd)
        } else {
            Ok(sofar)
        }
    } else if closing && t[at].kind == TokenKind::RightBrace {
        Ok(ParsedAll { trees: sofar.trees, used: sofar.used + 1 })
    } else {
        match statement(t, at) {
            Err(fault) => Err(fault),
            Ok(next) => statements(
                t,
                pos,
                closing,
                ParsedAll { trees: sofar.trees.push(next.tree), used: sofar.used + at_least_one(next.used) },
            ),
        }
    }
}

/// The tokens of a text whose every item is a token.
pub open spec fn lexemes(items: Seq<Item>) -> Seq<Lexeme> {
    Seq::new(
        items.len(),
        |i: int|
            match items[i] {
                Item::Token(lexeme) => lexeme,
                _ => Lexeme { kind: TokenKind::Nil, text: Seq::empty(), line: 0 },
            },
    )
}

/// The first item from index `from` on that is no token.
pub open spec fn first_error(items: Seq<Item>, from: int) -> Option<Item>
    decreases items.len() - from,
{
    if from < 0 || from >= items.len() {
        None
    } else if items[from] is Token {
        first_error(items, from + 1)
    } else {
        Some(items[from])
    }
}

/// The tree of tokens that are one expression and nothing more.
pub open spec fn expression_of(t: Seq<Lexeme>) -> Result<Tree, Fault> {
    match expression(t, 0) {
        Err(fault) => Err(fault),
        Ok(parsed) => if parsed.used == t.len() {
            Ok(parsed.tree)
        } else {
            Err(unexpected(t, parsed.used as int))
        },
    }
}

/// The statements of tokens that are a program.
pub open spec fn program_of(t: Seq<Lexeme>) -> Result<Seq<Tree>, Fault> {
    match statements(t, 0, false, ParsedAll { trees: Seq::empty(), used: 0 }) {
        Err(fault) => Err(fault),
        Ok(all) => Ok(all.trees),
    }
}

/// The tree of a text that is one expression. A text with a place where no
/// token begins is none.
pub open spec fn parsed_expression(source: Seq<char>) -> Result<Tree, Fault> {
    match first_error(lex(source), 0) {
        Some(item) => Err(Fault::Lexical(item)),
        None => expression_of(lexemes(lex(source))),
    }
}

/// The statements of a text that is a program. A text with a place where
/// no token begins is none.
pub open spec fn parsed_program(source: Seq<char>) -> Result<Seq<Tree>, Fault> {
    match first_error(lex(source), 0) {
        Some(item) => Err(Fault::Lexical(item)),
        None => program_of(lexemes(lex(source))),
    }
}

/// `binary_tail`, one step unfolded.
pub proof fn tail_unfolds(t: Seq<Lexeme>, pos: int, level: nat, left: Parsed)
    ensures
        binary_tail(t, pos, level, left) == ({
            let at = pos + left.used;
            if 0 <= at < t.len() && operator(level, t[at].kind) is Some {
                let second = if level >= 6 {
                    unary(t, at + 1)
                } else {
                    binary(t, at + 1, level + 1)
                };
                match second {
                    Err(fault) => Err(fault),
                    Ok(right) => binary_tail(
                        t,
                        pos,
                        level,
                        Parsed {
                            tree: Tree::Cons(
                                operator(level, t[at].kind)->0,
                                seq![left.tree, right.tree],
                            ),
                            used: left.used + 1 + right.used,
                        },
                    ),
                }
            } else {
                Ok(left)
            }
        }),
{
}

/// A statement is read from at least one token.
pub proof fn statement_uses_tokens(t: Seq<Lexeme>, pos: int)
    ensures
        statement(t, pos) matches Ok(parsed) ==> parsed.used >= 1,
{
    reveal_with_fuel(statement, 2);
}

} // verus!
