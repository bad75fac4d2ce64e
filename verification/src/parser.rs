//! The parser: from a text to its tree, by recursive descent.
use vstd::prelude::*;
use crate::grammar;
use crate::grammar::{Fault, Parsed, ParsedAll};
use crate::lexer::tokenize;
use crate::scan::lex;
use crate::token::{item_of, items_of, unquote, LexError, Lexeme, Token, TokenKind};
use crate::tree::{views, views_are, Atom, Leaf, Op, TokenTree, Tree};

verus! {

/// Why a text could not be parsed.
#[derive(Clone, Copy, Debug, PartialEq, Eq, Structural)]
pub enum ParseError {
    /// The text has a place where no token begins; this is the first.
    Lexical(LexError),
    /// A token that cannot stand where it stands.
    UnexpectedToken { kind: TokenKind, line: usize },
    /// The text ends where more must follow.
    UnexpectedEnd,
    /// An `=`, on the given line, whose left side is not a name.
    InvalidAssignmentTarget { line: usize },
}

impl View for ParseError {
    type V = Fault;

    open spec fn view(&self) -> Fault {
        match *self {
            ParseError::Lexical(e) => Fault::Lexical(item_of(Err(e))),
            ParseError::UnexpectedToken { kind, line } => Fault::UnexpectedToken {
                kind,
                line: line as nat,
            },
            ParseError::UnexpectedEnd => Fault::UnexpectedEnd,
            ParseError::InvalidAssignmentTarget { line } => Fault::InvalidAssignmentTarget {
                line: line as nat,
            },
        }
    }
}

/// The tokens as the grammar sees them.
pub open spec fn lexemes_of(tokens: Seq<Token>) -> Seq<Lexeme> {
    Seq::new(tokens.len(), |i: int| tokens[i]@)
}

/// A step of the descent did what the grammar says: it made the tree and
/// came to the index that the grammar gives, or failed with its fault.
spec fn yields(
    r: Result<(TokenTree, usize), ParseError>,
    tokens: Seq<Token>,
    pos: usize,
    expected: Result<Parsed, Fault>,
) -> bool {
    match r {
        Ok((tree, end)) => pos <= end <= tokens.len() && expected == Ok::<Parsed, Fault>(
            Parsed { tree: tree@, used: (end - pos) as nat },
        ),
        Err(e) => expected == Err::<Parsed, Fault>(e@),
    }
}

fn is_kind(tokens: &Vec<Token>, pos: usize, kind: TokenKind) -> (r: bool)
    ensures
        r == grammar::expect(lexemes_of(tokens@), pos as int, kind),
{
    pos < tokens.len() && tokens[pos].kind == kind
}

fn unexpected_at(tokens: &Vec<Token>, pos: usize) -> (e: ParseError)
    ensures
        e@ == grammar::unexpected(lexemes_of(tokens@), pos as int),
{
    if pos < tokens.len() {
        ParseError::UnexpectedToken { kind: tokens[pos].kind, line: tokens[pos].line }
    } else {
        ParseError::UnexpectedEnd
    }
}

fn operator_of(level: u8, kind: TokenKind) -> (op: Option<Op>)
    ensures
        op == grammar::operator(level as nat, kind),
{
    if level == 1 {
        if kind == TokenKind::Or {
            Some(Op::Or)
        } else {
            None
        }
    } else if level == 2 {
        if kind == TokenKind::And {
            Some(Op::And)
        } else {
            None
        }
    } else if level == 3 {
        if kind == TokenKind::BangEqual {
            Some(Op::BangEqual)
        } else if kind == TokenKind::EqualEqual {
            Some(Op::EqualEqual)
        } else {
            None
        }
    } else if level == 4 {
        if kind == TokenKind::Less {
            Some(Op::Less)
        } else if kind == TokenKind::LessEqual {
            Some(Op::LessEqual)
        } else if kind == TokenKind::Greater {
            Some(Op::Greater)
        } else if kind == TokenKind::GreaterEqual {
            Some(Op::GreaterEqual)
        } else {
            None
        }
    } else if level == 5 {
        if kind == TokenKind::Minus {
            Some(Op::Minus)
        } else if kind == TokenKind::Plus {
            Some(Op::Plus)
        } else {
            None
        }
    } else if level == 6 {
        if kind == TokenKind::Slash {
            Some(Op::Slash)
        } else if kind == TokenKind::Star {
            Some(Op::Star)
        } else {
            None
        }
    } else {
        None
    }
}

fn cons1(op: Op, child: TokenTree) -> (tree: TokenTree)
    ensures
        tree@ == Tree::Cons(op, seq![child@]),
{
    let ghost c = child@;
    let mut kids: Vec<TokenTree> = Vec::new();
    kids.push(child);
    proof {
        views_are(kids@);
        assert(views(kids@) =~= seq![c]);
    }
    TokenTree::Cons(op, kids)
}

fn cons2(op: Op, left: TokenTree, right: TokenTree) -> (tree: TokenTree)
    ensures
        tree@ == Tree::Cons(op, seq![left@, right@]),
{
    let ghost l = left@;
    let ghost r = right@;
    let mut kids: Vec<TokenTree> = Vec::new();
    kids.push(left);
    kids.push(right);
    proof {
        views_are(kids@);
        assert(views(kids@) =~= seq![l, r]);
    }
    TokenTree::Cons(op, kids)
}

fn branch(condition: TokenTree, yes: TokenTree, no: Option<TokenTree>) -> (tree: TokenTree)
    ensures
        tree@ == (Tree::If {
            condition: Box::new(condition@),
            yes: Box::new(yes@),
            no: match no {
                Some(otherwise) => Some(Box::new(otherwise@)),
                None => None,
            },
        }),
{
    match no {
        Some(otherwise) => TokenTree::If {
            condition: Box::new(condition),
            yes: Box::new(yes),
            no: Some(Box::new(otherwise)),
        },
        None => TokenTree::If { condition: Box::new(condition), yes: Box::new(yes), no: None },
    }
}

fn is_name(tree: &TokenTree) -> (r: bool)
    ensures
        r == (tree@ matches Tree::Atom(Leaf::Ident(_))),
{
    match tree {
        TokenTree::Atom(Atom::Ident(_)) => true,
        _ => false,
    }
}

fn parse_primary(tokens: &Vec<Token>, pos: usize) -> (r: Result<(TokenTree, usize), ParseError>)
    requires
        pos <= tokens.len(),
    ensures
        yields(r, tokens@, pos, grammar::primary(lexemes_of(tokens@), pos as int)),
    decreases tokens.len() - pos, 0nat,
{
    if pos >= tokens.len() {
        return Err(ParseError::UnexpectedEnd);
    }
    let token = &tokens[pos];
    match token.kind {
        TokenKind::Number => Ok((TokenTree::Atom(Atom::Number(token.lexeme.clone())), pos + 1)),
        TokenKind::String => Ok((TokenTree::Atom(Atom::String(unquote(&token.lexeme))), pos + 1)),
        TokenKind::True => Ok((TokenTree::Atom(Atom::Bool(true)), pos + 1)),
        TokenKind::False => Ok((TokenTree::Atom(Atom::Bool(false)), pos + 1)),
        TokenKind::Nil => Ok((TokenTree::Atom(Atom::Nil), pos + 1)),
        TokenKind::Ident => Ok((TokenTree::Atom(Atom::Ident(token.lexeme.clone())), pos + 1)),
        TokenKind::This => Ok((TokenTree::Atom(Atom::This), pos + 1)),
        TokenKind::Super => Ok((TokenTree::Atom(Atom::Super), pos + 1)),
        TokenKind::LeftParen => match parse_expression_at(tokens, pos + 1) {
            Err(e) => Err(e),
            Ok((inner, at)) => if is_kind(tokens, at, TokenKind::RightParen) {
                Ok((cons1(Op::Group, inner), at + 1))
            } else {
                Err(unexpected_at(tokens, at))
            },
        },
        _ => Err(unexpected_at(tokens, pos)),
    }
}

fn parse_unary(tokens: &Vec<Token>, pos: usize) -> (r: Result<(TokenTree, usize), ParseError>)
    requires
        pos <= tokens.len(),
    ensures
        yields(r, tokens@, pos, grammar::unary(lexemes_of(tokens@), pos as int)),
    decreases tokens.len() - pos, 1nat,
{
    if is_kind(tokens, pos, TokenKind::Bang) || is_kind(tokens, pos, TokenKind::Minus) {
        let op = if tokens[pos].kind == TokenKind::Bang {
            Op::Bang
        } else {
            Op::Minus
        };
        match parse_unary(tokens, pos + 1) {
            Err(e) => Err(e),
            Ok((inner, end)) => Ok((cons1(op, inner), end)),
        }
    } else {
        parse_primary(tokens, pos)
    }
}

fn parse_binary(tokens: &Vec<Token>, pos: usize, level: u8) -> (r: Result<
    (TokenTree, usize),
    ParseError,
>)
    requires
        pos <= tokens.len(),
        level <= 6,
    ensures
        yields(r, tokens@, pos, grammar::binary(lexemes_of(tokens@), pos as int, level as nat)),
    decreases tokens.len() - pos, 2 * grammar::weight(level as nat) + 3,
{
    let ghost t = lexemes_of(tokens@);
    let first = if level >= 6 {
        parse_unary(tokens, pos)
    } else {
        parse_binary(tokens, pos, level + 1)
    };
    let mut left: TokenTree;
    let mut at: usize;
    match first {
        Err(e) => {
            return Err(e);
        },
        Ok((tree, end)) => {
            left = tree;
            at = end;
        },
    }
    loop
        invariant
            pos <= at <= tokens.len(),
            level <= 6,
            t == lexemes_of(tokens@),
            grammar::binary_tail(
                t,
                pos as int,
                level as nat,
                Parsed { tree: left@, used: (at - pos) as nat },
            ) == grammar::binary(t, pos as int, level as nat),
        decreases tokens.len() - at,
    {
        proof {
            grammar::tail_unfolds(
                t,
                pos as int,
                level as nat,
                Parsed { tree: left@, used: (at - pos) as nat },
            );
        }
        if at >= tokens.len() {
            return Ok((left, at));
        }
        let op = match operator_of(level, tokens[at].kind) {
            None => {
                return Ok((left, at));
            },
            Some(op) => op,
        };
        let second = if level >= 6 {
            parse_unary(tokens, at + 1)
        } else {
            parse_binary(tokens, at + 1, level + 1)
        };
        match second {
            Err(e) => {
                return Err(e);
            },
            Ok((right, end)) => {
                left = cons2(op, left, right);
                at = end;
            },
        }
    }
}

fn parse_assignment(tokens: &Vec<Token>, pos: usize) -> (r: Result<(TokenTree, usize), ParseError>)
    requires
        pos <= tokens.len(),
    ensures
        yields(r, tokens@, pos, grammar::assignment(lexemes_of(tokens@), pos as int)),
    decreases tokens.len() - pos, 20nat,
{
    match parse_binary(tokens, pos, 1) {
        Err(e) => Err(e),
        Ok((left, at)) => {
            if is_kind(tokens, at, TokenKind::Equal) {
                match parse_assignment(tokens, at + 1) {
                    Err(e) => Err(e),
                    Ok((right, end)) => {
                        if is_name(&left) {
                            Ok((cons2(Op::Assign, left, right), end))
                        } else {
                            Err(ParseError::InvalidAssignmentTarget { line: tokens[at].line })
                        }
                    },
                }
            } else {
                Ok((left, at))
            }
        },
    }
}

fn parse_expression_at(tokens: &Vec<Token>, pos: usize) -> (r: Result<
    (TokenTree, usize),
    ParseError,
>)
    requires
        pos <= tokens.len(),
    ensures
        yields(r, tokens@, pos, grammar::expression(lexemes_of(tokens@), pos as int)),
    decreases tokens.len() - pos, 21nat,
{
    parse_assignment(tokens, pos)
}

fn parse_condition(tokens: &Vec<Token>, pos: usize) -> (r: Result<(TokenTree, usize), ParseError>)
    requires
        pos <= tokens.len(),
    ensures
        yields(r, tokens@, pos, grammar::condition(lexemes_of(tokens@), pos as int)),
    decreases tokens.len() - pos, 22nat,
{
    if !is_kind(tokens, pos, TokenKind::LeftParen) {
        return Err(unexpected_at(tokens, pos));
    }
    match parse_expression_at(tokens, pos + 1) {
        Err(e) => Err(e),
        Ok((inner, at)) => if is_kind(tokens, at, TokenKind::RightParen) {
            Ok((inner, at + 1))
        } else {
            Err(unexpected_at(tokens, at))
        },
    }
}

fn parse_ended(tokens: &Vec<Token>, pos: usize) -> (r: Result<(TokenTree, usize), ParseError>)
    requires
        pos <= tokens.len(),
    ensures
        yields(r, tokens@, pos, grammar::ended(lexemes_of(tokens@), pos as int)),
        r matches Ok((_, end)) ==> end > pos,
    decreases tokens.len() - pos, 22nat,
{
    match parse_expression_at(tokens, pos) {
        Err(e) => Err(e),
        Ok((inner, at)) => if is_kind(tokens, at, TokenKind::Semicolon) {
            Ok((inner, at + 1))
        } else {
            Err(unexpected_at(tokens, at))
        },
    }
}

fn parse_declaration(tokens: &Vec<Token>, pos: usize) -> (r: Result<
    (TokenTree, usize),
    ParseError,
>)
    requires
        pos < tokens.len(),
        tokens[pos as int].kind == TokenKind::Var,
    ensures
        yields(r, tokens@, pos, grammar::declaration(lexemes_of(tokens@), pos as int)),
        r matches Ok((_, end)) ==> end > pos,
    decreases tokens.len() - pos, 29nat,
{
    if !is_kind(tokens, pos + 1, TokenKind::Ident) {
        return Err(unexpected_at(tokens, pos + 1));
    }
    let name = TokenTree::Atom(Atom::Ident(tokens[pos + 1].lexeme.clone()));
    if is_kind(tokens, pos + 2, TokenKind::Equal) {
        match parse_ended(tokens, pos + 3) {
            Err(e) => Err(e),
            Ok((value, end)) => Ok((cons2(Op::Var, name, value), end)),
        }
    } else if is_kind(tokens, pos + 2, TokenKind::Semicolon) {
        Ok((cons2(Op::Var, name, TokenTree::Atom(Atom::Nil)), pos + 3))
    } else {
        Err(unexpected_at(tokens, pos + 2))
    }
}

fn parse_printing(tokens: &Vec<Token>, pos: usize) -> (r: Result<(TokenTree, usize), ParseError>)
    requires
        pos < tokens.len(),
        tokens[pos as int].kind == TokenKind::Print,
    ensures
        yields(r, tokens@, pos, grammar::printing(lexemes_of(tokens@), pos as int)),
        r matches Ok((_, end)) ==> end > pos,
    decreases tokens.len() - pos, 29nat,
{
    match parse_ended(tokens, pos + 1) {
        Err(e) => Err(e),
        Ok((value, end)) => Ok((cons1(Op::Print, value), end)),
    }
}

fn parse_block(tokens: &Vec<Token>, pos: usize) -> (r: Result<(TokenTree, usize), ParseError>)
    requires
        pos < tokens.len(),
        tokens[pos as int].kind == TokenKind::LeftBrace,
    ensures
        yields(r, tokens@, pos, grammar::block(lexemes_of(tokens@), pos as int)),
        r matches Ok((_, end)) ==> end > pos,
    decreases tokens.len() - pos, 29nat,
{
    match parse_statements(tokens, pos + 1, true) {
        Err(e) => Err(e),
        Ok((body, end)) => Ok((TokenTree::Cons(Op::Group, body), end)),
    }
}

#[verifier::rlimit(80)]
fn parse_conditional(tokens: &Vec<Token>, pos: usize) -> (r: Result<
    (TokenTree, usize),
    ParseError,
>)
    requires
        pos < tokens.len(),
        tokens[pos as int].kind == TokenKind::If,
    ensures
        yields(r, tokens@, pos, grammar::conditional(lexemes_of(tokens@), pos as int)),
        r matches Ok((_, end)) ==> end > pos,
    decreases tokens.len() - pos, 29nat,
{
    let (cond, at) = match parse_condition(tokens, pos + 1) {
        Err(e) => {
            return Err(e);
        },
        Ok(found) => found,
    };
    let (yes, after) = match parse_statement(tokens, at) {
        Err(e) => {
            return Err(e);
        },
        Ok(found) => found,
    };
    if is_kind(tokens, after, TokenKind::Else) {
        match parse_statement(tokens, after + 1) {
            Err(e) => Err(e),
            Ok((no, end)) => Ok((branch(cond, yes, Some(no)), end)),
        }
    } else {
        Ok((branch(cond, yes, None), after))
    }
}

#[verifier::rlimit(80)]
fn parse_repetition(tokens: &Vec<Token>, pos: usize) -> (r: Result<(TokenTree, usize), ParseError>)
    requires
        pos < tokens.len(),
        tokens[pos as int].kind == TokenKind::While,
    ensures
        yields(r, tokens@, pos, grammar::repetition(lexemes_of(tokens@), pos as int)),
        r matches Ok((_, end)) ==> end > pos,
    decreases tokens.len() - pos, 29nat,
{
    let (cond, at) = match parse_condition(tokens, pos + 1) {
        Err(e) => {
            return Err(e);
        },
        Ok(found) => found,
    };
    match parse_statement(tokens, at) {
        Err(e) => Err(e),
        Ok((body, end)) => Ok((cons2(Op::While, cond, body), end)),
    }
}

fn parse_statement(tokens: &Vec<Token>, pos: usize) -> (r: Result<(TokenTree, usize), ParseError>)
    requires
        pos <= tokens.len(),
    ensures
        yields(r, tokens@, pos, grammar::statement(lexemes_of(tokens@), pos as int)),
        r matches Ok((_, end)) ==> end > pos,
    decreases tokens.len() - pos, 30nat,
{
    if pos >= tokens.len() {
        return Err(ParseError::UnexpectedEnd);
    }
    match tokens[pos].kind {
        TokenKind::Var => parse_declaration(tokens, pos),
        TokenKind::Print => parse_printing(tokens, pos),
        TokenKind::LeftBrace => parse_block(tokens, pos),
        TokenKind::If => parse_conditional(tokens, pos),
        TokenKind::While => parse_repetition(tokens, pos),
        _ => parse_ended(tokens, pos),
    }
}

fn parse_statements(tokens: &Vec<Token>, pos: usize, closing: bool) -> (r: Result<
    (Vec<TokenTree>, usize),
    ParseError,
>)
    requires
        pos <= tokens.len(),
    ensures
        match r {
            Ok((trees, end)) => pos <= end <= tokens.len() && grammar::statements(
                lexemes_of(tokens@),
                pos as int,
                closing,
                ParsedAll { trees: Seq::empty(), used: 0 },
            ) == Ok::<ParsedAll, Fault>(
                ParsedAll { trees: views(trees@), used: (end - pos) as nat },
            ),
            Err(e) => grammar::statements(
                lexemes_of(tokens@),
                pos as int,
                closing,
                ParsedAll { trees: Seq::empty(), used: 0 },
            ) == Err::<ParsedAll, Fault>(e@),
        },
    decreases tokens.len() - pos, 31nat,
{
    let ghost t = lexemes_of(tokens@);
    let mut trees: Vec<TokenTree> = Vec::new();
    let mut at: usize = pos;
    proof {
        views_are(trees@);
        assert(views(trees@) =~= Seq::<Tree>::empty());
    }
    loop
        invariant
            pos <= at <= tokens.len(),
            t == lexemes_of(tokens@),
            grammar::statements(
                t,
                pos as int,
                closing,
                ParsedAll { trees: views(trees@), used: (at - pos) as nat },
            ) == grammar::statements(
                t,
                pos as int,
                closing,
                ParsedAll { trees: Seq::empty(), used: 0 },
            ),
        decreases tokens.len() - at,
    {
        if at >= tokens.len() {
            if closing {
                return Err(ParseError::UnexpectedEnd);
            } else {
                return Ok((trees, at));
            }
        }
        if closing && tokens[at].kind == TokenKind::RightBrace {
            return Ok((trees, at + 1));
        }
        let ghost before = trees@;
        match parse_statement(tokens, at) {
            Err(e) => {
                return Err(e);
            },
            Ok((tree, end)) => {
                trees.push(tree);
                proof {
                    views_are(before);
                    views_are(trees@);
                    assert(views(trees@) =~= views(before).push(tree@));
                }
                at = end;
            },
        }
    }
}

/// The tokens among the steps of a lexer, or the first of its errors.
fn tokens_of(steps: &Vec<Result<Token, LexError>>) -> (r: Result<Vec<Token>, LexError>)
    ensures
        match r {
            Ok(tokens) => grammar::first_error(items_of(steps@), 0) is None && lexemes_of(tokens@)
                == grammar::lexemes(items_of(steps@)),
            Err(e) => grammar::first_error(items_of(steps@), 0) == Some(
                item_of(Err::<Token, LexError>(e)),
            ),
        },
{
    let ghost items = items_of(steps@);
    let mut tokens: Vec<Token> = Vec::new();
    let mut i: usize = 0;
    while i < steps.len()
        invariant
            i <= steps.len(),
            items == items_of(steps@),
            tokens.len() == i,
            grammar::first_error(items, 0) == grammar::first_error(items, i as int),
            forall|j: int| 0 <= j < i ==> #[trigger] tokens[j]@ == grammar::lexemes(items)[j],
        decreases steps.len() - i,
    {
        match &steps[i] {
            Ok(token) => {
                tokens.push(token.duplicate());
            },
            Err(e) => {
                return Err(*e);
            },
        }
        i += 1;
    }
    assert(lexemes_of(tokens@) =~= grammar::lexemes(items));
    Ok(tokens)
}

/// A parser over one text.
pub struct Parser {
    steps: Vec<Result<Token, LexError>>,
    source: Ghost<Seq<char>>,
}

impl Parser {
    /// The text.
    pub closed spec fn source(&self) -> Seq<char> {
        self.source@
    }

    /// The parser holds the items of its text.
    pub closed spec fn wf(&self) -> bool {
        items_of(self.steps@) == lex(self.source@)
    }

    /// A parser over `source`.
    pub fn new(source: &str) -> (parser: Parser)
        ensures
            parser.wf(),
            parser.source() == source@,
    {
        Parser { steps: tokenize(source), source: Ghost(source@) }
    }

    /// Parses the text as one expression. It succeeds exactly where the
    /// grammar makes the whole text an expression, with the tree that the
    /// grammar gives; else it fails with the grammar's fault.
    pub fn parse_expression(self) -> (r: Result<TokenTree, ParseError>)
        requires
            self.wf(),
        ensures
            match r {
                Ok(tree) => grammar::parsed_expression(self.source()) == Ok::<Tree, Fault>(tree@),
                Err(e) => grammar::parsed_expression(self.source()) == Err::<Tree, Fault>(e@),
            },
    {
        let tokens = match tokens_of(&self.steps) {
            Err(e) => {
                return Err(ParseError::Lexical(e));
            },
            Ok(tokens) => tokens,
        };
        match parse_expression_at(&tokens, 0) {
            Err(e) => Err(e),
            Ok((tree, end)) => {
                if end == tokens.len() {
                    Ok(tree)
                } else {
                    Err(unexpected_at(&tokens, end))
                }
            },
        }
    }

    /// Parses the text as a program: statements up to the end of the text.
    /// It succeeds exactly where the grammar makes the text a program, with
    /// the trees that the grammar gives; else it fails with the grammar's
    /// fault.
    pub fn parse_program(self) -> (r: Result<Vec<TokenTree>, ParseError>)
        requires
            self.wf(),
        ensures
            match r {
                Ok(trees) => grammar::parsed_program(self.source()) == Ok::<Seq<Tree>, Fault>(
                    views(trees@),
                ),
                Err(e) => grammar::parsed_program(self.source()) == Err::<Seq<Tree>, Fault>(e@),
            },
    {
        let tokens = match tokens_of(&self.steps) {
            Err(e) => {
                return Err(ParseError::Lexical(e));
            },
            Ok(tokens) => tokens,
        };
        match parse_statements(&tokens, 0, false) {
            Err(e) => Err(e),
            Ok((trees, _)) => Ok(trees),
        }
    }
}

} // verus!
