//! The syntax tree.
use vstd::prelude::*;

verus! {

/// A terminal of the tree.
#[derive(Clone, Debug, PartialEq)]
pub enum Atom {
    /// A string literal, without its quotes.
    String(String),
    /// A number literal, as it was written: digits, and perhaps a point and
    /// more digits.
    Number(String),
    Nil,
    Bool(bool),
    /// The name of a variable.
    Ident(String),
    Super,
    This,
}

/// What a `Cons` node applies to its children.
#[derive(Clone, Copy, Debug, PartialEq, Eq, Structural)]
pub enum Op {
    Minus,
    Plus,
    Star,
    Slash,
    Bang,
    BangEqual,
    EqualEqual,
    Less,
    LessEqual,
    Greater,
    GreaterEqual,
    And,
    Or,
    Assign,
    /// A parenthesised expression, or a block of statements.
    Group,
    Var,
    Print,
    While,
}

/// A node of the syntax tree. A tree owns its children; nothing in it is
/// shared or changed once it is built.
#[derive(Debug, PartialEq)]
pub enum TokenTree {
    Atom(Atom),
    /// An operator with its operands, in order.
    Cons(Op, Vec<TokenTree>),
    /// A function declaration. It has a place in the tree and no meaning
    /// yet: it evaluates to `nil` and runs as nothing.
    Fun { name: String, parameters: Vec<String>, body: Box<TokenTree> },
    /// A call. As with `Fun`, it evaluates to `nil`.
    Call { callee: Box<TokenTree>, arguments: Vec<TokenTree> },
    /// A conditional statement; `no` is the `else` branch.
    If { condition: Box<TokenTree>, yes: Box<TokenTree>, no: Option<Box<TokenTree>> },
}

/// A terminal as the contracts see it: strings are their characters.
pub enum Leaf {
    Text(Seq<char>),
    Number(Seq<char>),
    Nil,
    Bool(bool),
    Ident(Seq<char>),
    Super,
    This,
}

/// A syntax tree as the contracts see it.
pub enum Tree {
    Atom(Leaf),
    Cons(Op, Seq<Tree>),
    Fun { name: Seq<char>, parameters: Seq<Seq<char>>, body: Box<Tree> },
    Call { callee: Box<Tree>, arguments: Seq<Tree> },
    If { condition: Box<Tree>, yes: Box<Tree>, no: Option<Box<Tree>> },
}

impl View for Atom {
    type V = Leaf;

    open spec fn view(&self) -> Leaf {
        match self {
            Atom::String(s) => Leaf::Text(s@),
            Atom::Number(s) => Leaf::Number(s@),
            Atom::Nil => Leaf::Nil,
            Atom::Bool(b) => Leaf::Bool(*b),
            Atom::Ident(s) => Leaf::Ident(s@),
            Atom::Super => Leaf::Super,
            Atom::This => Leaf::This,
        }
    }
}

impl View for TokenTree {
    type V = Tree;

    open spec fn view(&self) -> Tree {
        tree_of(*self)
    }
}

/// The tree that a node stands for.
pub open spec fn tree_of(node: TokenTree) -> Tree
    decreases node,
{
    match node {
        TokenTree::Atom(atom) => Tree::Atom(atom@),
        TokenTree::Cons(op, kids) => Tree::Cons(op, views(kids@)),
        TokenTree::Fun { name, parameters, body } => Tree::Fun {
            name: name@,
            parameters: Seq::new(parameters.len() as nat, |i: int| parameters[i]@),
            body: Box::new(tree_of(*body)),
        },
        TokenTree::Call { callee, arguments } => Tree::Call {
            callee: Box::new(tree_of(*callee)),
            arguments: views(arguments@),
        },
        TokenTree::If { condition, yes, no } => Tree::If {
            condition: Box::new(tree_of(*condition)),
            yes: Box::new(tree_of(*yes)),
            no: match no {
                Some(otherwise) => Some(Box::new(tree_of(*otherwise))),
                None => None,
            },
        },
    }
}

/// The views of a sequence of trees, in order.
pub open spec fn views(trees: Seq<TokenTree>) -> Seq<Tree>
    decreases trees,
{
    Seq::new(
        trees.len(),
        |i: int|
            if 0 <= i < trees.len() {
                tree_of(trees[i])
            } else {
                Tree::Atom(Leaf::Nil)
            },
    )
}

/// `views` goes element by element.
pub proof fn views_are(trees: Seq<TokenTree>)
    ensures
        views(trees).len() == trees.len(),
        forall|i: int| 0 <= i < trees.len() ==> #[trigger] views(trees)[i] == trees[i]@,
{
    reveal_with_fuel(views, 2);
}

} // verus!
