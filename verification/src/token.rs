//! Tokens, and what the lexer reports in place of one.
use vstd::prelude::*;
use vstd::string::*;
use crate::text::{chars_of, string_of};

verus! {

/// The class of a token.
#[derive(Clone, Copy, Debug, PartialEq, Eq, Structural)]
pub enum TokenKind {
    LeftParen,
    RightParen,
    LeftBrace,
    RightBrace,
    Comma,
    Dot,
    Minus,
    Plus,
    Semicolon,
    Star,
    Slash,
    Bang,
    BangEqual,
    Equal,
    EqualEqual,
    Less,
    LessEqual,
    Greater,
    GreaterEqual,
    /// A string literal; the lexeme holds the quotes.
    String,
    /// A number literal: digits, and perhaps a point and more digits.
    Number,
    Ident,
    And,
    Class,
    Else,
    False,
    For,
    Fun,
    If,
    Nil,
    Or,
    Print,
    Return,
    Super,
    This,
    True,
    Var,
    While,
}

/// A token: its class, its text as it stands in the source, and the line
/// it starts on, counted from 1.
#[derive(Clone, Debug, PartialEq, Eq)]
pub struct Token {
    pub kind: TokenKind,
    pub lexeme: String,
    pub line: usize,
}

/// What the lexer found where no token begins.
#[derive(Clone, Copy, Debug, PartialEq, Eq, Structural)]
pub enum LexError {
    /// A character that begins no token, and its line.
    UnexpectedCharacter { character: char, line: usize },
    /// A string literal that the input ends in, and the line of its opening
    /// quote.
    UnterminatedString { line: usize },
}

/// A token as the contracts see it.
pub struct Lexeme {
    pub kind: TokenKind,
    pub text: Seq<char>,
    pub line: nat,
}

impl View for Token {
    type V = Lexeme;

    open spec fn view(&self) -> Lexeme {
        Lexeme { kind: self.kind, text: self.lexeme@, line: self.line as nat }
    }
}

/// One step of the lexer's output as the contracts see it.
pub enum Item {
    Token(Lexeme),
    Unexpected { character: char, line: nat },
    Unterminated { line: nat },
}

/// The item that a step of the lexer stands for.
pub open spec fn item_of(step: Result<Token, LexError>) -> Item {
    match step {
        Ok(token) => Item::Token(token@),
        Err(LexError::UnexpectedCharacter { character, line }) => Item::Unexpected {
            character,
            line: line as nat,
        },
        Err(LexError::UnterminatedString { line }) => Item::Unterminated { line: line as nat },
    }
}

/// The items that the steps of the lexer stand for, in order.
pub open spec fn items_of(steps: Seq<Result<Token, LexError>>) -> Seq<Item> {
    Seq::new(steps.len(), |i: int| item_of(steps[i]))
}

impl Token {
    /// A copy of the token.
    pub fn duplicate(&self) -> (copy: Token)
        ensures
            copy@ == self@,
    {
        Token { kind: self.kind, lexeme: self.lexeme.clone(), line: self.line }
    }
}

impl LexError {
    /// The line that the error is reported on.
    pub fn line(&self) -> (line: usize)
        ensures
            line == match *self {
                LexError::UnexpectedCharacter { line, .. } => line,
                LexError::UnterminatedString { line } => line,
            },
    {
        match self {
            LexError::UnexpectedCharacter { line, .. } => *line,
            LexError::UnterminatedString { line } => *line,
        }
    }
}

/// The name that a kind of token is listed under.
pub open spec fn kind_name(kind: TokenKind) -> Seq<char> {
    match kind {
        TokenKind::LeftParen => "LEFT_PAREN"@,
        TokenKind::RightParen => "RIGHT_PAREN"@,
        TokenKind::LeftBrace => "LEFT_BRACE"@,
        TokenKind::RightBrace => "RIGHT_BRACE"@,
        TokenKind::Comma => "COMMA"@,
        TokenKind::Dot => "DOT"@,
        TokenKind::Minus => "MINUS"@,
        TokenKind::Plus => "PLUS"@,
        TokenKind::Semicolon => "SEMICOLON"@,
        TokenKind::Star => "STAR"@,
        TokenKind::Slash => "SLASH"@,
        TokenKind::Bang => "BANG"@,
        TokenKind::BangEqual => "BANG_EQUAL"@,
        TokenKind::Equal => "EQUAL"@,
        TokenKind::EqualEqual => "EQUAL_EQUAL"@,
        TokenKind::Less => "LESS"@,
        TokenKind::LessEqual => "LESS_EQUAL"@,
        TokenKind::Greater => "GREATER"@,
        TokenKind::GreaterEqual => "GREATER_EQUAL"@,
        TokenKind::String => "STRING"@,
        TokenKind::Number => "NUMBER"@,
        TokenKind::Ident => "IDENTIFIER"@,
        TokenKind::And => "AND"@,
        TokenKind::Class => "CLASS"@,
        TokenKind::Else => "ELSE"@,
        TokenKind::False => "FALSE"@,
        TokenKind::For => "FOR"@,
        TokenKind::Fun => "FUN"@,
        TokenKind::If => "IF"@,
        TokenKind::Nil => "NIL"@,
        TokenKind::Or => "OR"@,
        TokenKind::Print => "PRINT"@,
        TokenKind::Return => "RETURN"@,
        TokenKind::Super => "SUPER"@,
        TokenKind::This => "THIS"@,
        TokenKind::True => "TRUE"@,
        TokenKind::Var => "VAR"@,
        TokenKind::While => "WHILE"@,
    }
}

/// A string literal without its quotes.
pub open spec fn unquoted(text: Seq<char>) -> Seq<char> {
    if text.len() >= 2 {
        text.subrange(1, text.len() - 1)
    } else {
        text
    }
}

/// The line that lists a token: the name of its kind, its text, and what
/// it holds, with a space between each two. A string literal holds its
/// text without the quotes, a number literal holds `number`, the printed
/// form of its value, and every other token `null`.
pub open spec fn listed(token: Lexeme, number: Seq<char>) -> Seq<char> {
    kind_name(token.kind) + " "@ + token.text + " "@ + match token.kind {
        TokenKind::String => unquoted(token.text),
        TokenKind::Number => number,
        _ => "null"@,
    }
}

impl TokenKind {
    /// The name that the kind is listed under.
    pub fn name(&self) -> (name: &'static str)
        ensures
            name@ == kind_name(*self),
    {
        match self {
            TokenKind::LeftParen => "LEFT_PAREN",
            TokenKind::RightParen => "RIGHT_PAREN",
            TokenKind::LeftBrace => "LEFT_BRACE",
            TokenKind::RightBrace => "RIGHT_BRACE",
            TokenKind::Comma => "COMMA",
            TokenKind::Dot => "DOT",
            TokenKind::Minus => "MINUS",
            TokenKind::Plus => "PLUS",
            TokenKind::Semicolon => "SEMICOLON",
            TokenKind::Star => "STAR",
            TokenKind::Slash => "SLASH",
            TokenKind::Bang => "BANG",
            TokenKind::BangEqual => "BANG_EQUAL",
            TokenKind::Equal => "EQUAL",
            TokenKind::EqualEqual => "EQUAL_EQUAL",
            TokenKind::Less => "LESS",
            TokenKind::LessEqual => "LESS_EQUAL",
            TokenKind::Greater => "GREATER",
            TokenKind::GreaterEqual => "GREATER_EQUAL",
            TokenKind::String => "STRING",
            TokenKind::Number => "NUMBER",
            TokenKind::Ident => "IDENTIFIER",
            TokenKind::And => "AND",
            TokenKind::Class => "CLASS",
            TokenKind::Else => "ELSE",
            TokenKind::False => "FALSE",
            TokenKind::For => "FOR",
            TokenKind::Fun => "FUN",
            TokenKind::If => "IF",
            TokenKind::Nil => "NIL",
            TokenKind::Or => "OR",
            TokenKind::Print => "PRINT",
            TokenKind::Return => "RETURN",
            TokenKind::Super => "SUPER",
            TokenKind::This => "THIS",
            TokenKind::True => "TRUE",
            TokenKind::Var => "VAR",
            TokenKind::While => "WHILE",
        }
    }
}

/// The text of a string literal between its quotes.
pub fn unquote(lexeme: &String) -> (text: String)
    ensures
        text@ == unquoted(lexeme@),
{
    let chars = chars_of(lexeme.as_str());
    if chars.len() >= 2 {
        string_of(&chars, 1, chars.len() - 1)
    } else {
        lexeme.clone()
    }
}

impl Token {
    /// The line that lists the token. `number` is the printed form of the
    /// token's value where it is a number literal, and is not looked at
    /// otherwise.
    pub fn list(&self, number: &str) -> (line: String)
        ensures
            line@ == listed(self@, number@),
    {
        let mut line = String::from_str(self.kind.name());
        line.append(" ");
        line.append(self.lexeme.as_str());
        line.append(" ");
        match self.kind {
            TokenKind::String => {
                let text = unquote(&self.lexeme);
                line.append(text.as_str());
            },
            TokenKind::Number => {
                line.append(number);
            },
            _ => {
                line.append("null");
            },
        }
        line
    }
}

} // verus!
