//! The lexical grammar: where the next token of a text begins and ends, and
//! what it is.
use vstd::prelude::*;
use crate::token::{Item, Lexeme, TokenKind};

verus! {

/// White space: the characters with the Unicode property `White_Space`.
pub open spec fn is_space(c: char) -> bool {
    let n = c as u32;
    (0x9 <= n <= 0xd) || n == 0x20 || n == 0x85 || n == 0xa0 || n == 0x1680 || (0x2000 <= n
        <= 0x200a) || n == 0x2028 || n == 0x2029 || n == 0x202f || n == 0x205f || n == 0x3000
}

/// A decimal digit.
pub open spec fn is_digit(c: char) -> bool {
    '0' <= c <= '9'
}

/// A character that can begin a name: an ASCII letter or `_`.
pub open spec fn is_letter(c: char) -> bool {
    ('a' <= c <= 'z') || ('A' <= c <= 'Z') || c == '_'
}

/// The number of line feeds before index `pos`.
pub open spec fn newlines_before(s: Seq<char>, pos: int) -> nat
    decreases pos,
{
    if pos <= 0 || pos > s.len() {
        0
    } else {
        newlines_before(s, pos - 1) + if s[pos - 1] == '\n' {
            1nat
        } else {
            0nat
        }
    }
}

/// The line of index `pos`, counted from 1.
pub open spec fn line_at(s: Seq<char>, pos: int) -> nat {
    newlines_before(s, pos) + 1
}

/// Where the next item begins at or after `pos`: behind white space and
/// comments. A comment goes from `//` to the end of its line;
/// `in_comment` says that `pos` stands inside one. The length of `s` where
/// nothing begins.
pub open spec fn past_blank(s: Seq<char>, pos: int, in_comment: bool) -> int
    decreases s.len() - pos,
{
    if pos < 0 || pos >= s.len() {
        pos
    } else if in_comment {
        past_blank(s, pos + 1, s[pos] != '\n')
    } else if is_space(s[pos]) {
        past_blank(s, pos + 1, false)
    } else if s[pos] == '/' && pos + 1 < s.len() && s[pos + 1] == '/' {
        past_blank(s, pos + 2, true)
    } else {
        pos
    }
}

/// The end of the digits that begin at `pos`.
pub open spec fn digits_end(s: Seq<char>, pos: int) -> int
    decreases s.len() - pos,
{
    if 0 <= pos < s.len() && is_digit(s[pos]) {
        digits_end(s, pos + 1)
    } else {
        pos
    }
}

/// The end of the letters and digits that begin at `pos`.
pub open spec fn word_end(s: Seq<char>, pos: int) -> int
    decreases s.len() - pos,
{
    if 0 <= pos < s.len() && (is_letter(s[pos]) || is_digit(s[pos])) {
        word_end(s, pos + 1)
    } else {
        pos
    }
}

/// The index of the first `"` at or after `pos`; the length of `s` where
/// there is none.
pub open spec fn quote_from(s: Seq<char>, pos: int) -> int
    decreases s.len() - pos,
{
    if 0 <= pos < s.len() && s[pos] != '"' {
        quote_from(s, pos + 1)
    } else {
        pos
    }
}

/// The end of the number literal that begins at `pos`: its digits, and a
/// point with the digits behind it where at least one digit follows the
/// point.
pub open spec fn number_end(s: Seq<char>, pos: int) -> int {
    let whole = digits_end(s, pos);
    if whole + 1 < s.len() && s[whole] == '.' && is_digit(s[whole + 1]) {
        digits_end(s, whole + 1)
    } else {
        whole
    }
}

/// The reserved words with their kinds.
pub open spec fn reserved() -> Seq<(Seq<char>, TokenKind)> {
    seq![
        (seq!['a', 'n', 'd'], TokenKind::And),
        (seq!['c', 'l', 'a', 's', 's'], TokenKind::Class),
        (seq!['e', 'l', 's', 'e'], TokenKind::Else),
        (seq!['f', 'a', 'l', 's', 'e'], TokenKind::False),
        (seq!['f', 'o', 'r'], TokenKind::For),
        (seq!['f', 'u', 'n'], TokenKind::Fun),
        (seq!['i', 'f'], TokenKind::If),
        (seq!['n', 'i', 'l'], TokenKind::Nil),
        (seq!['o', 'r'], TokenKind::Or),
        (seq!['p', 'r', 'i', 'n', 't'], TokenKind::Print),
        (seq!['r', 'e', 't', 'u', 'r', 'n'], TokenKind::Return),
        (seq!['s', 'u', 'p', 'e', 'r'], TokenKind::Super),
        (seq!['t', 'h', 'i', 's'], TokenKind::This),
        (seq!['t', 'r', 'u', 'e'], TokenKind::True),
        (seq!['v', 'a', 'r'], TokenKind::Var),
        (seq!['w', 'h', 'i', 'l', 'e'], TokenKind::While),
    ]
}

/// The kind of the first word of `words`, from index `from` on, that is
/// `word`; `Ident` where none is.
pub open spec fn kind_among(words: Seq<(Seq<char>, TokenKind)>, word: Seq<char>, from: int) -> TokenKind
    decreases words.len() - from,
{
    if from < 0 || from >= words.len() {
        TokenKind::Ident
    } else if words[from].0 == word {
        words[from].1
    } else {
        kind_among(words, word, from + 1)
    }
}

/// The kind of a word: that of the reserved word it is, or `Ident`.
pub open spec fn word_kind(word: Seq<char>) -> TokenKind {
    kind_among(reserved(), word, 0)
}

/// The kind of a token that is one character of punctuation, if `c` is one.
pub open spec fn single(c: char) -> Option<TokenKind> {
    if c == '(' {
        Some(TokenKind::LeftParen)
    } else if c == ')' {
        Some(TokenKind::RightParen)
    } else if c == '{' {
        Some(TokenKind::LeftBrace)
    } else if c == '}' {
        Some(TokenKind::RightBrace)
    } else if c == ',' {
        Some(TokenKind::Comma)
    } else if c == '.' {
        Some(TokenKind::Dot)
    } else if c == '-' {
        Some(TokenKind::Minus)
    } else if c == '+' {
        Some(TokenKind::Plus)
    } else if c == ';' {
        Some(TokenKind::Semicolon)
    } else if c == '*' {
        Some(TokenKind::Star)
    } else if c == '/' {
        Some(TokenKind::Slash)
    } else {
        None
    }
}

/// For a character that makes one operator alone and another with `=`
/// behind it, the two kinds: alone, and with `=`.
pub open spec fn with_equal(c: char) -> Option<(TokenKind, TokenKind)> {
    if c == '!' {
        Some((TokenKind::Bang, TokenKind::BangEqual))
    } else if c == '=' {
        Some((TokenKind::Equal, TokenKind::EqualEqual))
    } else if c == '<' {
        Some((TokenKind::Less, TokenKind::LessEqual))
    } else if c == '>' {
        Some((TokenKind::Greater, TokenKind::GreaterEqual))
    } else {
        None
    }
}

/// An item and the index behind it.
pub struct Found {
    pub item: Item,
    pub end: int,
}

/// The token of kind `kind` that is the text from `start` up to `end`.
pub open spec fn token(s: Seq<char>, kind: TokenKind, start: int, end: int) -> Found {
    Found {
        item: Item::Token(Lexeme { kind, text: s.subrange(start, end), line: line_at(s, start) }),
        end,
    }
}

/// The item that begins at `start`, an index of `s` where neither white
/// space nor a comment begins.
///
/// A token is as long as it can be. A character that begins no token is an
/// item by itself. A string literal ends at the next `"`; one that the text
/// ends in takes the rest of the text, and is reported on the line of its
/// opening quote.
pub open spec fn item_at(s: Seq<char>, start: int) -> Found {
    let c = s[start];
    let line = line_at(s, start);
    if single(c) is Some {
        token(s, single(c)->0, start, start + 1)
    } else if let Some((alone, doubled)) = with_equal(c) {
        if start + 1 < s.len() && s[start + 1] == '=' {
            token(s, doubled, start, start + 2)
        } else {
            token(s, alone, start, start + 1)
        }
    } else if c == '"' {
        let close = quote_from(s, start + 1);
        if close < s.len() {
            token(s, TokenKind::String, start, close + 1)
        } else {
            Found { item: Item::Unterminated { line }, end: s.len() as int }
        }
    } else if is_digit(c) {
        token(s, TokenKind::Number, start, number_end(s, start))
    } else if is_letter(c) {
        let end = word_end(s, start);
        token(s, word_kind(s.subrange(start, end)), start, end)
    } else {
        Found { item: Item::Unexpected { character: c, line }, end: start + 1 }
    }
}

/// The next item at or after `pos` and the index behind it, or `None` where
/// only white space and comments are left.
pub open spec fn scan(s: Seq<char>, pos: int) -> Option<Found> {
    let start = past_blank(s, pos, false);
    if 0 <= start < s.len() {
        Some(item_at(s, start))
    } else {
        None
    }
}

/// All the items of `s` from `pos` on.
pub open spec fn lex_from(s: Seq<char>, pos: int) -> Seq<Item>
    decreases s.len() - pos,
{
    match scan(s, pos) {
        Some(found) => {
            proof {
                scan_advances(s, pos);
            }
            seq![found.item] + lex_from(s, found.end)
        },
        None => Seq::empty(),
    }
}

/// All the items of a text.
pub open spec fn lex(s: Seq<char>) -> Seq<Item> {
    lex_from(s, 0)
}

/// White space and comments are skipped forwards, and not past the end.
pub proof fn past_blank_bounds(s: Seq<char>, pos: int, in_comment: bool)
    requires
        0 <= pos <= s.len(),
    ensures
        pos <= past_blank(s, pos, in_comment) <= s.len(),
    decreases s.len() - pos,
{
    if pos < s.len() {
        if in_comment {
            past_blank_bounds(s, pos + 1, s[pos] != '\n');
        } else if is_space(s[pos]) {
            past_blank_bounds(s, pos + 1, false);
        } else if s[pos] == '/' && pos + 1 < s.len() && s[pos + 1] == '/' {
            past_blank_bounds(s, pos + 2, true);
        }
    }
}

/// Digits end at or behind where they begin, behind it where a digit
/// stands there, and within the text.
pub proof fn digits_end_bounds(s: Seq<char>, pos: int)
    requires
        0 <= pos <= s.len(),
    ensures
        pos <= digits_end(s, pos) <= s.len(),
        pos < s.len() && is_digit(s[pos]) ==> pos < digits_end(s, pos),
    decreases s.len() - pos,
{
    if pos < s.len() && is_digit(s[pos]) {
        digits_end_bounds(s, pos + 1);
    }
}

/// A word ends at or behind where it begins, behind it where a letter
/// stands there, and within the text.
pub proof fn word_end_bounds(s: Seq<char>, pos: int)
    requires
        0 <= pos <= s.len(),
    ensures
        pos <= word_end(s, pos) <= s.len(),
        pos < s.len() && is_letter(s[pos]) ==> pos < word_end(s, pos),
    decreases s.len() - pos,
{
    if pos < s.len() && (is_letter(s[pos]) || is_digit(s[pos])) {
        word_end_bounds(s, pos + 1);
    }
}

/// The next `"` is the first one: no `"` stands before it.
pub proof fn quote_from_bounds(s: Seq<char>, pos: int)
    requires
        0 <= pos <= s.len(),
    ensures
        pos <= quote_from(s, pos) <= s.len(),
        quote_from(s, pos) < s.len() ==> s[quote_from(s, pos)] == '"',
        forall|i: int| pos <= i < quote_from(s, pos) ==> s[i] != '"',
    decreases s.len() - pos,
{
    if pos < s.len() && s[pos] != '"' {
        quote_from_bounds(s, pos + 1);
    }
}

/// An item is not empty and ends within the text.
pub proof fn item_at_bounds(s: Seq<char>, start: int)
    requires
        0 <= start < s.len(),
    ensures
        start < item_at(s, start).end <= s.len(),
{
    digits_end_bounds(s, start);
    let whole = digits_end(s, start);
    if whole + 1 < s.len() {
        digits_end_bounds(s, whole + 1);
    }
    word_end_bounds(s, start);
    quote_from_bounds(s, start + 1);
}

/// The lexer moves on: an item ends behind the index it was looked for
/// from.
pub proof fn scan_advances(s: Seq<char>, pos: int)
    ensures
        scan(s, pos) matches Some(found) ==> pos < found.end <= s.len() && 0 <= pos,
{
    if scan(s, pos) is Some {
        let start = past_blank(s, pos, false);
        if 0 <= pos <= s.len() {
            past_blank_bounds(s, pos, false);
        }
        item_at_bounds(s, start);
    }
}

/// A number as it is written: digits, and perhaps a point with at least one
/// digit behind it.
pub open spec fn is_numeral(s: Seq<char>) -> bool {
    s.len() > 0 && is_digit(s[0]) && number_end(s, 0) == s.len()
}

/// A text that is a number literal is one token, of kind `Number`, whose
/// text is the literal as it was written: no digit is lost or changed.
pub proof fn numeral_is_one_token(s: Seq<char>)
    requires
        is_numeral(s),
    ensures
        lex(s) == seq![
            Item::Token(Lexeme { kind: TokenKind::Number, text: s, line: 1 }),
        ],
{
    assert(past_blank(s, 0, false) == 0);
    assert(s.subrange(0, s.len() as int) =~= s);
    let found = item_at(s, 0);
    assert(found.end == s.len());
    assert(scan(s, s.len() as int) is None);
    assert(lex_from(s, s.len() as int) =~= Seq::<Item>::empty());
    assert(lex_from(s, 0) =~= seq![found.item] + lex_from(s, found.end));
    assert(lex(s) =~= seq![found.item]);
}

/// A number literal in a text is a token that holds it as it stands there.
pub proof fn number_token_keeps_its_text(s: Seq<char>, start: int)
    requires
        0 <= start < s.len(),
        is_digit(s[start]),
    ensures
        item_at(s, start).item == Item::Token(
            Lexeme {
                kind: TokenKind::Number,
                text: s.subrange(start, number_end(s, start)),
                line: line_at(s, start),
            },
        ),
        item_at(s, start).end == number_end(s, start),
{
}

/// A string literal that the text ends in is reported on the line of its
/// opening quote, however many lines the text goes on for, and nothing is
/// reported behind it.
pub proof fn unterminated_string_is_on_its_opening_line(s: Seq<char>, pos: int)
    requires
        0 <= pos <= s.len(),
        past_blank(s, pos, false) < s.len(),
        s[past_blank(s, pos, false)] == '"',
        forall|i: int| past_blank(s, pos, false) < i < s.len() ==> s[i] != '"',
    ensures
        lex_from(s, pos) == seq![
            Item::Unterminated { line: line_at(s, past_blank(s, pos, false)) },
        ],
{
    let start = past_blank(s, pos, false);
    past_blank_bounds(s, pos, false);
    quote_from_bounds(s, start + 1);
    let found = item_at(s, start);
    assert(found.end == s.len());
    assert(scan(s, s.len() as int) is None);
    assert(lex_from(s, s.len() as int) =~= Seq::<Item>::empty());
    assert(lex_from(s, pos) =~= seq![found.item] + lex_from(s, found.end));
}

/// The lines are counted by line feeds: the line of an index is one more
/// than the number of line feeds before it, so it never goes down.
pub proof fn lines_go_up(s: Seq<char>, a: int, b: int)
    requires
        0 <= a <= b <= s.len(),
    ensures
        1 <= line_at(s, a) <= line_at(s, b),
    decreases b - a,
{
    if a < b {
        lines_go_up(s, a, b - 1);
    }
}

} // verus!
