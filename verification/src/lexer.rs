//! The lexer: from a text to its tokens, one at a time.
use vstd::prelude::*;
use crate::scan::{
    digits_end, is_digit, is_letter, is_space, item_at_bounds, kind_among, lex, lex_from,
    newlines_before, number_end, past_blank, past_blank_bounds, quote_from, quote_from_bounds,
    reserved, scan, scan_advances, single, with_equal, word_end, word_kind,
};
use crate::text::{chars_of, occurs_at, string_of};
use crate::token::{item_of, items_of, Item, LexError, Token, TokenKind};

verus! {

fn is_space_char(c: char) -> (r: bool)
    ensures
        r == is_space(c),
{
    let n: u32 = c as u32;
    (0x9 <= n && n <= 0xd) || n == 0x20 || n == 0x85 || n == 0xa0 || n == 0x1680 || (0x2000 <= n
        && n <= 0x200a) || n == 0x2028 || n == 0x2029 || n == 0x202f || n == 0x205f || n
        == 0x3000
}

fn is_digit_char(c: char) -> (r: bool)
    ensures
        r == is_digit(c),
{
    let n: u32 = c as u32;
    48 <= n && n <= 57
}

fn is_letter_char(c: char) -> (r: bool)
    ensures
        r == is_letter(c),
{
    let n: u32 = c as u32;
    (97 <= n && n <= 122) || (65 <= n && n <= 90) || n == 95
}

fn single_kind(c: char) -> (kind: Option<TokenKind>)
    ensures
        kind == single(c),
{
    if c == '(' {
        Some(TokenKind::LeftParen)
    } else if c == ')' {
        Some(TokenKind::RightParen)
    } else if c == '{' {
        Some(TokenKind::LeftBrace)
    } else if c == '}' {
        Some(TokenKind::RightBrace)
    } else if c == ',' {
        Some(TokenKind::Comma)
    } else if c == '.' {
        Some(TokenKind::Dot)
    } else if c == '-' {
        Some(TokenKind::Minus)
    } else if c == '+' {
        Some(TokenKind::Plus)
    } else if c == ';' {
        Some(TokenKind::Semicolon)
    } else if c == '*' {
        Some(TokenKind::Star)
    } else if c == '/' {
        Some(TokenKind::Slash)
    } else {
        None
    }
}

fn with_equal_kinds(c: char) -> (kinds: Option<(TokenKind, TokenKind)>)
    ensures
        kinds == with_equal(c),
{
    if c == '!' {
        Some((TokenKind::Bang, TokenKind::BangEqual))
    } else if c == '=' {
        Some((TokenKind::Equal, TokenKind::EqualEqual))
    } else if c == '<' {
        Some((TokenKind::Less, TokenKind::LessEqual))
    } else if c == '>' {
        Some((TokenKind::Greater, TokenKind::GreaterEqual))
    } else {
        None
    }
}

fn digits_until(chars: &Vec<char>, from: usize) -> (end: usize)
    requires
        from <= chars.len(),
    ensures
        end == digits_end(chars@, from as int),
        from <= end <= chars.len(),
{
    let mut i: usize = from;
    while i < chars.len() && is_digit_char(chars[i])
        invariant
            from <= i <= chars.len(),
            digits_end(chars@, from as int) == digits_end(chars@, i as int),
        decreases chars.len() - i,
    {
        i += 1;
    }
    i
}

fn word_until(chars: &Vec<char>, from: usize) -> (end: usize)
    requires
        from <= chars.len(),
    ensures
        end == word_end(chars@, from as int),
        from <= end <= chars.len(),
{
    let mut i: usize = from;
    while i < chars.len() && (is_letter_char(chars[i]) || is_digit_char(chars[i]))
        invariant
            from <= i <= chars.len(),
            word_end(chars@, from as int) == word_end(chars@, i as int),
        decreases chars.len() - i,
    {
        i += 1;
    }
    i
}

fn quote_until(chars: &Vec<char>, from: usize) -> (end: usize)
    requires
        from <= chars.len(),
    ensures
        end == quote_from(chars@, from as int),
        from <= end <= chars.len(),
{
    let mut i: usize = from;
    while i < chars.len() && chars[i] != '"'
        invariant
            from <= i <= chars.len(),
            quote_from(chars@, from as int) == quote_from(chars@, i as int),
        decreases chars.len() - i,
    {
        i += 1;
    }
    i
}

fn number_until(chars: &Vec<char>, from: usize) -> (end: usize)
    requires
        from <= chars.len(),
    ensures
        end == number_end(chars@, from as int),
        from <= end <= chars.len(),
{
    let whole = digits_until(chars, from);
    if whole < chars.len() && whole + 1 < chars.len() && chars[whole] == '.' && is_digit_char(
        chars[whole + 1],
    ) {
        digits_until(chars, whole + 1)
    } else {
        whole
    }
}

/// The table holds the reserved words, in their order.
spec fn holds_reserved(words: Seq<(Vec<char>, TokenKind)>) -> bool {
    &&& words.len() == reserved().len()
    &&& forall|i: int|
        0 <= i < words.len() ==> (#[trigger] words[i]).0@ == reserved()[i].0 && words[i].1
            == reserved()[i].1
}

fn reserved_words() -> (words: Vec<(Vec<char>, TokenKind)>)
    ensures
        holds_reserved(words@),
{
    let mut words: Vec<(Vec<char>, TokenKind)> = Vec::new();
    proof {
        reveal_strlit("and");
    }
    assert("and"@ =~= seq!['a', 'n', 'd']);
    words.push((chars_of("and"), TokenKind::And));
    proof {
        reveal_strlit("class");
    }
    assert("class"@ =~= seq!['c', 'l', 'a', 's', 's']);
    words.push((chars_of("class"), TokenKind::Class));
    proof {
        reveal_strlit("else");
    }
    assert("else"@ =~= seq!['e', 'l', 's', 'e']);
    words.push((chars_of("else"), TokenKind::Else));
    proof {
        reveal_strlit("false");
    }
    assert("false"@ =~= seq!['f', 'a', 'l', 's', 'e']);
    words.push((chars_of("false"), TokenKind::False));
    proof {
        reveal_strlit("for");
    }
    assert("for"@ =~= seq!['f', 'o', 'r']);
    words.push((chars_of("for"), TokenKind::For));
    proof {
        reveal_strlit("fun");
    }
    assert("fun"@ =~= seq!['f', 'u', 'n']);
    words.push((chars_of("fun"), TokenKind::Fun));
    proof {
        reveal_strlit("if");
    }
    assert("if"@ =~= seq!['i', 'f']);
    words.push((chars_of("if"), TokenKind::If));
    proof {
        reveal_strlit("nil");
    }
    assert("nil"@ =~= seq!['n', 'i', 'l']);
    words.push((chars_of("nil"), TokenKind::Nil));
    proof {
        reveal_strlit("or");
    }
    assert("or"@ =~= seq!['o', 'r']);
    words.push((chars_of("or"), TokenKind::Or));
    proof {
        reveal_strlit("print");
    }
    assert("print"@ =~= seq!['p', 'r', 'i', 'n', 't']);
    words.push((chars_of("print"), TokenKind::Print));
    proof {
        reveal_strlit("return");
    }
    assert("return"@ =~= seq!['r', 'e', 't', 'u', 'r', 'n']);
    words.push((chars_of("return"), TokenKind::Return));
    proof {
        reveal_strlit("super");
    }
    assert("super"@ =~= seq!['s', 'u', 'p', 'e', 'r']);
    words.push((chars_of("super"), TokenKind::Super));
    proof {
        reveal_strlit("this");
    }
    assert("this"@ =~= seq!['t', 'h', 'i', 's']);
    words.push((chars_of("this"), TokenKind::This));
    proof {
        reveal_strlit("true");
    }
    assert("true"@ =~= seq!['t', 'r', 'u', 'e']);
    words.push((chars_of("true"), TokenKind::True));
    proof {
        reveal_strlit("var");
    }
    assert("var"@ =~= seq!['v', 'a', 'r']);
    words.push((chars_of("var"), TokenKind::Var));
    proof {
        reveal_strlit("while");
    }
    assert("while"@ =~= seq!['w', 'h', 'i', 'l', 'e']);
    words.push((chars_of("while"), TokenKind::While));
    words
}

/// A lexer over one text. It hands out the items of the text in order:
/// tokens, and errors where no token begins. An error does not end the
/// stream: the lexer goes on behind it.
pub struct Lexer {
    chars: Vec<char>,
    pos: usize,
    newlines: usize,
    words: Vec<(Vec<char>, TokenKind)>,
}

impl Lexer {
    /// The text.
    pub closed spec fn source(&self) -> Seq<char> {
        self.chars@
    }

    /// The index in the text that the lexer has come to.
    pub closed spec fn position(&self) -> int {
        self.pos as int
    }

    /// The lexer stands within its text and knows its line.
    pub closed spec fn wf(&self) -> bool {
        &&& self.pos <= self.chars.len()
        &&& self.newlines == newlines_before(self.chars@, self.pos as int)
        &&& holds_reserved(self.words@)
    }

    /// A lexer at the beginning of `source`.
    pub fn new(source: &str) -> (lexer: Lexer)
        ensures
            lexer.wf(),
            lexer.source() == source@,
            lexer.position() == 0,
    {
        Lexer { chars: chars_of(source), pos: 0, newlines: 0, words: reserved_words() }
    }

    proof fn newlines_bound(s: Seq<char>, pos: int)
        requires
            0 <= pos <= s.len(),
        ensures
            newlines_before(s, pos) <= pos,
        decreases pos,
    {
        if pos > 0 {
            Self::newlines_bound(s, pos - 1);
        }
    }

    /// Moves on to index `end`, counting the lines on the way.
    fn advance(&mut self, end: usize)
        requires
            old(self).wf(),
            old(self).pos <= end <= old(self).chars.len(),
        ensures
            final(self).wf(),
            final(self).chars == old(self).chars,
            final(self).pos == end,
    {
        while self.pos < end
            invariant
                self.pos <= end <= self.chars.len(),
                self.wf(),
                self.chars == old(self).chars,
            decreases end - self.pos,
        {
            proof {
                Self::newlines_bound(self.chars@, self.pos as int);
            }
            if self.chars[self.pos] == '\n' {
                self.newlines += 1;
            }
            self.pos += 1;
        }
    }

    /// Moves on to where the next item begins.
    fn skip_blank(&mut self)
        requires
            old(self).wf(),
        ensures
            final(self).wf(),
            final(self).chars == old(self).chars,
            final(self).pos == past_blank(old(self).chars@, old(self).pos as int, false),
    {
        let mut in_comment = false;
        loop
            invariant
                self.wf(),
                self.chars == old(self).chars,
                past_blank(self.chars@, self.pos as int, in_comment) == past_blank(
                    old(self).chars@,
                    old(self).pos as int,
                    false,
                ),
            decreases self.chars.len() - self.pos,
        {
            if self.pos >= self.chars.len() {
                return ;
            }
            let c = self.chars[self.pos];
            if in_comment {
                in_comment = c != '\n';
                self.advance(self.pos + 1);
            } else if is_space_char(c) {
                self.advance(self.pos + 1);
            } else if c == '/' && self.pos + 1 < self.chars.len() && self.chars[self.pos + 1]
                == '/' {
                in_comment = true;
                self.advance(self.pos + 2);
            } else {
                return ;
            }
        }
    }

    /// The kind of the word from `start` up to `end`.
    fn kind_of_word(&self, start: usize, end: usize) -> (kind: TokenKind)
        requires
            self.wf(),
            start <= end <= self.chars.len(),
        ensures
            kind == word_kind(self.chars@.subrange(start as int, end as int)),
    {
        let ghost word = self.chars@.subrange(start as int, end as int);
        let mut i: usize = 0;
        while i < self.words.len()
            invariant
                i <= self.words.len(),
                self.wf(),
                start <= end <= self.chars.len(),
                word == self.chars@.subrange(start as int, end as int),
                kind_among(reserved(), word, i as int) == word_kind(word),
            decreases self.words.len() - i,
        {
            let entry = &self.words[i];
            if entry.0.len() == end - start && occurs_at(&self.chars, start, &entry.0) {
                return entry.1;
            }
            i += 1;
        }
        TokenKind::Ident
    }

    /// The token of kind `kind` that is the text from `start` up to `end`,
    /// on the line that the lexer stands on.
    fn token(&self, kind: TokenKind, start: usize, end: usize) -> (token: Token)
        requires
            self.wf(),
            start == self.pos,
            start < end <= self.chars.len(),
        ensures
            Item::Token(token@) == crate::scan::token(
                self.chars@,
                kind,
                start as int,
                end as int,
            ).item,
    {
        proof {
            Self::newlines_bound(self.chars@, self.pos as int);
        }
        Token { kind, lexeme: string_of(&self.chars, start, end), line: self.newlines + 1 }
    }

    /// The next item of the text, or `None` where only white space and
    /// comments are left. The item is the one that [`scan`] finds from
    /// where the lexer stands, and the lexer then stands behind it.
    pub fn next_token(&mut self) -> (step: Option<Result<Token, LexError>>)
        requires
            old(self).wf(),
        ensures
            final(self).wf(),
            final(self).source() == old(self).source(),
            match scan(old(self).source(), old(self).position()) {
                Some(found) => step matches Some(r) && item_of(r) == found.item
                    && final(self).position() == found.end,
                None => step is None && final(self).position() == old(self).source().len(),
            },
    {
        proof {
            past_blank_bounds(self.chars@, self.pos as int, false);
        }
        self.skip_blank();
        if self.pos >= self.chars.len() {
            return None;
        }
        let start: usize = self.pos;
        let c = self.chars[start];
        proof {
            Self::newlines_bound(self.chars@, self.pos as int);
            item_at_bounds(self.chars@, start as int);
            quote_from_bounds(self.chars@, start + 1);
        }
        let line: usize = self.newlines + 1;
        let step: Result<Token, LexError>;
        let end: usize;
        if let Some(kind) = single_kind(c) {
            end = start + 1;
            step = Ok(self.token(kind, start, end));
        } else if let Some((alone, doubled)) = with_equal_kinds(c) {
            if start + 1 < self.chars.len() && self.chars[start + 1] == '=' {
                end = start + 2;
                step = Ok(self.token(doubled, start, end));
            } else {
                end = start + 1;
                step = Ok(self.token(alone, start, end));
            }
        } else if c == '"' {
            let close = quote_until(&self.chars, start + 1);
            if close < self.chars.len() {
                end = close + 1;
                step = Ok(self.token(TokenKind::String, start, end));
            } else {
                end = self.chars.len();
                step = Err(LexError::UnterminatedString { line });
            }
        } else if is_digit_char(c) {
            end = number_until(&self.chars, start);
            step = Ok(self.token(TokenKind::Number, start, end));
        } else if is_letter_char(c) {
            end = word_until(&self.chars, start);
            let kind = self.kind_of_word(start, end);
            step = Ok(self.token(kind, start, end));
        } else {
            end = start + 1;
            step = Err(LexError::UnexpectedCharacter { character: c, line });
        }
        self.advance(end);
        Some(step)
    }
}

/// All the items of a text, in order: its tokens, and an error for each
/// place where no token begins.
pub fn tokenize(source: &str) -> (steps: Vec<Result<Token, LexError>>)
    ensures
        items_of(steps@) == lex(source@),
{
    let mut lexer = Lexer::new(source);
    let mut steps: Vec<Result<Token, LexError>> = Vec::new();
    assert(items_of(steps@) + lex_from(source@, 0) =~= lex(source@));
    loop
        invariant
            lexer.wf(),
            lexer.source() == source@,
            0 <= lexer.position() <= source@.len(),
            items_of(steps@) + lex_from(source@, lexer.position()) == lex(source@),
        decreases source@.len() - lexer.position(),
    {
        let ghost before = lexer.position();
        let ghost so_far = steps@;
        proof {
            scan_advances(source@, before);
        }
        match lexer.next_token() {
            Some(step) => {
                steps.push(step);
                assert(items_of(steps@) =~= items_of(so_far) + seq![item_of(step)]);
                assert(items_of(steps@) + lex_from(source@, lexer.position()) =~= items_of(so_far)
                    + lex_from(source@, before));
            },
            None => {
                assert(items_of(steps@) + Seq::<Item>::empty() =~= items_of(steps@));
                return steps;
            },
        }
    }
}

} // verus!
