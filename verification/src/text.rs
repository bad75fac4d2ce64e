//! Strings as sequences of characters: taking one apart and putting one
//! together.
use vstd::prelude::*;
use vstd::std_specs::iter::IteratorSpec;

verus! {

/// `String::push` of the standard library: the string afterwards is the
/// string before with `c` behind it. Believed of the library, not proved.
#[verifier::external_body]
fn push_char(text: &mut String, c: char)
    ensures
        final(text)@ == old(text)@.push(c),
{
    text.push(c);
}

/// The characters of a string, in order.
pub fn chars_of(text: &str) -> (chars: Vec<char>)
    ensures
        chars@ == text@,
{
    broadcast use vstd::string::group_string_axioms;

    let mut chars: Vec<char> = Vec::new();
    let mut rest = text.chars();
    loop
        invariant
            chars@ + rest.remaining() == text@,
            rest.obeys_prophetic_iter_laws(),
            rest.decrease() is Some,
        decreases rest.decrease()->0,
    {
        let ghost before = rest;
        match rest.next() {
            Some(c) => {
                chars.push(c);
                assert(chars@ + rest.remaining() =~= text@) by {
                    assert(before.remaining() =~= seq![c] + rest.remaining());
                }
            },
            None => {
                assert(chars@ =~= text@);
                return chars;
            },
        }
    }
}

/// The string made of the characters from index `from` up to `to`.
pub fn string_of(chars: &Vec<char>, from: usize, to: usize) -> (text: String)
    requires
        from <= to <= chars.len(),
    ensures
        text@ == chars@.subrange(from as int, to as int),
{
    let mut text = String::new();
    let mut i: usize = from;
    while i < to
        invariant
            from <= i <= to <= chars.len(),
            text@ == chars@.subrange(from as int, i as int),
        decreases to - i,
    {
        push_char(&mut text, chars[i]);
        assert(text@ =~= chars@.subrange(from as int, i + 1));
        i += 1;
    }
    text
}

/// Whether `word` stands in `text` at index `at`. It does not where the
/// text ends before the word does.
pub fn occurs_at(text: &Vec<char>, at: usize, word: &Vec<char>) -> (r: bool)
    ensures
        r == (at + word.len() <= text.len() && text@.subrange(at as int, at + word.len())
            == word@),
{
    if at > text.len() || text.len() - at < word.len() {
        return false;
    }
    let mut k: usize = 0;
    while k < word.len()
        invariant
            k <= word.len(),
            at + word.len() <= text.len(),
            text@.subrange(at as int, at + k) == word@.subrange(0, k as int),
        decreases word.len() - k,
    {
        if text[at + k] != word[k] {
            assert(text@.subrange(at as int, at + word.len())[k as int] != word@[k as int]);
            return false;
        }
        assert(text@.subrange(at as int, at + k + 1) =~= word@.subrange(0, k + 1)) by {
            assert(text@.subrange(at as int, at + k + 1) =~= text@.subrange(
                at as int,
                at + k,
            ).push(text@[at + k]));
            assert(word@.subrange(0, k + 1) =~= word@.subrange(0, k as int).push(word@[k as int]));
        }
        k += 1;
    }
    assert(word@.subrange(0, word.len() as int) =~= word@);
    true
}

} // verus!
