//! Keywords written in Devanagari, and their replacement by the keywords
//! that the lexer knows.
//!
//! The replacement is textual: each word of the table is replaced wherever
//! it occurs, in identifiers and string literals too. The words are taken in
//! the order of the table, each over the whole text as the words before it
//! left it, so a word that contains another must stand before it.
use vstd::prelude::*;
use crate::text::{chars_of, occurs_at, string_of};

verus! {

/// `s` with each occurrence of `from` replaced by `to`, found from left to
/// right; a replacement is not searched again, and occurrences do not
/// overlap. An empty `from` occurs nowhere.
pub open spec fn replaced(s: Seq<char>, from: Seq<char>, to: Seq<char>) -> Seq<char>
    decreases s.len(),
{
    if from.len() == 0 || s.len() < from.len() {
        s
    } else if s.subrange(0, from.len() as int) == from {
        to + replaced(s.subrange(from.len() as int, s.len() as int), from, to)
    } else {
        seq![s[0]] + replaced(s.subrange(1, s.len() as int), from, to)
    }
}

/// The table: each Devanagari keyword with the keyword it stands for.
pub open spec fn keywords() -> Seq<(Seq<char>, Seq<char>)> {
    seq![
        ("श्रेणी"@, "class"@),
        ("अथ्वा"@, "else"@),
        ("असत्य"@, "false"@),
        ("पुरा"@, "for"@),
        ("विनियोग"@, "fun"@),
        ("यदि"@, "if"@),
        ("नेति"@, "nil"@),
        ("विकल्प"@, "or"@),
        ("कथय"@, "print"@),
        ("देयम"@, "return"@),
        ("महा"@, "super"@),
        ("यह"@, "this"@),
        ("सत्य"@, "true"@),
        ("चर"@, "var"@),
        ("यावद"@, "while"@),
    ]
}

/// `s` after the first `n` words of `pairs` have been replaced, one after
/// the other.
pub open spec fn translated_by(s: Seq<char>, pairs: Seq<(Seq<char>, Seq<char>)>, n: nat) -> Seq<
    char,
>
    decreases n,
{
    if n == 0 {
        s
    } else {
        let done = translated_by(s, pairs, (n - 1) as nat);
        replaced(done, pairs[n - 1].0, pairs[n - 1].1)
    }
}

/// `s` with every keyword of the table replaced.
pub open spec fn translated(s: Seq<char>) -> Seq<char> {
    translated_by(s, keywords(), keywords().len())
}

fn keyword_table() -> (table: Vec<(&'static str, &'static str)>)
    ensures
        table.len() == keywords().len(),
        forall|k: int|
            0 <= k < table.len() ==> (#[trigger] table[k]).0@ == keywords()[k].0 && table[k].1@
                == keywords()[k].1,
{
    vec![
        ("श्रेणी", "class"),
        ("अथ्वा", "else"),
        ("असत्य", "false"),
        ("पुरा", "for"),
        ("विनियोग", "fun"),
        ("यदि", "if"),
        ("नेति", "nil"),
        ("विकल्प", "or"),
        ("कथय", "print"),
        ("देयम", "return"),
        ("महा", "super"),
        ("यह", "this"),
        ("सत्य", "true"),
        ("चर", "var"),
        ("यावद", "while"),
    ]
}

fn append(out: &mut Vec<char>, more: &Vec<char>)
    ensures
        final(out)@ == old(out)@ + more@,
{
    let mut k: usize = 0;
    while k < more.len()
        invariant
            k <= more.len(),
            out@ == old(out)@ + more@.subrange(0, k as int),
        decreases more.len() - k,
    {
        out.push(more[k]);
        assert(out@ =~= old(out)@ + more@.subrange(0, k + 1));
        k += 1;
    }
    assert(more@.subrange(0, more.len() as int) =~= more@);
}

/// Replaces each occurrence of `from` in `text` by `to`.
pub fn substitute(text: &Vec<char>, from: &Vec<char>, to: &Vec<char>) -> (out: Vec<char>)
    ensures
        out@ == replaced(text@, from@, to@),
{
    let mut out: Vec<char> = Vec::new();
    if from.len() == 0 {
        append(&mut out, text);
        assert(out@ =~= text@);
        return out;
    }
    let mut i: usize = 0;
    assert(text@.subrange(0, text.len() as int) =~= text@);
    while i < text.len()
        invariant
            i <= text.len(),
            from.len() > 0,
            out@ + replaced(text@.subrange(i as int, text.len() as int), from@, to@) == replaced(
                text@,
                from@,
                to@,
            ),
        decreases text.len() - i,
    {
        let ghost rest = text@.subrange(i as int, text.len() as int);
        let ghost before = out@;
        if text.len() - i >= from.len() && occurs_at(text, i, from) {
            append(&mut out, to);
            proof {
                let after = text@.subrange(i + from.len(), text.len() as int);
                assert(rest.subrange(0, from.len() as int) =~= text@.subrange(
                    i as int,
                    i + from.len(),
                ));
                assert(rest.subrange(from.len() as int, rest.len() as int) =~= after);
                assert(out@ + replaced(after, from@, to@) =~= before + replaced(
                    rest,
                    from@,
                    to@,
                ));
            }
            i += from.len();
        } else {
            out.push(text[i]);
            proof {
                let after = text@.subrange(i + 1, text.len() as int);
                assert(rest.subrange(1, rest.len() as int) =~= after);
                if rest.len() >= from.len() {
                    assert(rest.subrange(0, from.len() as int) =~= text@.subrange(
                        i as int,
                        i + from.len(),
                    ));
                } else {
                    assert(replaced(after, from@, to@) == after);
                    assert(rest =~= seq![rest[0]] + after);
                }
                assert(out@ + replaced(after, from@, to@) =~= before + replaced(
                    rest,
                    from@,
                    to@,
                ));
            }
            i += 1;
        }
    }
    assert(out@ + Seq::<char>::empty() =~= out@);
    out
}

/// Replaces the Devanagari keywords in a program by the keywords of the
/// language.
pub fn translate_file_contents(contents: &str) -> (output: String)
    ensures
        output@ == translated(contents@),
{
    let table = keyword_table();
    let mut text = chars_of(contents);
    let mut k: usize = 0;
    while k < table.len()
        invariant
            k <= table.len(),
            table.len() == keywords().len(),
            forall|j: int|
                0 <= j < table.len() ==> (#[trigger] table[j]).0@ == keywords()[j].0
                    && table[j].1@ == keywords()[j].1,
            text@ == translated_by(contents@, keywords(), k as nat),
        decreases table.len() - k,
    {
        let from = chars_of(table[k].0);
        let to = chars_of(table[k].1);
        text = substitute(&text, &from, &to);
        k += 1;
    }
    let output = string_of(&text, 0, text.len());
    assert(text@.subrange(0, text.len() as int) =~= text@);
    output
}

/// Whether `word` stands in `s` at some index.
pub open spec fn occurs(s: Seq<char>, word: Seq<char>) -> bool {
    exists|i: int| 0 <= i && i + word.len() <= s.len() && #[trigger] s.subrange(
        i,
        i + word.len(),
    ) == word
}

/// A text in which a word does not occur is left as it is when the word is
/// replaced.
pub proof fn replaced_without_occurrence(s: Seq<char>, from: Seq<char>, to: Seq<char>)
    requires
        !occurs(s, from),
    ensures
        replaced(s, from, to) == s,
    decreases s.len(),
{
    if from.len() > 0 && s.len() >= from.len() {
        assert(s.subrange(0int, 0int + from.len()) != from);
        let tail = s.subrange(1, s.len() as int);
        assert(!occurs(tail, from)) by {
            if occurs(tail, from) {
                let i = choose|i: int|
                    0 <= i && i + from.len() <= tail.len() && #[trigger] tail.subrange(
                        i,
                        i + from.len(),
                    ) == from;
                assert(s.subrange(i + 1, i + 1 + from.len()) =~= tail.subrange(
                    i,
                    i + from.len(),
                ));
            }
        }
        replaced_without_occurrence(tail, from, to);
        assert(seq![s[0]] + tail =~= s);
    }
}

/// A text in which none of the first `n` words of `pairs` occurs is left as
/// it is by their replacement.
pub proof fn translated_without_keywords(
    s: Seq<char>,
    pairs: Seq<(Seq<char>, Seq<char>)>,
    n: nat,
)
    requires
        n <= pairs.len(),
        forall|k: int| 0 <= k < n ==> !occurs(s, (#[trigger] pairs[k]).0),
    ensures
        translated_by(s, pairs, n) == s,
    decreases n,
{
    if n > 0 {
        translated_without_keywords(s, pairs, (n - 1) as nat);
        let pair = pairs[n - 1];
        replaced_without_occurrence(s, pair.0, pair.1);
    }
}

/// Replacing a word by itself changes nothing, and nothing is replaced in
/// the empty text.
pub proof fn replaced_by_itself(s: Seq<char>, word: Seq<char>)
    ensures
        replaced(s, word, word) == s,
        replaced(Seq::<char>::empty(), word, s) == Seq::<char>::empty(),
    decreases s.len(),
{
    if word.len() > 0 && s.len() >= word.len() {
        if s.subrange(0, word.len() as int) == word {
            let tail = s.subrange(word.len() as int, s.len() as int);
            replaced_by_itself(tail, word);
            assert(word + tail =~= s);
        } else {
            let tail = s.subrange(1, s.len() as int);
            replaced_by_itself(tail, word);
            assert(seq![s[0]] + tail =~= s);
        }
    }
}

} // verus!
