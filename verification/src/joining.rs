//! Putting tokens back together, and what tokenizing keeps of a line.

use vstd::prelude::*;
use crate::tokenizer::{is_space, is_word, lemma_word_len, lemma_word_len_is, word_len, words};

verus! {

/// `tokens` with a single space between each two neighbours.
pub open spec fn joined(tokens: Seq<Seq<char>>) -> Seq<char>
    decreases tokens.len(),
{
    if tokens.len() == 0 {
        Seq::empty()
    } else if tokens.len() == 1 {
        tokens[0]
    } else {
        tokens[0] + seq![' '] + joined(tokens.drop_first())
    }
}

/// `s` without the separators it starts with.
pub open spec fn trimmed_start(s: Seq<char>) -> Seq<char>
    decreases s.len(),
{
    if s.len() > 0 && is_space(s[0]) {
        trimmed_start(s.drop_first())
    } else {
        s
    }
}

/// `s` without the separators it ends with.
pub open spec fn trimmed_end(s: Seq<char>) -> Seq<char>
    decreases s.len(),
{
    if s.len() > 0 && is_space(s.last()) {
        trimmed_end(s.drop_last())
    } else {
        s
    }
}

/// `s` with a single space in place of each run of separators.
pub open spec fn squeezed(s: Seq<char>) -> Seq<char>
    decreases s.len(),
    via squeezed_decreases
{
    if s.len() == 0 {
        Seq::empty()
    } else if is_space(s[0]) {
        seq![' '] + squeezed(trimmed_start(s))
    } else {
        seq![s[0]] + squeezed(s.drop_first())
    }
}

#[via_fn]
proof fn squeezed_decreases(s: Seq<char>) {
    lemma_trimmed_start(s);
}

/// The whitespace-normalized form of `line`: no separator at either end,
/// and a single space in place of each run of separators in between.
pub open spec fn normalized(line: Seq<char>) -> Seq<char> {
    squeezed(trimmed_end(trimmed_start(line)))
}

/// Trimming the start leaves the end of the text in place, stops at a
/// character that is no separator, and removes something wherever the text
/// starts with a separator. It removes no token.
pub proof fn lemma_trimmed_start(s: Seq<char>)
    ensures
        trimmed_start(s).len() <= s.len(),
        s.len() > 0 && is_space(s[0]) ==> trimmed_start(s).len() < s.len(),
        trimmed_start(s).len() > 0 ==> !is_space(trimmed_start(s)[0]) && trimmed_start(s).last()
            == s.last(),
        s.len() > 0 && !is_space(s.last()) ==> trimmed_start(s).len() > 0,
        words(trimmed_start(s)) == words(s),
    decreases s.len(),
{
    if s.len() > 0 && is_space(s[0]) {
        lemma_trimmed_start(s.drop_first());
    }
}

/// A separator at the end of a text ends no token and starts none.
pub proof fn lemma_words_ignore_last_space(s: Seq<char>)
    requires
        s.len() > 0,
        is_space(s.last()),
    ensures
        words(s.drop_last()) == words(s),
    decreases s.len(),
{
    let init = s.drop_last();
    if s.len() == 1 {
        assert(words(s) == words(s.drop_first()));
    } else if is_space(s[0]) {
        assert(init.drop_first() =~= s.drop_first().drop_last());
        lemma_words_ignore_last_space(s.drop_first());
    } else {
        let w = word_len(s) as int;
        lemma_word_len(s);
        assert(w < s.len());
        lemma_word_len_is(init, w);
        assert(init.take(w) =~= s.take(w));
        assert(init.skip(w) =~= s.skip(w).drop_last());
        lemma_words_ignore_last_space(s.skip(w));
    }
}

/// Trimming the end leaves the start of the text in place and stops at a
/// character that is no separator. It removes no token.
pub proof fn lemma_trimmed_end(s: Seq<char>)
    ensures
        trimmed_end(s).len() <= s.len(),
        trimmed_end(s).len() > 0 ==> !is_space(trimmed_end(s).last()) && trimmed_end(s)[0] == s[0],
        words(trimmed_end(s)) == words(s),
    decreases s.len(),
{
    if s.len() > 0 && is_space(s.last()) {
        lemma_trimmed_end(s.drop_last());
        lemma_words_ignore_last_space(s);
    }
}

/// Squeezing copies the word that a text starts with.
pub proof fn lemma_squeezed_word(s: Seq<char>)
    ensures
        squeezed(s) == s.take(word_len(s) as int) + squeezed(s.skip(word_len(s) as int)),
    decreases s.len(),
{
    let w = word_len(s) as int;
    if s.len() == 0 || is_space(s[0]) {
        assert(s.skip(0) =~= s);
    } else {
        let rest = s.drop_first();
        lemma_squeezed_word(rest);
        lemma_word_len(rest);
        assert(s.skip(w) =~= rest.skip(w - 1));
    }
}

/// For a text with no separator at either end, joining its tokens gives the
/// text with its runs of separators squeezed.
pub proof fn lemma_joined_words_of_trimmed(s: Seq<char>)
    requires
        s.len() > 0 ==> !is_space(s[0]) && !is_space(s.last()),
    ensures
        joined(words(s)) == squeezed(s),
    decreases s.len(),
{
    if s.len() > 0 {
        let w = word_len(s) as int;
        let rest = s.skip(w);
        lemma_word_len(s);
        lemma_squeezed_word(s);
        if w == s.len() {
            assert(s.take(w) =~= s);
            assert(words(s) == seq![s.take(w)] + words(rest));
        } else {
            let t = trimmed_start(rest);
            lemma_trimmed_start(rest);
            lemma_joined_words_of_trimmed(t);
            let tokens = words(s);
            assert(tokens.drop_first() =~= words(t));
        }
    }
}

/// Tokenizing a line and joining the tokens with single spaces gives the
/// whitespace-normalized line.
pub proof fn lemma_joined_words(line: Seq<char>)
    ensures
        joined(words(line)) == normalized(line),
{
    let s = trimmed_start(line);
    let t = trimmed_end(s);
    lemma_trimmed_start(line);
    lemma_trimmed_end(s);
    lemma_joined_words_of_trimmed(t);
}

/// Joining words with single spaces and tokenizing the line gives the words
/// back.
pub proof fn lemma_words_of_joined(tokens: Seq<Seq<char>>)
    requires
        forall|i: int| 0 <= i < tokens.len() ==> is_word(#[trigger] tokens[i]),
    ensures
        words(joined(tokens)) == tokens,
    decreases tokens.len(),
{
    if tokens.len() == 0 {
    } else {
        let first = tokens[0];
        let line = joined(tokens);
        let w = first.len() as int;
        if tokens.len() == 1 {
            lemma_word_len_is(line, w);
            assert(line.take(w) =~= first);
            assert(words(line) == seq![line.take(w)] + words(line.skip(w)));
        } else {
            let others = tokens.drop_first();
            let tail = seq![' '] + joined(others);
            lemma_word_len_is(line, w);
            assert(line.take(w) =~= first);
            assert(line.skip(w) =~= tail);
            assert(tail.drop_first() =~= joined(others));
            lemma_words_of_joined(others);
            assert(words(tail) == others);
        }
    }
}

} // verus!
