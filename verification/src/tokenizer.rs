//! Splitting an input line into whitespace-delimited tokens.

use vstd::prelude::*;
use vstd::string::StrSliceExecFns;
use crate::text::chars_of;

verus! {

/// The characters that separate tokens: those with the Unicode `White_Space`
/// property.
pub open spec fn is_space(c: char) -> bool {
    ||| '\u{9}' <= c <= '\u{d}'
    ||| c == ' '
    ||| c == '\u{85}'
    ||| c == '\u{a0}'
    ||| c == '\u{1680}'
    ||| '\u{2000}' <= c <= '\u{200a}'
    ||| c == '\u{2028}'
    ||| c == '\u{2029}'
    ||| c == '\u{202f}'
    ||| c == '\u{205f}'
    ||| c == '\u{3000}'
}

/// Whether `c` separates tokens.
pub fn is_whitespace(c: char) -> (r: bool)
    ensures
        r == is_space(c),
{
    ('\u{9}' <= c && c <= '\u{d}') || c == ' ' || c == '\u{85}' || c == '\u{a0}' || c == '\u{1680}'
        || ('\u{2000}' <= c && c <= '\u{200a}') || c == '\u{2028}' || c == '\u{2029}' || c
        == '\u{202f}' || c == '\u{205f}' || c == '\u{3000}'
}

/// A token as the tokenizer gives it: not empty, and without a separator.
pub open spec fn is_word(token: Seq<char>) -> bool {
    &&& token.len() > 0
    &&& forall|k: int| 0 <= k < token.len() ==> !is_space(#[trigger] token[k])
}

/// The length of the longest prefix of `s` that holds no separator.
pub open spec fn word_len(s: Seq<char>) -> nat
    decreases s.len(),
{
    if s.len() == 0 || is_space(s[0]) {
        0
    } else {
        1 + word_len(s.drop_first())
    }
}

/// The tokens of `line`: its maximal runs of characters that are not
/// separators, from left to right.
pub open spec fn words(line: Seq<char>) -> Seq<Seq<char>>
    decreases line.len(),
    via words_decreases
{
    if line.len() == 0 {
        Seq::empty()
    } else if is_space(line[0]) {
        words(line.drop_first())
    } else {
        seq![line.take(word_len(line) as int)] + words(line.skip(word_len(line) as int))
    }
}

#[via_fn]
proof fn words_decreases(line: Seq<char>) {
    lemma_word_len(line);
}

/// A word is no longer than the text it starts, holds no separator, and
/// ends at a separator or at the end of the text. It is empty only where the
/// text is empty or starts with a separator.
pub proof fn lemma_word_len(s: Seq<char>)
    ensures
        word_len(s) <= s.len(),
        forall|k: int| 0 <= k < word_len(s) ==> !is_space(#[trigger] s[k]),
        word_len(s) < s.len() ==> is_space(s[word_len(s) as int]),
        word_len(s) == 0 <==> (s.len() == 0 || is_space(s[0])),
    decreases s.len(),
{
    if s.len() > 0 && !is_space(s[0]) {
        let rest = s.drop_first();
        lemma_word_len(rest);
        assert forall|k: int| 0 <= k < word_len(s) implies !is_space(#[trigger] s[k]) by {
            if k > 0 {
                assert(s[k] == rest[k - 1]);
            }
        }
    }
}

/// A run of `n` characters without a separator that stops at a separator or
/// at the end of the text is the word that starts the text.
pub proof fn lemma_word_len_is(s: Seq<char>, n: int)
    requires
        0 <= n <= s.len(),
        forall|k: int| 0 <= k < n ==> !is_space(#[trigger] s[k]),
        n < s.len() ==> is_space(s[n]),
    ensures
        word_len(s) == n,
    decreases n,
{
    if n > 0 {
        lemma_word_len_is(s.drop_first(), n - 1);
    }
}

/// Every token of a line is a word: not empty, and without a separator.
pub proof fn lemma_words_are_words(line: Seq<char>)
    ensures
        forall|i: int| 0 <= i < words(line).len() ==> is_word(#[trigger] words(line)[i]),
    decreases line.len(),
{
    if line.len() == 0 {
    } else if is_space(line[0]) {
        lemma_words_are_words(line.drop_first());
        assert(words(line) == words(line.drop_first()));
    } else {
        let w = word_len(line) as int;
        lemma_word_len(line);
        lemma_words_are_words(line.skip(w));
        let first = line.take(w);
        assert(is_word(first));
        assert forall|i: int| 0 <= i < words(line).len() implies is_word(
            #[trigger] words(line)[i],
        ) by {
            if i > 0 {
                assert(words(line)[i] == words(line.skip(w))[i - 1]);
            }
        }
    }
}

/// Splits a line into its tokens.
///
/// Leading and trailing whitespace is dropped and every run of whitespace
/// separates two tokens, so no token is empty and none holds whitespace.
pub fn get_command_tokens(input_cmd: &str) -> (tokens: Vec<&str>)
    ensures
        tokens.deep_view() == words(input_cmd@),
        forall|i: int| 0 <= i < tokens.len() ==> is_word(#[trigger] tokens[i]@),
{
    proof {
        lemma_words_are_words(input_cmd@);
    }
    let chars = chars_of(input_cmd);
    let n = chars.len();
    let ghost line = input_cmd@;
    let mut tokens: Vec<&str> = Vec::new();
    let mut i: usize = 0;
    assert(line.skip(0) =~= line);
    while i < n
        invariant
            i <= n,
            n == line.len(),
            chars@ == line,
            line == input_cmd@,
            tokens.deep_view() + words(line.skip(i as int)) == words(line),
        decreases n - i,
    {
        let ghost rest = line.skip(i as int);
        let ghost found = tokens.deep_view();
        if is_whitespace(chars[i]) {
            assert(rest.drop_first() =~= line.skip(i + 1));
            i += 1;
        } else {
            let start = i;
            while i < n && !is_whitespace(chars[i])
                invariant
                    start <= i <= n,
                    n == line.len(),
                    chars@ == line,
                    forall|k: int| start <= k < i ==> !is_space(#[trigger] line[k]),
                decreases n - i,
            {
                i += 1;
            }
            let token = input_cmd.substring_char(start, i);
            tokens.push(token);
            proof {
                lemma_word_len_is(rest, i - start);
                assert(rest.take(i - start) =~= line.subrange(start as int, i as int));
                assert(rest.skip(i - start) =~= line.skip(i as int));
            }
        }
    }
    proof {
        assert forall|i: int| 0 <= i < tokens.len() implies is_word(#[trigger] tokens[i]@) by {
            assert(tokens[i]@ == tokens.deep_view()[i]);
        }
    }
    tokens
}

} // verus!
