//! The prompt line: who and where, with the home directory written as `~`.

use vstd::prelude::*;
use vstd::string::{StrSliceExecFns, StringExecFns};
use crate::text::chars_of;

verus! {

/// `text` with `with` in place of each occurrence of `pattern`.
///
/// Occurrences are found from left to right, and the search goes on behind
/// an occurrence, so no two overlap. The empty pattern occurs before each
/// character and at the end.
pub open spec fn replaced(text: Seq<char>, pattern: Seq<char>, with: Seq<char>) -> Seq<char>
    decreases text.len(),
{
    if pattern.is_prefix_of(text) {
        if pattern.len() > 0 {
            with + replaced(text.skip(pattern.len() as int), pattern, with)
        } else if text.len() == 0 {
            with
        } else {
            with + seq![text[0]] + replaced(text.drop_first(), pattern, with)
        }
    } else if text.len() == 0 {
        text
    } else {
        seq![text[0]] + replaced(text.drop_first(), pattern, with)
    }
}

/// The prompt for `user` on `hostname` in the directory `cwd`: the
/// directory stands with `~` for the home directory `home`.
pub open spec fn prompt_of(
    user: Seq<char>,
    hostname: Seq<char>,
    cwd: Seq<char>,
    home: Seq<char>,
) -> Seq<char> {
    seq!['['] + user + seq!['@'] + hostname + seq![' '] + replaced(cwd, home, seq!['~']) + seq![
        ']',
        '$',
        ' ',
    ]
}

/// Whether `pattern` occurs in `text` at `at`.
fn occurs_at(text: &Vec<char>, pattern: &Vec<char>, at: usize) -> (r: bool)
    requires
        at <= text.len(),
    ensures
        r == pattern@.is_prefix_of(text@.skip(at as int)),
{
    let m = pattern.len();
    if m > text.len() - at {
        return false;
    }
    let mut j: usize = 0;
    while j < m
        invariant
            j <= m,
            m == pattern.len(),
            at + m <= text.len(),
            forall|k: int| 0 <= k < j ==> text@[at + k] == pattern@[k],
        decreases m - j,
    {
        if text[at + j] != pattern[j] {
            assert(text@.skip(at as int)[j as int] != pattern@[j as int]);
            return false;
        }
        j += 1;
    }
    assert(pattern@ =~= text@.skip(at as int).subrange(0, m as int));
    true
}

/// `text` with `with` in place of each occurrence of `pattern`.
pub fn replace_all(text: &str, pattern: &str, with: &str) -> (r: String)
    ensures
        r@ == replaced(text@, pattern@, with@),
{
    let chars = chars_of(text);
    let sought = chars_of(pattern);
    let n = chars.len();
    let m = sought.len();
    let ghost whole = text@;
    let mut r = String::new();
    let mut i: usize = 0;
    assert(whole.skip(0) =~= whole);
    assert(whole.subrange(0, 0) =~= Seq::<char>::empty());
    if m == 0 {
        while i < n
            invariant
                i <= n,
                n == whole.len(),
                whole == text@,
                pattern@.len() == 0,
                r@ + replaced(whole.skip(i as int), pattern@, with@) == replaced(
                    whole,
                    pattern@,
                    with@,
                ),
            decreases n - i,
        {
            let ghost rest = whole.skip(i as int);
            r.append(with);
            r.append(text.substring_char(i, i + 1));
            proof {
                assert(pattern@.is_prefix_of(rest));
                assert(rest.drop_first() =~= whole.skip(i + 1));
                assert(whole.subrange(i as int, i + 1) =~= seq![rest[0]]);
            }
            i += 1;
        }
        r.append(with);
        proof {
            assert(pattern@.is_prefix_of(whole.skip(n as int)));
        }
        return r;
    }
    let mut from: usize = 0;
    while i < n
        invariant
            from <= i <= n,
            n == whole.len(),
            whole == text@,
            chars@ == whole,
            sought@ == pattern@,
            m == pattern@.len(),
            m > 0,
            r@ + whole.subrange(from as int, i as int) + replaced(
                whole.skip(i as int),
                pattern@,
                with@,
            ) == replaced(whole, pattern@, with@),
        decreases n - i,
    {
        let ghost rest = whole.skip(i as int);
        let ghost done = r@;
        if occurs_at(&chars, &sought, i) {
            r.append(text.substring_char(from, i));
            r.append(with);
            proof {
                assert(rest.skip(m as int) =~= whole.skip(i + m));
                assert(whole.subrange(i + m, i + m) =~= Seq::<char>::empty());
                assert(r@ + whole.subrange(i + m, i + m) + replaced(
                    whole.skip(i + m),
                    pattern@,
                    with@,
                ) =~= done + whole.subrange(from as int, i as int) + replaced(
                    rest,
                    pattern@,
                    with@,
                ));
            }
            i += m;
            from = i;
        } else {
            proof {
                assert(rest.drop_first() =~= whole.skip(i + 1));
                assert(whole.subrange(from as int, i + 1) =~= whole.subrange(
                    from as int,
                    i as int,
                ).push(rest[0]));
                assert(done + whole.subrange(from as int, i + 1) + replaced(
                    whole.skip(i + 1),
                    pattern@,
                    with@,
                ) =~= done + whole.subrange(from as int, i as int) + replaced(
                    rest,
                    pattern@,
                    with@,
                ));
            }
            i += 1;
        }
    }
    r.append(text.substring_char(from, n));
    proof {
        assert(!pattern@.is_prefix_of(whole.skip(n as int)));
        assert(r@ + Seq::<char>::empty() =~= r@);
    }
    r
}

/// The prompt for `user` on `hostname` in the directory `cwd`, with `~` in
/// place of the home directory `home`.
pub fn create_prompt(user: &str, hostname: &str, cwd: &str, home: &str) -> (prompt: String)
    ensures
        prompt@ == prompt_of(user@, hostname@, cwd@, home@),
{
    proof {
        reveal_strlit("[");
        reveal_strlit("@");
        reveal_strlit(" ");
        reveal_strlit("~");
        reveal_strlit("]$ ");
        assert("["@ =~= seq!['[']);
        assert("@"@ =~= seq!['@']);
        assert(" "@ =~= seq![' ']);
        assert("~"@ =~= seq!['~']);
        assert("]$ "@ =~= seq![']', '$', ' ']);
    }
    let place = replace_all(cwd, home, "~");
    let mut prompt = String::new();
    prompt.append("[");
    prompt.append(user);
    prompt.append("@");
    prompt.append(hostname);
    prompt.append(" ");
    prompt.append(place.as_str());
    prompt.append("]$ ");
    assert(prompt@ =~= prompt_of(user@, hostname@, cwd@, home@));
    prompt
}

} // verus!
