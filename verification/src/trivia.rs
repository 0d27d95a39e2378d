//! Trivia skipping: whitespace and line comments are consumed before any
//! token begins, and are never emitted as tokens.

use vstd::prelude::*;

use crate::chars::is_space;
use crate::chars::lemma_run_len_is;
use crate::chars::lemma_run_len_props;
use crate::chars::run_len;
use crate::chars::space_char;

verus! {

/// The whitespace predicate, as a single named value so that every use
/// refers to the same function.
pub open spec fn space_p() -> spec_fn(char) -> bool {
    |c: char| is_space(c)
}

/// Everything but a line feed; a line comment runs through these.
pub open spec fn not_newline_p() -> spec_fn(char) -> bool {
    |c: char| c != '\n'
}

/// The length of the maximal run of whitespace at the front of `s`.
pub open spec fn ws_len(s: Seq<char>) -> nat {
    run_len(s, space_p())
}

/// The length of the line comment at the front of `s`: if `s` starts with
/// `//`, everything up to and including the first newline, or the whole text
/// when no newline follows; otherwise zero.
pub open spec fn comment_len(s: Seq<char>) -> nat {
    if s.len() >= 2 && s[0] == '/' && s[1] == '/' {
        let k = run_len(s, not_newline_p());
        if k < s.len() {
            (k + 1) as nat
        } else {
            k
        }
    } else {
        0
    }
}

pub proof fn lemma_comment_len_bound(s: Seq<char>)
    ensures
        comment_len(s) <= s.len(),
{
    lemma_run_len_props(s, not_newline_p());
}

/// The total trivia at the front of `s`: whitespace and line comments
/// alternate until one full round consumes nothing.
pub open spec fn trivia_len(s: Seq<char>) -> nat
    decreases s.len(),
{
    let w = ws_len(s);
    let c = comment_len(s.skip(w as int));
    if w + c == 0 {
        0
    } else {
        proof {
            lemma_run_len_props(s, space_p());
            lemma_comment_len_bound(s.skip(w as int));
        }
        (w + c + trivia_len(s.skip((w + c) as int))) as nat
    }
}

pub proof fn lemma_trivia_len_bound(s: Seq<char>)
    ensures
        trivia_len(s) <= s.len(),
    decreases s.len(),
{
    let w = ws_len(s);
    let c = comment_len(s.skip(w as int));
    if w + c != 0 {
        lemma_run_len_props(s, space_p());
        lemma_comment_len_bound(s.skip(w as int));
        lemma_trivia_len_bound(s.skip((w + c) as int));
    }
}

/// The texts made of nothing but trivia: empty, or a whitespace character
/// followed by such a text, or a well-formed line comment followed by one.
pub open spec fn trivia_only(s: Seq<char>) -> bool
    decreases s.len(),
{
    if s.len() == 0 {
        true
    } else if is_space(s[0]) {
        trivia_only(s.drop_first())
    } else if comment_len(s) > 0 {
        proof {
            lemma_comment_len_bound(s);
        }
        trivia_only(s.skip(comment_len(s) as int))
    } else {
        false
    }
}

/// Counts the maximal leading run of ASCII whitespace characters of `src`.
/// Returns 0 if the text is empty or does not start with whitespace.
pub fn skip_whitespace(src: &str) -> (n: usize)
    ensures
        n == ws_len(src@),
{
    let len = src.unicode_len();
    let mut i: usize = 0;
    while i < len && space_char(src.get_char(i))
        invariant
            len == src@.len(),
            i <= len,
            forall|j: int| 0 <= j < i ==> is_space(src@[j]),
        decreases len - i,
    {
        i = i + 1;
    }
    proof {
        lemma_run_len_is(src@, space_p(), i as int);
    }
    i
}

/// If `src` starts with `//`, returns the offset just past the first
/// newline, or the full length of `src` when no newline follows; otherwise
/// returns 0.
pub fn skip_comment(src: &str) -> (n: usize)
    ensures
        n == comment_len(src@),
{
    let len = src.unicode_len();
    if len >= 2 && src.get_char(0) == '/' && src.get_char(1) == '/' {
        let mut i: usize = 0;
        while i < len && src.get_char(i) != '\n'
            invariant
                len == src@.len(),
                i <= len,
                forall|j: int| 0 <= j < i ==> src@[j] != '\n',
            decreases len - i,
        {
            i = i + 1;
        }
        proof {
            lemma_run_len_is(src@, not_newline_p(), i as int);
        }
        if i < len {
            i + 1
        } else {
            i
        }
    } else {
        0
    }
}

/// Alternates whitespace skipping and comment skipping until one full round
/// consumes nothing, and returns the total number of characters consumed.
pub fn skip(src: &str) -> (n: usize)
    ensures
        n == trivia_len(src@),
{
    let len = src.unicode_len();
    let mut k: usize = 0;
    proof {
        assert(src@.skip(0) =~= src@);
    }
    loop
        invariant
            len == src@.len(),
            k <= len,
            trivia_len(src@) == k + trivia_len(src@.skip(k as int)),
        decreases len - k,
    {
        let ghost t = src@.skip(k as int);
        let rest = src.substring_char(k, len);
        proof {
            assert(t =~= rest@);
        }
        let w = skip_whitespace(rest);
        proof {
            lemma_run_len_props(rest@, space_p());
        }
        let rest2 = src.substring_char(k + w, len);
        proof {
            assert(t.skip(w as int) =~= rest2@);
        }
        let c = skip_comment(rest2);
        proof {
            lemma_comment_len_bound(rest2@);
        }
        if w + c == 0 {
            proof {
                assert(trivia_len(t) == 0);
            }
            return k;
        }
        proof {
            assert(t.skip((w + c) as int) =~= src@.skip((k + w + c) as int));
            assert(trivia_len(t) == w + c + trivia_len(t.skip((w + c) as int)));
        }
        k = k + w + c;
    }
}

proof fn lemma_trivia_len_space_step(s: Seq<char>)
    requires
        s.len() > 0,
        is_space(s[0]),
    ensures
        trivia_len(s) == 1 + trivia_len(s.drop_first()),
{
    let s1 = s.drop_first();
    let w = ws_len(s);
    let w1 = ws_len(s1);
    assert(w == 1 + w1);
    lemma_run_len_props(s, space_p());
    lemma_run_len_props(s1, space_p());
    assert(s.skip(w as int) =~= s1.skip(w1 as int));
    let c = comment_len(s.skip(w as int));
    lemma_comment_len_bound(s.skip(w as int));
    if w1 + c == 0 {
        assert(trivia_len(s1) == 0);
        assert(s.skip((w + c) as int) =~= s1);
        assert(trivia_len(s) == w + c + trivia_len(s1));
    } else {
        assert(s.skip((w + c) as int) =~= s1.skip((w1 + c) as int));
        assert(trivia_len(s) == w + c + trivia_len(s.skip((w + c) as int)));
        assert(trivia_len(s1) == w1 + c + trivia_len(s1.skip((w1 + c) as int)));
    }
}

proof fn lemma_trivia_len_comment_step(s: Seq<char>)
    requires
        comment_len(s) > 0,
    ensures
        trivia_len(s) == comment_len(s) + trivia_len(s.skip(comment_len(s) as int)),
{
    assert(s[0] == '/');
    assert(ws_len(s) == 0);
    assert(s.skip(0) =~= s);
    lemma_comment_len_bound(s);
}

/// A text consisting solely of whitespace and well-formed line comments is
/// consumed entirely by trivia skipping.
pub proof fn lemma_trivia_only_consumes_all(s: Seq<char>)
    requires
        trivia_only(s),
    ensures
        trivia_len(s) == s.len(),
    decreases s.len(),
{
    if s.len() == 0 {
        assert(ws_len(s) == 0);
        assert(s.skip(0) =~= s);
    } else if is_space(s[0]) {
        lemma_trivia_len_space_step(s);
        lemma_trivia_only_consumes_all(s.drop_first());
    } else {
        lemma_comment_len_bound(s);
        lemma_trivia_len_comment_step(s);
        lemma_trivia_only_consumes_all(s.skip(comment_len(s) as int));
    }
}

} // verus!
