//! Character classes used by the scanner, and the length of the run of a
//! character class at the front of a text.

use vstd::prelude::*;

verus! {

/// ASCII whitespace: space, tab, line feed, form feed, carriage return.
pub open spec fn is_space(c: char) -> bool {
    c == ' ' || c == '\t' || c == '\n' || c == '\u{c}' || c == '\r'
}

/// ASCII decimal digit.
pub open spec fn is_digit(c: char) -> bool {
    '0' <= c && c <= '9'
}

/// ASCII letter.
pub open spec fn is_alpha(c: char) -> bool {
    ('a' <= c && c <= 'z') || ('A' <= c && c <= 'Z')
}

/// A character that may appear in an identifier: a letter, a digit, or an
/// underscore.
pub open spec fn is_ident_char(c: char) -> bool {
    c == '_' || is_alpha(c) || is_digit(c)
}

/// A character that may begin an identifier: a letter or an underscore.
pub open spec fn is_ident_start(c: char) -> bool {
    c == '_' || is_alpha(c)
}

pub fn space_char(c: char) -> (b: bool)
    ensures
        b == is_space(c),
{
    c == ' ' || c == '\t' || c == '\n' || c == '\u{c}' || c == '\r'
}

pub fn digit_char(c: char) -> (b: bool)
    ensures
        b == is_digit(c),
{
    '0' <= c && c <= '9'
}

pub fn alpha_char(c: char) -> (b: bool)
    ensures
        b == is_alpha(c),
{
    ('a' <= c && c <= 'z') || ('A' <= c && c <= 'Z')
}

pub fn ident_char(c: char) -> (b: bool)
    ensures
        b == is_ident_char(c),
{
    c == '_' || alpha_char(c) || digit_char(c)
}

pub fn ident_start_char(c: char) -> (b: bool)
    ensures
        b == is_ident_start(c),
{
    c == '_' || alpha_char(c)
}

/// The length of the longest prefix of `s` whose characters all satisfy `p`.
pub open spec fn run_len(s: Seq<char>, p: spec_fn(char) -> bool) -> nat
    decreases s.len(),
{
    if s.len() > 0 && p(s[0]) {
        (1 + run_len(s.drop_first(), p)) as nat
    } else {
        0
    }
}

/// The run is a prefix, all of its characters satisfy `p`, and it is maximal:
/// the character just past it, if any, does not satisfy `p`.
pub proof fn lemma_run_len_props(s: Seq<char>, p: spec_fn(char) -> bool)
    ensures
        run_len(s, p) <= s.len(),
        forall|i: int| 0 <= i < run_len(s, p) ==> p(s[i]),
        run_len(s, p) < s.len() ==> !p(s[run_len(s, p) as int]),
    decreases s.len(),
{
    if s.len() > 0 && p(s[0]) {
        let s1 = s.drop_first();
        lemma_run_len_props(s1, p);
        assert forall|i: int| 0 <= i < run_len(s, p) implies p(s[i]) by {
            if i > 0 {
                assert(s1[i - 1] == s[i]);
            }
        }
        if run_len(s, p) < s.len() {
            assert(s1[run_len(s1, p) as int] == s[run_len(s, p) as int]);
        }
    }
}

/// Any count that marks a maximal prefix of characters satisfying `p` is the
/// run length: the characterization is unique.
pub proof fn lemma_run_len_is(s: Seq<char>, p: spec_fn(char) -> bool, n: int)
    requires
        0 <= n <= s.len(),
        forall|i: int| 0 <= i < n ==> p(s[i]),
        n < s.len() ==> !p(s[n]),
    ensures
        run_len(s, p) == n,
    decreases s.len(),
{
    if n == 0 {
        if s.len() > 0 {
            assert(!p(s[0]));
        }
    } else {
        assert(p(s[0]));
        let s1 = s.drop_first();
        assert forall|i: int| 0 <= i < n - 1 implies p(s1[i]) by {
            assert(s1[i] == s[i + 1]);
        }
        if n - 1 < s1.len() {
            assert(s1[n - 1] == s[n]);
        }
        lemma_run_len_is(s1, p, n - 1);
    }
}

} // verus!
