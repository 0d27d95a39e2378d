//! Token scanning: classification of the first significant character,
//! keyword and identifier matching, numeric literals, and operators.

use vstd::prelude::*;

use crate::chars::alpha_char;
use crate::chars::digit_char;
use crate::chars::ident_char;
use crate::chars::ident_start_char;
use crate::chars::is_alpha;
use crate::chars::is_digit;
use crate::chars::is_ident_char;
use crate::chars::is_ident_start;
use crate::chars::lemma_run_len_is;
use crate::chars::lemma_run_len_props;
use crate::chars::run_len;
use crate::token::LexError;
use crate::token::SpecToken;
use crate::token::TokenKind;
use crate::trivia::lemma_trivia_len_bound;
use crate::trivia::lemma_trivia_only_consumes_all;
use crate::trivia::skip;
use crate::trivia::trivia_len;
use crate::trivia::trivia_only;

verus! {

/// The letter predicate, as a single named value so that every use refers
/// to the same function.
pub open spec fn alpha_p() -> spec_fn(char) -> bool {
    |c: char| is_alpha(c)
}

/// The digit predicate.
pub open spec fn digit_p() -> spec_fn(char) -> bool {
    |c: char| is_digit(c)
}

/// The identifier-character predicate.
pub open spec fn ident_p() -> spec_fn(char) -> bool {
    |c: char| is_ident_char(c)
}

/// The message of the `Error` token produced when identifier scanning finds
/// no identifier-legal character at all.
pub open spec fn msg_no_identifier() -> Seq<char> {
    "No identifier tokenized"@
}

/// The message of the `Error` token produced when the scanned run starts
/// with a character that cannot begin an identifier.
pub open spec fn msg_malformed_identifier() -> Seq<char> {
    "malformed identifier"@
}

/// What identifier scanning yields on `s`: the maximal run of
/// identifier-legal characters as an `Identifier` token, or an `Error` token
/// of length zero when the run is empty or starts with a character that
/// cannot begin an identifier.
pub open spec fn spec_ident(s: Seq<char>) -> (SpecToken, int) {
    let n = run_len(s, ident_p()) as int;
    if n == 0 {
        (SpecToken::Error(msg_no_identifier()), 0)
    } else if !is_ident_start(s[0]) {
        (SpecToken::Error(msg_malformed_identifier()), 0)
    } else {
        (SpecToken::Identifier(s.subrange(0, n)), n)
    }
}

/// The number of digits in the integer part of a numeric literal at the
/// front of `s`.
pub open spec fn int_digits(s: Seq<char>) -> nat {
    run_len(s, digit_p())
}

/// Whether the numeric literal has a fractional part: a decimal point
/// immediately follows the integer digits.
pub open spec fn has_fraction(s: Seq<char>) -> bool {
    int_digits(s) < s.len() && s[int_digits(s) as int] == '.'
}

/// The number of digits in the fractional part, when a decimal point is
/// present.
pub open spec fn frac_digits(s: Seq<char>) -> nat {
    run_len(s.skip(int_digits(s) as int + 1), digit_p())
}

/// The length of the numeric literal text: integer digits, plus the decimal
/// point and the fractional digits when present.
pub open spec fn number_len(s: Seq<char>) -> int {
    if has_fraction(s) {
        int_digits(s) + 1 + frac_digits(s) as int
    } else {
        int_digits(s) as int
    }
}

/// The numeric path succeeds exactly when the scanned literal text holds at
/// least one digit; the empty text and a lone decimal point name no float
/// value, and there is no safe length to advance past them.
pub open spec fn number_ok(s: Seq<char>) -> bool {
    int_digits(s) > 0 || (has_fraction(s) && frac_digits(s) > 0)
}

/// What numeric scanning yields on `s`: the literal text as a `Number`
/// token whose length equals the text's length, or the fatal error.
pub open spec fn spec_number(s: Seq<char>) -> Result<(SpecToken, int), LexError> {
    if number_ok(s) {
        Ok((SpecToken::Number(s.subrange(0, number_len(s))), number_len(s)))
    } else {
        Err(LexError::InvalidNumber)
    }
}

/// Keyword matching: the maximal run of letters must equal the keyword text
/// exactly — a strict prefix or a longer run is no match and falls through
/// to identifier scanning of the same text from the same position.
pub open spec fn spec_keyword(s: Seq<char>, kw: Seq<char>, t: SpecToken) -> (SpecToken, int) {
    if run_len(s, alpha_p()) == kw.len() && s.subrange(0, kw.len() as int) == kw {
        (t, kw.len() as int)
    } else {
        spec_ident(s)
    }
}

/// Operator disambiguation: a following `=` makes the two-character token,
/// anything else the one-character token.
pub open spec fn spec_relop(s: Seq<char>, two: SpecToken, one: SpecToken) -> (SpecToken, int) {
    if s.len() >= 2 && s[1] == '=' {
        (two, 2)
    } else {
        (one, 1)
    }
}

/// Scans the maximal run of identifier-legal characters at the front of
/// `src` and classifies it, as `spec_ident` describes.
fn scan_identifier(src: &str) -> (r: (TokenKind, usize))
    ensures
        r.0@ == spec_ident(src@).0,
        r.1 as int == spec_ident(src@).1,
{
    let len = src.unicode_len();
    let mut i: usize = 0;
    while i < len && ident_char(src.get_char(i))
        invariant
            len == src@.len(),
            i <= len,
            forall|j: int| 0 <= j < i ==> is_ident_char(src@[j]),
        decreases len - i,
    {
        i = i + 1;
    }
    proof {
        lemma_run_len_is(src@, ident_p(), i as int);
    }
    if i == 0 {
        (TokenKind::Error("No identifier tokenized".to_owned()), 0)
    } else if !ident_start_char(src.get_char(0)) {
        (TokenKind::Error("malformed identifier".to_owned()), 0)
    } else {
        let name = src.substring_char(0, i).to_owned();
        (TokenKind::Identifier(name), i)
    }
}

/// Classifies the maximal run of identifier-legal characters at the front
/// of `src`. An empty run yields the `Error` token with the message
/// `No identifier tokenized`; a run that starts with a character that
/// cannot begin an identifier yields the `Error` token with the message
/// `malformed identifier`; both have length zero. Any other run is an
/// `Identifier` token whose length is the run's length. This path never
/// fails: the `Error` tokens are ordinary results.
pub fn tokenize_identifier(src: &str) -> (r: Result<(TokenKind, usize), LexError>)
    ensures
        r matches Ok(p) && p.0@ == spec_ident(src@).0 && p.1 as int == spec_ident(src@).1,
{
    Ok(scan_identifier(src))
}

/// Scans a numeric literal at the front of `src`: the maximal run of
/// digits, then, if a decimal point follows it, the point and the maximal
/// run of digits after it. The token carries the literal text, and its
/// length equals that text's length. When the text holds no digit at all
/// (`src` is empty, or starts with something other than a digit, or the
/// point has no digit on either side) the call fails with
/// `LexError::InvalidNumber`.
pub fn tokenize_number(src: &str) -> (r: Result<(TokenKind, usize), LexError>)
    ensures
        match spec_number(src@) {
            Ok(q) => r matches Ok(p) && p.0@ == q.0 && p.1 as int == q.1,
            Err(e) => r == Err::<(TokenKind, usize), LexError>(e),
        },
{
    let len = src.unicode_len();
    let mut i: usize = 0;
    while i < len && digit_char(src.get_char(i))
        invariant
            len == src@.len(),
            i <= len,
            forall|j: int| 0 <= j < i ==> is_digit(src@[j]),
        decreases len - i,
    {
        i = i + 1;
    }
    proof {
        lemma_run_len_is(src@, digit_p(), i as int);
    }
    let mut total: usize = i;
    let mut any_digits: bool = i > 0;
    if i < len && src.get_char(i) == '.' {
        let mut f: usize = i + 1;
        while f < len && digit_char(src.get_char(f))
            invariant
                len == src@.len(),
                i + 1 <= f <= len,
                forall|j: int| i + 1 <= j < f ==> is_digit(src@[j]),
            decreases len - f,
        {
            f = f + 1;
        }
        proof {
            let tail = src@.skip(i as int + 1);
            assert forall|j: int| 0 <= j < f - (i + 1) implies is_digit(tail[j]) by {
                assert(tail[j] == src@[i + 1 + j]);
            }
            if f - (i + 1) < tail.len() {
                assert(tail[f - (i + 1)] == src@[f as int]);
            }
            lemma_run_len_is(tail, digit_p(), f - (i + 1));
        }
        total = f;
        if f > i + 1 {
            any_digits = true;
        }
    }
    if any_digits {
        let text = src.substring_char(0, total).to_owned();
        Ok((TokenKind::Number(text), total))
    } else {
        Err(LexError::InvalidNumber)
    }
}

/// What the dispatch step yields on the text left after trivia: the first
/// character picks exactly one specialized matcher.
pub open spec fn spec_dispatch(s: Seq<char>) -> Result<(SpecToken, int), LexError>
    recommends
        s.len() > 0,
{
    let c = s[0];
    if c == '+' {
        Ok((SpecToken::Plus, 1))
    } else if c == '-' {
        Ok((SpecToken::Minus, 1))
    } else if c == ';' {
        Ok((SpecToken::Semicolon, 1))
    } else if c == ',' {
        Ok((SpecToken::Comma, 1))
    } else if c == '(' {
        Ok((SpecToken::OpenParenthesis, 1))
    } else if c == ')' {
        Ok((SpecToken::CloseParenthesis, 1))
    } else if c == '=' {
        Ok(spec_relop(s, SpecToken::EqualEqual, SpecToken::Equal))
    } else if c == '!' {
        Ok(spec_relop(s, SpecToken::BangEqual, SpecToken::Bang))
    } else if c == '<' {
        Ok(spec_relop(s, SpecToken::LessEqual, SpecToken::Less))
    } else if c == '>' {
        Ok(spec_relop(s, SpecToken::GreaterEqual, SpecToken::Greater))
    } else if c == 'c' {
        Ok(spec_keyword(s, "class"@, SpecToken::Class))
    } else if c == 'e' {
        Ok(spec_keyword(s, "else"@, SpecToken::Else))
    } else if c == 'i' {
        Ok(spec_keyword(s, "if"@, SpecToken::If))
    } else if c == 'n' {
        Ok(spec_keyword(s, "nil"@, SpecToken::Nil))
    } else if c == 'r' {
        Ok(spec_keyword(s, "return"@, SpecToken::Return))
    } else if c == 't' {
        Ok(spec_keyword(s, "true"@, SpecToken::True))
    } else if c == 'v' {
        Ok(spec_keyword(s, "var"@, SpecToken::Var))
    } else if c == 'w' {
        Ok(spec_keyword(s, "while"@, SpecToken::While))
    } else if c == '.' || is_digit(c) {
        spec_number(s)
    } else {
        Ok(spec_ident(s))
    }
}

/// What one scan call yields on `s`: trivia is skipped first; an exhausted
/// text is the end-of-file token whose length is the trivia's length; any
/// other text is dispatched, and the trivia's length is added to the
/// token's own length.
pub open spec fn spec_next_token(s: Seq<char>) -> Result<(SpecToken, int), LexError> {
    let k = trivia_len(s) as int;
    let rem = s.skip(k);
    if rem.len() == 0 {
        Ok((SpecToken::EndOfFile, k))
    } else {
        match spec_dispatch(rem) {
            Ok(p) => Ok((p.0, p.1 + k)),
            Err(e) => Err(e),
        }
    }
}

/// A dispatched token never consumes more than the text it was scanned
/// from.
pub proof fn lemma_dispatch_len(s: Seq<char>)
    requires
        s.len() > 0,
    ensures
        spec_dispatch(s) matches Ok(p) ==> 0 <= p.1 <= s.len(),
{
    lemma_run_len_props(s, alpha_p());
    lemma_run_len_props(s, ident_p());
    lemma_run_len_props(s, digit_p());
    lemma_run_len_props(s.skip(int_digits(s) as int + 1), digit_p());
}

/// Does `src` start with the full text of `prefix`?
fn starts_with_text(src: &str, prefix: &str) -> (b: bool)
    ensures
        b == (prefix@.len() <= src@.len() && src@.subrange(0, prefix@.len() as int) == prefix@),
{
    let plen = prefix.unicode_len();
    let len = src.unicode_len();
    if plen > len {
        return false;
    }
    for j in 0..plen
        invariant
            plen == prefix@.len(),
            len == src@.len(),
            plen <= len,
            forall|x: int| 0 <= x < j ==> src@[x] == prefix@[x],
    {
        if src.get_char(j) != prefix.get_char(j) {
            proof {
                assert(src@.subrange(0, plen as int)[j as int] == src@[j as int]);
            }
            return false;
        }
    }
    proof {
        assert(src@.subrange(0, plen as int) =~= prefix@);
    }
    true
}

/// Scans the maximal run of letters at the front of `src` and compares it
/// against the keyword text `kw`; an exact match yields `t`, anything else
/// falls through to identifier scanning, as `spec_keyword` describes.
fn check_keyword(src: &str, kw: &str, t: TokenKind) -> (r: (TokenKind, usize))
    ensures
        r.0@ == spec_keyword(src@, kw@, t@).0,
        r.1 as int == spec_keyword(src@, kw@, t@).1,
{
    let len = src.unicode_len();
    let klen = kw.unicode_len();
    let mut i: usize = 0;
    while i < len && alpha_char(src.get_char(i))
        invariant
            len == src@.len(),
            i <= len,
            forall|j: int| 0 <= j < i ==> is_alpha(src@[j]),
        decreases len - i,
    {
        i = i + 1;
    }
    proof {
        lemma_run_len_is(src@, alpha_p(), i as int);
    }
    if i == klen && starts_with_text(src, kw) {
        (t, klen)
    } else {
        scan_identifier(src)
    }
}

/// Emits the two-character token when `=` follows the already-classified
/// first character, and the one-character token otherwise.
fn match_relop(src: &str, two: TokenKind, one: TokenKind) -> (r: (TokenKind, usize))
    requires
        src@.len() > 0,
    ensures
        r.0@ == spec_relop(src@, two@, one@).0,
        r.1 as int == spec_relop(src@, two@, one@).1,
{
    let len = src.unicode_len();
    if len >= 2 && src.get_char(1) == '=' {
        (two, 2)
    } else {
        (one, 1)
    }
}

/// Returns the next token of `src` together with the number of characters
/// consumed, skipped trivia included: the caller adds that count to its
/// running cursor. An exhausted text (empty, or trivia only) yields
/// `EndOfFile`, on this call and on every later call at the same position.
/// The one failure is a numeric literal with no digit at all, as
/// `spec_next_token` describes.
pub fn next_token(src: &str) -> (r: Result<(TokenKind, usize), LexError>)
    ensures
        match spec_next_token(src@) {
            Ok(q) => r matches Ok(p) && p.0@ == q.0 && p.1 as int == q.1,
            Err(e) => r == Err::<(TokenKind, usize), LexError>(e),
        },
{
    let len = src.unicode_len();
    let skipped = skip(src);
    proof {
        lemma_trivia_len_bound(src@);
    }
    if skipped == len {
        return Ok((TokenKind::EndOfFile, skipped));
    }
    let rem = src.substring_char(skipped, len);
    proof {
        assert(rem@ =~= src@.skip(trivia_len(src@) as int));
    }
    let c = rem.get_char(0);
    let scanned: (TokenKind, usize) = if c == '+' {
        (TokenKind::Plus, 1)
    } else if c == '-' {
        (TokenKind::Minus, 1)
    } else if c == ';' {
        (TokenKind::Semicolon, 1)
    } else if c == ',' {
        (TokenKind::Comma, 1)
    } else if c == '(' {
        (TokenKind::OpenParenthesis, 1)
    } else if c == ')' {
        (TokenKind::CloseParenthesis, 1)
    } else if c == '=' {
        match_relop(rem, TokenKind::EqualEqual, TokenKind::Equal)
    } else if c == '!' {
        match_relop(rem, TokenKind::BangEqual, TokenKind::Bang)
    } else if c == '<' {
        match_relop(rem, TokenKind::LessEqual, TokenKind::Less)
    } else if c == '>' {
        match_relop(rem, TokenKind::GreaterEqual, TokenKind::Greater)
    } else if c == 'c' {
        check_keyword(rem, "class", TokenKind::Class)
    } else if c == 'e' {
        check_keyword(rem, "else", TokenKind::Else)
    } else if c == 'i' {
        check_keyword(rem, "if", TokenKind::If)
    } else if c == 'n' {
        check_keyword(rem, "nil", TokenKind::Nil)
    } else if c == 'r' {
        check_keyword(rem, "return", TokenKind::Return)
    } else if c == 't' {
        check_keyword(rem, "true", TokenKind::True)
    } else if c == 'v' {
        check_keyword(rem, "var", TokenKind::Var)
    } else if c == 'w' {
        check_keyword(rem, "while", TokenKind::While)
    } else if c == '.' || digit_char(c) {
        match tokenize_number(rem) {
            Ok(p) => p,
            Err(e) => {
                return Err(e);
            },
        }
    } else {
        scan_identifier(rem)
    };
    proof {
        lemma_dispatch_len(rem@);
    }
    Ok((scanned.0, skipped + scanned.1))
}

/// A text consisting solely of whitespace and well-formed line comments is
/// consumed entirely as trivia, and scanning it yields the end-of-file
/// token, whose reported length is the whole text's length.
pub proof fn lemma_trivia_only_scans_to_end(s: Seq<char>)
    requires
        trivia_only(s),
    ensures
        trivia_len(s) == s.len(),
        spec_next_token(s) == Ok::<(SpecToken, int), LexError>(
            (SpecToken::EndOfFile, s.len() as int),
        ),
{
    lemma_trivia_only_consumes_all(s);
    assert(s.skip(s.len() as int).len() == 0);
}

/// The keyword table: the eight keyword texts the dispatcher recognizes,
/// each paired with its token.
pub open spec fn is_keyword_pair(kw: Seq<char>, t: SpecToken) -> bool {
    ||| (kw == "class"@ && t == SpecToken::Class)
    ||| (kw == "else"@ && t == SpecToken::Else)
    ||| (kw == "if"@ && t == SpecToken::If)
    ||| (kw == "nil"@ && t == SpecToken::Nil)
    ||| (kw == "return"@ && t == SpecToken::Return)
    ||| (kw == "true"@ && t == SpecToken::True)
    ||| (kw == "var"@ && t == SpecToken::Var)
    ||| (kw == "while"@ && t == SpecToken::While)
}

/// The common argument for every keyword: a text that starts with the full
/// keyword and continues, if at all, with a character that cannot appear in
/// an identifier, carries no leading trivia, its maximal run of letters is
/// the keyword itself, and keyword matching accepts it.
proof fn lemma_keyword_match(s: Seq<char>, kw: Seq<char>, t: SpecToken)
    requires
        1 <= kw.len() <= s.len(),
        forall|i: int| 0 <= i < kw.len() ==> is_alpha(kw[i]),
        s.subrange(0, kw.len() as int) == kw,
        kw.len() < s.len() ==> !is_ident_char(s[kw.len() as int]),
    ensures
        trivia_len(s) == 0,
        s.skip(0) == s,
        run_len(s, alpha_p()) == kw.len(),
        spec_keyword(s, kw, t) == (t, kw.len() as int),
{
    assert forall|i: int| 0 <= i < kw.len() implies is_alpha(s[i]) by {
        assert(s.subrange(0, kw.len() as int)[i] == s[i]);
    }
    assert(is_alpha(s[0]));
    assert(crate::trivia::ws_len(s) == 0);
    assert(s.skip(0) =~= s);
    assert(crate::trivia::comment_len(s) == 0);
    assert(trivia_len(s) == 0);
    lemma_run_len_is(s, alpha_p(), kw.len() as int);
}

/// An exact keyword text followed by a non-identifier character or by the
/// end of the input scans to the corresponding keyword token, and the
/// consumed length is the keyword text's length.
pub proof fn lemma_keyword_scans_to_keyword(s: Seq<char>, kw: Seq<char>, t: SpecToken)
    requires
        is_keyword_pair(kw, t),
        kw.len() <= s.len(),
        s.subrange(0, kw.len() as int) == kw,
        kw.len() < s.len() ==> !is_ident_char(s[kw.len() as int]),
    ensures
        spec_next_token(s) == Ok::<(SpecToken, int), LexError>((t, kw.len() as int)),
{
    reveal_strlit("class");
    reveal_strlit("else");
    reveal_strlit("if");
    reveal_strlit("nil");
    reveal_strlit("return");
    reveal_strlit("true");
    reveal_strlit("var");
    reveal_strlit("while");
    assert(forall|i: int| 0 <= i < kw.len() ==> is_alpha(kw[i]));
    lemma_keyword_match(s, kw, t);
    assert(s[0] == kw[0]) by {
        assert(s.subrange(0, kw.len() as int)[0] == s[0]);
    }
    if kw == "class"@ {
        assert(spec_dispatch(s) == Ok::<(SpecToken, int), LexError>(spec_keyword(s, kw, t)));
    } else if kw == "else"@ {
        assert(spec_dispatch(s) == Ok::<(SpecToken, int), LexError>(spec_keyword(s, kw, t)));
    } else if kw == "if"@ {
        assert(spec_dispatch(s) == Ok::<(SpecToken, int), LexError>(spec_keyword(s, kw, t)));
    } else if kw == "nil"@ {
        assert(spec_dispatch(s) == Ok::<(SpecToken, int), LexError>(spec_keyword(s, kw, t)));
    } else if kw == "return"@ {
        assert(spec_dispatch(s) == Ok::<(SpecToken, int), LexError>(spec_keyword(s, kw, t)));
    } else if kw == "true"@ {
        assert(spec_dispatch(s) == Ok::<(SpecToken, int), LexError>(spec_keyword(s, kw, t)));
    } else if kw == "var"@ {
        assert(spec_dispatch(s) == Ok::<(SpecToken, int), LexError>(spec_keyword(s, kw, t)));
    } else {
        assert(kw == "while"@);
        assert(spec_dispatch(s) == Ok::<(SpecToken, int), LexError>(spec_keyword(s, kw, t)));
    }
}

/// The data model's invariants hold of every scanned token: a `Number`
/// token's consumed length is exactly the skipped trivia plus the length of
/// the literal text it carries, no extra character is silently consumed; and
/// an `Identifier` token's text is never empty and starts with a letter or
/// an underscore.
pub proof fn lemma_token_invariants(s: Seq<char>)
    ensures
        spec_next_token(s) matches Ok(p) ==> match p.0 {
            SpecToken::Number(text) => p.1 == trivia_len(s) + text.len(),
            SpecToken::Identifier(name) => name.len() > 0 && is_ident_start(name[0]),
            _ => true,
        },
{
    let k = trivia_len(s) as int;
    let rem = s.skip(k);
    lemma_trivia_len_bound(s);
    if rem.len() > 0 {
        lemma_run_len_props(rem, ident_p());
        lemma_run_len_props(rem, digit_p());
        lemma_run_len_props(rem, alpha_p());
        lemma_run_len_props(rem.skip(int_digits(rem) as int + 1), digit_p());
    }
}

} // verus!
