use vstd::prelude::*;

pub use crate::token::{Token, TokenKind};

verus! {

broadcast use vstd::string::group_string_axioms;

/// Whether `char::is_alphanumeric` holds of `c`.
pub uninterp spec fn alphanumeric(c: char) -> bool;

/// Whether `c` has the Unicode White_Space property.
pub open spec fn whitespace(c: char) -> bool {
    ('\u{9}' <= c <= '\u{d}') || c == ' ' || c == '\u{85}' || c == '\u{a0}' || c == '\u{1680}'
        || ('\u{2000}' <= c <= '\u{200a}') || c == '\u{2028}' || c == '\u{2029}' || c
        == '\u{202f}' || c == '\u{205f}' || c == '\u{3000}'
}

/// Whether `c` is an ASCII letter or digit.
pub open spec fn ascii_alphanumeric(c: char) -> bool {
    ('a' <= c <= 'z') || ('A' <= c <= 'Z') || ('0' <= c <= '9')
}

/// Relies on char::is_alphanumeric: a property of the character alone, which
/// among ASCII characters holds of the letters and digits only.
#[verifier::external_body]
fn is_alphanumeric(c: char) -> (r: bool)
    ensures
        r == alphanumeric(c),
        (c as u32) < 128 ==> (r <==> ascii_alphanumeric(c)),
{
    c.is_alphanumeric()
}

/// Whether `c` is whitespace.
fn is_whitespace(c: char) -> (r: bool)
    ensures
        r == whitespace(c),
{
    ('\u{9}' <= c && c <= '\u{d}') || c == ' ' || c == '\u{85}' || c == '\u{a0}' || c
        == '\u{1680}' || ('\u{2000}' <= c && c <= '\u{200a}') || c == '\u{2028}' || c
        == '\u{2029}' || c == '\u{202f}' || c == '\u{205f}' || c == '\u{3000}'
}

/// Relies on String::push: appends one character.
#[verifier::external_body]
fn push_char(s: &mut String, c: char)
    ensures
        final(s)@ == old(s)@.push(c),
{
    s.push(c);
}

/// The category of a one-character symbol, if `c` is one.
pub open spec fn symbol_kind(c: char) -> Option<TokenKind> {
    if c == '+' {
        Some(TokenKind::Plus)
    } else if c == '-' {
        Some(TokenKind::Minus)
    } else if c == '*' {
        Some(TokenKind::Multiply)
    } else if c == '/' {
        Some(TokenKind::Divide)
    } else if c == '(' {
        Some(TokenKind::Lparen)
    } else if c == ')' {
        Some(TokenKind::Rparen)
    } else {
        None
    }
}

/// The length of the longest prefix of `s` made of alphanumeric characters.
pub open spec fn run_len(s: Seq<char>) -> nat
    decreases s.len(),
{
    if s.len() > 0 && alphanumeric(s[0]) {
        1 + run_len(s.drop_first())
    } else {
        0
    }
}

/// The tokens of `s`, scanned from the left: a symbol is one token, a maximal
/// run of alphanumeric characters is one identifier, whitespace is skipped,
/// and any other character is an illegal token of its own.
pub open spec fn lex(s: Seq<char>) -> Seq<(TokenKind, Seq<char>)>
    decreases s.len(),
{
    if s.len() == 0 {
        Seq::empty()
    } else {
        let c = s[0];
        match symbol_kind(c) {
            Some(k) => seq![(k, seq![c])] + lex(s.drop_first()),
            None => if whitespace(c) {
                lex(s.drop_first())
            } else if alphanumeric(c) {
                let n = run_len(s);
                proof {
                    lemma_run_len_bound(s);
                }
                seq![(TokenKind::Ident, s.take(n as int))] + lex(s.skip(n as int))
            } else {
                seq![(TokenKind::Illegal, seq![c])] + lex(s.drop_first())
            },
        }
    }
}

/// An alphanumeric run never reaches past the end of its sequence.
pub proof fn lemma_run_len_bound(s: Seq<char>)
    ensures
        run_len(s) <= s.len(),
    decreases s.len(),
{
    if s.len() > 0 && alphanumeric(s[0]) {
        lemma_run_len_bound(s.drop_first());
    }
}

/// Appending a token appends its view.
proof fn lemma_views_push(ts: Seq<Token>, t: Token)
    ensures
        views(ts.push(t)) == views(ts).push(t@),
{
    assert(views(ts.push(t)) =~= views(ts).push(t@));
}

/// The views of a sequence of tokens.
pub open spec fn views(ts: Seq<Token>) -> Seq<(TokenKind, Seq<char>)> {
    ts.map_values(|t: Token| t@)
}

/// The characters of `source`, in order.
fn chars_of(source: &str) -> (r: Vec<char>)
    ensures
        r@ == source@,
{
    let mut r: Vec<char> = Vec::new();
    for c in it: source.chars()
        invariant
            r@ == it.seq().take(it.index() as int),
    {
        r.push(c);
    }
    r
}

/// The category of `c` if it is one of `+ - * / ( )`.
fn symbol_kind_of(c: char) -> (r: Option<TokenKind>)
    ensures
        r == symbol_kind(c),
{
    if c == '+' {
        Some(TokenKind::Plus)
    } else if c == '-' {
        Some(TokenKind::Minus)
    } else if c == '*' {
        Some(TokenKind::Multiply)
    } else if c == '/' {
        Some(TokenKind::Divide)
    } else if c == '(' {
        Some(TokenKind::Lparen)
    } else if c == ')' {
        Some(TokenKind::Rparen)
    } else {
        None
    }
}

/// A run of alphanumeric characters that ends at `s[n]` or at the end of `s`
/// has length `n`.
proof fn lemma_run_len(s: Seq<char>, n: int)
    requires
        0 <= n <= s.len(),
        forall|k: int| 0 <= k < n ==> alphanumeric(#[trigger] s[k]),
        n == s.len() || !alphanumeric(s[n]),
    ensures
        run_len(s) == n,
    decreases n,
{
    if n > 0 {
        let t = s.drop_first();
        assert forall|k: int| 0 <= k < n - 1 implies alphanumeric(#[trigger] t[k]) by {
            assert(t[k] == s[k + 1]);
        }
        if n < s.len() {
            assert(t[n - 1] == s[n]);
        }
        lemma_run_len(t, n - 1);
    }
}

/// The characters of `s` from `i` to `j` as a string.
fn lexeme(s: &Vec<char>, i: usize, j: usize) -> (r: String)
    requires
        i <= j <= s.len(),
    ensures
        r@ == s@.subrange(i as int, j as int),
{
    let mut r = String::new();
    let mut k: usize = i;
    while k < j
        invariant
            i <= k <= j <= s.len(),
            r@ == s@.subrange(i as int, k as int),
        decreases j - k,
    {
        push_char(&mut r, s[k]);
        assert(s@.subrange(i as int, k + 1) == s@.subrange(i as int, k as int).push(s@[k as int]));
        k = k + 1;
    }
    r
}

/// Splits `source` into tokens. Never fails: a character that belongs to no
/// token becomes an illegal token.
pub fn lexer(source: String) -> (r: Vec<Token>)
    ensures
        r@.len() == lex(source@).len(),
        forall|k: int| 0 <= k < r@.len() ==> (#[trigger] r@[k])@ == lex(source@)[k],
{
    let s = chars_of(source.as_str());
    let mut r: Vec<Token> = Vec::new();
    let mut i: usize = 0;
    assert(s@.skip(0) =~= s@);
    assert(views(r@) =~= Seq::<(TokenKind, Seq<char>)>::empty());
    assert(views(r@) + lex(s@) =~= lex(s@));
    while i < s.len()
        invariant
            i <= s.len(),
            s@ == source@,
            lex(s@) == views(r@) + lex(s@.skip(i as int)),
        decreases s.len() - i,
    {
        let ghost rest = s@.skip(i as int);
        let ghost before = views(r@);
        assert(rest[0] == s@[i as int]);
        let c = s[i];
        match symbol_kind_of(c) {
            Some(k) => {
                let t = Token::new(k, lexeme(&s, i, i + 1));
                proof {
                    assert(s@.subrange(i as int, i + 1) =~= seq![c]);
                    lemma_views_push(r@, t);
                    assert(rest.drop_first() =~= s@.skip(i + 1));
                    assert(before + lex(rest) =~= before.push(t@) + lex(s@.skip(i + 1)));
                }
                r.push(t);
                i = i + 1;
            },
            None => {
                if is_whitespace(c) {
                    assert(rest.drop_first() =~= s@.skip(i + 1));
                    i = i + 1;
                } else if is_alphanumeric(c) {
                    let start = i;
                    while i < s.len() && is_alphanumeric(s[i])
                        invariant
                            start < i <= s.len() || (start == i && i < s.len()),
                            forall|k: int| start <= k < i ==> alphanumeric(#[trigger] s@[k]),
                            alphanumeric(s@[start as int]),
                        decreases s.len() - i,
                    {
                        i = i + 1;
                    }
                    let t = Token::new(TokenKind::Ident, lexeme(&s, start, i));
                    proof {
                        assert forall|k: int| 0 <= k < i - start implies alphanumeric(
                            #[trigger] rest[k],
                        ) by {
                            assert(rest[k] == s@[start + k]);
                        }
                        if i < s.len() {
                            assert(rest[i - start] == s@[i as int]);
                        }
                        lemma_run_len(rest, i - start);
                        assert(rest.take(i - start) =~= s@.subrange(start as int, i as int));
                        assert(rest.skip(i - start) =~= s@.skip(i as int));
                        lemma_views_push(r@, t);
                        assert(before + lex(rest) =~= before.push(t@) + lex(s@.skip(i as int)));
                    }
                    r.push(t);
                } else {
                    let t = Token::new(TokenKind::Illegal, lexeme(&s, i, i + 1));
                    proof {
                        assert(s@.subrange(i as int, i + 1) =~= seq![c]);
                        lemma_views_push(r@, t);
                        assert(rest.drop_first() =~= s@.skip(i + 1));
                        assert(before + lex(rest) =~= before.push(t@) + lex(s@.skip(i + 1)));
                    }
                    r.push(t);
                    i = i + 1;
                }
            },
        }
    }
    assert(s@.skip(i as int) =~= Seq::<char>::empty());
    assert(views(r@) + Seq::<(TokenKind, Seq<char>)>::empty() =~= views(r@));
    assert(views(r@).len() == r@.len());
    assert forall|k: int| 0 <= k < r@.len() implies (#[trigger] r@[k])@ == lex(source@)[k] by {
        assert(views(r@)[k] == r@[k]@);
    }
    r
}

} // verus!
