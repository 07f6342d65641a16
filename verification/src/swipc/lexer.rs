//! Splitting the text of a SwIPC file into tokens: identifiers, numbers,
//! punctuation and `::`. Whitespace and comments (`#` or `//` to the end of
//! the line) separate tokens.

use vstd::prelude::*;
use crate::swipc::model::{is_ident, is_ident_start, is_ident_continue};

verus! {

/// What a token is.
#[derive(Clone, Copy, PartialEq, Eq, Debug, Structural)]
pub enum TokenKind {
    /// An identifier (a keyword is an identifier too).
    Ident,
    /// A decimal or `0x` hexadecimal number, with its value.
    Number(u64),
    /// One punctuation byte.
    Punct(u8),
    /// `::`
    PathSep,
}

/// A token and the byte range of the source it covers.
#[derive(Clone, Copy, PartialEq, Eq, Debug, Structural)]
pub struct Token {
    pub kind: TokenKind,
    pub start: usize,
    pub end: usize,
}

/// The punctuation bytes: `{ } ( ) [ ] < > ; , = : -`.
pub open spec fn is_punct(c: u8) -> bool {
    c == 123 || c == 125 || c == 40 || c == 41 || c == 91 || c == 93 || c == 60 || c == 62
        || c == 59 || c == 44 || c == 61 || c == 58 || c == 45
}

/// A decimal digit.
pub open spec fn is_digit(c: u8) -> bool {
    48 <= c <= 57
}

/// The value of a hexadecimal digit, if it is one.
pub open spec fn hex_digit(c: u8) -> Option<nat> {
    if 48 <= c <= 57 {
        Some((c - 48) as nat)
    } else if 97 <= c <= 102 {
        Some((c - 87) as nat)
    } else if 65 <= c <= 70 {
        Some((c - 55) as nat)
    } else {
        None
    }
}

/// The value of a nonempty string of digits in `base` (10 or 16), if it is one.
pub open spec fn digits_value(s: Seq<u8>, base: nat) -> Option<nat>
    decreases s.len(),
{
    if s.len() == 0 {
        None
    } else {
        let d = if base == 16 {
            hex_digit(s.last())
        } else if is_digit(s.last()) {
            Some((s.last() - 48) as nat)
        } else {
            None
        };
        match d {
            None => None,
            Some(d) => if s.len() == 1 {
                Some(d)
            } else {
                match digits_value(s.drop_last(), base) {
                    None => None,
                    Some(v) => Some(v * base + d),
                }
            },
        }
    }
}

/// The value of a string of digits is at least that of each of its prefixes.
pub proof fn lemma_value_grows(s: Seq<u8>, n: int, base: nat)
    requires
        1 <= n <= s.len(),
        base == 10 || base == 16,
    ensures
        digits_value(s, base) matches Some(v) ==> (digits_value(s.take(n), base) matches Some(w) && w <= v),
    decreases s.len(),
{
    if n < s.len() {
        lemma_value_grows(s.drop_last(), n, base);
        assert(s.drop_last().take(n) =~= s.take(n));
        if let Some(v) = digits_value(s, base) {
            if s.len() > 1 {
                assert(digits_value(s.drop_last(), base) is Some);
            }
        }
    } else {
        assert(s.take(n) =~= s);
    }
}

/// The value of a number token's text: decimal digits, or `0x` and hexadecimal digits.
pub open spec fn number_value(s: Seq<u8>) -> Option<nat> {
    if s.len() >= 2 && s[0] == 48 && (s[1] == 120 || s[1] == 88) {
        digits_value(s.skip(2), 16)
    } else {
        digits_value(s, 10)
    }
}

/// The text of a token.
pub open spec fn token_text(src: Seq<u8>, t: Token) -> Seq<u8> {
    src.subrange(t.start as int, t.end as int)
}

/// A token covers a nonempty range of the source whose text is what its kind says.
pub open spec fn token_ok(src: Seq<u8>, t: Token) -> bool {
    &&& t.start < t.end <= src.len()
    &&& match t.kind {
        TokenKind::Ident => is_ident(token_text(src, t)),
        TokenKind::Number(v) => number_value(token_text(src, t)) == Some(v as nat),
        TokenKind::Punct(c) => t.end == t.start + 1 && src[t.start as int] == c && is_punct(c),
        TokenKind::PathSep => t.end == t.start + 2 && src[t.start as int] == 58 && src[t.start + 1] == 58,
    }
}

/// Tokens of `src`, each well formed, in order and not overlapping.
pub open spec fn tokens_ok(src: Seq<u8>, ts: Seq<Token>) -> bool {
    &&& forall|i: int| 0 <= i < ts.len() ==> token_ok(src, #[trigger] ts[i])
    &&& forall|i: int, j: int| 0 <= i < j < ts.len() ==> (#[trigger] ts[i]).end <= (#[trigger] ts[j]).start
}

/// A byte that separates tokens.
pub open spec fn is_space(c: u8) -> bool {
    c == 32 || c == 9 || c == 10 || c == 13
}

/// A digit in `base` (10 or 16).
pub open spec fn is_base_digit(c: u8, base: nat) -> bool {
    if base == 16 {
        hex_digit(c) is Some
    } else {
        is_digit(c)
    }
}

/// The end of the line that holds `i`: the next line feed at or after `i`, or
/// the end of the text.
pub open spec fn line_end(src: Seq<u8>, i: int) -> int
    decreases src.len() - i,
{
    if i < 0 || i >= src.len() || src[i] == 10 {
        i
    } else {
        line_end(src, i + 1)
    }
}

/// The end of the identifier characters from `i`.
pub open spec fn ident_end(src: Seq<u8>, i: int) -> int
    decreases src.len() - i,
{
    if 0 <= i < src.len() && is_ident_continue(src[i]) {
        ident_end(src, i + 1)
    } else {
        i
    }
}

/// The end of the digits in `base` from `i`.
pub open spec fn digits_end(src: Seq<u8>, i: int, base: nat) -> int
    decreases src.len() - i,
{
    if 0 <= i < src.len() && is_base_digit(src[i], base) {
        digits_end(src, i + 1, base)
    } else {
        i
    }
}

/// An end of a run is at or after its start, and within the text.
pub proof fn lemma_ends_after(src: Seq<u8>, i: int, base: nat)
    ensures
        line_end(src, i) >= i,
        ident_end(src, i) >= i,
        digits_end(src, i, base) >= i,
        0 <= i <= src.len() ==> line_end(src, i) <= src.len() && ident_end(src, i) <= src.len() && digits_end(src, i, base)
            <= src.len(),
    decreases src.len() - i,
{
    if 0 <= i < src.len() {
        lemma_ends_after(src, i + 1, base);
    }
}

/// Whether a hexadecimal number starts at `i`: `0x` or `0X` and a digit.
pub open spec fn hex_prefix_at(src: Seq<u8>, i: int) -> bool {
    &&& src[i] == 48
    &&& i + 2 < src.len()
    &&& (src[i + 1] == 120 || src[i + 1] == 88)
    &&& hex_digit(src[i + 2]) is Some
}

/// `t` before the tokens of `r`, or the error of `r`.
pub open spec fn prepend_token(t: Token, r: Result<Seq<Token>, nat>) -> Result<Seq<Token>, nat> {
    match r {
        Ok(ts) => Ok(seq![t] + ts),
        Err(p) => Err(p),
    }
}

/// `e`, which ends a run that starts after `i` within a text of `len` bytes.
pub open spec fn past(e: int, i: int, len: int) -> int {
    if i < e <= len {
        e
    } else {
        i + 1
    }
}

/// The tokens of `src` from `i` on, or the position of a byte that starts no
/// token: whitespace and comments are skipped; an identifier, a number and
/// `::` take as many bytes as they can; a number must fit in 64 bits.
#[verifier::opaque]
pub open spec fn lex_from(src: Seq<u8>, i: int) -> Result<Seq<Token>, nat>
    decreases src.len() - i,
{
    if i < 0 || i >= src.len() {
        Ok(Seq::empty())
    } else {
        let c = src[i];
        if is_space(c) {
            lex_from(src, i + 1)
        } else if c == 35 || (c == 47 && i + 1 < src.len() && src[i + 1] == 47) {
            lex_from(src, past(line_end(src, i + 1), i, src.len() as int))
        } else if is_ident_start(c) {
            let e = past(ident_end(src, i + 1), i, src.len() as int);
            prepend_token(Token { kind: TokenKind::Ident, start: i as usize, end: e as usize }, lex_from(src, e))
        } else if is_digit(c) {
            let hex = hex_prefix_at(src, i);
            let ds = if hex { i + 2 } else { i };
            let base: nat = if hex { 16 } else { 10 };
            let e = past(digits_end(src, ds, base), i, src.len() as int);
            match digits_value(src.subrange(ds, e), base) {
                Some(v) => if v <= u64::MAX {
                    prepend_token(
                        Token { kind: TokenKind::Number(v as u64), start: i as usize, end: e as usize },
                        lex_from(src, e),
                    )
                } else {
                    Err(i as nat)
                },
                None => Err(i as nat),
            }
        } else if c == 58 && i + 1 < src.len() && src[i + 1] == 58 {
            prepend_token(Token { kind: TokenKind::PathSep, start: i as usize, end: (i + 2) as usize }, lex_from(src, i + 2))
        } else if is_punct(c) {
            prepend_token(Token { kind: TokenKind::Punct(c), start: i as usize, end: (i + 1) as usize }, lex_from(src, i + 1))
        } else {
            Err(i as nat)
        }
    }
}

/// The tokens already read, before those of `r`.
pub open spec fn prepend_all(ts: Seq<Token>, r: Result<Seq<Token>, nat>) -> Result<Seq<Token>, nat> {
    match r {
        Ok(rest) => Ok(ts + rest),
        Err(p) => Err(p),
    }
}

/// Read digits in `base` from `src[i..]`; the value and the end of the digits,
/// or `None` on a value above `u64::MAX`.
fn read_digits(src: &[u8], i: usize, base: u64) -> (r: Option<(u64, usize)>)
    requires
        i < src@.len(),
        base == 10 || base == 16,
        base == 10 ==> is_digit(src@[i as int]),
        base == 16 ==> hex_digit(src@[i as int]) is Some,
    ensures
        ({
            let e = digits_end(src@, i as int, base as nat);
            match digits_value(src@.subrange(i as int, e), base as nat) {
                Some(v) => if v <= u64::MAX {
                    r == Some((v as u64, e as usize))
                } else {
                    r is None
                },
                None => r is None,
            }
        }),
        r matches Some((v, e)) ==> i < e <= src@.len() && digits_value(src@.subrange(i as int, e as int), base as nat)
            == Some(v as nat),
{
    let ghost end = digits_end(src@, i as int, base as nat);
    proof {
        lemma_ends_after(src@, i + 1, base as nat);
        assert(end == digits_end(src@, i + 1, base as nat));
    }
    let mut v: u64 = 0;
    let mut e: usize = i;
    while e < src.len()
        invariant
            i <= e <= src@.len(),
            base == 10 || base == 16,
            e > i ==> digits_value(src@.subrange(i as int, e as int), base as nat) == Some(v as nat),
            e == i ==> v == 0,
            base == 10 ==> is_digit(src@[i as int]),
            base == 16 ==> hex_digit(src@[i as int]) is Some,
            end == digits_end(src@, e as int, base as nat),
            end == digits_end(src@, i as int, base as nat),
            i < end <= src@.len(),
            e <= end,
        ensures
            i <= e <= src@.len(),
            e > i ==> digits_value(src@.subrange(i as int, e as int), base as nat) == Some(v as nat),
            e == end,
            i < end <= src@.len(),
        decreases src@.len() - e,
    {
        let c = src[e];
        let digit: Option<u64> = if base == 16 {
            if 48 <= c && c <= 57 {
                Some((c - 48) as u64)
            } else if 97 <= c && c <= 102 {
                Some((c - 87) as u64)
            } else if 65 <= c && c <= 70 {
                Some((c - 55) as u64)
            } else {
                None
            }
        } else if 48 <= c && c <= 57 {
            Some((c - 48) as u64)
        } else {
            None
        };
        let d: u64 = match digit {
            Some(d) => d,
            None => {
                assert(end == e);
                break;
            },
        };
        proof {
            let s = src@.subrange(i as int, e + 1);
            assert(s.drop_last() =~= src@.subrange(i as int, e as int));
            assert(s.last() == c);
            assert(end == digits_end(src@, e + 1, base as nat));
            lemma_ends_after(src@, e + 1, base as nat);
            assert(digits_value(s, base as nat) == Some((v * base + d) as nat));
        }
        let nv = match v.checked_mul(base) {
            Some(x) => match x.checked_add(d) {
                Some(y) => y,
                None => {
                    proof {
                        lemma_overflow_whole(src@, i as int, e as int, end, base as nat, (v * base + d) as nat);
                    }
                    return None;
                },
            },
            None => {
                proof {
                    lemma_overflow_whole(src@, i as int, e as int, end, base as nat, (v * base + d) as nat);
                }
                return None;
            },
        };
        v = nv;
        e = e + 1;
    }
    if e == i {
        return None;
    }
    Some((v, e))
}

/// When the digits up to `e` already exceed 64 bits, so do all of them.
proof fn lemma_overflow_whole(src: Seq<u8>, i: int, e: int, end: int, base: nat, prefix: nat)
    requires
        0 <= i <= e < end <= src.len(),
        base == 10 || base == 16,
        digits_value(src.subrange(i, e + 1), base) == Some(prefix),
        prefix > u64::MAX,
    ensures
        digits_value(src.subrange(i, end), base) matches Some(w) ==> w > u64::MAX,
{
    let whole = src.subrange(i, end);
    lemma_value_grows(whole, e + 1 - i, base);
    assert(whole.take(e + 1 - i) =~= src.subrange(i, e + 1));
}

/// Adding a token to those already read, before the rest of the tokens.
proof fn lemma_prepend_step(ts: Seq<Token>, t: Token, r: Result<Seq<Token>, nat>)
    ensures
        prepend_all(ts, prepend_token(t, r)) == prepend_all(ts.push(t), r),
{
    if let Ok(rest) = r {
        assert(ts + (seq![t] + rest) =~= ts.push(t) + rest);
    }
}

/// The bytes of an identifier run are identifier characters.
proof fn lemma_ident_run(src: Seq<u8>, i: int, k: int)
    requires
        0 <= i <= k < ident_end(src, i),
    ensures
        is_ident_continue(src[k]),
    decreases src.len() - i,
{
    if i < k {
        lemma_ident_run(src, i + 1, k);
    }
}

/// What the tokens from `i` are, by the byte at `i`.
proof fn lemma_lex_step(src: Seq<u8>, i: int)
    requires
        0 <= i < src.len(),
    ensures
        is_space(src[i]) ==> lex_from(src, i) == lex_from(src, i + 1),
        !is_space(src[i]) && (src[i] == 35 || (src[i] == 47 && i + 1 < src.len() && src[i + 1] == 47))
            ==> lex_from(src, i) == lex_from(src, line_end(src, i + 1)),
        !is_space(src[i]) && src[i] != 35 && src[i] != 47 && is_ident_start(src[i]) ==> lex_from(src, i) == prepend_token(
            Token { kind: TokenKind::Ident, start: i as usize, end: ident_end(src, i + 1) as usize },
            lex_from(src, ident_end(src, i + 1)),
        ),
        is_digit(src[i]) ==> ({
            let hex = hex_prefix_at(src, i);
            let ds = if hex { i + 2 } else { i };
            let base: nat = if hex { 16 } else { 10 };
            let e = digits_end(src, ds, base);
            lex_from(src, i) == match digits_value(src.subrange(ds, e), base) {
                Some(v) => if v <= u64::MAX {
                    prepend_token(Token { kind: TokenKind::Number(v as u64), start: i as usize, end: e as usize }, lex_from(src, e))
                } else {
                    Err(i as nat)
                },
                None => Err(i as nat),
            }
        }),
        src[i] == 58 && i + 1 < src.len() && src[i + 1] == 58 ==> lex_from(src, i) == prepend_token(
            Token { kind: TokenKind::PathSep, start: i as usize, end: (i + 2) as usize },
            lex_from(src, i + 2),
        ),
        is_punct(src[i]) && !(src[i] == 58 && i + 1 < src.len() && src[i + 1] == 58) ==> lex_from(src, i)
            == prepend_token(Token { kind: TokenKind::Punct(src[i]), start: i as usize, end: (i + 1) as usize }, lex_from(src, i + 1)),
        !is_space(src[i]) && !(src[i] == 35 || (src[i] == 47 && i + 1 < src.len() && src[i + 1] == 47)) && !is_ident_start(
            src[i],
        ) && !is_digit(src[i]) && !(src[i] == 58 && i + 1 < src.len() && src[i + 1] == 58) && !is_punct(src[i])
            ==> lex_from(src, i) == Err::<Seq<Token>, nat>(i as nat),
{
    reveal(lex_from);
    lemma_ends_after(src, i + 1, 10);
    lemma_ends_after(src, i + 1, 16);
    lemma_ends_after(src, i + 2, 16);
    lemma_ends_after(src, i + 3, 16);
    if is_digit(src[i]) {
        let hex = hex_prefix_at(src, i);
        let ds = if hex { i + 2 } else { i };
        let base: nat = if hex { 16 } else { 10 };
        lemma_ends_after(src, ds + 1, base);
        assert(digits_end(src, ds, base) == digits_end(src, ds + 1, base));
    }
}

/// The end of the line that holds `i`.
fn line_end_of(src: &[u8], i: usize) -> (e: usize)
    requires
        i <= src@.len(),
    ensures
        e == line_end(src@, i as int),
{
    let mut e = i;
    while e < src.len() && src[e] != 10
        invariant
            i <= e <= src@.len(),
            line_end(src@, i as int) == line_end(src@, e as int),
        decreases src@.len() - e,
    {
        e = e + 1;
    }
    e
}

/// The end of the identifier characters from `i`.
fn ident_end_of(src: &[u8], i: usize) -> (e: usize)
    requires
        i <= src@.len(),
    ensures
        e == ident_end(src@, i as int),
{
    let mut e = i;
    while e < src.len() && ((65 <= src[e] && src[e] <= 90) || (97 <= src[e] && src[e] <= 122) || src[e] == 95 || (48
        <= src[e] && src[e] <= 57))
        invariant
            i <= e <= src@.len(),
            ident_end(src@, i as int) == ident_end(src@, e as int),
        decreases src@.len() - e,
    {
        e = e + 1;
    }
    e
}

/// Split `src` into tokens, or give the position of a byte that starts no token.
pub fn lex(src: &[u8]) -> (r: Result<Vec<Token>, usize>)
    ensures
        match lex_from(src@, 0) {
            Ok(ts) => (r matches Ok(v) && v@ == ts),
            Err(p) => r == Err::<Vec<Token>, usize>(p as usize),
        },
        r matches Ok(ts) ==> tokens_ok(src@, ts@),
        r matches Err(p) ==> p < src@.len(),
{
    let mut ts: Vec<Token> = Vec::new();
    let mut i: usize = 0;
    proof {
        if let Ok(rest) = lex_from(src@, 0) {
            assert(Seq::<Token>::empty() + rest =~= rest);
        }
    }
    while i < src.len()
        invariant
            i <= src@.len(),
            tokens_ok(src@, ts@),
            forall|k: int| 0 <= k < ts@.len() ==> (#[trigger] ts@[k]).end <= i,
            lex_from(src@, 0) == prepend_all(ts@, lex_from(src@, i as int)),
        decreases src@.len() - i,
    {
        proof {
            lemma_lex_step(src@, i as int);
            lemma_ends_after(src@, i + 1, 10);
        }
        let c = src[i];
        if c == 32 || c == 9 || c == 10 || c == 13 {
            i = i + 1;
        } else if c == 35 || (c == 47 && i + 1 < src.len() && src[i + 1] == 47) {
            i = line_end_of(src, i + 1);
        } else if (65 <= c && c <= 90) || (97 <= c && c <= 122) || c == 95 {
            let start = i;
            let e = ident_end_of(src, i + 1);
            proof {
                let s = src@.subrange(start as int, e as int);
                assert forall|j: int| 1 <= j < s.len() implies is_ident_continue(#[trigger] s[j]) by {
                    lemma_ident_run(src@, start + 1, start + j);
                }
            }
            let t = Token { kind: TokenKind::Ident, start, end: e };
            proof {
                lemma_prepend_step(ts@, t, lex_from(src@, e as int));
            }
            ts.push(t);
            i = e;
        } else if 48 <= c && c <= 57 {
            let hex = c == 48 && src.len() - i > 2 && (src[i + 1] == 120 || src[i + 1] == 88) && (
            (48 <= src[i + 2] && src[i + 2] <= 57) || (97 <= src[i + 2] && src[i + 2] <= 102) || (65
                <= src[i + 2] && src[i + 2] <= 70));
            assert(hex == hex_prefix_at(src@, i as int));
            let start = i;
            let read = if hex {
                read_digits(src, i + 2, 16)
            } else {
                read_digits(src, i, 10)
            };
            match read {
                Some((v, e)) => {
                    proof {
                        let s = src@.subrange(start as int, e as int);
                        if hex {
                            assert(s.skip(2) =~= src@.subrange(start + 2, e as int));
                        } else {
                            assert(s =~= src@.subrange(i as int, e as int));
                            if s.len() >= 2 && s[0] == 48 && (s[1] == 120 || s[1] == 88) {
                                assert(digits_value(s, 10) is None) by {
                                    lemma_non_digit_inside(s, 1);
                                }
                            }
                        }
                    }
                    let t = Token { kind: TokenKind::Number(v), start, end: e };
                    proof {
                        let ds: int = if hex { i + 2 } else { i as int };
                        let base: nat = if hex { 16 } else { 10 };
                        lemma_ends_after(src@, ds, base);
                        assert(e as int == digits_end(src@, ds, base));
                        assert(digits_value(src@.subrange(ds, e as int), base) == Some(v as nat));
                        assert(lex_from(src@, i as int) == prepend_token(t, lex_from(src@, e as int)));
                        lemma_prepend_step(ts@, t, lex_from(src@, e as int));
                    }
                    ts.push(t);
                    i = e;
                },
                None => {
                    return Err(i);
                },
            }
        } else if c == 58 && i + 1 < src.len() && src[i + 1] == 58 {
            let t = Token { kind: TokenKind::PathSep, start: i, end: i + 2 };
            proof {
                lemma_prepend_step(ts@, t, lex_from(src@, i + 2));
            }
            ts.push(t);
            i = i + 2;
        } else if c == 123 || c == 125 || c == 40 || c == 41 || c == 91 || c == 93 || c == 60 || c
            == 62 || c == 59 || c == 44 || c == 61 || c == 58 || c == 45 {
            let t = Token { kind: TokenKind::Punct(c), start: i, end: i + 1 };
            proof {
                lemma_prepend_step(ts@, t, lex_from(src@, i + 1));
            }
            ts.push(t);
            i = i + 1;
        } else {
            return Err(i);
        }
    }
    proof {
        reveal(lex_from);
        assert(ts@ + Seq::<Token>::empty() =~= ts@);
    }
    Ok(ts)
}

/// A decimal string with a non-digit at index `k` has no decimal value.
proof fn lemma_non_digit_inside(s: Seq<u8>, k: int)
    requires
        0 <= k < s.len(),
        !is_digit(s[k]),
    ensures
        digits_value(s, 10) is None,
    decreases s.len(),
{
    if k < s.len() - 1 {
        lemma_non_digit_inside(s.drop_last(), k);
    }
}

} // verus!
