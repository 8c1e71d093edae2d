//! The tokeniser: source text to a token sequence.
//!
//! Its meaning is the specification function [`spec_tokenize`]: maximal-munch
//! lexing over the UTF-8 bytes of the source, skipping ASCII whitespace and
//! `#` line comments.  The executable [`tokenize`] is proved to return
//! exactly that token sequence, or the position of the first unrecognised
//! character (or oversized integer literal) that `spec_tokenize` rejects.

use vstd::prelude::*;

use crate::token::{token_views, Reserved, ReservedOp, Token, TokenV};

verus! {

use vstd::string::StringSliceAdditionalSpecFns;

/// ASCII whitespace: space, tab, line feed, form feed, carriage return.
pub open spec fn is_space(b: u8) -> bool {
    b == 32 || b == 9 || b == 10 || b == 12 || b == 13
}

pub open spec fn is_digit(b: u8) -> bool {
    48 <= b <= 57
}

pub open spec fn is_alpha(b: u8) -> bool {
    (65 <= b <= 90) || (97 <= b <= 122)
}

/// A character that may continue an identifier.
pub open spec fn is_ident_cont(b: u8) -> bool {
    is_alpha(b) || is_digit(b) || b == 95
}

/// A symbolic operator character: one of `! $ % & * + - / < = > ? @ ^ |`.
pub open spec fn is_opchar(b: u8) -> bool {
    b == 33 || b == 36 || b == 37 || b == 38 || b == 42 || b == 43 || b == 45 || b == 47 || (60
        <= b <= 64) || b == 94 || b == 124
}

/// The end of the digit run starting at `i`.
pub open spec fn digits_end(s: Seq<u8>, i: int) -> int
    decreases s.len() - i when 0 <= i <= s.len()
{
    if i >= s.len() {
        i
    } else if is_digit(s[i]) {
        digits_end(s, i + 1)
    } else {
        i
    }
}

/// The end of the identifier-continuation run starting at `i`.
pub open spec fn ident_end(s: Seq<u8>, i: int) -> int
    decreases s.len() - i when 0 <= i <= s.len()
{
    if i >= s.len() {
        i
    } else if is_ident_cont(s[i]) {
        ident_end(s, i + 1)
    } else {
        i
    }
}

/// The end of the operator-character run starting at `i`.
pub open spec fn op_end(s: Seq<u8>, i: int) -> int
    decreases s.len() - i when 0 <= i <= s.len()
{
    if i >= s.len() {
        i
    } else if is_opchar(s[i]) {
        op_end(s, i + 1)
    } else {
        i
    }
}

/// The first position at or after `i` holding a line feed, or the end.
pub open spec fn comment_end(s: Seq<u8>, i: int) -> int
    decreases s.len() - i when 0 <= i <= s.len()
{
    if i >= s.len() {
        i
    } else if s[i] == 10 {
        i
    } else {
        comment_end(s, i + 1)
    }
}

/// The value of the decimal digit run `s[i..j)`.
pub open spec fn digits_val(s: Seq<u8>, i: int, j: int) -> int
    decreases j - i,
{
    if j <= i {
        0
    } else {
        digits_val(s, i, j - 1) * 10 + (s[j - 1] - 48)
    }
}

/// The reserved word a letter run spells, if any.
pub open spec fn keyword_of(w: Seq<u8>) -> Option<Reserved> {
    if w == seq!['i' as u8, 'f' as u8] {
        Some(Reserved::If)
    } else if w == seq!['e' as u8, 'l' as u8, 's' as u8, 'e' as u8] {
        Some(Reserved::Else)
    } else if w == seq!['w' as u8, 'h' as u8, 'i' as u8, 'l' as u8, 'e' as u8] {
        Some(Reserved::While)
    } else if w == seq!['v' as u8, 'a' as u8, 'r' as u8] {
        Some(Reserved::Var)
    } else if w == seq!['f' as u8, 'u' as u8, 'n' as u8, 'c' as u8] {
        Some(Reserved::Func)
    } else if w == seq!['i' as u8, 'n' as u8] {
        Some(Reserved::In)
    } else {
        None
    }
}

/// ASCII bytes as characters.
pub open spec fn bytes_chars(w: Seq<u8>) -> Seq<char> {
    w.map_values(|b: u8| b as char)
}

/// The token an identifier or keyword run denotes.
pub open spec fn word_token(w: Seq<u8>) -> TokenV {
    match keyword_of(w) {
        Some(r) => TokenV::Reserved(r),
        None => TokenV::Ident(bytes_chars(w)),
    }
}

/// The token an operator run denotes: a lone `=` is the reserved assignment
/// operator; any other run is an ordinary operator.
pub open spec fn op_token(w: Seq<u8>) -> TokenV {
    if w == seq!['=' as u8] {
        TokenV::ReservedOp(ReservedOp::Assign)
    } else {
        TokenV::Operator(bytes_chars(w))
    }
}

/// Tokenise `s` from position `i` on: skip whitespace and `#` comments,
/// take each maximal run as one token, and stop with the position of the
/// first unrecognised byte or out-of-range integer literal.
pub open spec fn spec_tokenize(s: Seq<u8>, i: int) -> Result<Seq<TokenV>, int>
    decreases s.len() - i when 0 <= i <= s.len() via spec_tokenize_decreases
{
    if i >= s.len() {
        Ok(Seq::empty())
    } else {
        let b = s[i];
        if is_space(b) {
            spec_tokenize(s, i + 1)
        } else if b == 35 {
            let j = comment_end(s, i + 1);
            spec_tokenize(s, if j < s.len() { j + 1 } else { j })
        } else if is_digit(b) {
            let j = digits_end(s, i + 1);
            if digits_val(s, i, j) > i32::MAX {
                Err(i)
            } else {
                cons_token(TokenV::IntLiteral(digits_val(s, i, j) as i32), spec_tokenize(s, j))
            }
        } else if is_alpha(b) {
            let j = ident_end(s, i + 1);
            cons_token(word_token(s.subrange(i, j)), spec_tokenize(s, j))
        } else if is_opchar(b) {
            let j = op_end(s, i + 1);
            cons_token(op_token(s.subrange(i, j)), spec_tokenize(s, j))
        } else if b == 46 {
            cons_token(TokenV::Dot, spec_tokenize(s, i + 1))
        } else if b == 44 {
            cons_token(TokenV::Comma, spec_tokenize(s, i + 1))
        } else if b == 40 {
            cons_token(TokenV::OpenParen, spec_tokenize(s, i + 1))
        } else if b == 41 {
            cons_token(TokenV::CloseParen, spec_tokenize(s, i + 1))
        } else if b == 123 {
            cons_token(TokenV::OpenBrace, spec_tokenize(s, i + 1))
        } else if b == 125 {
            cons_token(TokenV::CloseBrace, spec_tokenize(s, i + 1))
        } else if b == 59 {
            cons_token(TokenV::SemiColon, spec_tokenize(s, i + 1))
        } else {
            Err(i)
        }
    }
}

/// Prepend one token to the rest of a tokenisation.
pub open spec fn cons_token(t: TokenV, rest: Result<Seq<TokenV>, int>) -> Result<Seq<TokenV>, int> {
    match rest {
        Ok(ts) => Ok(seq![t] + ts),
        Err(p) => Err(p),
    }
}

/// Bounds and characterisation of [`digits_end`].
pub proof fn lemma_digits_end(s: Seq<u8>, i: int)
    requires
        0 <= i <= s.len(),
    ensures
        i <= digits_end(s, i) <= s.len(),
        forall|k: int| i <= k < digits_end(s, i) ==> is_digit(s[k]),
        digits_end(s, i) < s.len() ==> !is_digit(s[digits_end(s, i)]),
    decreases s.len() - i,
{
    if i < s.len() && is_digit(s[i]) {
        lemma_digits_end(s, i + 1);
    }
}

/// Bounds and characterisation of [`ident_end`].
pub proof fn lemma_ident_end(s: Seq<u8>, i: int)
    requires
        0 <= i <= s.len(),
    ensures
        i <= ident_end(s, i) <= s.len(),
        forall|k: int| i <= k < ident_end(s, i) ==> is_ident_cont(s[k]),
        ident_end(s, i) < s.len() ==> !is_ident_cont(s[ident_end(s, i)]),
    decreases s.len() - i,
{
    if i < s.len() && is_ident_cont(s[i]) {
        lemma_ident_end(s, i + 1);
    }
}

/// Bounds and characterisation of [`op_end`].
pub proof fn lemma_op_end(s: Seq<u8>, i: int)
    requires
        0 <= i <= s.len(),
    ensures
        i <= op_end(s, i) <= s.len(),
        forall|k: int| i <= k < op_end(s, i) ==> is_opchar(s[k]),
        op_end(s, i) < s.len() ==> !is_opchar(s[op_end(s, i)]),
    decreases s.len() - i,
{
    if i < s.len() && is_opchar(s[i]) {
        lemma_op_end(s, i + 1);
    }
}

/// Bounds and characterisation of [`comment_end`].
pub proof fn lemma_comment_end(s: Seq<u8>, i: int)
    requires
        0 <= i <= s.len(),
    ensures
        i <= comment_end(s, i) <= s.len(),
        forall|k: int| i <= k < comment_end(s, i) ==> s[k] != 10,
        comment_end(s, i) < s.len() ==> s[comment_end(s, i)] == 10,
    decreases s.len() - i,
{
    if i < s.len() && s[i] != 10 {
        lemma_comment_end(s, i + 1);
    }
}

#[via_fn]
proof fn spec_tokenize_decreases(s: Seq<u8>, i: int) {
    if 0 <= i && i < s.len() {
        lemma_comment_end(s, i + 1);
        lemma_digits_end(s, i + 1);
        lemma_ident_end(s, i + 1);
        lemma_op_end(s, i + 1);
    }
}

/// A digit run's value never shrinks as the run grows.
pub proof fn lemma_digits_val_monotone(s: Seq<u8>, i: int, j: int, j2: int)
    requires
        i <= j <= j2,
        forall|k: int| i <= k < j2 ==> is_digit(s[k]) && 0 <= k < s.len(),
    ensures
        digits_val(s, i, j) <= digits_val(s, i, j2),
        digits_val(s, i, j) >= 0,
    decreases j2 - i,
{
    if j <= i {
        if i < j2 {
            lemma_digits_val_nonneg(s, i, j2);
        }
    } else if j < j2 {
        lemma_digits_val_monotone(s, i, j, j2 - 1);
        lemma_digits_val_nonneg(s, i, j2 - 1);
    } else {
        lemma_digits_val_nonneg(s, i, j);
    }
}

/// A digit run's value is non-negative.
pub proof fn lemma_digits_val_nonneg(s: Seq<u8>, i: int, j: int)
    requires
        forall|k: int| i <= k < j ==> is_digit(s[k]),
    ensures
        digits_val(s, i, j) >= 0,
    decreases j - i,
{
    if j > i {
        lemma_digits_val_nonneg(s, i, j - 1);
    }
}

/// Relies on core::str::from_utf8: a run of ASCII bytes decodes to exactly
/// one character per byte, each the same code point as the byte.
#[verifier::external_body]
fn ascii_to_string(bytes: &Vec<u8>) -> (r: String)
    requires
        forall|k: int| 0 <= k < bytes@.len() ==> bytes@[k] < 128,
    ensures
        r@ == bytes_chars(bytes@),
{
    match std::str::from_utf8(bytes.as_slice()) {
        Ok(s) => s.to_string(),
        Err(_) => String::new(),
    }
}

/// Copy `s[from..to)` out of a byte slice.
fn take_range(s: &[u8], from: usize, to: usize) -> (r: Vec<u8>)
    requires
        from <= to <= s@.len(),
    ensures
        r@ == s@.subrange(from as int, to as int),
{
    let mut r: Vec<u8> = Vec::new();
    let mut k: usize = from;
    while k < to
        invariant
            from <= k <= to <= s@.len(),
            r@ == s@.subrange(from as int, k as int),
        decreases to - k,
    {
        let b = s[k];
        r.push(b);
        proof {
            assert(r@ =~= s@.subrange(from as int, k + 1));
        }
        k = k + 1;
    }
    r
}

/// A lexical error: the byte position of the first unrecognised character
/// or oversized integer literal.
#[derive(Debug, Clone, Copy, PartialEq, Eq, Structural)]
pub struct LexError {
    pub pos: usize,
}

/// Classify a letter run as a reserved word or an identifier.
fn classify_word(w: &Vec<u8>) -> (r: Option<Reserved>)
    ensures
        r == keyword_of(w@),
{
    let r = if w.len() == 2 && w[0] == 'i' as u8 && w[1] == 'f' as u8 {
        proof {
            assert(w@ =~= seq!['i' as u8, 'f' as u8]);
        }
        Some(Reserved::If)
    } else if w.len() == 4 && w[0] == 'e' as u8 && w[1] == 'l' as u8 && w[2] == 's' as u8 && w[3]
        == 'e' as u8 {
        proof {
            assert(w@ =~= seq!['e' as u8, 'l' as u8, 's' as u8, 'e' as u8]);
        }
        Some(Reserved::Else)
    } else if w.len() == 5 && w[0] == 'w' as u8 && w[1] == 'h' as u8 && w[2] == 'i' as u8 && w[3]
        == 'l' as u8 && w[4] == 'e' as u8 {
        proof {
            assert(w@ =~= seq!['w' as u8, 'h' as u8, 'i' as u8, 'l' as u8, 'e' as u8]);
        }
        Some(Reserved::While)
    } else if w.len() == 3 && w[0] == 'v' as u8 && w[1] == 'a' as u8 && w[2] == 'r' as u8 {
        proof {
            assert(w@ =~= seq!['v' as u8, 'a' as u8, 'r' as u8]);
        }
        Some(Reserved::Var)
    } else if w.len() == 4 && w[0] == 'f' as u8 && w[1] == 'u' as u8 && w[2] == 'n' as u8 && w[3]
        == 'c' as u8 {
        proof {
            assert(w@ =~= seq!['f' as u8, 'u' as u8, 'n' as u8, 'c' as u8]);
        }
        Some(Reserved::Func)
    } else if w.len() == 2 && w[0] == 'i' as u8 && w[1] == 'n' as u8 {
        proof {
            assert(w@ =~= seq!['i' as u8, 'n' as u8]);
        }
        Some(Reserved::In)
    } else {
        None
    };
    r
}

/// Tokenise a whole source string: exactly the tokens of
/// [`spec_tokenize`], or the position it rejects.
pub fn tokenize(src: &str) -> (r: Result<Vec<Token>, LexError>)
    ensures
        match r {
            Ok(ts) => spec_tokenize(src.spec_bytes(), 0) == Ok::<Seq<TokenV>, int>(
                token_views(ts@),
            ),
            Err(e) => spec_tokenize(src.spec_bytes(), 0) == Err::<Seq<TokenV>, int>(e.pos as int),
        },
{
    let s = src.as_bytes();
    let ghost sv = src.spec_bytes();
    let n = s.len();
    let mut tokens: Vec<Token> = Vec::new();
    let mut i: usize = 0;
    proof {
        assert(token_views(tokens@) =~= Seq::<TokenV>::empty());
        match spec_tokenize(sv, 0) {
            Ok(ts) => {
                assert(token_views(tokens@) + ts =~= ts);
            },
            Err(_) => {},
        }
    }
    while i < n
        invariant
            i <= n,
            n == sv.len(),
            s@ == sv,
            sv == src.spec_bytes(),
            spec_tokenize(sv, 0) == cons_tokens(token_views(tokens@), spec_tokenize(sv, i as int)),
        decreases n - i,
    {
        let b = s[i];
        if is_space_b(b) {
            i = i + 1;
        } else if b == 35 {
            let mut j = i + 1;
            while j < n && s[j] != 10
                invariant
                    i + 1 <= j <= n,
                    n == sv.len(),
                    s@ == sv,
                    comment_end(sv, i + 1) == comment_end(sv, j as int),
                decreases n - j,
            {
                j = j + 1;
            }
            proof {
                lemma_comment_end(sv, j as int);
            }
            if j < n {
                i = j + 1;
            } else {
                i = j;
            }
        } else if is_digit_b(b) {
            let mut j = i + 1;
            let mut acc: u64 = (b - 48) as u64;
            let mut over = false;
            proof {
                assert(digits_val(sv, i as int, i as int) == 0);
                assert(digits_val(sv, i as int, i + 1) == b - 48);
            }
            while j < n && is_digit_b(s[j])
                invariant
                    i + 1 <= j <= n,
                    n == sv.len(),
                    s@ == sv,
                    forall|k: int| i <= k < j ==> is_digit(sv[k]),
                    digits_end(sv, i + 1) == digits_end(sv, j as int),
                    !over ==> acc == digits_val(sv, i as int, j as int) && acc <= i32::MAX as u64,
                    over ==> digits_val(sv, i as int, j as int) > i32::MAX,
                decreases n - j,
            {
                let d = s[j] - 48;
                if !over {
                    let next = acc * 10 + (d as u64);
                    if next > i32::MAX as u64 {
                        over = true;
                        proof {
                            lemma_digits_val_nonneg(sv, i as int, j as int);
                        }
                    } else {
                        acc = next;
                    }
                } else {
                    proof {
                        lemma_digits_val_nonneg(sv, i as int, j as int);
                    }
                }
                j = j + 1;
            }
            proof {
                lemma_digits_end(sv, j as int);
                assert(digits_end(sv, i + 1) == j);
            }
            if over {
                proof {
                    lemma_digits_val_monotone(
                        sv,
                        i as int,
                        j as int,
                        digits_end(sv, i + 1),
                    );
                }
                proof {
                    assert(spec_tokenize(sv, i as int) == Err::<Seq<TokenV>, int>(i as int));
                }
                return Err(LexError { pos: i });
            }
            let value: i32 = acc as i32;
            let ghost tokens0 = tokens@;
            tokens.push(Token::IntLiteral(value));
            proof {
                let tv = TokenV::IntLiteral(digits_val(sv, i as int, j as int) as i32);
                assert(tokens@.last()@ == tv);
                assert(token_views(tokens@) =~= token_views(tokens0).push(tv));
                assert(spec_tokenize(sv, i as int) == cons_token(tv, spec_tokenize(sv, j as int)));
                lemma_cons_step(token_views(tokens0), tv, spec_tokenize(sv, j as int));
            }
            i = j;
        } else if is_alpha_b(b) {
            let mut j = i + 1;
            while j < n && is_ident_cont_b(s[j])
                invariant
                    i + 1 <= j <= n,
                    n == sv.len(),
                    s@ == sv,
                    ident_end(sv, i + 1) == ident_end(sv, j as int),
                decreases n - j,
            {
                j = j + 1;
            }
            proof {
                lemma_ident_end(sv, j as int);
                assert(ident_end(sv, i + 1) == j);
            }
            let word = take_range(s, i, j);
            let tok = match classify_word(&word) {
                Some(r) => Token::Reserved(r),
                None => {
                    proof {
                        lemma_ident_end(sv, i + 1);
                        assert forall|k: int| 0 <= k < word@.len() implies word@[k] < 128 by {
                            if k == 0 {
                                assert(word@[k] == sv[i as int]);
                            } else {
                                assert(word@[k] == sv[i + k]);
                            }
                        }
                    }
                    Token::Ident(ascii_to_string(&word))
                },
            };
            let ghost tokens0 = tokens@;
            tokens.push(tok);
            proof {
                let tv = word_token(sv.subrange(i as int, j as int));
                assert(tokens@.last()@ == tv);
                assert(token_views(tokens@) =~= token_views(tokens0).push(tv));
                assert(spec_tokenize(sv, i as int) == cons_token(tv, spec_tokenize(sv, j as int)));
                lemma_cons_step(token_views(tokens0), tv, spec_tokenize(sv, j as int));
            }
            i = j;
        } else if is_opchar_b(b) {
            let mut j = i + 1;
            while j < n && is_opchar_b(s[j])
                invariant
                    i + 1 <= j <= n,
                    n == sv.len(),
                    s@ == sv,
                    op_end(sv, i + 1) == op_end(sv, j as int),
                decreases n - j,
            {
                j = j + 1;
            }
            proof {
                lemma_op_end(sv, j as int);
                assert(op_end(sv, i + 1) == j);
            }
            let word = take_range(s, i, j);
            let tok = if word.len() == 1 && word[0] == '=' as u8 {
                proof {
                    assert(word@ =~= seq!['=' as u8]);
                }
                Token::ReservedOp(ReservedOp::Assign)
            } else {
                proof {
                    lemma_op_end(sv, i + 1);
                    assert forall|k: int| 0 <= k < word@.len() implies word@[k] < 128 by {
                        if k == 0 {
                            assert(word@[k] == sv[i as int]);
                        } else {
                            assert(word@[k] == sv[i + k]);
                        }
                    }
                }
                Token::Operator(ascii_to_string(&word))
            };
            let ghost tokens0 = tokens@;
            tokens.push(tok);
            proof {
                let tv = op_token(sv.subrange(i as int, j as int));
                assert(tokens@.last()@ == tv);
                assert(token_views(tokens@) =~= token_views(tokens0).push(tv));
                assert(spec_tokenize(sv, i as int) == cons_token(tv, spec_tokenize(sv, j as int)));
                lemma_cons_step(token_views(tokens0), tv, spec_tokenize(sv, j as int));
            }
            i = j;
        } else if b == 46 || b == 44 || b == 40 || b == 41 || b == 123 || b == 125 || b == 59 {
            let tok = if b == 46 {
                Token::Dot
            } else if b == 44 {
                Token::Comma
            } else if b == 40 {
                Token::OpenParen
            } else if b == 41 {
                Token::CloseParen
            } else if b == 123 {
                Token::OpenBrace
            } else if b == 125 {
                Token::CloseBrace
            } else {
                Token::SemiColon
            };
            let ghost tokens0 = tokens@;
            tokens.push(tok);
            proof {
                let tv = tokens@.last()@;
                assert(token_views(tokens@) =~= token_views(tokens0).push(tv));
                assert(spec_tokenize(sv, i as int) == cons_token(tv, spec_tokenize(sv, i + 1)));
                lemma_cons_step(token_views(tokens0), tv, spec_tokenize(sv, i + 1));
            }
            i = i + 1;
        } else {
            proof {
                assert(spec_tokenize(sv, i as int) == Err::<Seq<TokenV>, int>(i as int));
            }
            return Err(LexError { pos: i });
        }
    }
    proof {
        assert(spec_tokenize(sv, i as int) == Ok::<Seq<TokenV>, int>(Seq::empty()));
        assert(token_views(tokens@) + Seq::<TokenV>::empty() =~= token_views(tokens@));
    }
    Ok(tokens)
}

/// Prepend an already-produced token sequence to the rest of a
/// tokenisation.
pub open spec fn cons_tokens(ts: Seq<TokenV>, rest: Result<Seq<TokenV>, int>) -> Result<
    Seq<TokenV>,
    int,
> {
    match rest {
        Ok(ts2) => Ok(ts + ts2),
        Err(p) => Err(p),
    }
}

/// Moving one token from the remaining tokenisation to the produced prefix.
proof fn lemma_cons_step(a: Seq<TokenV>, t: TokenV, r: Result<Seq<TokenV>, int>)
    ensures
        cons_tokens(a, cons_token(t, r)) == cons_tokens(a.push(t), r),
{
    match r {
        Ok(ts2) => {
            assert(a + (seq![t] + ts2) =~= a.push(t) + ts2);
        },
        Err(_) => {},
    }
}

fn is_space_b(b: u8) -> (r: bool)
    ensures
        r == is_space(b),
{
    b == 32 || b == 9 || b == 10 || b == 12 || b == 13
}

fn is_digit_b(b: u8) -> (r: bool)
    ensures
        r == is_digit(b),
{
    48 <= b && b <= 57
}

fn is_alpha_b(b: u8) -> (r: bool)
    ensures
        r == is_alpha(b),
{
    (65 <= b && b <= 90) || (97 <= b && b <= 122)
}

fn is_ident_cont_b(b: u8) -> (r: bool)
    ensures
        r == is_ident_cont(b),
{
    is_alpha_b(b) || is_digit_b(b) || b == 95
}

fn is_opchar_b(b: u8) -> (r: bool)
    ensures
        r == is_opchar(b),
{
    b == 33 || b == 36 || b == 37 || b == 38 || b == 42 || b == 43 || b == 45 || b == 47 || (60
        <= b && b <= 64) || b == 94 || b == 124
}

} // verus!
