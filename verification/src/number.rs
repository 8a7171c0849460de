//! The grammar of an operand: a decimal number, with or without a fraction
//! and an exponent, or one of the words for infinity and not-a-number.
//!
//! ```text
//! Operand ::= Sign? ( 'inf' | 'infinity' | 'nan' | Number )
//! Number  ::= ( Digit+ | Digit+ '.' Digit* | Digit* '.' Digit+ ) Exp?
//! Exp     ::= 'e' Sign? Digit+
//! Sign    ::= [+-]
//! Digit   ::= [0-9]
//! ```
//!
//! Letters are read without regard to case.

use vstd::prelude::*;
use crate::text::{eq_ignoring_case, is_space, is_word, lower, same_ignoring_case};

verus! {

/// A decimal digit.
pub open spec fn is_digit(c: char) -> bool {
    '0' <= c && c <= '9'
}

/// A sign.
pub open spec fn is_sign(c: char) -> bool {
    c == '+' || c == '-'
}

/// The number of digits that `s` begins with.
pub open spec fn digit_run(s: Seq<char>) -> nat
    decreases s.len(),
{
    if s.len() == 0 || !is_digit(s[0]) {
        0
    } else {
        1 + digit_run(s.skip(1))
    }
}

/// Whether `s` holds digits only.
pub open spec fn all_digits(s: Seq<char>) -> bool {
    forall|i: int| 0 <= i < s.len() ==> is_digit(#[trigger] s[i])
}

/// `s` without its sign, where it begins with one.
pub open spec fn unsigned(s: Seq<char>) -> Seq<char> {
    if s.len() > 0 && is_sign(s[0]) {
        s.skip(1)
    } else {
        s
    }
}

/// `Exp`: the letter `e`, a sign or none, and one digit or more.
pub open spec fn is_exponent(s: Seq<char>) -> bool {
    &&& s.len() > 0
    &&& (s[0] == 'e' || s[0] == 'E')
    &&& unsigned(s.skip(1)).len() > 0
    &&& all_digits(unsigned(s.skip(1)))
}

/// `Number`: digits, a point or none with digits behind it, at least one
/// digit on either side taken together, and an exponent or none.
pub open spec fn is_number(s: Seq<char>) -> bool {
    let whole = digit_run(s);
    let after = s.skip(whole as int);
    let pointed = after.len() > 0 && after[0] == '.';
    let fraction: nat = if pointed { digit_run(after.skip(1)) } else { 0 };
    let tail = if pointed { after.skip(1 + fraction as int) } else { after };
    &&& whole + fraction > 0
    &&& (tail.len() == 0 || is_exponent(tail))
}

/// One of the words `inf`, `infinity` and `nan`, in any case.
pub open spec fn is_special(s: Seq<char>) -> bool {
    ||| same_ignoring_case(s, seq!['i', 'n', 'f'])
    ||| same_ignoring_case(s, seq!['i', 'n', 'f', 'i', 'n', 'i', 't', 'y'])
    ||| same_ignoring_case(s, seq!['n', 'a', 'n'])
}

/// `Operand`: whether a token can stand for a number.
pub open spec fn is_operand(token: Seq<char>) -> bool {
    is_special(unsigned(token)) || is_number(unsigned(token))
}

/// What a run of digits is: its characters are digits, and it ends the text
/// or stands before a character that is none.
pub proof fn lemma_digit_run(s: Seq<char>)
    ensures
        digit_run(s) <= s.len(),
        forall|i: int| 0 <= i < digit_run(s) ==> is_digit(#[trigger] s[i]),
        digit_run(s) < s.len() ==> !is_digit(s[digit_run(s) as int]),
        digit_run(s) == s.len() <==> all_digits(s),
    decreases s.len(),
{
    if s.len() > 0 && is_digit(s[0]) {
        let t = s.skip(1);
        lemma_digit_run(t);
        assert forall|i: int| 0 <= i < digit_run(s) implies is_digit(#[trigger] s[i]) by {
            if i > 0 {
                assert(s[i] == t[i - 1]);
            }
        }
    }
}

/// A run of `k` digits that ends the text or stands before another
/// character is the whole run.
pub proof fn lemma_digit_run_is(s: Seq<char>, k: int)
    requires
        0 <= k <= s.len(),
        forall|i: int| 0 <= i < k ==> is_digit(#[trigger] s[i]),
        k == s.len() || !is_digit(s[k]),
    ensures
        digit_run(s) == k,
    decreases k,
{
    if k > 0 {
        let t = s.skip(1);
        lemma_digit_run_is(t, k - 1);
    }
}

/// Counts the digits that stand at `from` and behind it.
fn count_digits(s: &str, from: usize) -> (k: usize)
    requires
        from <= s@.len(),
    ensures
        k == digit_run(s@.skip(from as int)),
        from + k <= s@.len(),
{
    let n: usize = s.unicode_len();
    let mut j: usize = from;
    while j < n && is_digit_char(s.get_char(j))
        invariant
            n == s@.len(),
            from <= j <= n,
            forall|i: int| from <= i < j ==> is_digit(#[trigger] s@[i]),
        decreases n - j,
    {
        j += 1;
    }
    proof {
        let rest = s@.skip(from as int);
        lemma_digit_run_is(rest, j - from);
    }
    j - from
}

/// Whether `c` is a decimal digit.
pub fn is_digit_char(c: char) -> (r: bool)
    ensures
        r == is_digit(c),
{
    '0' <= c && c <= '9'
}

/// Whether an exponent stands at `from` and fills the rest of `s`.
fn exponent_at(s: &str, from: usize) -> (r: bool)
    requires
        from < s@.len(),
    ensures
        r == is_exponent(s@.skip(from as int)),
{
    let n: usize = s.unicode_len();
    let ghost tail = s@.skip(from as int);
    let c: char = s.get_char(from);
    if c != 'e' && c != 'E' {
        return false;
    }
    let mut p: usize = from + 1;
    assert(tail.skip(1) =~= s@.skip(from + 1));
    if p < n {
        let d: char = s.get_char(p);
        if d == '+' || d == '-' {
            assert(tail.skip(1).skip(1) =~= s@.skip(from + 2));
            p = p + 1;
        }
    }
    let k: usize = count_digits(s, p);
    proof {
        lemma_digit_run(s@.skip(p as int));
    }
    p < n && p + k == n
}

/// Whether `s` is a `Number` of the grammar.
fn number_shaped(s: &str) -> (r: bool)
    ensures
        r == is_number(s@),
{
    let n: usize = s.unicode_len();
    assert(s@.skip(0) =~= s@);
    let whole: usize = count_digits(s, 0);
    let ghost after = s@.skip(whole as int);
    let mut fraction: usize = 0;
    let mut p: usize = whole;
    if p < n {
        let c: char = s.get_char(p);
        if c == '.' {
            assert(after.skip(1) =~= s@.skip(whole + 1));
            fraction = count_digits(s, whole + 1);
            p = whole + 1 + fraction;
            assert(after.skip(1 + fraction) =~= s@.skip(p as int));
        }
    }
    if whole + fraction == 0 {
        return false;
    }
    if p == n {
        return true;
    }
    exponent_at(s, p)
}

/// Whether `s` is one of the words for infinity and not-a-number.
fn special_word(s: &str) -> (r: bool)
    ensures
        r == is_special(s@),
{
    proof {
        reveal_strlit("inf");
        reveal_strlit("infinity");
        reveal_strlit("nan");
    }
    eq_ignoring_case(s, "inf") || eq_ignoring_case(s, "infinity") || eq_ignoring_case(s, "nan")
}

/// Whether a token can stand for a number: whether it follows the grammar
/// of an operand.
pub fn is_numeric(token: &str) -> (r: bool)
    ensures
        r == is_operand(token@),
{
    let n: usize = token.unicode_len();
    if n > 0 {
        let c: char = token.get_char(0);
        if c == '+' || c == '-' {
            let body = token.substring_char(1, n);
            return special_word(body) || number_shaped(body);
        }
    }
    special_word(token) || number_shaped(token)
}

/// A text that spells a word of lower-case letters, in any case, holds no
/// separator.
proof fn lemma_spelling_is_word(s: Seq<char>, word: Seq<char>)
    requires
        same_ignoring_case(s, word),
        word.len() > 0,
        forall|i: int| 0 <= i < word.len() ==> 'a' <= #[trigger] word[i] && word[i] <= 'z',
    ensures
        is_word(s),
{
}

/// An exponent holds no separator.
proof fn lemma_exponent_holds_no_space(s: Seq<char>)
    requires
        is_exponent(s),
    ensures
        forall|i: int| 0 <= i < s.len() ==> !is_space(#[trigger] s[i]),
{
    let x = s.skip(1);
    let d = unsigned(x);
    assert forall|i: int| 0 <= i < s.len() implies !is_space(#[trigger] s[i]) by {
        if i >= 1 {
            assert(s[i] == x[i - 1]);
            if x.len() > 0 && is_sign(x[0]) {
                if i >= 2 {
                    assert(x[i - 1] == d[i - 2]);
                }
            }
        }
    }
}

/// A number of the grammar is a word.
proof fn lemma_number_is_word(s: Seq<char>)
    requires
        is_number(s),
    ensures
        is_word(s),
{
    let whole = digit_run(s) as int;
    let after = s.skip(whole);
    lemma_digit_run(s);
    let pointed = after.len() > 0 && after[0] == '.';
    if pointed {
        let behind = after.skip(1);
        let fraction = digit_run(behind) as int;
        let tail = after.skip(1 + fraction);
        lemma_digit_run(behind);
        if tail.len() > 0 {
            lemma_exponent_holds_no_space(tail);
        }
        assert forall|i: int| 0 <= i < s.len() implies !is_space(#[trigger] s[i]) by {
            if whole < i < whole + 1 + fraction {
                assert(s[i] == behind[i - whole - 1]);
            } else if i > whole {
                assert(s[i] == tail[i - whole - 1 - fraction]);
            }
        }
    } else {
        if after.len() > 0 {
            lemma_exponent_holds_no_space(after);
        }
        assert forall|i: int| 0 <= i < s.len() implies !is_space(#[trigger] s[i]) by {
            if i >= whole {
                assert(s[i] == after[i - whole]);
            }
        }
    }
}

/// An operand is a word: it is not empty and holds no separator, so a line
/// can carry it as one token.
pub proof fn lemma_operand_is_word(token: Seq<char>)
    requires
        is_operand(token),
    ensures
        is_word(token),
{
    let body = unsigned(token);
    if is_number(body) {
        lemma_number_is_word(body);
    } else if same_ignoring_case(body, seq!['i', 'n', 'f']) {
        lemma_spelling_is_word(body, seq!['i', 'n', 'f']);
    } else if same_ignoring_case(body, seq!['n', 'a', 'n']) {
        lemma_spelling_is_word(body, seq!['n', 'a', 'n']);
    } else {
        lemma_spelling_is_word(body, seq!['i', 'n', 'f', 'i', 'n', 'i', 't', 'y']);
    }
    assert forall|i: int| 0 <= i < token.len() implies !is_space(#[trigger] token[i]) by {
        if token.len() > 0 && is_sign(token[0]) && i > 0 {
            assert(token[i] == body[i - 1]);
        }
    }
}

/// The text of a `Number` made of its parts: the digits before the point,
/// the point with the digits behind it where there is one, and the exponent.
pub open spec fn number_text(whole: Seq<char>, point: bool, fraction: Seq<char>, exponent: Seq<char>) -> Seq<
    char,
> {
    if point {
        whole + seq!['.'] + fraction + exponent
    } else {
        whole + exponent
    }
}

/// What the grammar asks of the parts of a `Number`: digits on both sides of
/// the point, one at least on either side, none behind a point that is not
/// there, and an exponent or nothing at the end.
pub open spec fn number_parts(whole: Seq<char>, point: bool, fraction: Seq<char>, exponent: Seq<char>) -> bool {
    &&& all_digits(whole)
    &&& all_digits(fraction)
    &&& whole.len() + fraction.len() > 0
    &&& (point || fraction.len() == 0)
    &&& (exponent.len() == 0 || is_exponent(exponent))
}

/// Parts that the grammar admits make a number.
pub proof fn lemma_number_composed(whole: Seq<char>, point: bool, fraction: Seq<char>, exponent: Seq<char>)
    requires
        number_parts(whole, point, fraction, exponent),
    ensures
        is_number(number_text(whole, point, fraction, exponent)),
{
    let s = number_text(whole, point, fraction, exponent);
    let w = whole.len() as int;
    if point {
        lemma_digit_run_is(s, w);
        let after = s.skip(w);
        let behind = after.skip(1);
        let f = fraction.len() as int;
        lemma_digit_run_is(behind, f);
        assert(after.skip(1 + f) =~= exponent);
    } else {
        lemma_digit_run_is(s, w);
        assert(s.skip(w) =~= exponent);
    }
}

/// A number is made of parts that the grammar admits.
pub proof fn lemma_number_decomposed(s: Seq<char>)
    requires
        is_number(s),
    ensures
        exists|whole: Seq<char>, point: bool, fraction: Seq<char>, exponent: Seq<char>|
            number_parts(whole, point, fraction, exponent) && s == #[trigger] number_text(
                whole,
                point,
                fraction,
                exponent,
            ),
{
    let w = digit_run(s) as int;
    lemma_digit_run(s);
    let whole = s.take(w);
    let after = s.skip(w);
    let point = after.len() > 0 && after[0] == '.';
    if point {
        let behind = after.skip(1);
        lemma_digit_run(behind);
        let f = digit_run(behind) as int;
        let fraction = behind.take(f);
        let exponent = behind.skip(f);
        assert(exponent =~= after.skip(1 + f));
        assert(s =~= number_text(whole, true, fraction, exponent));
    } else {
        let none = Seq::<char>::empty();
        assert(s =~= number_text(whole, false, none, after));
    }
}

} // verus!
