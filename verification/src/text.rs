//! Whitespace and the splitting of a line into tokens.

use vstd::prelude::*;

verus! {

/// The characters that separate tokens: those with the Unicode property
/// `White_Space`.
pub open spec fn is_space(c: char) -> bool {
    let n = c as u32;
    ||| 0x09 <= n <= 0x0D
    ||| n == 0x20
    ||| n == 0x85
    ||| n == 0xA0
    ||| n == 0x1680
    ||| 0x2000 <= n <= 0x200A
    ||| n == 0x2028
    ||| n == 0x2029
    ||| n == 0x202F
    ||| n == 0x205F
    ||| n == 0x3000
}

/// The number of characters before the first separator of `s`, or its
/// length where it has none.
pub open spec fn word_len(s: Seq<char>) -> nat
    decreases s.len(),
{
    if s.len() == 0 || is_space(s[0]) {
        0
    } else {
        1 + word_len(s.skip(1))
    }
}

/// The tokens of `s`: its maximal runs of characters that are no
/// separators, from left to right.
pub open spec fn tokens(s: Seq<char>) -> Seq<Seq<char>>
    decreases s.len(),
    via tokens_terminates
{
    if s.len() == 0 {
        Seq::empty()
    } else if is_space(s[0]) {
        tokens(s.skip(1))
    } else {
        seq![s.take(word_len(s) as int)] + tokens(s.skip(word_len(s) as int))
    }
}

#[via_fn]
proof fn tokens_terminates(s: Seq<char>) {
    lemma_word_len(s);
}

/// The views of a vector of strings, one for one.
pub open spec fn texts(v: Seq<String>) -> Seq<Seq<char>> {
    Seq::new(v.len(), |i: int| v[i]@)
}

/// A run of `k` characters without a separator that ends the text or stands
/// before a separator is the first word.
pub proof fn lemma_word_len_is(s: Seq<char>, k: int)
    requires
        0 <= k <= s.len(),
        forall|i: int| 0 <= i < k ==> !is_space(#[trigger] s[i]),
        k == s.len() || is_space(s[k]),
    ensures
        word_len(s) == k,
    decreases k,
{
    if k > 0 {
        let t = s.skip(1);
        lemma_word_len_is(t, k - 1);
    }
}

/// Whether `c` separates tokens.
pub fn is_whitespace(c: char) -> (r: bool)
    ensures
        r == is_space(c),
{
    let n: u32 = c as u32;
    (0x09 <= n && n <= 0x0D) || n == 0x20 || n == 0x85 || n == 0xA0 || n == 0x1680 || (0x2000 <= n
        && n <= 0x200A) || n == 0x2028 || n == 0x2029 || n == 0x202F || n == 0x205F || n == 0x3000
}

/// Splits a line into its tokens.
pub fn tokenize(line: &str) -> (out: Vec<String>)
    ensures
        texts(out@) == tokens(line@),
{
    let n: usize = line.unicode_len();
    let mut out: Vec<String> = Vec::new();
    let mut i: usize = 0;
    assert(line@.skip(0) =~= line@);
    while i < n
        invariant
            n == line@.len(),
            i <= n,
            texts(out@) + tokens(line@.skip(i as int)) =~= tokens(line@),
        decreases n - i,
    {
        let ghost rest = line@.skip(i as int);
        if is_whitespace(line.get_char(i)) {
            assert(rest.skip(1) =~= line@.skip(i + 1));
            i += 1;
        } else {
            let start: usize = i;
            let mut j: usize = i + 1;
            while j < n && !is_whitespace(line.get_char(j))
                invariant
                    n == line@.len(),
                    start < j <= n,
                    forall|k: int| start <= k < j ==> !is_space(#[trigger] line@[k]),
                decreases n - j,
            {
                j += 1;
            }
            let word = String::from_str(line.substring_char(start, j));
            proof {
                lemma_word_len_is(rest, j - start);
                assert(rest.take(j - start) =~= line@.subrange(start as int, j as int));
                assert(rest.skip(j - start) =~= line@.skip(j as int));
            }
            out.push(word);
            i = j;
        }
    }
    out
}

/// An upper-case letter of ASCII as its lower-case letter, any other character
/// as itself.
pub open spec fn lower(c: char) -> char {
    if 'A' <= c && c <= 'Z' {
        ((c as u8 + 32) as u8) as char
    } else {
        c
    }
}

/// Whether two texts are equal but for the case of their ASCII letters.
pub open spec fn same_ignoring_case(a: Seq<char>, b: Seq<char>) -> bool {
    &&& a.len() == b.len()
    &&& forall|i: int| 0 <= i < a.len() ==> lower(#[trigger] a[i]) == lower(b[i])
}

/// The lower-case form of an ASCII letter.
pub fn to_lower(c: char) -> (r: char)
    ensures
        r == lower(c),
{
    if 'A' <= c && c <= 'Z' {
        let b: u8 = c as u8;
        (b + 32) as char
    } else {
        c
    }
}

/// Compares two texts without regard to the case of their ASCII letters.
pub fn eq_ignoring_case(a: &str, b: &str) -> (r: bool)
    ensures
        r == same_ignoring_case(a@, b@),
{
    let n: usize = a.unicode_len();
    if b.unicode_len() != n {
        return false;
    }
    let mut i: usize = 0;
    while i < n
        invariant
            n == a@.len(),
            n == b@.len(),
            i <= n,
            forall|k: int| 0 <= k < i ==> lower(#[trigger] a@[k]) == lower(b@[k]),
        decreases n - i,
    {
        if to_lower(a.get_char(i)) != to_lower(b.get_char(i)) {
            return false;
        }
        i += 1;
    }
    true
}

/// `s` without the separators that it begins with.
pub open spec fn trim_start(s: Seq<char>) -> Seq<char>
    decreases s.len(),
{
    if s.len() > 0 && is_space(s[0]) {
        trim_start(s.skip(1))
    } else {
        s
    }
}

/// `s` without the separators that it ends with.
pub open spec fn trim_end(s: Seq<char>) -> Seq<char>
    decreases s.len(),
{
    if s.len() > 0 && is_space(s.last()) {
        trim_end(s.drop_last())
    } else {
        s
    }
}

/// `s` without the separators at either end.
pub open spec fn trimmed(s: Seq<char>) -> Seq<char> {
    trim_end(trim_start(s))
}

/// Where `k` separators begin the text and no more, the text behind them
/// is what `trim_start` leaves.
pub proof fn lemma_trim_start_is(s: Seq<char>, k: int)
    requires
        0 <= k <= s.len(),
        forall|i: int| 0 <= i < k ==> is_space(#[trigger] s[i]),
        k == s.len() || !is_space(s[k]),
    ensures
        trim_start(s) == s.skip(k),
    decreases k,
{
    if k > 0 {
        let t = s.skip(1);
        lemma_trim_start_is(t, k - 1);
    }
}

/// Where the text is separators from `k` on and not before, the text before
/// `k` is what `trim_end` leaves.
pub proof fn lemma_trim_end_is(s: Seq<char>, k: int)
    requires
        0 <= k <= s.len(),
        forall|i: int| k <= i < s.len() ==> is_space(#[trigger] s[i]),
        k == 0 || !is_space(s[k - 1]),
    ensures
        trim_end(s) == s.take(k),
    decreases s.len() - k,
{
    if k < s.len() {
        let t = s.drop_last();
        lemma_trim_end_is(t, k);
    }
}

/// The line without the separators at either end.
pub fn trim<'a>(line: &'a str) -> (r: &'a str)
    ensures
        r@ == trimmed(line@),
{
    let n: usize = line.unicode_len();
    let mut a: usize = 0;
    while a < n && is_whitespace(line.get_char(a))
        invariant
            n == line@.len(),
            a <= n,
            forall|i: int| 0 <= i < a ==> is_space(#[trigger] line@[i]),
        decreases n - a,
    {
        a += 1;
    }
    let mut b: usize = n;
    while b > a && is_whitespace(line.get_char(b - 1))
        invariant
            n == line@.len(),
            a <= b <= n,
            forall|i: int| b <= i < n ==> is_space(#[trigger] line@[i]),
        decreases b,
    {
        b -= 1;
    }
    proof {
        let rest = line@.skip(a as int);
        lemma_trim_start_is(line@, a as int);
        lemma_trim_end_is(rest, b - a);
    }
    line.substring_char(a, b)
}

/// A word: one character or more, none of them a separator.
pub open spec fn is_word(s: Seq<char>) -> bool {
    &&& s.len() > 0
    &&& forall|i: int| 0 <= i < s.len() ==> !is_space(#[trigger] s[i])
}

/// The first word is no longer than the text, and not empty where the text
/// begins with a character that is no separator; it holds no separator, and
/// a separator follows it unless it ends the text.
pub proof fn lemma_word_len(s: Seq<char>)
    ensures
        word_len(s) <= s.len(),
        s.len() > 0 && !is_space(s[0]) ==> word_len(s) >= 1,
        forall|i: int| 0 <= i < word_len(s) ==> !is_space(#[trigger] s[i]),
        word_len(s) < s.len() ==> is_space(s[word_len(s) as int]),
    decreases s.len(),
{
    if s.len() > 0 && !is_space(s[0]) {
        let t = s.skip(1);
        lemma_word_len(t);
        assert forall|i: int| 0 <= i < word_len(s) implies !is_space(#[trigger] s[i]) by {
            if i > 0 {
                assert(s[i] == t[i - 1]);
            }
        }
    }
}

/// Every token is a word.
pub proof fn lemma_tokens_are_words(s: Seq<char>)
    ensures
        forall|i: int| 0 <= i < tokens(s).len() ==> is_word(#[trigger] tokens(s)[i]),
    decreases s.len(),
{
    if s.len() > 0 && is_space(s[0]) {
        lemma_tokens_are_words(s.skip(1));
        assert(tokens(s) == tokens(s.skip(1)));
    } else if s.len() > 0 {
        let k = word_len(s) as int;
        let rest = tokens(s.skip(k));
        lemma_word_len(s);
        lemma_tokens_are_words(s.skip(k));
        assert(is_word(s.take(k)));
        assert(tokens(s) == seq![s.take(k)] + rest);
        assert forall|i: int| 0 <= i < tokens(s).len() implies is_word(#[trigger] tokens(s)[i]) by {
            if i > 0 {
                assert(tokens(s)[i] == rest[i - 1]);
            }
        }
    }
}

/// A word in front of a text that is empty or begins with a separator is
/// the first token, and the tokens of that text follow it.
pub proof fn lemma_tokens_after_word(word: Seq<char>, rest: Seq<char>)
    requires
        is_word(word),
        rest.len() == 0 || is_space(rest[0]),
    ensures
        tokens(word + rest) == seq![word] + tokens(rest),
{
    let s = word + rest;
    let k = word.len() as int;
    lemma_word_len_is(s, k);
    assert(s.take(k) =~= word);
    assert(s.skip(k) =~= rest);
}

/// A separator in front of a text adds no token.
pub proof fn lemma_tokens_after_space(c: char, rest: Seq<char>)
    requires
        is_space(c),
    ensures
        tokens(seq![c] + rest) == tokens(rest),
{
    let s = seq![c] + rest;
    assert(s.skip(1) =~= rest);
}

/// A separator at the end of a text adds no token.
pub proof fn lemma_tokens_before_space(s: Seq<char>)
    requires
        s.len() > 0,
        is_space(s.last()),
    ensures
        tokens(s.drop_last()) == tokens(s),
    decreases s.len(),
{
    let d = s.drop_last();
    if s.len() == 1 {
        assert(tokens(s) == tokens(s.skip(1)));
    } else if is_space(s[0]) {
        assert(d.skip(1) =~= s.skip(1).drop_last());
        lemma_tokens_before_space(s.skip(1));
    } else {
        let k = word_len(s) as int;
        lemma_word_len(s);
        lemma_word_len_is(d, k);
        assert(d.take(k) =~= s.take(k));
        assert(d.skip(k) =~= s.skip(k).drop_last());
        lemma_tokens_before_space(s.skip(k));
    }
}

/// Trimming a line changes none of its tokens.
pub proof fn lemma_tokens_of_trimmed(s: Seq<char>)
    ensures
        tokens(trimmed(s)) == tokens(s),
{
    lemma_tokens_of_trim_start(s);
    lemma_tokens_of_trim_end(trim_start(s));
}

proof fn lemma_tokens_of_trim_start(s: Seq<char>)
    ensures
        tokens(trim_start(s)) == tokens(s),
    decreases s.len(),
{
    if s.len() > 0 && is_space(s[0]) {
        lemma_tokens_of_trim_start(s.skip(1));
    }
}

proof fn lemma_tokens_of_trim_end(s: Seq<char>)
    ensures
        tokens(trim_end(s)) == tokens(s),
    decreases s.len(),
{
    if s.len() > 0 && is_space(s.last()) {
        lemma_tokens_of_trim_end(s.drop_last());
        lemma_tokens_before_space(s);
    }
}

} // verus!
