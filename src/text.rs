use vstd::prelude::*;
use vstd::std_specs::iter::IteratorSpec;

verus! {

/// Whitespace in the sense of Unicode's `White_Space` property.
pub open spec fn is_white(c: char) -> bool {
    ('\u{9}' <= c && c <= '\u{d}') || c == ' ' || c == '\u{85}' || c == '\u{a0}'
        || c == '\u{1680}' || ('\u{2000}' <= c && c <= '\u{200a}') || c == '\u{2028}'
        || c == '\u{2029}' || c == '\u{202f}' || c == '\u{205f}' || c == '\u{3000}'
}

/// The first index at or after `i` that does not hold whitespace.
pub open spec fn skip_white(s: Seq<char>, i: int) -> int
    decreases s.len() - i,
{
    if 0 <= i < s.len() && is_white(s[i]) {
        skip_white(s, i + 1)
    } else {
        i
    }
}

/// The end of `s[lo..j]` once trailing whitespace is dropped.
pub open spec fn back_white(s: Seq<char>, lo: int, j: int) -> int
    decreases j - lo,
{
    if lo < j <= s.len() && is_white(s[j - 1]) {
        back_white(s, lo, j - 1)
    } else {
        j
    }
}

/// `s` without leading and trailing whitespace.
pub open spec fn trimmed(s: Seq<char>) -> Seq<char> {
    let a = skip_white(s, 0);
    s.subrange(a, back_white(s, a, s.len() as int))
}

/// The first index at or after `i` that holds a space, or the length.
pub open spec fn first_space(s: Seq<char>, i: int) -> int
    decreases s.len() - i,
{
    if 0 <= i < s.len() && s[i] != ' ' {
        first_space(s, i + 1)
    } else {
        i
    }
}

/// The decimal digit that stands for `d`.
pub open spec fn digit_char(d: nat) -> char {
    if d == 0 { '0' }
    else if d == 1 { '1' }
    else if d == 2 { '2' }
    else if d == 3 { '3' }
    else if d == 4 { '4' }
    else if d == 5 { '5' }
    else if d == 6 { '6' }
    else if d == 7 { '7' }
    else if d == 8 { '8' }
    else { '9' }
}

/// `n` written in decimal, without leading zeros.
pub open spec fn decimal(n: nat) -> Seq<char>
    decreases n,
{
    if n < 10 {
        seq![digit_char(n)]
    } else {
        decimal(n / 10).push(digit_char(n % 10))
    }
}

/// An ASCII decimal digit.
pub open spec fn is_digit(c: char) -> bool {
    '0' <= c && c <= '9'
}

/// The number that a run of decimal digits spells.
pub open spec fn digits_value(s: Seq<char>) -> int
    decreases s.len(),
{
    if s.len() == 0 {
        0
    } else {
        digits_value(s.drop_last()) * 10 + ((s.last() as u32) as int - 48)
    }
}

/// The characters of `s`, in order.
pub fn chars_of(s: &str) -> (r: Vec<char>)
    ensures
        r@ == s@,
{
    broadcast use vstd::string::axiom_spec_iter, vstd::string::next_postcondition;

    let mut it = s.chars();
    let mut r: Vec<char> = Vec::new();
    assert(it.remaining() == s@);
    loop
        invariant
            r@ + it.remaining() == s@,
            it.obeys_prophetic_iter_laws(),
        ensures
            r@ == s@,
        decreases s@.len() - r@.len(),
    {
        match it.next() {
            Some(c) => {
                r.push(c);
                assert(r@ + it.remaining() =~= s@);
            },
            None => {
                assert(r@ =~= s@);
                break;
            },
        }
    }
    r
}

/// Relies on `Iterator::collect` into a `String`: the characters of `v`, in order.
#[verifier::external_body]
pub(crate) fn string_from(v: &Vec<char>) -> (r: String)
    ensures
        r@ == v@,
{
    v.iter().collect()
}

/// Whether `c` is whitespace.
pub fn is_white_char(c: char) -> (r: bool)
    ensures
        r == is_white(c),
{
    ('\u{9}' <= c && c <= '\u{d}') || c == ' ' || c == '\u{85}' || c == '\u{a0}'
        || c == '\u{1680}' || ('\u{2000}' <= c && c <= '\u{200a}') || c == '\u{2028}'
        || c == '\u{2029}' || c == '\u{202f}' || c == '\u{205f}' || c == '\u{3000}'
}

/// Bounds of `s` with leading and trailing whitespace dropped.
pub fn trim_bounds(s: &Vec<char>) -> (r: (usize, usize))
    ensures
        r.0 <= r.1 <= s@.len(),
        s@.subrange(r.0 as int, r.1 as int) == trimmed(s@),
{
    let n = s.len();
    let mut i: usize = 0;
    while i < n && is_white_char(s[i])
        invariant
            i <= n == s@.len(),
            skip_white(s@, 0) == skip_white(s@, i as int),
        decreases n - i,
    {
        i = i + 1;
    }
    let mut j: usize = n;
    while i < j && is_white_char(s[j - 1])
        invariant
            i <= j <= n == s@.len(),
            skip_white(s@, 0) == i,
            back_white(s@, i as int, n as int) == back_white(s@, i as int, j as int),
        decreases j,
    {
        j = j - 1;
    }
    (i, j)
}

/// Appends `n` in decimal to `out`.
pub fn push_decimal(out: &mut Vec<char>, n: usize)
    ensures
        final(out)@ == old(out)@ + decimal(n as nat),
    decreases n,
{
    if n >= 10 {
        push_decimal(out, n / 10);
    }
    let d = n % 10;
    let c = if d == 0 { '0' }
        else if d == 1 { '1' }
        else if d == 2 { '2' }
        else if d == 3 { '3' }
        else if d == 4 { '4' }
        else if d == 5 { '5' }
        else if d == 6 { '6' }
        else if d == 7 { '7' }
        else if d == 8 { '8' }
        else { '9' };
    out.push(c);
    proof {
        assert(c == digit_char((n % 10) as nat));
        if n >= 10 {
            assert(decimal(n as nat) == decimal((n / 10) as nat).push(digit_char((n % 10) as nat)));
        }
        assert(final(out)@ =~= old(out)@ + decimal(n as nat));
    }
}

/// Appends every character of `s` to `out`.
pub fn push_all(out: &mut Vec<char>, s: &Vec<char>)
    ensures
        final(out)@ == old(out)@ + s@,
{
    let mut i: usize = 0;
    while i < s.len()
        invariant
            i <= s@.len(),
            out@ == old(out)@ + s@.subrange(0, i as int),
        decreases s@.len() - i,
    {
        out.push(s[i]);
        i = i + 1;
        assert(out@ =~= old(out)@ + s@.subrange(0, i as int));
    }
    assert(s@.subrange(0, s@.len() as int) =~= s@);
}

proof fn lemma_skip_white(s: Seq<char>, i: int)
    requires
        0 <= i <= s.len(),
    ensures
        i <= skip_white(s, i) <= s.len(),
    decreases s.len() - i,
{
    if i < s.len() && is_white(s[i]) {
        lemma_skip_white(s, i + 1);
    }
}

proof fn lemma_back_white(s: Seq<char>, lo: int, j: int)
    requires
        0 <= lo <= j <= s.len(),
    ensures
        lo <= back_white(s, lo, j) <= j,
        back_white(s, lo, j) > lo ==> !is_white(s[back_white(s, lo, j) - 1]),
    decreases j - lo,
{
    if lo < j && is_white(s[j - 1]) {
        lemma_back_white(s, lo, j - 1);
    }
}

/// A trimmed text that is not empty ends in a character that is not whitespace.
pub proof fn trimmed_ends_in_non_white(s: Seq<char>)
    ensures
        trimmed(s).len() > 0 ==> !is_white(trimmed(s).last()),
{
    lemma_skip_white(s, 0);
    let a = skip_white(s, 0);
    lemma_back_white(s, a, s.len() as int);
}

} // verus!
