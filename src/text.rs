//! Small verified string helpers over `Seq<char>` views.

use vstd::prelude::*;
use vstd::string::*;

verus! {

/// `p` occurs in `s` starting at index `i`.
pub open spec fn occurs_at(s: Seq<char>, p: Seq<char>, i: int) -> bool {
    0 <= i && i + p.len() <= s.len() && s.subrange(i, i + p.len()) == p
}

/// `p` is a (contiguous) substring of `s`; the empty string is one of every string.
pub open spec fn is_infix(p: Seq<char>, s: Seq<char>) -> bool {
    exists|i: int| occurs_at(s, p, i)
}

/// `p` is a prefix of `s`.
pub open spec fn is_prefix(p: Seq<char>, s: Seq<char>) -> bool {
    occurs_at(s, p, 0)
}

/// The decimal digit character for `d < 10`.
pub open spec fn digit_char(d: nat) -> char {
    if d == 0 { '0' }
    else if d == 1 { '1' }
    else if d == 2 { '2' }
    else if d == 3 { '3' }
    else if d == 4 { '4' }
    else if d == 5 { '5' }
    else if d == 6 { '6' }
    else if d == 7 { '7' }
    else if d == 8 { '8' }
    else { '9' }
}

/// The decimal representation of `n`, without leading zeros.
pub open spec fn decimal(n: nat) -> Seq<char>
    decreases n,
{
    if n < 10 {
        seq![digit_char(n)]
    } else {
        decimal(n / 10).push(digit_char(n % 10))
    }
}

/// Does `s` hold `p` at index `i`?
pub fn occurs_at_exec(s: &str, p: &str, i: usize) -> (r: bool)
    ensures
        r == occurs_at(s@, p@, i as int),
{
    let n = s.unicode_len();
    let m = p.unicode_len();
    if i > n || m > n - i {
        return false;
    }
    let mut j: usize = 0;
    while j < m
        invariant
            n == s@.len(),
            m == p@.len(),
            i + m <= n,
            j <= m,
            forall|k: int| 0 <= k < j ==> s@[i + k] == p@[k],
        decreases m - j,
    {
        if s.get_char(i + j) != p.get_char(j) {
            assert(s@.subrange(i as int, i + m)[j as int] != p@[j as int]);
            return false;
        }
        j = j + 1;
    }
    assert(s@.subrange(i as int, i + m) =~= p@);
    true
}

/// Equality of two string slices.
pub fn str_eq(a: &str, b: &str) -> (r: bool)
    ensures
        r == (a@ == b@),
{
    let n = a.unicode_len();
    let m = b.unicode_len();
    if n != m {
        return false;
    }
    let r = occurs_at_exec(a, b, 0);
    proof {
        if r {
            assert(a@.subrange(0, n as int) =~= a@);
        }
        if a@ == b@ {
            assert(a@.subrange(0, n as int) =~= a@);
        }
    }
    r
}

/// Does `s` start with `p`?
pub fn starts_with(s: &str, p: &str) -> (r: bool)
    ensures
        r == is_prefix(p@, s@),
{
    occurs_at_exec(s, p, 0)
}

/// Is `p` a substring of `s`?
pub fn contains(s: &str, p: &str) -> (r: bool)
    ensures
        r == is_infix(p@, s@),
{
    let n = s.unicode_len();
    let m = p.unicode_len();
    if m > n {
        return false;
    }
    let mut i: usize = 0;
    while i <= n - m
        invariant
            n == s@.len(),
            m == p@.len(),
            m <= n,
            i <= n - m + 1,
            forall|k: int| 0 <= k < i ==> !occurs_at(s@, p@, k),
        decreases n - m + 1 - i,
    {
        if occurs_at_exec(s, p, i) {
            return true;
        }
        if i == n - m {
            assert forall|k: int| !occurs_at(s@, p@, k) by {
                if 0 <= k && k <= i {
                }
            }
            return false;
        }
        i = i + 1;
    }
    false
}

/// Relies on `String::push`: appends one character.
#[verifier::external_body]
pub(crate) fn push_char(s: &mut String, c: char)
    ensures
        final(s)@ == old(s)@.push(c),
{
    s.push(c);
}

/// A fresh string holding the characters of `s`.
pub fn owned(s: &str) -> (r: String)
    ensures
        r@ == s@,
{
    String::from_str(s)
}

/// The decimal digit character for `d`.
pub fn digit(d: u64) -> (c: char)
    requires
        d < 10,
    ensures
        c == digit_char(d as nat),
{
    if d == 0 { '0' }
    else if d == 1 { '1' }
    else if d == 2 { '2' }
    else if d == 3 { '3' }
    else if d == 4 { '4' }
    else if d == 5 { '5' }
    else if d == 6 { '6' }
    else if d == 7 { '7' }
    else if d == 8 { '8' }
    else { '9' }
}

/// Appends the decimal representation of `n`.
pub fn push_decimal(s: &mut String, n: u64)
    ensures
        final(s)@ == old(s)@ + decimal(n as nat),
    decreases n,
{
    if n >= 10 {
        push_decimal(s, n / 10);
    }
    push_char(s, digit(n % 10));
    assert(final(s)@ =~= old(s)@ + decimal(n as nat));
}

} // verus!
