//! Character-level helpers over `str`: prefix and marker search, and the
//! decimal rendering of integers.

use vstd::prelude::*;
use vstd::string::*;

verus! {

/// `m` occurs in `s` starting at character position `i`.
pub open spec fn occurs_at(s: Seq<char>, m: Seq<char>, i: int) -> bool {
    0 <= i && i + m.len() <= s.len() && s.subrange(i, i + m.len()) == m
}

/// `s` begins with `p`.
pub open spec fn has_prefix(s: Seq<char>, p: Seq<char>) -> bool {
    occurs_at(s, p, 0)
}

/// The greatest position `i <= end` at which `m` occurs in `s`, or -1.
pub open spec fn last_match_upto(s: Seq<char>, m: Seq<char>, end: int) -> int
    decreases end + 1,
{
    if end < 0 {
        -1
    } else if occurs_at(s, m, end) {
        end
    } else {
        last_match_upto(s, m, end - 1)
    }
}

/// The start of the last occurrence of `m` in `s`, or -1 when there is none.
pub open spec fn last_match(s: Seq<char>, m: Seq<char>) -> int {
    last_match_upto(s, m, s.len() - m.len())
}

/// `m` occurs somewhere in `s`.
pub open spec fn has_marker(s: Seq<char>, m: Seq<char>) -> bool {
    last_match(s, m) >= 0
}

/// What follows the last occurrence of `m` in `s` (meaningful when `m` occurs).
pub open spec fn after_last(s: Seq<char>, m: Seq<char>) -> Seq<char> {
    s.subrange(last_match(s, m) + m.len(), s.len() as int)
}

/// Whether `m` occurs in `s` at character position `i`.
pub fn matches_at(s: &str, m: &str, i: usize) -> (r: bool)
    ensures
        r == occurs_at(s@, m@, i as int),
{
    let n = s.unicode_len();
    let k = m.unicode_len();
    if i > n || k > n - i {
        return false;
    }
    let mut j: usize = 0;
    while j < k
        invariant
            i + k <= n,
            n == s@.len(),
            k == m@.len(),
            j <= k,
            forall|q: int| 0 <= q < j ==> s@[i + q] == m@[q],
        decreases k - j,
    {
        if s.get_char(i + j) != m.get_char(j) {
            assert(s@.subrange(i as int, i + k)[j as int] != m@[j as int]);
            return false;
        }
        j = j + 1;
    }
    assert(s@.subrange(i as int, i + k) =~= m@);
    true
}

/// Whether `s` begins with `p`.
pub fn starts_with(s: &str, p: &str) -> (r: bool)
    ensures
        r == has_prefix(s@, p@),
{
    matches_at(s, p, 0)
}

/// The character position of the last occurrence of `m` in `s`, if any.
pub fn find_last(s: &str, m: &str) -> (r: Option<usize>)
    ensures
        match r {
            Some(i) => i as int == last_match(s@, m@) && i + m@.len() <= s@.len(),
            None => last_match(s@, m@) == -1,
        },
{
    let n = s.unicode_len();
    let k = m.unicode_len();
    if k > n {
        assert(last_match(s@, m@) == -1);
        return None;
    }
    let mut i: usize = n - k;
    loop
        invariant
            k <= n,
            n == s@.len(),
            k == m@.len(),
            i <= n - k,
            last_match(s@, m@) == last_match_upto(s@, m@, i as int),
        decreases i,
    {
        if matches_at(s, m, i) {
            return Some(i);
        }
        if i == 0 {
            assert(last_match_upto(s@, m@, -1) == -1);
            return None;
        }
        i = i - 1;
    }
}

/// The spec character of a decimal digit.
pub open spec fn digit_char(d: nat) -> char {
    if d == 0 { '0' }
    else if d == 1 { '1' }
    else if d == 2 { '2' }
    else if d == 3 { '3' }
    else if d == 4 { '4' }
    else if d == 5 { '5' }
    else if d == 6 { '6' }
    else if d == 7 { '7' }
    else if d == 8 { '8' }
    else { '9' }
}

/// Base-ten digits of `n`, most significant first, without leading zeros.
pub open spec fn decimal(n: nat) -> Seq<char>
    decreases n,
{
    if n < 10 {
        seq![digit_char(n)]
    } else {
        decimal(n / 10).push(digit_char(n % 10))
    }
}

/// Base-ten rendering of a signed integer, with a leading `-` when negative.
pub open spec fn signed_decimal(i: int) -> Seq<char> {
    if i < 0 {
        seq!['-'] + decimal((-i) as nat)
    } else {
        decimal(i as nat)
    }
}

fn digit_str(d: u128) -> (r: &'static str)
    requires
        d < 10,
    ensures
        r@ == seq![digit_char(d as nat)],
{
    let digits = "0123456789";
    proof {
        reveal_strlit("0123456789");
    }
    assert(digits@ =~= seq!['0', '1', '2', '3', '4', '5', '6', '7', '8', '9']);
    let r = digits.substring_char(d as usize, d as usize + 1);
    assert(r@ =~= seq![digit_char(d as nat)]);
    r
}

/// Base-ten rendering of an unsigned integer.
pub fn decimal_string(n: u128) -> (r: String)
    ensures
        r@ == decimal(n as nat),
    decreases n,
{
    if n < 10 {
        String::from_str(digit_str(n))
    } else {
        let mut s = decimal_string(n / 10);
        s.append(digit_str(n % 10));
        s
    }
}

/// Base-ten rendering of a signed integer.
pub fn signed_decimal_string(i: i128) -> (r: String)
    ensures
        r@ == signed_decimal(i as int),
{
    if i < 0 {
        let magnitude: u128 = (0 - (i + 1)) as u128 + 1;
        let digits = decimal_string(magnitude);
        let minus = "-";
        proof {
            reveal_strlit("-");
        }
        let r = String::from_str(minus).concat(digits.as_str());
        assert(r@ =~= signed_decimal(i as int));
        r
    } else {
        decimal_string(i as u128)
    }
}

} // verus!
