//! Small checks on command-line words: prefixes, exact matches and unsigned
//! decimal numbers.
use vstd::prelude::*;

verus! {

pub open spec fn is_prefix(p: Seq<char>, s: Seq<char>) -> bool {
    p.len() <= s.len() && s.take(p.len() as int) == p
}

pub open spec fn is_digit(c: char) -> bool {
    '0' <= c && c <= '9'
}

pub open spec fn all_digits(d: Seq<char>) -> bool {
    forall|i: int| 0 <= i < d.len() ==> is_digit(#[trigger] d[i])
}

pub open spec fn digit_value(c: char) -> nat {
    ((c as u32) - ('0' as u32)) as nat
}

/// Value of a string of decimal digits, most significant first.
pub open spec fn digits_value(d: Seq<char>) -> nat
    decreases d.len(),
{
    if d.len() == 0 {
        0
    } else {
        digits_value(d.drop_last()) * 10 + digit_value(d.last())
    }
}

/// The digits of an unsigned number: a leading `+` is allowed before them.
pub open spec fn unsigned_digits(s: Seq<char>) -> Seq<char> {
    if s.len() > 1 && s[0] == '+' {
        s.drop_first()
    } else {
        s
    }
}

/// The number that `s` writes in decimal, if it is one of at most `max`:
/// an optional `+`, then one or more digits.
pub open spec fn unsigned_value(s: Seq<char>, max: nat) -> Option<nat> {
    let d = unsigned_digits(s);
    if d.len() > 0 && all_digits(d) && digits_value(d) <= max {
        Some(digits_value(d))
    } else {
        None
    }
}

/// Whether `s` begins with `p`.
pub fn has_prefix(s: &str, p: &str) -> (r: bool)
    ensures
        r == is_prefix(p@, s@),
{
    let n = p.unicode_len();
    let m = s.unicode_len();
    if n > m {
        return false;
    }
    let mut i: usize = 0;
    while i < n
        invariant
            i <= n,
            n == p@.len(),
            m == s@.len(),
            n <= m,
            forall|k: int| 0 <= k < i ==> s@[k] == p@[k],
        decreases n - i,
    {
        if s.get_char(i) != p.get_char(i) {
            assert(s@.take(n as int)[i as int] == s@[i as int]);
            return false;
        }
        i = i + 1;
    }
    assert(s@.take(n as int) =~= p@);
    true
}

/// Whether `a` and `b` hold the same characters.
pub fn same_text(a: &str, b: &str) -> (r: bool)
    ensures
        r == (a@ == b@),
{
    if a.unicode_len() != b.unicode_len() {
        return false;
    }
    let r = has_prefix(a, b);
    assert(a@.take(b@.len() as int) =~= a@);
    r
}

proof fn lemma_digits_prefix(d: Seq<char>, k: int)
    requires
        0 <= k <= d.len(),
    ensures
        digits_value(d.take(k)) <= digits_value(d),
    decreases d.len(),
{
    if k < d.len() {
        assert(d.take(k) =~= d.drop_last().take(k));
        lemma_digits_prefix(d.drop_last(), k);
    } else {
        assert(d.take(k) =~= d);
    }
}

/// The unsigned number that `s` writes in decimal, if it is at most `max`.
pub fn parse_unsigned(s: &str, max: u64) -> (r: Option<u64>)
    ensures
        r matches Some(v) ==> unsigned_value(s@, max as nat) == Some(v as nat),
        r is None ==> unsigned_value(s@, max as nat) is None,
{
    let n = s.unicode_len();
    let start: usize = if n > 1 && s.get_char(0) == '+' {
        1
    } else {
        0
    };
    let ghost d = unsigned_digits(s@);
    assert(d =~= s@.subrange(start as int, n as int));
    if start >= n {
        return None;
    }
    let mut acc: u128 = 0;
    let mut i: usize = start;
    while i < n
        invariant
            start <= i <= n,
            n == s@.len(),
            d == s@.subrange(start as int, n as int),
            d == unsigned_digits(s@),
            all_digits(d.take(i - start)),
            acc == digits_value(d.take(i - start)),
            acc <= max,
        decreases n - i,
    {
        let c = s.get_char(i);
        if !('0' <= c && c <= '9') {
            assert(d[i - start] == c);
            assert(!is_digit(d[i - start]));
            assert(!all_digits(d));
            return None;
        }
        let ghost k = i - start;
        assert(d.take(k + 1).drop_last() =~= d.take(k));
        assert(d.take(k + 1).last() == c);
        acc = acc * 10 + ((c as u32) - ('0' as u32)) as u128;
        assert(acc == digits_value(d.take(k + 1)));
        i = i + 1;
        assert(all_digits(d.take(i - start))) by {
            assert forall|j: int| 0 <= j < d.take(i - start).len() implies is_digit(
                #[trigger] d.take(i - start)[j],
            ) by {
                if j < k {
                    assert(d.take(i - start)[j] == d.take(k)[j]);
                }
            }
        }
        if acc > max as u128 {
            proof {
                lemma_digits_prefix(d, i - start);
                assert(digits_value(d) > max);
            }
            return None;
        }
    }
    assert(d.take(n - start) =~= d);
    Some(acc as u64)
}

} // verus!
