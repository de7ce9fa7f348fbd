//! Decimal numbers written as text.

use vstd::prelude::*;

verus! {

/// `c` is one of the ten decimal digits.
pub open spec fn is_digit(c: char) -> bool {
    '0' <= c <= '9'
}

/// The number that the digits of `s` write, most significant first.
pub open spec fn digits_value(s: Seq<char>) -> nat
    decreases s.len(),
{
    if s.len() == 0 {
        0
    } else {
        digits_value(s.drop_last()) * 10 + ((s.last() as nat) - ('0' as nat)) as nat
    }
}

/// `s` without the plus sign that may stand in front of a number.
pub open spec fn unsigned_part(s: Seq<char>) -> Seq<char> {
    if s.len() > 0 && s[0] == '+' {
        s.subrange(1, s.len() as int)
    } else {
        s
    }
}

/// Every character of `s` is a decimal digit.
pub open spec fn all_digits(s: Seq<char>) -> bool {
    forall|i: int| 0 <= i < s.len() ==> is_digit(#[trigger] s[i])
}

/// The number of seconds that `s` writes: an optional plus sign, then one or
/// more decimal digits, whose value fits in 64 bits. Anything else writes
/// none.
pub open spec fn seconds_of(s: Seq<char>) -> Option<u64> {
    let body = unsigned_part(s);
    if body.len() > 0 && all_digits(body) && digits_value(body) <= u64::MAX {
        Some(digits_value(body) as u64)
    } else {
        None
    }
}

/// Reads a count of seconds from its decimal form.
pub fn parse_seconds(s: &Vec<char>) -> (secs: Option<u64>)
    ensures
        secs == seconds_of(s@),
{
    let n: usize = s.len();
    let start: usize = if n > 0 && s[0] == '+' { 1 } else { 0 };
    if start == n {
        return None;
    }
    let ghost body = unsigned_part(s@);
    assert(body =~= s@.subrange(start as int, n as int));
    let mut acc: u64 = 0;
    let mut i: usize = start;
    while i < n
        invariant
            n == s@.len(),
            start <= i <= n,
            body == unsigned_part(s@),
            body =~= s@.subrange(start as int, n as int),
            all_digits(body.take(i - start)),
            digits_value(body.take(i - start)) == acc,
        decreases n - i,
    {
        let c: char = s[i];
        let ghost prefix = body.take(i - start);
        let ghost longer = body.take(i + 1 - start);
        proof {
            assert(longer.drop_last() =~= prefix);
            assert(longer.last() == c);
        }
        if c < '0' || c > '9' {
            assert(body[i - start] == c);
            return None;
        }
        let d: u64 = (c as u32 - '0' as u32) as u64;
        if acc > (u64::MAX - d) / 10 {
            proof {
                assert(digits_value(longer) == acc * 10 + d);
                lemma_value_grows(body, i + 1 - start);
            }
            return None;
        }
        acc = acc * 10 + d;
        i += 1;
    }
    assert(body.take(n - start) =~= body);
    Some(acc)
}

/// The digit that writes `d`, for `d` below ten.
pub open spec fn digit_of(d: nat) -> char {
    (48 + d) as u8 as char
}

/// The decimal form of `n`, without a sign and without leading zeros.
pub open spec fn decimal(n: nat) -> Seq<char>
    decreases n,
{
    if n < 10 {
        seq![digit_of(n)]
    } else {
        decimal(n / 10).push(digit_of(n % 10))
    }
}

/// The decimal form of a number is made of digits and writes that number.
pub proof fn lemma_decimal_value(n: nat)
    ensures
        decimal(n).len() > 0,
        all_digits(decimal(n)),
        digits_value(decimal(n)) == n,
    decreases n,
{
    if n < 10 {
        let s = decimal(n);
        assert(s.len() == 1);
        assert(s[0] == digit_of(n));
        assert(s.drop_last() =~= Seq::<char>::empty());
        assert(digits_value(s.drop_last()) == 0);
        assert(s.last() == digit_of(n));
    } else {
        lemma_decimal_value(n / 10);
        let front = decimal(n / 10);
        let s = decimal(n);
        assert(s.drop_last() =~= front);
        assert(s.last() == digit_of(n % 10));
        assert forall|i: int| 0 <= i < s.len() implies is_digit(#[trigger] s[i]) by {
            if i < front.len() {
                assert(s[i] == front[i]);
            }
        }
    }
}

/// Reading the decimal form of a count of seconds gives the count back.
pub proof fn lemma_seconds_round_trip(n: u64)
    ensures
        seconds_of(decimal(n as nat)) == Some(n),
{
    lemma_decimal_value(n as nat);
    let s = decimal(n as nat);
    assert(is_digit(s[0]));
}

/// A number is at least what any of its leading digits write.
pub proof fn lemma_value_grows(s: Seq<char>, k: int)
    requires
        0 <= k <= s.len(),
    ensures
        digits_value(s.take(k)) <= digits_value(s),
    decreases s.len() - k,
{
    if k == s.len() {
        assert(s.take(k) =~= s);
    } else {
        lemma_value_grows(s, k + 1);
        assert(s.take(k + 1).drop_last() =~= s.take(k));
    }
}

} // verus!
