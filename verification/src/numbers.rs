//! Reading unsigned numbers as `str::parse::<u32>` does, and storing user
//! ids in signed database columns.

use vstd::prelude::*;
use crate::decimal::{decimal_nat, digit_char};
use crate::text::chars_of;

verus! {

/// Whether `c` is an ASCII digit.
pub open spec fn is_digit(c: char) -> bool {
    48 <= (c as u32) <= 57
}

/// The value of a string of decimal digits.
pub open spec fn digits_value(s: Seq<char>) -> nat
    decreases s.len(),
{
    if s.len() == 0 {
        0
    } else {
        digits_value(s.drop_last()) * 10 + ((s.last() as u32) - 48) as nat
    }
}

/// The digits of an unsigned number: without its `+` sign, if it has one
/// and something follows it.
pub open spec fn unsigned_digits(s: Seq<char>) -> Seq<char> {
    if s.len() > 1 && s[0] == '+' {
        s.drop_first()
    } else {
        s
    }
}

/// What `str::parse::<u32>` gives: the value of an optional `+` followed by
/// at least one digit and nothing else, when it fits in `u32`.
pub open spec fn parsed_u32(s: Seq<char>) -> Option<u32> {
    let d = unsigned_digits(s);
    if d.len() > 0 && (forall|i: int| 0 <= i < d.len() ==> is_digit(#[trigger] d[i]))
        && digits_value(d) <= u32::MAX {
        Some(digits_value(d) as u32)
    } else {
        None
    }
}

pub(crate) proof fn lemma_prefix_value(d: Seq<char>, k: int)
    requires
        0 <= k <= d.len(),
        forall|i: int| 0 <= i < d.len() ==> is_digit(#[trigger] d[i]),
    ensures
        digits_value(d.take(k)) <= digits_value(d),
    decreases d.len(),
{
    if k < d.len() {
        let e = d.drop_last();
        assert forall|i: int| 0 <= i < e.len() implies is_digit(#[trigger] e[i]) by {
            assert(e[i] == d[i]);
        }
        lemma_prefix_value(e, k);
        assert(e.take(k) == d.take(k));
    } else {
        assert(d.take(k) == d);
    }
}

/// `s` read as a `u32`, as `str::parse::<u32>` reads it.
pub fn parse_u32(s: &str) -> (r: Option<u32>)
    ensures
        r == parsed_u32(s@),
{
    let v = chars_of(s);
    let n: usize = v.len();
    let start: usize = if n > 1 && v[0] == '+' {
        1
    } else {
        0
    };
    let ghost d = unsigned_digits(v@);
    assert(d == v@.subrange(start as int, n as int));
    if start == n {
        return None;
    }
    let mut acc: u64 = 0;
    let mut i: usize = start;
    while i < n
        invariant
            v@ == s@,
            n == v@.len(),
            start <= i <= n,
            d == v@.subrange(start as int, n as int),
            d == unsigned_digits(s@),
            acc == digits_value(d.take(i - start)),
            acc <= u32::MAX,
            forall|j: int| 0 <= j < i - start ==> is_digit(#[trigger] d[j]),
        decreases n - i,
    {
        let c = v[i];
        let code: u32 = c as u32;
        if code < 48 || code > 57 {
            assert(d[i - start] == c);
            assert(!is_digit(d[i - start]));
            return None;
        }
        assert(d.take(i - start + 1).drop_last() == d.take(i - start));
        assert(d.take(i - start + 1).last() == c);
        acc = acc * 10 + ((code - 48) as u64);
        assert(acc == digits_value(d.take(i - start + 1)));
        if acc > 0xFFFF_FFFF {
            proof {
                let k: int = i - start + 1;
                if forall|j: int| 0 <= j < d.len() ==> is_digit(#[trigger] d[j]) {
                    lemma_prefix_value(d, k);
                    assert(digits_value(d) > u32::MAX);
                }
            }
            return None;
        }
        i = i + 1;
    }
    assert(d.take(n - start) == d);
    Some(acc as u32)
}

pub(crate) proof fn lemma_decimal_digits(n: nat)
    ensures
        decimal_nat(n).len() > 0,
        forall|i: int| 0 <= i < decimal_nat(n).len() ==> is_digit(#[trigger] decimal_nat(n)[i]),
        digits_value(decimal_nat(n)) == n,
    decreases n,
{
    let d = decimal_nat(n);
    assert(digit_char(n % 10) as u32 == n % 10 + 48);
    if n < 10 {
        assert(d == seq![digit_char(n)]);
        assert(d.drop_last() =~= Seq::<char>::empty());
        assert(d.last() == digit_char(n % 10));
        assert(digits_value(d) == digits_value(d.drop_last()) * 10 + ((d.last() as u32) - 48) as nat);
    } else {
        lemma_decimal_digits(n / 10);
        let e = decimal_nat(n / 10);
        assert(d == e.push(digit_char(n % 10)));
        assert(d.drop_last() == e);
        assert(d.last() == digit_char(n % 10));
        assert(digits_value(d) == digits_value(e) * 10 + ((d.last() as u32) - 48) as nat);
        assert forall|i: int| 0 <= i < d.len() implies is_digit(#[trigger] d[i]) by {
            if i < e.len() {
                assert(d[i] == e[i]);
            }
        }
    }
}

/// Reading back what `Display` writes for a `u32` gives the number again.
pub proof fn lemma_parse_reads_decimal(n: u32)
    ensures
        parsed_u32(decimal_nat(n as nat)) == Some(n),
{
    lemma_decimal_digits(n as nat);
    let d = decimal_nat(n as nat);
    assert(is_digit(d[0]));
    assert(unsigned_digits(d) == d);
}

/// A Discord user id as the signed database column holds it: the same bits
/// read as `i64`.
pub fn db_user_id(user_id: u64) -> (r: i64)
    ensures
        r == user_id as i64,
        r as int == if user_id <= i64::MAX {
            user_id as int
        } else {
            user_id - 0x1_0000_0000_0000_0000
        },
{
    let r: i64 = user_id as i64;
    assert(r as int == if user_id <= i64::MAX {
        user_id as int
    } else {
        user_id - 0x1_0000_0000_0000_0000
    }) by (bit_vector)
        requires
            r == user_id as i64,
    ;
    r
}

} // verus!
