//! Signed decimal numbers as ASCII text.

use vstd::prelude::*;

verus! {

/// The ASCII digit for `d`.
pub open spec fn digit_byte(d: int) -> u8 {
    (48 + d) as u8
}

/// Whether `b` is an ASCII digit.
pub open spec fn is_digit(b: u8) -> bool {
    48 <= b <= 57
}

/// The decimal digits of `n`, most significant first, without leading zeros.
pub open spec fn digits(n: nat) -> Seq<u8>
    decreases n,
{
    if n < 10 {
        seq![digit_byte(n as int)]
    } else {
        digits(n / 10).push(digit_byte((n % 10) as int))
    }
}

/// The decimal text of `i`: a minus sign for a negative number, then its
/// digits.
pub open spec fn decimal(i: int) -> Seq<u8> {
    if i < 0 {
        seq![45u8] + digits((-i) as nat)
    } else {
        digits(i as nat)
    }
}

/// Whether every byte of `s` is an ASCII digit.
pub open spec fn all_digits(s: Seq<u8>) -> bool {
    forall|i: int| 0 <= i < s.len() ==> is_digit(#[trigger] s[i])
}

/// The number that the digits `s` spell, leading zeros allowed.
pub open spec fn digits_value(s: Seq<u8>) -> nat
    decreases s.len(),
{
    if s.len() == 0 {
        0
    } else {
        (digits_value(s.drop_last()) * 10 + (s.last() - 48)) as nat
    }
}

/// The number that the text `s` spells, as `str::parse::<i64>` reads it: an
/// optional `+` or `-`, then at least one digit and nothing else, and a
/// value that an `i64` can hold.
pub open spec fn parse_decimal(s: Seq<u8>) -> Option<i64> {
    if s.len() == 0 {
        None
    } else {
        let signed = s[0] == 43 || s[0] == 45;
        let body = if signed {
            s.skip(1)
        } else {
            s
        };
        if body.len() == 0 || !all_digits(body) {
            None
        } else {
            let magnitude = digits_value(body) as int;
            let value = if s[0] == 45 {
                -magnitude
            } else {
                magnitude
            };
            if i64::MIN <= value <= i64::MAX {
                Some(value as i64)
            } else {
                None
            }
        }
    }
}

/// The digits of a number are digits, and spell that number.
pub proof fn lemma_digits(n: nat)
    ensures
        digits(n).len() >= 1,
        all_digits(digits(n)),
        digits_value(digits(n)) == n,
    decreases n,
{
    if n < 10 {
        assert(digits(n).drop_last() =~= Seq::<u8>::empty());
        assert(digits_value(digits(n).drop_last()) == 0);
    } else {
        lemma_digits(n / 10);
        assert(digits(n).drop_last() =~= digits(n / 10));
    }
}

/// Reading the text of an `i64` gives the number back.
pub proof fn lemma_parse_decimal_of_decimal(i: i64)
    ensures
        parse_decimal(decimal(i as int)) == Some(i),
        decimal(i as int).len() >= 1,
        decimal(i as int)[0] == 45 || is_digit(decimal(i as int)[0]),
        forall|k: int| 1 <= k < decimal(i as int).len() ==> is_digit(#[trigger] decimal(i as int)[k]),
{
    if i < 0 {
        let n = (-(i as int)) as nat;
        lemma_digits(n);
        let s = decimal(i as int);
        assert(s.skip(1) =~= digits(n));
    } else {
        lemma_digits(i as nat);
        let s = decimal(i as int);
        assert(is_digit(s[0]));
        assert(s[0] != 43 && s[0] != 45);
    }
}

/// The digits of `n`.
pub fn format_u64(n: u64) -> (r: Vec<u8>)
    ensures
        r@ == digits(n as nat),
        r@ == decimal(n as int),
{
    let mut rest: u64 = n;
    let mut reversed: Vec<u8> = Vec::new();
    reversed.push(48 + (rest % 10) as u8);
    rest = rest / 10;
    while rest > 0
        invariant
            reversed@.len() >= 1,
            (if rest == 0 {
                Seq::<u8>::empty()
            } else {
                digits(rest as nat)
            }) + reversed@.reverse() == digits(n as nat),
        decreases rest,
    {
        let ghost before = reversed@;
        let ghost prev = rest;
        reversed.push(48 + (rest % 10) as u8);
        rest = rest / 10;
        proof {
            assert(reversed@.reverse() =~= seq![digit_byte((prev % 10) as int)] + before.reverse());
            if rest == 0 {
                assert(digits(prev as nat) =~= seq![digit_byte((prev % 10) as int)]);
                assert(Seq::<u8>::empty() + reversed@.reverse() =~= digits(prev as nat)
                    + before.reverse());
            } else {
                assert(digits(prev as nat) =~= digits(rest as nat).push(
                    digit_byte((prev % 10) as int),
                ));
                assert(digits(rest as nat) + reversed@.reverse() =~= digits(prev as nat)
                    + before.reverse());
            }
        }
    }
    let mut out: Vec<u8> = Vec::new();
    let mut k: usize = reversed.len();
    while k > 0
        invariant
            k <= reversed@.len(),
            out@ == reversed@.reverse().take(reversed@.len() - k),
        decreases k,
    {
        k -= 1;
        out.push(reversed[k]);
        assert(out@ =~= reversed@.reverse().take(reversed@.len() - k));
    }
    proof {
        assert(reversed@.reverse().take(reversed@.len() as int) =~= reversed@.reverse());
        assert(Seq::<u8>::empty() + reversed@.reverse() =~= reversed@.reverse());
    }
    out
}

/// The text of `i`.
pub fn format_i64(i: i64) -> (r: Vec<u8>)
    ensures
        r@ == decimal(i as int),
{
    if i < 0 {
        // The magnitude of i64::MIN does not fit an i64, so count in u64.
        let magnitude: u64 = (-(i + 1)) as u64 + 1;
        let mut out: Vec<u8> = Vec::new();
        out.push(45);
        let tail = format_u64(magnitude);
        crate::octets::append_bytes(&mut out, tail.as_slice());
        out
    } else {
        format_u64(i as u64)
    }
}

/// The text of `n`.
pub fn format_usize(n: usize) -> (r: Vec<u8>)
    ensures
        r@ == decimal(n as int),
{
    format_u64(n as u64)
}

/// Reads the number that `s` spells, as `str::parse::<i64>` would.
pub fn parse_i64(s: &[u8]) -> (r: Option<i64>)
    ensures
        r == parse_decimal(s@),
{
    if s.len() == 0 {
        return None;
    }
    let negative = s[0] == 45;
    let start: usize = if s[0] == 43 || s[0] == 45 {
        1
    } else {
        0
    };
    if start == s.len() {
        assert(s@.skip(1).len() == 0);
        return None;
    }
    let ghost body = s@.skip(start as int);
    proof {
        assert(s@.skip(0) =~= s@);
    }
    // Count downwards for a negative number, so that i64::MIN is reached.
    let mut acc: i64 = 0;
    let mut overflow = false;
    let mut i: usize = start;
    while i < s.len()
        invariant
            start <= i <= s@.len(),
            s@.len() > 0,
            negative == (s@[0] == 45),
            start == (if s@[0] == 43 || s@[0] == 45 { 1usize } else { 0usize }),
            body == (if s@[0] == 43 || s@[0] == 45 { s@.skip(1) } else { s@ }),
            body.len() == s@.len() - start,
            forall|j: int| 0 <= j < body.len() ==> body[j] == s@[j + start],
            forall|j: int| 0 <= j < i - start ==> is_digit(#[trigger] body[j]),
            !overflow ==> acc == (if negative {
                -(digits_value(body.take(i - start)) as int)
            } else {
                digits_value(body.take(i - start)) as int
            }),
            overflow ==> (if negative {
                -(digits_value(body.take(i - start)) as int) < i64::MIN
            } else {
                digits_value(body.take(i - start)) as int > i64::MAX
            }),
        decreases s@.len() - i,
    {
        let b = s[i];
        if b < 48 || b > 57 {
            assert(body[i - start] == b);
            assert(!all_digits(body));
            return None;
        }
        let d: i64 = (b - 48) as i64;
        proof {
            let next = body.take(i - start + 1);
            assert(next.drop_last() =~= body.take(i - start));
            assert(next.last() == b);
        }
        if !overflow {
            let step = if negative {
                match acc.checked_mul(10) {
                    Some(t) => t.checked_sub(d),
                    None => None,
                }
            } else {
                match acc.checked_mul(10) {
                    Some(t) => t.checked_add(d),
                    None => None,
                }
            };
            match step {
                Some(v) => {
                    acc = v;
                },
                None => {
                    overflow = true;
                },
            }
        }
        i += 1;
    }
    proof {
        assert(body.take(i - start) =~= body);
        assert(all_digits(body));
    }
    if overflow {
        None
    } else {
        Some(acc)
    }
}

} // verus!
