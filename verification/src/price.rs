//! Prices: reading a non-negative decimal amount, dividing it by the occupant
//! count, rounding to whole cents (ties away from zero), and printing the
//! result with exactly two digits after the decimal point.

use crate::lines::find_char;
use crate::num::{
    all_digits, dec_str, dec_val, digit_char, digit_to_str, digit_val, format_u64, is_digit_char,
    parse_u64,
};
use vstd::prelude::*;

verus! {

/// Why a per-person price could not be computed.
#[derive(Clone, Copy, Debug, PartialEq, Eq, Structural)]
pub enum PriceError {
    /// The price text is not a plain decimal of at most fifteen digits with
    /// at most nine of them after the point.
    Malformed,
    /// The occupant count is zero; the division is refused, never performed.
    DivisionByZero,
}

pub open spec fn pow10(n: nat) -> nat
    decreases n,
{
    if n == 0 {
        1
    } else {
        10 * pow10((n - 1) as nat)
    }
}

/// Concrete powers of ten the proofs lean on.
pub proof fn lemma_pow10_values()
    ensures
        pow10(9nat) == 1_000_000_000,
        pow10(15nat) == 1_000_000_000_000_000,
{
    assert(pow10(0nat) == 1);
    assert(pow10(1nat) == 10);
    assert(pow10(2nat) == 100);
    assert(pow10(3nat) == 1000);
    assert(pow10(4nat) == 10000);
    assert(pow10(5nat) == 100000);
    assert(pow10(6nat) == 1000000);
    assert(pow10(7nat) == 10000000);
    assert(pow10(8nat) == 100000000);
    assert(pow10(9nat) == 1000000000);
    assert(pow10(10nat) == 10000000000);
    assert(pow10(11nat) == 100000000000);
    assert(pow10(12nat) == 1000000000000);
    assert(pow10(13nat) == 10000000000000);
    assert(pow10(14nat) == 100000000000000);
    assert(pow10(15nat) == 1000000000000000);
}

/// A digit string of length `n` denotes a value below `10^n`.
pub proof fn lemma_dec_val_bound(s: Seq<char>)
    requires
        all_digits(s),
    ensures
        dec_val(s) < pow10(s.len()),
    decreases s.len(),
{
    if s.len() > 0 {
        lemma_dec_val_bound(s.drop_last());
        assert(all_digits(s.drop_last()));
        assert(digit_val(s.last()) <= 9) by {
            assert(is_digit_char(s.last()));
        }
    }
}

pub proof fn lemma_pow10_adds(a: nat, b: nat)
    ensures
        pow10(a + b) == pow10(a) * pow10(b),
    decreases a,
{
    if a == 0 {
        assert(pow10(a) == 1);
        assert(a + b == b);
        assert(pow10(a + b) == 1 * pow10(b));
    } else {
        lemma_pow10_adds((a - 1) as nat, b);
        assert(pow10((a + b - 1) as nat) == pow10((a - 1) as nat) * pow10(b));
        assert(pow10(a + b) == 10 * pow10((a + b - 1) as nat));
        assert(pow10(a) == 10 * pow10((a - 1) as nat));
        assert(pow10(a + b) == pow10(a) * pow10(b)) by (nonlinear_arith)
            requires
                pow10(a + b) == 10 * pow10((a + b - 1) as nat),
                pow10((a + b - 1) as nat) == pow10((a - 1) as nat) * pow10(b),
                pow10(a) == 10 * pow10((a - 1) as nat),
        ;
    }
}

/// The price grammar: one or more digits, optionally a point and one or more
/// digits, at most fifteen digits in all and at most nine after the point.
/// The result is the amount scaled to an integer, with the count of
/// fractional digits: `"12.5"` denotes `(125, 1)`.
pub open spec fn spec_parse_decimal(s: Seq<char>) -> Option<(nat, nat)> {
    match find_char(s, '.') {
        None => if 1 <= s.len() <= 15 && all_digits(s) {
            Some((dec_val(s), 0))
        } else {
            None
        },
        Some(i) => {
            let ip = s.take(i);
            let fp = s.subrange(i + 1, s.len() as int);
            if 1 <= ip.len() && 1 <= fp.len() <= 9 && ip.len() + fp.len() <= 15 && all_digits(ip)
                && all_digits(fp) {
                Some((dec_val(ip) * pow10(fp.len()) + dec_val(fp), fp.len()))
            } else {
                None
            }
        },
    }
}

/// There is no `c` before index `j`, and `s[j]` is `c`: then `j` is the first
/// occurrence.
pub proof fn lemma_find_char_some(s: Seq<char>, c: char, j: int)
    requires
        0 <= j < s.len(),
        s[j] == c,
        forall|k: int| 0 <= k < j ==> s[k] != c,
    ensures
        find_char(s, c) == Some(j),
    decreases j,
{
    if j > 0 {
        lemma_find_char_some(s.drop_first(), c, j - 1);
    }
}

/// No occurrence at all: the search is empty-handed.
pub proof fn lemma_find_char_none(s: Seq<char>, c: char)
    requires
        forall|k: int| 0 <= k < s.len() ==> s[k] != c,
    ensures
        find_char(s, c) == None::<int>,
    decreases s.len(),
{
    if s.len() > 0 {
        lemma_find_char_none(s.drop_first(), c);
    }
}

/// Ten to the `k`, executable.
fn pow10_u64(k: u64) -> (r: u64)
    requires
        k <= 15,
    ensures
        r == pow10(k as nat),
{
    let mut r: u64 = 1;
    let mut i: u64 = 0;
    while i < k
        invariant
            0 <= i <= k <= 15,
            r == pow10(i as nat),
        decreases k - i,
    {
        proof {
            lemma_pow10_adds(i as nat, (15 - i) as nat);
            lemma_pow10_values();
            assert(pow10((15 - i) as nat) >= pow10(1nat)) by {
                lemma_pow10_increases(1nat, (15 - i) as nat);
            }
            assert(pow10(i as nat) * 10 <= pow10(i as nat) * pow10((15 - i) as nat)) by (
            nonlinear_arith)
                requires
                    pow10((15 - i) as nat) >= 10,
                    pow10(i as nat) >= 0,
            ;
        }
        r = r * 10;
        i = i + 1;
    }
    r
}

pub proof fn lemma_pow10_increases(a: nat, b: nat)
    requires
        a <= b,
    ensures
        pow10(a) <= pow10(b),
    decreases b,
{
    if a < b {
        lemma_pow10_increases(a, (b - 1) as nat);
        assert(pow10((b - 1) as nat) <= 10 * pow10((b - 1) as nat));
    }
}

/// Reads a non-negative decimal amount per the grammar of
/// `spec_parse_decimal`.
pub fn parse_decimal(s: &str) -> (r: Option<(u64, u32)>)
    ensures
        match r {
            Some((num, k)) => spec_parse_decimal(s@) == Some((num as nat, k as nat)) && num
                < pow10(15nat) && k <= 9,
            None => spec_parse_decimal(s@) is None,
        },
{
    let len = s.unicode_len();
    let mut dot: usize = len;
    let mut i: usize = 0;
    while i < len
        invariant
            0 <= i <= len,
            len == s@.len(),
            dot <= len,
            dot == len ==> forall|k: int| 0 <= k < i ==> s@[k] != '.',
            dot < len ==> s@[dot as int] == '.' && (forall|k: int|
                0 <= k < dot ==> s@[k] != '.'),
        decreases len - i,
    {
        if dot == len && s.get_char(i) == '.' {
            dot = i;
        }
        i = i + 1;
    }
    if dot == len {
        proof {
            lemma_find_char_none(s@, '.');
        }
        if len < 1 || len > 15 {
            return None;
        }
        match parse_u64(s) {
            Some(v) => {
                proof {
                    lemma_dec_val_bound(s@);
                    lemma_pow10_increases(s@.len() as nat, 15nat);
                }
                Some((v, 0))
            },
            None => {
                proof {
                    if all_digits(s@) {
                        lemma_dec_val_bound(s@);
                        lemma_pow10_increases(s@.len() as nat, 15nat);
                        lemma_pow10_values();
                    }
                }
                None
            },
        }
    } else {
        proof {
            lemma_find_char_some(s@, '.', dot as int);
        }
        let ip = s.substring_char(0, dot);
        let fp = s.substring_char(dot + 1, len);
        let iplen = dot;
        let fplen = len - dot - 1;
        if iplen < 1 || fplen < 1 || fplen > 9 || iplen + fplen > 15 {
            return None;
        }
        let iv = match parse_u64(ip) {
            Some(v) => v,
            None => {
                proof {
                    if all_digits(ip@) {
                        lemma_dec_val_bound(ip@);
                        lemma_pow10_increases(ip@.len() as nat, 15nat);
                        lemma_pow10_values();
                    }
                }
                return None;
            },
        };
        let fv = match parse_u64(fp) {
            Some(v) => v,
            None => {
                proof {
                    if all_digits(fp@) {
                        lemma_dec_val_bound(fp@);
                        lemma_pow10_increases(fp@.len() as nat, 15nat);
                        lemma_pow10_values();
                    }
                }
                return None;
            },
        };
        proof {
            lemma_dec_val_bound(ip@);
            lemma_dec_val_bound(fp@);
            lemma_pow10_adds(ip@.len() as nat, fp@.len() as nat);
            lemma_pow10_increases((ip@.len() + fp@.len()) as nat, 15nat);
            lemma_pow10_values();
            assert(dec_val(ip@) * pow10(fp@.len() as nat) + dec_val(fp@) < pow10(15nat)) by (
            nonlinear_arith)
                requires
                    dec_val(ip@) < pow10(ip@.len() as nat),
                    dec_val(fp@) < pow10(fp@.len() as nat),
                    pow10(ip@.len() as nat) * pow10(fp@.len() as nat) == pow10(
                        (ip@.len() + fp@.len()) as nat,
                    ),
                    pow10((ip@.len() + fp@.len()) as nat) <= pow10(15nat),
                    pow10(fp@.len() as nat) >= 0,
                    pow10(ip@.len() as nat) >= 1,
            ;
        }
        let p = pow10_u64(fplen as u64);
        proof {
            assert(ip@ =~= s@.take(dot as int));
            assert(fp@ =~= s@.subrange(dot as int + 1, s@.len() as int));
        }
        let num = iv * p + fv;
        proof {
            assert(num as nat == dec_val(ip@) * pow10(fp@.len() as nat) + dec_val(fp@));
            assert(spec_parse_decimal(s@) == Some((num as nat, fplen as nat)));
        }
        Some((num, fplen as u32))
    }
}

/// Division of `a` cents-precursors by `b`, rounded to the nearest whole
/// with halves away from zero: `floor((2a + b) / 2b)`.
pub open spec fn round_div(a: nat, b: nat) -> nat {
    ((2 * a + b) as int / (2 * b) as int) as nat
}

/// The per-person price in cents: the amount `num / 10^k`, divided by `pax`
/// and rounded to the nearest cent, ties away from zero.
pub open spec fn spec_price_cents(num: nat, k: nat, pax: nat) -> nat {
    round_div(100 * num, pow10(k) * pax)
}

/// Computes the rounded per-person cents.
fn price_cents(num: u64, k: u32, pax: u64) -> (r: u64)
    requires
        num < pow10(15nat),
        k <= 9,
        pax >= 1,
    ensures
        r == spec_price_cents(num as nat, k as nat, pax as nat),
{
    let p = pow10_u64(k as u64);
    proof {
        assert(pow10(k as nat) >= 1) by {
            lemma_pow10_increases(0nat, k as nat);
        }
        lemma_pow10_increases(k as nat, 9nat);
        lemma_pow10_values();
        assert((p as u128) * (pax as u128) >= 1 && (p as u128) * (pax as u128) <= 0x1_0000_0000
            * 0xffff_ffff_ffff_ffff) by (nonlinear_arith)
            requires
                1 <= (p as u128) <= 0x1_0000_0000,
                1 <= (pax as u128) <= 0xffff_ffff_ffff_ffff,
        ;
    }
    let den: u128 = (p as u128) * (pax as u128);
    let a: u128 = 200 * (num as u128) + den;
    let q: u128 = a / (2 * den);
    proof {
        assert(q <= 100 * (num as u128)) by (nonlinear_arith)
            requires
                den >= 1,
                q == (200 * (num as u128) + den) / (2 * den),
        ;
            lemma_pow10_values();
    }
    q as u64
}

/// Exactly-two-decimals rendering of a cent count: `1234` becomes `12.34`.
pub open spec fn spec_format_cents(c: nat) -> Seq<char> {
    dec_str(c / 100) + seq!['.'] + seq![digit_char((c % 100) / 10), digit_char(c % 10)]
}

/// Prints a cent count with exactly two digits after the decimal point.
pub fn format_cents(c: u64) -> (r: String)
    ensures
        r@ == spec_format_cents(c as nat),
{
    let mut r = format_u64(c / 100);
    r.append(".");
    r.append(digit_to_str((c % 100) / 10));
    r.append(digit_to_str(c % 10));
    proof {
        reveal_strlit(".");
        assert((c % 100) % 10 == c % 10);
        assert(r@ =~= spec_format_cents(c as nat));
    }
    r
}

/// A decimal rendering is never empty.
pub proof fn lemma_dec_str_nonempty(n: nat)
    ensures
        dec_str(n).len() >= 1,
    decreases n,
{
    if n >= 10 {
        lemma_dec_str_nonempty(n / 10);
    }
}

/// Every price text ends in a decimal point followed by exactly two digits:
/// the two cent digits, nothing after them.
pub proof fn law_two_decimal_digits(c: nat)
    ensures
        spec_format_cents(c).len() >= 4,
        spec_format_cents(c)[spec_format_cents(c).len() - 3] == '.',
        is_digit_char(spec_format_cents(c)[spec_format_cents(c).len() - 2]),
        is_digit_char(spec_format_cents(c)[spec_format_cents(c).len() - 1]),
{
    lemma_dec_str_nonempty(c / 100);
    assert(is_digit_char(digit_char((c % 100) / 10)));
    assert(is_digit_char(digit_char(c % 10)));
}

/// What `price_per_pax` returns for a price text and an occupant count.
pub open spec fn spec_price_per_pax(s: Seq<char>, pax: nat) -> Result<Seq<char>, PriceError> {
    match spec_parse_decimal(s) {
        None => Err(PriceError::Malformed),
        Some((num, k)) => if pax == 0 {
            Err(PriceError::DivisionByZero)
        } else {
            Ok(spec_format_cents(spec_price_cents(num, k, pax)))
        },
    }
}

/// The per-person price: the decimal amount in `price`, divided by `pax`,
/// rounded to whole cents (ties away from zero) and printed with exactly two
/// digits after the point. Fails on a malformed amount, and on `pax == 0`
/// without ever dividing.
pub fn price_per_pax(price: &str, pax: u64) -> (r: Result<String, PriceError>)
    ensures
        ({
            let sp = spec_price_per_pax(price@, pax as nat);
            match r {
                Ok(out) => sp == Ok::<Seq<char>, PriceError>(out@),
                Err(e) => sp == Err::<Seq<char>, PriceError>(e),
            }
        }),
{
    let (num, k) = match parse_decimal(price) {
        Some(v) => v,
        None => {
            return Err(PriceError::Malformed);
        },
    };
    if pax == 0 {
        return Err(PriceError::DivisionByZero);
    }
    proof {
        lemma_pow10_increases(0nat, 15nat);
    }
    let cents = price_cents(num, k, pax);
    Ok(format_cents(cents))
}

} // verus!
