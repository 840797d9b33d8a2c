//! Exact decimal numbers as they appear in protocol text.
//!
//! The upstream console prints coordinates, health values and the game
//! clock as plain decimal strings such as `-1027.08` or `0.00`.  The
//! library keeps each of them as the sign, the integer part and the
//! fractional digits it was written with, so parsing is exact and a value
//! serializes back to the digits it came from.

use vstd::prelude::*;

verus! {

/// A decimal number kept exactly as written: an optional minus sign, the
/// digits before the point, and the digits after the point together with
/// their count (so `0.0` and `0.00` stay distinct).
/// A value with `frac_len == 0` was written without a point.
#[derive(Clone, Copy, Debug, PartialEq, Eq)]
pub struct Decimal {
    /// True when the text carried a leading minus sign.
    pub neg: bool,
    /// The digits before the decimal point, as an integer.
    pub units: u64,
    /// The digits after the decimal point, as an integer.
    pub frac: u64,
    /// How many digits the fractional part was written with.
    pub frac_len: u64,
}

pub open spec fn pow10(n: nat) -> nat
    decreases n,
{
    if n == 0 {
        1
    } else {
        10 * pow10((n - 1) as nat)
    }
}

pub proof fn lemma_pow10_pos(n: nat)
    ensures
        pow10(n) >= 1,
    decreases n,
{
    if n > 0 {
        lemma_pow10_pos((n - 1) as nat);
    }
}

pub proof fn lemma_pow10_mono(a: nat, b: nat)
    requires
        a <= b,
    ensures
        pow10(a) <= pow10(b),
    decreases b,
{
    if a < b {
        lemma_pow10_mono(a, (b - 1) as nat);
        lemma_pow10_pos((b - 1) as nat);
    }
}

/// Ten to the nineteenth is the largest power of ten below `u64::MAX`,
/// so a run of at most 19 digits always fits a `u64`.
pub proof fn lemma_pow10_19_fits()
    ensures
        pow10(19) == 10000000000000000000,
{
    assert(pow10(19) == 10000000000000000000) by {
        reveal_with_fuel(pow10, 20);
    }
}

impl Decimal {
    /// The fractional digits fit the recorded width, and the width itself
    /// is bounded so every well-formed value has a digit string that a
    /// `u64` can carry.
    pub open spec fn wf(self) -> bool {
        self.frac_len <= 19 && (self.frac as nat) < pow10(self.frac_len as nat)
    }

    /// A decimal written without a fractional part.
    pub open spec fn is_integer(self) -> bool {
        self.frac_len == 0
    }
}

pub open spec fn is_digit(b: u8) -> bool {
    0x30 <= b <= 0x39
}

/// Numeric value of a digit string, read left to right.
pub open spec fn digits_val(s: Seq<u8>) -> nat
    decreases s.len(),
{
    if s.len() == 0 {
        0
    } else {
        digits_val(s.drop_last()) * 10 + (s.last() - 0x30) as nat
    }
}

pub proof fn lemma_digits_val_bound(s: Seq<u8>)
    requires
        forall|k: int| 0 <= k < s.len() ==> is_digit(s[k]),
    ensures
        digits_val(s) < pow10(s.len()),
    decreases s.len(),
{
    if s.len() == 0 {
    } else {
        lemma_digits_val_bound(s.drop_last());
        assert(pow10(s.len()) == 10 * pow10((s.len() - 1) as nat));
    }
}

/// First index at or after `i` that does not hold an ASCII digit.
pub open spec fn digit_run_end(s: Seq<u8>, i: int) -> int
    decreases s.len() - i
        when 0 <= i <= s.len()
{
    if i < s.len() && is_digit(s[i]) {
        digit_run_end(s, i + 1)
    } else {
        i
    }
}

pub proof fn lemma_digit_run_end(s: Seq<u8>, i: int)
    requires
        0 <= i <= s.len(),
    ensures
        i <= digit_run_end(s, i) <= s.len(),
        forall|k: int| i <= k < digit_run_end(s, i) ==> is_digit(s[k]),
        digit_run_end(s, i) < s.len() ==> !is_digit(s[digit_run_end(s, i)]),
    decreases s.len() - i,
{
    if i < s.len() && is_digit(s[i]) {
        lemma_digit_run_end(s, i + 1);
    }
}

/// Scans the digit run that starts at `i`.
pub fn scan_digits(s: &[u8], i: usize) -> (j: usize)
    requires
        i <= s@.len(),
    ensures
        j == digit_run_end(s@, i as int),
        i <= j <= s@.len(),
{
    proof {
        lemma_digit_run_end(s@, i as int);
    }
    let n: usize = s.len();
    let mut k: usize = i;
    while k < n && 0x30 <= s[k] && s[k] <= 0x39
        invariant
            i <= k <= n,
            n == s@.len(),
            digit_run_end(s@, i as int) == digit_run_end(s@, k as int),
        decreases n - k,
    {
        k = k + 1;
    }
    k
}

/// Reads the value of the digit run `s[i..j]`; at most 19 digits, so the
/// value always fits.
pub fn digits_to_u64(s: &[u8], i: usize, j: usize) -> (r: u64)
    requires
        i <= j <= s@.len(),
        j - i <= 19,
        forall|k: int| i <= k < j ==> is_digit(s@[k]),
    ensures
        r as nat == digits_val(s@.subrange(i as int, j as int)),
        (r as nat) < pow10((j - i) as nat),
{
    let mut k: usize = i;
    let mut acc: u64 = 0;
    proof {
        assert(s@.subrange(i as int, i as int) =~= Seq::<u8>::empty());
    }
    while k < j
        invariant
            i <= k <= j <= s@.len(),
            j - i <= 19,
            forall|m: int| i <= m < j ==> is_digit(s@[m]),
            acc as nat == digits_val(s@.subrange(i as int, k as int)),
            (acc as nat) < pow10((k - i) as nat),
        decreases j - k,
    {
        proof {
            lemma_pow10_mono((k - i) as nat, 18);
            lemma_pow10_19_fits();
            assert(pow10(19) == 10 * pow10(18));
            assert(s@.subrange(i as int, k as int + 1).drop_last() =~= s@.subrange(
                i as int,
                k as int,
            ));
            assert(s@.subrange(i as int, k as int + 1).last() == s@[k as int]);
            assert(pow10((k - i + 1) as nat) == 10 * pow10((k - i) as nat));
        }
        let d: u64 = (s[k] - 0x30) as u64;
        acc = acc * 10 + d;
        k = k + 1;
    }
    acc
}

/// The decimal grammar the library accepts: an optional `+` or `-` sign,
/// one to nineteen integer digits, and optionally a point followed by one
/// to nineteen fractional digits, with nothing left over.
pub open spec fn spec_parse_decimal(s: Seq<u8>) -> Option<Decimal> {
    let start: int = if s.len() > 0 && (s[0] == 0x2d || s[0] == 0x2b) {
        1
    } else {
        0
    };
    let neg = s.len() > 0 && s[0] == 0x2d;
    let j = digit_run_end(s, start);
    if j == start || j - start > 19 {
        None
    } else if j == s.len() {
        Some(
            Decimal {
                neg,
                units: digits_val(s.subrange(start, j)) as u64,
                frac: 0,
                frac_len: 0,
            },
        )
    } else if s[j] == 0x2e {
        let k = digit_run_end(s, j + 1);
        if k == s.len() && k - (j + 1) >= 1 && k - (j + 1) <= 19 {
            Some(
                Decimal {
                    neg,
                    units: digits_val(s.subrange(start, j)) as u64,
                    frac: digits_val(s.subrange(j + 1, k)) as u64,
                    frac_len: (k - j - 1) as u64,
                },
            )
        } else {
            None
        }
    } else {
        None
    }
}

/// Parses a whole byte string as a decimal number.
pub fn parse_decimal(s: &[u8]) -> (r: Option<Decimal>)
    ensures
        r == spec_parse_decimal(s@),
        r matches Some(d) ==> d.wf(),
{
    let n: usize = s.len();
    let start: usize = if n > 0 && (s[0] == 0x2d || s[0] == 0x2b) {
        1
    } else {
        0
    };
    let neg: bool = n > 0 && s[0] == 0x2d;
    let j: usize = scan_digits(s, start);
    proof {
        lemma_digit_run_end(s@, start as int);
    }
    if j == start || j - start > 19 {
        return None;
    }
    proof {
        lemma_digits_val_bound(s@.subrange(start as int, j as int));
        lemma_pow10_mono((j - start) as nat, 19);
        lemma_pow10_19_fits();
    }
    let units: u64 = digits_to_u64(s, start, j);
    if j == n {
        return Some(Decimal { neg, units, frac: 0, frac_len: 0 });
    }
    if s[j] == 0x2e {
        let k: usize = scan_digits(s, j + 1);
        proof {
            lemma_digit_run_end(s@, j as int + 1);
        }
        if k == n && k - (j + 1) >= 1 && k - (j + 1) <= 19 {
            let frac: u64 = digits_to_u64(s, j + 1, k);
            let frac_len: u64 = (k - j - 1) as u64;
            return Some(Decimal { neg, units, frac, frac_len });
        }
        return None;
    }
    None
}

} // verus!
