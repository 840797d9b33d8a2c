//! Verified building blocks for writing the JSON wire format.
//!
//! The bridge writes two things upstream and downstream: command frames
//! and state snapshots.  Both are JSON, built from these primitives:
//! decimal digit strings, string escaping, and exact decimal numbers.

use vstd::prelude::*;

use crate::decimal::{digits_val, pow10, Decimal};

verus! {

/// The decimal digit string of a number, most significant digit first.
pub open spec fn digits_of(n: nat) -> Seq<u8>
    decreases n,
{
    if n < 10 {
        seq![(0x30 + n) as u8]
    } else {
        digits_of(n / 10).push((0x30 + n % 10) as u8)
    }
}

pub proof fn lemma_digits_of_len(n: nat, k: nat)
    requires
        n < pow10(k),
        k >= 1,
    ensures
        1 <= digits_of(n).len() <= k,
    decreases k,
{
    if n < 10 {
    } else {
        assert(pow10(k) == 10 * pow10((k - 1) as nat));
        lemma_digits_of_len(n / 10, (k - 1) as nat);
    }
}

/// A run of zero digits.
pub open spec fn zero_seq(k: nat) -> Seq<u8> {
    Seq::new(k, |i: int| 0x30u8)
}

/// Appends a byte string.
pub fn push_bytes(out: &mut Vec<u8>, s: &[u8])
    ensures
        final(out)@ == old(out)@ + s@,
{
    let n: usize = s.len();
    let mut i: usize = 0;
    while i < n
        invariant
            0 <= i <= n,
            n == s@.len(),
            out@ == old(out)@ + s@.subrange(0, i as int),
        decreases n - i,
    {
        out.push(s[i]);
        proof {
            assert(old(out)@ + s@.subrange(0, i as int + 1) =~= out@);
        }
        i = i + 1;
    }
    proof {
        assert(s@.subrange(0, n as int) =~= s@);
    }
}

/// Appends the digit string of a 64-bit number.
pub fn push_u64_digits(out: &mut Vec<u8>, x: u64)
    ensures
        final(out)@ == old(out)@ + digits_of(x as nat),
    decreases x,
{
    if x < 10 {
        out.push(0x30 + x as u8);
        proof {
            assert(old(out)@ + digits_of(x as nat) =~= out@);
        }
    } else {
        push_u64_digits(out, x / 10);
        out.push(0x30 + (x % 10) as u8);
        proof {
            assert(old(out)@ + digits_of(x as nat) =~= out@);
        }
    }
}

/// Appends the digit string of a 128-bit number.
pub fn push_u128_digits(out: &mut Vec<u8>, x: u128)
    ensures
        final(out)@ == old(out)@ + digits_of(x as nat),
    decreases x,
{
    if x < 10 {
        out.push(0x30 + x as u8);
        proof {
            assert(old(out)@ + digits_of(x as nat) =~= out@);
        }
    } else {
        push_u128_digits(out, x / 10);
        out.push(0x30 + (x % 10) as u8);
        proof {
            assert(old(out)@ + digits_of(x as nat) =~= out@);
        }
    }
}

/// How one byte of string content is written: the short escapes for the
/// quote, the backslash and the common control characters, a hexadecimal
/// escape for the other control characters, and every other byte as
/// itself.
pub open spec fn esc_byte(b: u8) -> Seq<u8> {
    if b == 0x22 {
        seq![0x5c, 0x22]
    } else if b == 0x5c {
        seq![0x5c, 0x5c]
    } else if b == 0x08 {
        seq![0x5c, 0x62]
    } else if b == 0x09 {
        seq![0x5c, 0x74]
    } else if b == 0x0a {
        seq![0x5c, 0x6e]
    } else if b == 0x0c {
        seq![0x5c, 0x66]
    } else if b == 0x0d {
        seq![0x5c, 0x72]
    } else if b < 0x20 {
        seq![0x5c, 0x75, 0x30, 0x30, hex_digit_lower((b / 16) as nat), hex_digit_lower(
            (b % 16) as nat,
        )]
    } else {
        seq![b]
    }
}

/// A lowercase hexadecimal digit.
pub open spec fn hex_digit_lower(v: nat) -> u8 {
    if v < 10 {
        (0x30 + v) as u8
    } else {
        (0x61 + (v - 10)) as u8
    }
}

/// The escaped form of a whole byte string, from `i` on.
pub open spec fn esc_from(s: Seq<u8>, i: int) -> Seq<u8>
    decreases s.len() - i
        when 0 <= i <= s.len()
{
    if i >= s.len() {
        Seq::empty()
    } else {
        esc_byte(s[i]) + esc_from(s, i + 1)
    }
}

/// The escaped form of a whole byte string.
pub open spec fn esc_bytes(s: Seq<u8>) -> Seq<u8> {
    esc_from(s, 0)
}

/// Appends the escaped form of a byte string.
pub fn push_escaped(out: &mut Vec<u8>, s: &[u8])
    ensures
        final(out)@ == old(out)@ + esc_bytes(s@),
{
    let n: usize = s.len();
    let mut i: usize = 0;
    while i < n
        invariant
            0 <= i <= n,
            n == s@.len(),
            old(out)@ + esc_bytes(s@) == out@ + esc_from(s@, i as int),
        decreases n - i,
    {
        let ghost before = out@;
        let b: u8 = s[i];
        if b == 0x22 {
            out.push(0x5c);
            out.push(0x22);
        } else if b == 0x5c {
            out.push(0x5c);
            out.push(0x5c);
        } else if b == 0x08 {
            out.push(0x5c);
            out.push(0x62);
        } else if b == 0x09 {
            out.push(0x5c);
            out.push(0x74);
        } else if b == 0x0a {
            out.push(0x5c);
            out.push(0x6e);
        } else if b == 0x0c {
            out.push(0x5c);
            out.push(0x66);
        } else if b == 0x0d {
            out.push(0x5c);
            out.push(0x72);
        } else if b < 0x20 {
            out.push(0x5c);
            out.push(0x75);
            out.push(0x30);
            out.push(0x30);
            out.push(if b / 16 < 10 {
                0x30 + b / 16
            } else {
                0x61 + (b / 16 - 10)
            });
            out.push(if b % 16 < 10 {
                0x30 + b % 16
            } else {
                0x61 + (b % 16 - 10)
            });
        } else {
            out.push(b);
        }
        proof {
            assert(out@ =~= before + esc_byte(s@[i as int]));
            assert(before + esc_byte(s@[i as int]) + esc_from(s@, i as int + 1) =~= before
                + esc_from(s@, i as int));
        }
        i = i + 1;
    }
    proof {
        assert(esc_from(s@, n as int) =~= Seq::<u8>::empty());
        assert(out@ + Seq::<u8>::empty() =~= out@);
    }
}

/// The written form of an exact decimal: the sign, the integer digits,
/// and, when a fractional part was recorded, the point and the fractional
/// digits padded to their recorded width.
pub open spec fn dec_bytes(d: Decimal) -> Seq<u8> {
    let sign: Seq<u8> = if d.neg {
        seq![0x2d]
    } else {
        Seq::empty()
    };
    let frac: Seq<u8> = if d.frac_len == 0 {
        Seq::empty()
    } else {
        seq![0x2e] + zero_seq((d.frac_len - digits_of(d.frac as nat).len()) as nat) + digits_of(
            d.frac as nat,
        )
    };
    sign + digits_of(d.units as nat) + frac
}

/// Appends the written form of an exact decimal.
pub fn push_decimal(out: &mut Vec<u8>, d: &Decimal)
    requires
        d.wf(),
    ensures
        final(out)@ == old(out)@ + dec_bytes(*d),
{
    if d.neg {
        out.push(0x2d);
    }
    push_u64_digits(out, d.units);
    if d.frac_len > 0 {
        out.push(0x2e);
        let mut fd: Vec<u8> = Vec::new();
        push_u64_digits(&mut fd, d.frac);
        proof {
            lemma_digits_of_len(d.frac as nat, d.frac_len as nat);
        }
        let pad: u64 = d.frac_len - (fd.len() as u64);
        let mut p: u64 = 0;
        while p < pad
            invariant
                0 <= p <= pad,
                out@ == old(out)@ + dec_sign_units(*d) + seq![0x2eu8] + zero_seq(p as nat),
            decreases pad - p,
        {
            let ghost before = out@;
            out.push(0x30);
            proof {
                assert(before + seq![0x30u8] =~= old(out)@ + dec_sign_units(*d) + seq![0x2eu8]
                    + zero_seq(p as nat + 1));
            }
            p = p + 1;
        }
        push_bytes(out, fd.as_slice());
        proof {
            assert(out@ =~= old(out)@ + dec_bytes(*d));
        }
    } else {
        proof {
            assert(out@ =~= old(out)@ + dec_bytes(*d));
        }
    }
}

/// The sign and integer digits of a decimal.
pub open spec fn dec_sign_units(d: Decimal) -> Seq<u8> {
    (if d.neg {
        seq![0x2du8]
    } else {
        Seq::<u8>::empty()
    }) + digits_of(d.units as nat)
}

} // verus!
