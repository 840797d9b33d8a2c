//! Verified primitives for the JSON wire format.
//!
//! Both console directions speak JSON: commands and replies travel as JSON
//! objects, and the non-positional player listing is a JSON array.  This
//! module gives the decoders verified primitives for that grammar: string
//! literals with escapes, numbers, whitespace, and a skipper for values
//! whose content a decoder does not consume.
//!
//! The accepted grammar is standard JSON with two stated bounds: a numeric
//! run (integer or fractional digits) may hold at most nineteen digits, so
//! every number fits the exact decimal representation, and a `\u` escape
//! must denote a basic-plane scalar (surrogate pairs are rejected).
//! Exponent notation is not accepted; the console never emits it.

use vstd::prelude::*;

use crate::decimal::{digit_run_end, digits_val, is_digit, lemma_digit_run_end,
    lemma_digits_val_bound, scan_digits, digits_to_u64, Decimal};

verus! {

/// JSON insignificant whitespace: space, tab, line feed, carriage return.
pub open spec fn is_json_ws(b: u8) -> bool {
    b == 0x20 || b == 0x09 || b == 0x0a || b == 0x0d
}

/// First index at or after `i` that does not hold JSON whitespace.
pub open spec fn json_ws_end(s: Seq<u8>, i: int) -> int
    decreases s.len() - i
        when 0 <= i <= s.len()
{
    if i < s.len() && is_json_ws(s[i]) {
        json_ws_end(s, i + 1)
    } else {
        i
    }
}

pub proof fn lemma_json_ws_end(s: Seq<u8>, i: int)
    requires
        0 <= i <= s.len(),
    ensures
        i <= json_ws_end(s, i) <= s.len(),
        json_ws_end(s, i) < s.len() ==> !is_json_ws(s[json_ws_end(s, i)]),
    decreases s.len() - i,
{
    if i < s.len() && is_json_ws(s[i]) {
        lemma_json_ws_end(s, i + 1);
    }
}

/// Skips JSON whitespace starting at `i`.
pub fn skip_json_ws(s: &[u8], i: usize) -> (j: usize)
    requires
        i <= s@.len(),
    ensures
        j == json_ws_end(s@, i as int),
        i <= j <= s@.len(),
{
    proof {
        lemma_json_ws_end(s@, i as int);
    }
    let n: usize = s.len();
    let mut k: usize = i;
    while k < n && (s[k] == 0x20 || s[k] == 0x09 || s[k] == 0x0a || s[k] == 0x0d)
        invariant
            i <= k <= n,
            n == s@.len(),
            json_ws_end(s@, i as int) == json_ws_end(s@, k as int),
        decreases n - k,
    {
        k = k + 1;
    }
    k
}

pub open spec fn is_hex_digit(b: u8) -> bool {
    is_digit(b) || 0x41 <= b <= 0x46 || 0x61 <= b <= 0x66
}

/// Value of one hexadecimal digit.
pub open spec fn hex_val(b: u8) -> nat {
    if is_digit(b) {
        (b - 0x30) as nat
    } else if 0x41 <= b <= 0x46 {
        (b - 0x41 + 10) as nat
    } else if 0x61 <= b <= 0x66 {
        (b - 0x61 + 10) as nat
    } else {
        0
    }
}

/// Reads one hexadecimal digit.
pub fn hex_digit(b: u8) -> (r: Option<u8>)
    ensures
        match r {
            Some(v) => is_hex_digit(b) && v as nat == hex_val(b) && v < 16,
            None => !is_hex_digit(b),
        },
{
    if 0x30 <= b && b <= 0x39 {
        Some(b - 0x30)
    } else if 0x41 <= b && b <= 0x46 {
        Some(b - 0x41 + 10)
    } else if 0x61 <= b && b <= 0x66 {
        Some(b - 0x61 + 10)
    } else {
        None
    }
}

/// The body of a JSON string after the opening quote: `acc` holds the
/// bytes already unescaped, and the result is the full content together
/// with the index just past the closing quote.
pub open spec fn sp_string_body(s: Seq<u8>, i: int, acc: Seq<u8>) -> Option<(Seq<u8>, int)>
    decreases s.len() - i
        when 0 <= i <= s.len()
{
    if i >= s.len() {
        None
    } else {
        let b = s[i];
        if b == 0x22 {
            Some((acc, i + 1))
        } else if b == 0x5c {
            if i + 1 >= s.len() {
                None
            } else {
                let e = s[i + 1];
                if e == 0x22 {
                    sp_string_body(s, i + 2, acc.push(0x22))
                } else if e == 0x5c {
                    sp_string_body(s, i + 2, acc.push(0x5c))
                } else if e == 0x2f {
                    sp_string_body(s, i + 2, acc.push(0x2f))
                } else if e == 0x62 {
                    sp_string_body(s, i + 2, acc.push(0x08))
                } else if e == 0x66 {
                    sp_string_body(s, i + 2, acc.push(0x0c))
                } else if e == 0x6e {
                    sp_string_body(s, i + 2, acc.push(0x0a))
                } else if e == 0x72 {
                    sp_string_body(s, i + 2, acc.push(0x0d))
                } else if e == 0x74 {
                    sp_string_body(s, i + 2, acc.push(0x09))
                } else if e == 0x75 {
                    if i + 6 <= s.len() && is_hex_digit(s[i + 2]) && is_hex_digit(s[i + 3])
                        && is_hex_digit(s[i + 4]) && is_hex_digit(s[i + 5]) {
                        let c = (hex_val(s[i + 2]) * 0x1000 + hex_val(s[i + 3]) * 0x100 + hex_val(
                            s[i + 4],
                        ) * 0x10 + hex_val(s[i + 5])) as u32;
                        if 0xd800 <= c < 0xe000 {
                            None
                        } else {
                            sp_string_body(s, i + 6, acc + vstd::utf8::encode_scalar(c))
                        }
                    } else {
                        None
                    }
                } else {
                    None
                }
            }
        } else if b < 0x20 {
            None
        } else {
            sp_string_body(s, i + 1, acc.push(b))
        }
    }
}

/// A JSON string starting at `i`: its unescaped content and the index
/// just past the closing quote.
pub open spec fn sp_string(s: Seq<u8>, i: int) -> Option<(Seq<u8>, int)> {
    if 0 <= i < s.len() && s[i] == 0x22 {
        sp_string_body(s, i + 1, Seq::empty())
    } else {
        None
    }
}

pub proof fn lemma_sp_string_body_progress(s: Seq<u8>, i: int, acc: Seq<u8>)
    requires
        0 <= i <= s.len(),
    ensures
        sp_string_body(s, i, acc) matches Some(p) ==> i < p.1 <= s.len(),
    decreases s.len() - i,
{
    if i < s.len() {
        let b = s[i];
        if b == 0x22 {
        } else if b == 0x5c && i + 1 < s.len() {
            let e = s[i + 1];
            if e == 0x75 {
                if i + 6 <= s.len() && is_hex_digit(s[i + 2]) && is_hex_digit(s[i + 3])
                    && is_hex_digit(s[i + 4]) && is_hex_digit(s[i + 5]) {
                    let c = (hex_val(s[i + 2]) * 0x1000 + hex_val(s[i + 3]) * 0x100 + hex_val(
                        s[i + 4],
                    ) * 0x10 + hex_val(s[i + 5])) as u32;
                    if !(0xd800 <= c < 0xe000) {
                        lemma_sp_string_body_progress(s, i + 6, acc + vstd::utf8::encode_scalar(c));
                    }
                }
            } else {
                lemma_sp_string_body_progress(s, i + 2, acc.push(0x22));
                lemma_sp_string_body_progress(s, i + 2, acc.push(0x5c));
                lemma_sp_string_body_progress(s, i + 2, acc.push(0x2f));
                lemma_sp_string_body_progress(s, i + 2, acc.push(0x08));
                lemma_sp_string_body_progress(s, i + 2, acc.push(0x0c));
                lemma_sp_string_body_progress(s, i + 2, acc.push(0x0a));
                lemma_sp_string_body_progress(s, i + 2, acc.push(0x0d));
                lemma_sp_string_body_progress(s, i + 2, acc.push(0x09));
            }
        } else if b >= 0x20 && b != 0x5c {
            lemma_sp_string_body_progress(s, i + 1, acc.push(b));
        }
    }
}

pub proof fn lemma_sp_string_progress(s: Seq<u8>, i: int)
    ensures
        sp_string(s, i) matches Some(p) ==> 0 <= i < p.1 <= s.len(),
{
    if 0 <= i < s.len() && s[i] == 0x22 {
        lemma_sp_string_body_progress(s, i + 1, Seq::empty());
    }
}

/// Parses a JSON string starting at `i`, returning its unescaped content
/// and the index just past the closing quote.
pub fn parse_string(s: &[u8], i: usize) -> (r: Option<(Vec<u8>, usize)>)
    requires
        i <= s@.len(),
    ensures
        match r {
            Some(p) => sp_string(s@, i as int) == Some((p.0@, p.1 as int)) && i < p.1 <= s@.len(),
            None => sp_string(s@, i as int) is None,
        },
{
    proof {
        lemma_sp_string_progress(s@, i as int);
    }
    let n: usize = s.len();
    if !(i < n && s[i] == 0x22) {
        return None;
    }
    let mut k: usize = i + 1;
    let mut acc: Vec<u8> = Vec::new();
    proof {
        assert(acc@ =~= Seq::<u8>::empty());
    }
    loop
        invariant
            i + 1 <= k <= n,
            n == s@.len(),
            sp_string(s@, i as int) == sp_string_body(s@, k as int, acc@),
        decreases n - k,
    {
        if k >= n {
            return None;
        }
        let b = s[k];
        if b == 0x22 {
            return Some((acc, k + 1));
        }
        if b == 0x5c {
            if k + 1 >= n {
                return None;
            }
            let e = s[k + 1];
            if e == 0x22 {
                acc.push(0x22);
                k = k + 2;
            } else if e == 0x5c {
                acc.push(0x5c);
                k = k + 2;
            } else if e == 0x2f {
                acc.push(0x2f);
                k = k + 2;
            } else if e == 0x62 {
                acc.push(0x08);
                k = k + 2;
            } else if e == 0x66 {
                acc.push(0x0c);
                k = k + 2;
            } else if e == 0x6e {
                acc.push(0x0a);
                k = k + 2;
            } else if e == 0x72 {
                acc.push(0x0d);
                k = k + 2;
            } else if e == 0x74 {
                acc.push(0x09);
                k = k + 2;
            } else if e == 0x75 {
                if n - k < 6 {
                    return None;
                }
                let h0 = hex_digit(s[k + 2]);
                let h1 = hex_digit(s[k + 3]);
                let h2 = hex_digit(s[k + 4]);
                let h3 = hex_digit(s[k + 5]);
                match (h0, h1, h2, h3) {
                    (Some(v0), Some(v1), Some(v2), Some(v3)) => {
                        let c: u32 = (v0 as u32) * 0x1000 + (v1 as u32) * 0x100 + (v2 as u32)
                            * 0x10 + (v3 as u32);
                        if 0xd800 <= c && c < 0xe000 {
                            return None;
                        }
                        let ghost acc_before = acc@;
                        if c < 0x80 {
                            acc.push((c & 0x7f) as u8);
                        } else if c < 0x800 {
                            acc.push(0xc0 | ((c >> 6) & 0x1f) as u8);
                            acc.push(0x80 | (c & 0x3f) as u8);
                        } else {
                            acc.push(0xe0 | ((c >> 12) & 0x0f) as u8);
                            acc.push(0x80 | ((c >> 6) & 0x3f) as u8);
                            acc.push(0x80 | (c & 0x3f) as u8);
                        }
                        proof {
                            assert(acc@ =~= acc_before + vstd::utf8::encode_scalar(c));
                        }
                        k = k + 6;
                    },
                    _ => {
                        return None;
                    },
                }
            } else {
                return None;
            }
        } else if b < 0x20 {
            return None;
        } else {
            acc.push(b);
            k = k + 1;
        }
    }
}

/// A JSON number starting at `i`: an optional minus sign, an integer part
/// without a superfluous leading zero, and an optional fractional part;
/// each digit run holds at most nineteen digits.  Returns the value and
/// the index just past the last digit.
pub open spec fn sp_number(s: Seq<u8>, i: int) -> Option<(Decimal, int)> {
    if !(0 <= i < s.len()) {
        None
    } else {
        let neg = s[i] == 0x2d;
        let start = if neg {
            i + 1
        } else {
            i
        };
        let j = digit_run_end(s, start);
        if j == start || j - start > 19 {
            None
        } else if j - start > 1 && s[start] == 0x30 {
            None
        } else {
            let units = digits_val(s.subrange(start, j)) as u64;
            if j < s.len() && s[j] == 0x2e {
                let k = digit_run_end(s, j + 1);
                if k == j + 1 || k - (j + 1) > 19 {
                    None
                } else {
                    Some(
                        (
                            Decimal {
                                neg,
                                units,
                                frac: digits_val(s.subrange(j + 1, k)) as u64,
                                frac_len: (k - j - 1) as u64,
                            },
                            k,
                        ),
                    )
                }
            } else {
                Some((Decimal { neg, units, frac: 0, frac_len: 0 }, j))
            }
        }
    }
}

pub proof fn lemma_sp_number_progress(s: Seq<u8>, i: int)
    ensures
        sp_number(s, i) matches Some(p) ==> 0 <= i < p.1 <= s.len(),
{
    if 0 <= i < s.len() {
        let start = if s[i] == 0x2d {
            i + 1
        } else {
            i
        };
        lemma_digit_run_end(s, start);
        let j = digit_run_end(s, start);
        if j < s.len() && s[j] == 0x2e {
            lemma_digit_run_end(s, j + 1);
        }
    }
}

/// Parses a JSON number starting at `i`.
pub fn parse_number(s: &[u8], i: usize) -> (r: Option<(Decimal, usize)>)
    requires
        i <= s@.len(),
    ensures
        match r {
            Some(p) => sp_number(s@, i as int) == Some((p.0, p.1 as int)) && i < p.1 <= s@.len()
                && p.0.wf(),
            None => sp_number(s@, i as int) is None,
        },
{
    proof {
        lemma_sp_number_progress(s@, i as int);
    }
    let n: usize = s.len();
    if i >= n {
        return None;
    }
    let neg: bool = s[i] == 0x2d;
    let start: usize = if neg {
        i + 1
    } else {
        i
    };
    let j: usize = scan_digits(s, start);
    proof {
        lemma_digit_run_end(s@, start as int);
    }
    if j == start || j - start > 19 {
        return None;
    }
    if j - start > 1 && s[start] == 0x30 {
        return None;
    }
    let units: u64 = digits_to_u64(s, start, j);
    if j < n && s[j] == 0x2e {
        let k: usize = scan_digits(s, j + 1);
        proof {
            lemma_digit_run_end(s@, j as int + 1);
        }
        if k == j + 1 || k - (j + 1) > 19 {
            return None;
        }
        proof {
            lemma_digits_val_bound(s@.subrange(j as int + 1, k as int));
        }
        let frac: u64 = digits_to_u64(s, j + 1, k);
        let frac_len: u64 = (k - j - 1) as u64;
        Some((Decimal { neg, units, frac, frac_len }, k))
    } else {
        Some((Decimal { neg, units, frac: 0, frac_len: 0 }, j))
    }
}

/// Next recursion point inside `s`: parsers only move forward and stay
/// inside the text, so this is `j` as soon as that is in evidence.
pub open spec fn nxt_in(s: Seq<u8>, i: int, j: int) -> int {
    if i < j <= s.len() {
        j
    } else {
        i + 1
    }
}

/// End of the JSON value that starts at `i`, or nothing when the text is
/// not well-formed JSON.  The value's content is not kept: decoders use
/// this to pass over object members they do not consume.
pub open spec fn sp_skip_value(s: Seq<u8>, i: int) -> Option<int>
    decreases s.len() - i, 1int
        when 0 <= i <= s.len()
{
    if i >= s.len() {
        None
    } else {
        let b = s[i];
        if b == 0x22 {
            match sp_string(s, i) {
                Some(p) => Some(p.1),
                None => None,
            }
        } else if b == 0x7b {
            sp_skip_members(s, nxt_in(s, i, json_ws_end(s, i + 1)), true)
        } else if b == 0x5b {
            sp_skip_elems(s, nxt_in(s, i, json_ws_end(s, i + 1)), true)
        } else if b == 0x74 {
            if i + 4 <= s.len() && s[i + 1] == 0x72 && s[i + 2] == 0x75 && s[i + 3] == 0x65 {
                Some(i + 4)
            } else {
                None
            }
        } else if b == 0x66 {
            if i + 5 <= s.len() && s[i + 1] == 0x61 && s[i + 2] == 0x6c && s[i + 3] == 0x73 && s[i
                + 4] == 0x65 {
                Some(i + 5)
            } else {
                None
            }
        } else if b == 0x6e {
            if i + 4 <= s.len() && s[i + 1] == 0x75 && s[i + 2] == 0x6c && s[i + 3] == 0x6c {
                Some(i + 4)
            } else {
                None
            }
        } else if b == 0x2d || is_digit(b) {
            match sp_number(s, i) {
                Some(p) => Some(p.1),
                None => None,
            }
        } else {
            None
        }
    }
}

/// End of an array tail: `i` points at the first element, or at `]` when
/// `first` says the array may still be empty.
pub open spec fn sp_skip_elems(s: Seq<u8>, i: int, first: bool) -> Option<int>
    decreases s.len() - i, 2int
        when 0 <= i <= s.len()
{
    if i >= s.len() {
        None
    } else if first && s[i] == 0x5d {
        Some(i + 1)
    } else {
        match sp_skip_value(s, i) {
            None => None,
            Some(j) => {
                let w = json_ws_end(s, nxt_in(s, i, j));
                if w >= s.len() {
                    None
                } else if s[w] == 0x2c {
                    sp_skip_elems(s, nxt_in(s, i, json_ws_end(s, w + 1)), false)
                } else if s[w] == 0x5d {
                    Some(w + 1)
                } else {
                    None
                }
            },
        }
    }
}

/// End of an object tail: `i` points at the first member key, or at `}`
/// when `first` says the object may still be empty.
pub open spec fn sp_skip_members(s: Seq<u8>, i: int, first: bool) -> Option<int>
    decreases s.len() - i, 2int
        when 0 <= i <= s.len()
{
    if i >= s.len() {
        None
    } else if first && s[i] == 0x7d {
        Some(i + 1)
    } else {
        match sp_string(s, i) {
            None => None,
            Some(p) => {
                let c = json_ws_end(s, nxt_in(s, i, p.1));
                if c >= s.len() || s[c] != 0x3a {
                    None
                } else {
                    match sp_skip_value(s, nxt_in(s, i, json_ws_end(s, c + 1))) {
                        None => None,
                        Some(j) => {
                            let w = json_ws_end(s, nxt_in(s, i, j));
                            if w >= s.len() {
                                None
                            } else if s[w] == 0x2c {
                                sp_skip_members(s, nxt_in(s, i, json_ws_end(s, w + 1)), false)
                            } else if s[w] == 0x7d {
                                Some(w + 1)
                            } else {
                                None
                            }
                        },
                    }
                }
            },
        }
    }
}

/// Passes over the JSON value that starts at `i`.
pub fn skip_value(s: &[u8], i: usize) -> (r: Option<usize>)
    requires
        i <= s@.len(),
    ensures
        match r {
            Some(j) => sp_skip_value(s@, i as int) == Some(j as int) && i < j <= s@.len(),
            None => sp_skip_value(s@, i as int) is None,
        },
    decreases s@.len() - i, 1int,
{
    let n: usize = s.len();
    if i >= n {
        return None;
    }
    let b = s[i];
    if b == 0x22 {
        match parse_string(s, i) {
            Some(p) => Some(p.1),
            None => None,
        }
    } else if b == 0x7b {
        let k: usize = skip_json_ws(s, i + 1);
        skip_members(s, k, true)
    } else if b == 0x5b {
        let k: usize = skip_json_ws(s, i + 1);
        skip_elems(s, k, true)
    } else if b == 0x74 {
        if n - i >= 4 && s[i + 1] == 0x72 && s[i + 2] == 0x75 && s[i + 3] == 0x65 {
            Some(i + 4)
        } else {
            None
        }
    } else if b == 0x66 {
        if n - i >= 5 && s[i + 1] == 0x61 && s[i + 2] == 0x6c && s[i + 3] == 0x73 && s[i + 4]
            == 0x65 {
            Some(i + 5)
        } else {
            None
        }
    } else if b == 0x6e {
        if n - i >= 4 && s[i + 1] == 0x75 && s[i + 2] == 0x6c && s[i + 3] == 0x6c {
            Some(i + 4)
        } else {
            None
        }
    } else if b == 0x2d || (0x30 <= b && b <= 0x39) {
        match parse_number(s, i) {
            Some(p) => Some(p.1),
            None => None,
        }
    } else {
        None
    }
}

/// Passes over the tail of an array whose first element (or closing
/// bracket, on `first`) starts at `i`.
fn skip_elems(s: &[u8], i: usize, first: bool) -> (r: Option<usize>)
    requires
        i <= s@.len(),
    ensures
        match r {
            Some(j) => sp_skip_elems(s@, i as int, first) == Some(j as int) && i < j <= s@.len(),
            None => sp_skip_elems(s@, i as int, first) is None,
        },
    decreases s@.len() - i, 2int,
{
    let n: usize = s.len();
    if i >= n {
        return None;
    }
    if first && s[i] == 0x5d {
        return Some(i + 1);
    }
    match skip_value(s, i) {
        None => None,
        Some(j) => {
            let w: usize = skip_json_ws(s, j);
            if w >= n {
                None
            } else if s[w] == 0x2c {
                let k: usize = skip_json_ws(s, w + 1);
                skip_elems(s, k, false)
            } else if s[w] == 0x5d {
                Some(w + 1)
            } else {
                None
            }
        },
    }
}

/// Passes over the tail of an object whose first member key (or closing
/// brace, on `first`) starts at `i`.
fn skip_members(s: &[u8], i: usize, first: bool) -> (r: Option<usize>)
    requires
        i <= s@.len(),
    ensures
        match r {
            Some(j) => sp_skip_members(s@, i as int, first) == Some(j as int) && i < j <= s@.len(),
            None => sp_skip_members(s@, i as int, first) is None,
        },
    decreases s@.len() - i, 2int,
{
    let n: usize = s.len();
    if i >= n {
        return None;
    }
    if first && s[i] == 0x7d {
        return Some(i + 1);
    }
    match parse_string(s, i) {
        None => None,
        Some(p) => {
            let c: usize = skip_json_ws(s, p.1);
            if c >= n || s[c] != 0x3a {
                None
            } else {
                let v: usize = skip_json_ws(s, c + 1);
                match skip_value(s, v) {
                    None => None,
                    Some(j) => {
                        let w: usize = skip_json_ws(s, j);
                        if w >= n {
                            None
                        } else if s[w] == 0x2c {
                            let k: usize = skip_json_ws(s, w + 1);
                            skip_members(s, k, false)
                        } else if s[w] == 0x7d {
                            Some(w + 1)
                        } else {
                            None
                        }
                    },
                }
            }
        },
    }
}

} // verus!
