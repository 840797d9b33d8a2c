//! Byte-level text utilities shared by the response decoders.
//!
//! Console replies are ASCII-framed text, so the decoders work on byte
//! strings.  This module gives them verified building blocks: byte
//! comparison, whitespace trimming, searching, and splitting a reply into
//! lines.

use vstd::prelude::*;

verus! {

/// ASCII whitespace as the decoders accept it between tokens: space, tab,
/// line feed, vertical tab, form feed and carriage return.
pub open spec fn is_space(b: u8) -> bool {
    b == 0x20 || b == 0x09 || b == 0x0a || b == 0x0b || b == 0x0c || b == 0x0d
}

/// First index at or after `i` that holds `b`, or the length when `b`
/// does not occur.
pub open spec fn find_byte(s: Seq<u8>, i: int, b: u8) -> int
    decreases s.len() - i
        when 0 <= i <= s.len()
{
    if i < s.len() && s[i] != b {
        find_byte(s, i + 1, b)
    } else {
        i
    }
}

pub proof fn lemma_find_byte(s: Seq<u8>, i: int, b: u8)
    requires
        0 <= i <= s.len(),
    ensures
        i <= find_byte(s, i, b) <= s.len(),
        find_byte(s, i, b) < s.len() ==> s[find_byte(s, i, b)] == b,
        forall|k: int| i <= k < find_byte(s, i, b) ==> s[k] != b,
    decreases s.len() - i,
{
    if i < s.len() && s[i] != b {
        lemma_find_byte(s, i + 1, b);
    }
}

/// Scans for byte `b` starting at `i`.
pub fn scan_byte(s: &[u8], i: usize, b: u8) -> (j: usize)
    requires
        i <= s@.len(),
    ensures
        j == find_byte(s@, i as int, b),
        i <= j <= s@.len(),
{
    proof {
        lemma_find_byte(s@, i as int, b);
    }
    let n: usize = s.len();
    let mut k: usize = i;
    while k < n && s[k] != b
        invariant
            i <= k <= n,
            n == s@.len(),
            find_byte(s@, i as int, b) == find_byte(s@, k as int, b),
        decreases n - k,
    {
        k = k + 1;
    }
    k
}

/// Last index before `j` that holds `b`, or `-1` when `b` does not occur
/// there.
pub open spec fn rfind_byte(s: Seq<u8>, j: int, b: u8) -> int
    decreases j
        when 0 <= j <= s.len()
{
    if j > 0 && s[j - 1] != b {
        rfind_byte(s, j - 1, b)
    } else {
        j - 1
    }
}

pub proof fn lemma_rfind_byte(s: Seq<u8>, j: int, b: u8)
    requires
        0 <= j <= s.len(),
    ensures
        -1 <= rfind_byte(s, j, b) < j,
        rfind_byte(s, j, b) >= 0 ==> s[rfind_byte(s, j, b)] == b,
        forall|k: int| rfind_byte(s, j, b) < k < j ==> s[k] != b,
    decreases j,
{
    if j > 0 && s[j - 1] != b {
        lemma_rfind_byte(s, j - 1, b);
    }
}

/// Scans backwards from `j` for byte `b`, returning the index just after
/// the last occurrence (zero when there is none).
pub fn rscan_byte(s: &[u8], j: usize, b: u8) -> (r: Option<usize>)
    requires
        j <= s@.len(),
    ensures
        match r {
            Some(p) => p < j && p as int == rfind_byte(s@, j as int, b),
            None => rfind_byte(s@, j as int, b) == -1,
        },
{
    proof {
        lemma_rfind_byte(s@, j as int, b);
    }
    let mut k: usize = j;
    while k > 0 && s[k - 1] != b
        invariant
            0 <= k <= j <= s@.len(),
            rfind_byte(s@, j as int, b) == rfind_byte(s@, k as int, b),
        decreases k,
    {
        k = k - 1;
    }
    if k == 0 {
        None
    } else {
        Some(k - 1)
    }
}

/// First index at or after `i` that does not hold whitespace.
pub open spec fn ws_run_end(s: Seq<u8>, i: int) -> int
    decreases s.len() - i
        when 0 <= i <= s.len()
{
    if i < s.len() && is_space(s[i]) {
        ws_run_end(s, i + 1)
    } else {
        i
    }
}

pub proof fn lemma_ws_run_end(s: Seq<u8>, i: int)
    requires
        0 <= i <= s.len(),
    ensures
        i <= ws_run_end(s, i) <= s.len(),
        forall|k: int| i <= k < ws_run_end(s, i) ==> is_space(s[k]),
        ws_run_end(s, i) < s.len() ==> !is_space(s[ws_run_end(s, i)]),
    decreases s.len() - i,
{
    if i < s.len() && is_space(s[i]) {
        lemma_ws_run_end(s, i + 1);
    }
}

/// Skips whitespace starting at `i`.
pub fn skip_spaces(s: &[u8], i: usize) -> (j: usize)
    requires
        i <= s@.len(),
    ensures
        j == ws_run_end(s@, i as int),
        i <= j <= s@.len(),
{
    proof {
        lemma_ws_run_end(s@, i as int);
    }
    let n: usize = s.len();
    let mut k: usize = i;
    while k < n && (s[k] == 0x20 || s[k] == 0x09 || s[k] == 0x0a || s[k] == 0x0b || s[k] == 0x0c
        || s[k] == 0x0d)
        invariant
            i <= k <= n,
            n == s@.len(),
            ws_run_end(s@, i as int) == ws_run_end(s@, k as int),
        decreases n - k,
    {
        k = k + 1;
    }
    k
}

/// Start of the whitespace run that ends just before `j`.
pub open spec fn ws_run_start(s: Seq<u8>, j: int) -> int
    decreases j
        when 0 <= j <= s.len()
{
    if j > 0 && is_space(s[j - 1]) {
        ws_run_start(s, j - 1)
    } else {
        j
    }
}

pub proof fn lemma_ws_run_start(s: Seq<u8>, j: int)
    requires
        0 <= j <= s.len(),
    ensures
        0 <= ws_run_start(s, j) <= j,
        forall|k: int| ws_run_start(s, j) <= k < j ==> is_space(s[k]),
        ws_run_start(s, j) > 0 ==> !is_space(s[ws_run_start(s, j) - 1]),
    decreases j,
{
    if j > 0 && is_space(s[j - 1]) {
        lemma_ws_run_start(s, j - 1);
    }
}

/// Skips whitespace backwards from `j`.
pub fn rskip_spaces(s: &[u8], j: usize) -> (i: usize)
    requires
        j <= s@.len(),
    ensures
        i == ws_run_start(s@, j as int),
        i <= j,
{
    proof {
        lemma_ws_run_start(s@, j as int);
    }
    let mut k: usize = j;
    while k > 0 && (s[k - 1] == 0x20 || s[k - 1] == 0x09 || s[k - 1] == 0x0a || s[k - 1] == 0x0b
        || s[k - 1] == 0x0c || s[k - 1] == 0x0d)
        invariant
            0 <= k <= j <= s@.len(),
            ws_run_start(s@, j as int) == ws_run_start(s@, k as int),
        decreases k,
    {
        k = k - 1;
    }
    k
}

/// The byte string with surrounding whitespace removed.
pub open spec fn spec_trim(s: Seq<u8>) -> Seq<u8> {
    let lo = ws_run_end(s, 0);
    let hi = ws_run_start(s, s.len() as int);
    if lo <= hi {
        s.subrange(lo, hi)
    } else {
        Seq::empty()
    }
}

/// Trims surrounding whitespace from a byte slice.
pub fn trim(s: &[u8]) -> (r: &[u8])
    ensures
        r@ == spec_trim(s@),
{
    let lo: usize = skip_spaces(s, 0);
    let hi: usize = rskip_spaces(s, s.len());
    proof {
        lemma_ws_run_end(s@, 0);
        lemma_ws_run_start(s@, s@.len() as int);
    }
    if lo <= hi {
        vstd::slice::slice_subrange(s, lo, hi)
    } else {
        proof {
            assert(spec_trim(s@) =~= Seq::empty());
        }
        vstd::slice::slice_subrange(s, 0, 0)
    }
}

/// True when the two byte strings hold the same bytes.
pub fn bytes_eq(a: &[u8], b: &[u8]) -> (r: bool)
    ensures
        r == (a@ == b@),
{
    if a.len() != b.len() {
        proof {
            assert(a@ != b@);
        }
        return false;
    }
    let n: usize = a.len();
    let mut k: usize = 0;
    while k < n
        invariant
            0 <= k <= n,
            n == a@.len() == b@.len(),
            forall|m: int| 0 <= m < k ==> a@[m] == b@[m],
        decreases n - k,
    {
        if a[k] != b[k] {
            return false;
        }
        k = k + 1;
    }
    proof {
        assert(a@ =~= b@);
    }
    true
}

/// A reply split into lines: each line ends at a line feed (which is
/// dropped, together with one carriage return just before it), and a last
/// line without a line feed still counts.  An empty reply has no lines.
pub open spec fn spec_lines_from(s: Seq<u8>, i: int) -> Seq<Seq<u8>>
    decreases s.len() - i
        when 0 <= i <= s.len()
        via spec_lines_from_decreases
{
    if i == s.len() {
        Seq::empty()
    } else {
        let nl = find_byte(s, i, 0x0a);
        let end = if nl > i && s[nl - 1] == 0x0d {
            nl - 1
        } else {
            nl
        };
        seq![s.subrange(i, end)] + if nl == s.len() {
            Seq::empty()
        } else {
            spec_lines_from(s, nl + 1)
        }
    }
}

#[via_fn]
proof fn spec_lines_from_decreases(s: Seq<u8>, i: int) {
    if i < s.len() {
        lemma_find_byte(s, i, 0x0a);
    }
}

pub open spec fn spec_lines(s: Seq<u8>) -> Seq<Seq<u8>> {
    spec_lines_from(s, 0)
}

/// Splits a reply into its lines.
pub fn split_lines<'a>(s: &'a [u8]) -> (r: Vec<&'a [u8]>)
    ensures
        r@.map_values(|t: &[u8]| t@) == spec_lines(s@),
{
    let n: usize = s.len();
    let mut out: Vec<&'a [u8]> = Vec::new();
    let mut pos: usize = 0;
    while pos < n
        invariant
            0 <= pos <= n,
            n == s@.len(),
            spec_lines(s@) == out@.map_values(|t: &[u8]| t@) + spec_lines_from(s@, pos as int),
        decreases n - pos,
    {
        let nl: usize = scan_byte(s, pos, 0x0a);
        proof {
            lemma_find_byte(s@, pos as int, 0x0a);
        }
        let end: usize = if nl > pos && s[nl - 1] == 0x0d {
            nl - 1
        } else {
            nl
        };
        let ghost out_before = out@;
        let line: &'a [u8] = vstd::slice::slice_subrange(s, pos, end);
        out.push(line);
        proof {
            assert(out@.map_values(|t: &[u8]| t@) =~= out_before.map_values(|t: &[u8]| t@)
                + seq![line@]);
        }
        if nl == n {
            pos = n;
        } else {
            pos = nl + 1;
        }
    }
    proof {
        assert(spec_lines_from(s@, n as int) =~= Seq::<Seq<u8>>::empty());
        assert(out@.map_values(|t: &[u8]| t@) =~= out@.map_values(|t: &[u8]| t@) + Seq::<
            Seq<u8>,
        >::empty());
    }
    out
}

} // verus!
