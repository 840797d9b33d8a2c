//! Decoders for the console's tabular text replies.
//!
//! Three replies are semi-structured text rather than JSON: the game
//! clock, the positional player listing and the tool-cupboard listing.
//! Each decoder states its accepted line grammar as a spec function and is
//! proved to return exactly what the grammar reads.
//!
//! Listing lines anchor on the parenthesized groups from the right, so a
//! display name may hold interior whitespace (or any byte at all) without
//! confusing the decoder.

use vstd::prelude::*;

use crate::decimal::{digit_run_end, digits_val, lemma_digit_run_end, lemma_digits_val_bound,
    scan_digits, digits_to_u64, parse_decimal, spec_parse_decimal, Decimal};
use crate::rcon::{pos_wf, tc_wf, views_of, DecodeError, PlayerPos, PlayerPosList, PlayerPosV,
    RconPosition, ToolCupboard, ToolCupboardV};
use crate::text::{find_byte, rfind_byte, rscan_byte, scan_byte, skip_spaces, rskip_spaces,
    spec_lines, spec_trim, split_lines, trim, ws_run_end, ws_run_start};

verus! {

/// A comma-separated triple of decimal numbers, each component trimmed of
/// surrounding whitespace; anything after a third comma is ignored.
/// Fewer than three components is a line error; an unreadable component is
/// a number error.
pub open spec fn spec_triple(s: Seq<u8>) -> Result<(Decimal, Decimal, Decimal), DecodeError> {
    let c1 = find_byte(s, 0, 0x2c);
    if c1 == s.len() {
        Err(DecodeError::Line)
    } else {
        let c2 = find_byte(s, c1 + 1, 0x2c);
        if c2 == s.len() {
            Err(DecodeError::Line)
        } else {
            let c3 = find_byte(s, c2 + 1, 0x2c);
            match spec_parse_decimal(spec_trim(s.subrange(0, c1))) {
                None => Err(DecodeError::Number),
                Some(d0) => match spec_parse_decimal(spec_trim(s.subrange(c1 + 1, c2))) {
                    None => Err(DecodeError::Number),
                    Some(d1) => match spec_parse_decimal(spec_trim(s.subrange(c2 + 1, c3))) {
                        None => Err(DecodeError::Number),
                        Some(d2) => Ok((d0, d1, d2)),
                    },
                },
            }
        }
    }
}

/// Parses a triple such as `821.94, 0.00, 676.77`.
pub fn parse_float_triple(s: &[u8]) -> (r: Result<(Decimal, Decimal, Decimal), DecodeError>)
    ensures
        r == spec_triple(s@),
        r matches Ok(t) ==> t.0.wf() && t.1.wf() && t.2.wf(),
{
    let n: usize = s.len();
    let c1: usize = scan_byte(s, 0, 0x2c);
    if c1 == n {
        return Err(DecodeError::Line);
    }
    let c2: usize = scan_byte(s, c1 + 1, 0x2c);
    if c2 == n {
        return Err(DecodeError::Line);
    }
    let c3: usize = scan_byte(s, c2 + 1, 0x2c);
    let p0 = parse_decimal(trim(vstd::slice::slice_subrange(s, 0, c1)));
    let d0 = match p0 {
        None => {
            return Err(DecodeError::Number);
        },
        Some(d) => d,
    };
    let p1 = parse_decimal(trim(vstd::slice::slice_subrange(s, c1 + 1, c2)));
    let d1 = match p1 {
        None => {
            return Err(DecodeError::Number);
        },
        Some(d) => d,
    };
    let p2 = parse_decimal(trim(vstd::slice::slice_subrange(s, c2 + 1, c3)));
    let d2 = match p2 {
        None => {
            return Err(DecodeError::Number);
        },
        Some(d) => d,
    };
    Ok((d0, d1, d2))
}

/// The shape of a positional listing line, anchored from the right: the
/// line ends with two parenthesized groups separated and followed only by
/// whitespace, and starts with a seventeen-digit player id.  The group
/// bounds: `l1..r1` encloses the position text, `l2..r2` the rotation
/// text.
pub open spec fn pos_line_shape(s: Seq<u8>) -> (int, int, int, int) {
    let t = ws_run_start(s, s.len() as int);
    let r2 = t - 1;
    let l2 = rfind_byte(s, if r2 >= 0 {
        r2
    } else {
        0
    }, 0x28);
    let m = ws_run_start(s, if l2 >= 0 {
        l2
    } else {
        0
    });
    let r1 = m - 1;
    let l1 = rfind_byte(s, if r1 >= 0 {
        r1
    } else {
        0
    }, 0x28);
    (l1, r1, l2, r2)
}

/// True when the right-anchored shape of a positional line is in place:
/// closing parenthesis at the whitespace-trimmed end, matching opening
/// parentheses, and seventeen digits at the start.
pub open spec fn pos_line_ok(s: Seq<u8>) -> bool {
    let (l1, r1, l2, r2) = pos_line_shape(s);
    &&& r2 >= 0 && s[r2] == 0x29
    &&& l2 >= 0
    &&& r1 >= 0 && s[r1] == 0x29
    &&& l1 >= 17
    &&& digit_run_end(s, 0) >= 17
}

/// What a positional listing line decodes to: the id is the first
/// seventeen digits, the position the first group's triple, the rotation
/// the second group's.
pub open spec fn spec_pos_line(s: Seq<u8>) -> Result<PlayerPosV, DecodeError> {
    let (l1, r1, l2, r2) = pos_line_shape(s);
    if !pos_line_ok(s) {
        Err(DecodeError::Line)
    } else {
        match spec_triple(s.subrange(l1 + 1, r1)) {
            Err(e) => Err(e),
            Ok(position) => match spec_triple(s.subrange(l2 + 1, r2)) {
                Err(e) => Err(e),
                Ok(rotation) => Ok(
                    PlayerPosV { steamd_id: s.subrange(0, 17), position, rotation },
                ),
            },
        }
    }
}

/// Parses one line of the positional player listing, such as
/// `76561198135242017 Jeti        (-1027.08, 0.31, 668.11) (-0.72, 0.00, 0.69)`.
pub fn parse_playerlistpos(s: &[u8]) -> (r: Result<PlayerPos, DecodeError>)
    ensures
        match r {
            Ok(p) => spec_pos_line(s@) == Ok::<PlayerPosV, DecodeError>(p@),
            Err(e) => spec_pos_line(s@) == Err::<PlayerPosV, DecodeError>(e),
        },
        r matches Ok(p) ==> pos_wf(p@),
{
    let n: usize = s.len();
    let t: usize = rskip_spaces(s, n);
    if t == 0 {
        return Err(DecodeError::Line);
    }
    let r2: usize = t - 1;
    if s[r2] != 0x29 {
        return Err(DecodeError::Line);
    }
    let l2: usize = match rscan_byte(s, r2, 0x28) {
        None => {
            return Err(DecodeError::Line);
        },
        Some(p) => p,
    };
    let m: usize = rskip_spaces(s, l2);
    if m == 0 {
        return Err(DecodeError::Line);
    }
    let r1: usize = m - 1;
    if s[r1] != 0x29 {
        return Err(DecodeError::Line);
    }
    let l1: usize = match rscan_byte(s, r1, 0x28) {
        None => {
            return Err(DecodeError::Line);
        },
        Some(p) => p,
    };
    if l1 < 17 {
        return Err(DecodeError::Line);
    }
    let dr: usize = scan_digits(s, 0);
    if dr < 17 {
        return Err(DecodeError::Line);
    }
    let position = match parse_float_triple(vstd::slice::slice_subrange(s, l1 + 1, r1)) {
        Err(e) => {
            return Err(e);
        },
        Ok(tr) => tr,
    };
    let rotation = match parse_float_triple(vstd::slice::slice_subrange(s, l2 + 1, r2)) {
        Err(e) => {
            return Err(e);
        },
        Ok(tr) => tr,
    };
    let id = vstd::slice::slice_to_vec(vstd::slice::slice_subrange(s, 0, 17));
    Ok(PlayerPos { steamd_id: id, position, rotation })
}

/// The shape of a tool-cupboard line: an entity id at the start, one
/// parenthesized triple, and a trailing authorized-user count, separated
/// by whitespace.  The bounds are: end of the id digits, position of the
/// opening parenthesis, position of the closing one, and the start and
/// end of the count digits.
pub open spec fn tc_line_shape(s: Seq<u8>) -> (int, int, int, int, int) {
    let j0 = digit_run_end(s, 0);
    let w = ws_run_end(s, j0);
    let r = rfind_byte(s, s.len() as int, 0x29);
    let a = ws_run_end(s, if 0 <= r + 1 <= s.len() {
        r + 1
    } else {
        0
    });
    let d = digit_run_end(s, a);
    (j0, w, r, a, d)
}

/// True when a tool-cupboard line has its shape: digits, whitespace, an
/// opening parenthesis, a closing one later, whitespace, count digits,
/// and nothing but whitespace after.
pub open spec fn tc_line_ok(s: Seq<u8>) -> bool {
    let (j0, w, r, a, d) = tc_line_shape(s);
    &&& j0 > 0
    &&& w > j0
    &&& w < s.len() && s[w] == 0x28
    &&& r > w
    &&& a > r + 1
    &&& d > a
    &&& ws_run_end(s, d) == s.len()
}

/// What a tool-cupboard line decodes to: the id digits, the triple with
/// its two trailing components swapped into the consumer's axis order,
/// and the count.  A count too wide for its field is a number error.
pub open spec fn spec_tc_line(s: Seq<u8>) -> Result<ToolCupboardV, DecodeError> {
    let (j0, w, r, a, d) = tc_line_shape(s);
    if !tc_line_ok(s) {
        Err(DecodeError::Line)
    } else {
        match spec_triple(s.subrange(w + 1, r)) {
            Err(e) => Err(e),
            Ok(tr) => {
                if d - a > 19 || digits_val(s.subrange(a, d)) > u32::MAX {
                    Err(DecodeError::Number)
                } else {
                    Ok(
                        ToolCupboardV {
                            id: s.subrange(0, j0),
                            position: RconPosition { x: tr.0, y: tr.2, z: tr.1 },
                            auth_count: digits_val(s.subrange(a, d)) as u32,
                        },
                    )
                }
            },
        }
    }
}

/// Parses one line of the tool-cupboard listing, such as
/// `754298   (278.51, 37.18, 83.82)     0`.
pub fn parse_listtoolcupboards(s: &[u8]) -> (r: Result<ToolCupboard, DecodeError>)
    ensures
        match r {
            Ok(c) => spec_tc_line(s@) == Ok::<ToolCupboardV, DecodeError>(c@),
            Err(e) => spec_tc_line(s@) == Err::<ToolCupboardV, DecodeError>(e),
        },
        r matches Ok(c) ==> tc_wf(c@),
{
    let n: usize = s.len();
    let j0: usize = scan_digits(s, 0);
    if j0 == 0 {
        return Err(DecodeError::Line);
    }
    let w: usize = skip_spaces(s, j0);
    if w == j0 || w == n || s[w] != 0x28 {
        return Err(DecodeError::Line);
    }
    let r: usize = match rscan_byte(s, n, 0x29) {
        None => {
            return Err(DecodeError::Line);
        },
        Some(p) => p,
    };
    if r <= w {
        return Err(DecodeError::Line);
    }
    let a: usize = skip_spaces(s, r + 1);
    if a <= r + 1 {
        return Err(DecodeError::Line);
    }
    let d: usize = scan_digits(s, a);
    if d == a {
        return Err(DecodeError::Line);
    }
    let e: usize = skip_spaces(s, d);
    if e != n {
        return Err(DecodeError::Line);
    }
    let tr = match parse_float_triple(vstd::slice::slice_subrange(s, w + 1, r)) {
        Err(err) => {
            return Err(err);
        },
        Ok(tr) => tr,
    };
    if d - a > 19 {
        return Err(DecodeError::Number);
    }
    proof {
        lemma_digit_run_end(s@, a as int);
    }
    let count: u64 = digits_to_u64(s, a, d);
    if count > 0xffffffff {
        return Err(DecodeError::Number);
    }
    let id = vstd::slice::slice_to_vec(vstd::slice::slice_subrange(s, 0, j0));
    Ok(
        ToolCupboard {
            id,
            position: RconPosition { x: tr.0, y: tr.2, z: tr.1 },
            auth_count: count as u32,
        },
    )
}

/// True when the game-clock pattern matches at `i`: the text
/// `env.time:`, whitespace, and a quoted unsigned decimal with digits on
/// both sides of the point (each run at most nineteen digits wide).
pub open spec fn env_time_match_at(s: Seq<u8>, i: int) -> bool {
    let q = ws_run_end(s, i + 9);
    let d1 = digit_run_end(s, q + 1);
    let d2 = digit_run_end(s, d1 + 1);
    &&& 0 <= i
    &&& i + 9 <= s.len()
    &&& s[i] == 0x65 && s[i + 1] == 0x6e && s[i + 2] == 0x76 && s[i + 3] == 0x2e
    &&& s[i + 4] == 0x74 && s[i + 5] == 0x69 && s[i + 6] == 0x6d && s[i + 7] == 0x65 && s[i + 8]
        == 0x3a
    &&& q < s.len() && s[q] == 0x22
    &&& d1 > q + 1 && d1 - (q + 1) <= 19
    &&& d1 < s.len() && s[d1] == 0x2e
    &&& d2 > d1 + 1 && d2 - (d1 + 1) <= 19
    &&& d2 < s.len() && s[d2] == 0x22
}

/// The clock reading at a matching position.
pub open spec fn env_time_value_at(s: Seq<u8>, i: int) -> Decimal {
    let q = ws_run_end(s, i + 9);
    let d1 = digit_run_end(s, q + 1);
    let d2 = digit_run_end(s, d1 + 1);
    Decimal {
        neg: false,
        units: digits_val(s.subrange(q + 1, d1)) as u64,
        frac: digits_val(s.subrange(d1 + 1, d2)) as u64,
        frac_len: (d2 - d1 - 1) as u64,
    }
}

/// The clock reading at the leftmost matching position at or after `i`.
pub open spec fn spec_env_time_from(s: Seq<u8>, i: int) -> Option<Decimal>
    decreases s.len() - i
        when 0 <= i <= s.len()
{
    if i >= s.len() {
        None
    } else if env_time_match_at(s, i) {
        Some(env_time_value_at(s, i))
    } else {
        spec_env_time_from(s, i + 1)
    }
}

/// The game clock read from free text: the value at the leftmost position
/// where the pattern matches, if any.
pub open spec fn spec_env_time(s: Seq<u8>) -> Option<Decimal> {
    spec_env_time_from(s, 0)
}

/// Tries the clock pattern at one position.
fn try_env_time_at(s: &[u8], i: usize) -> (r: Option<Decimal>)
    requires
        i < s@.len(),
    ensures
        match r {
            Some(d) => env_time_match_at(s@, i as int) && d == env_time_value_at(s@, i as int)
                && d.wf(),
            None => !env_time_match_at(s@, i as int),
        },
{
    let n: usize = s.len();
    if n - i < 9 {
        return None;
    }
    if !(s[i] == 0x65 && s[i + 1] == 0x6e && s[i + 2] == 0x76 && s[i + 3] == 0x2e && s[i + 4]
        == 0x74 && s[i + 5] == 0x69 && s[i + 6] == 0x6d && s[i + 7] == 0x65 && s[i + 8] == 0x3a) {
        return None;
    }
    let q: usize = skip_spaces(s, i + 9);
    if q == n || s[q] != 0x22 {
        return None;
    }
    let d1: usize = scan_digits(s, q + 1);
    if d1 == q + 1 || d1 - (q + 1) > 19 {
        return None;
    }
    if d1 == n || s[d1] != 0x2e {
        return None;
    }
    let d2: usize = scan_digits(s, d1 + 1);
    if d2 == d1 + 1 || d2 - (d1 + 1) > 19 {
        return None;
    }
    if d2 == n || s[d2] != 0x22 {
        return None;
    }
    proof {
        lemma_digit_run_end(s@, q as int + 1);
        lemma_digit_run_end(s@, d1 as int + 1);
        lemma_digits_val_bound(s@.subrange(d1 as int + 1, d2 as int));
    }
    let units: u64 = digits_to_u64(s, q + 1, d1);
    let frac: u64 = digits_to_u64(s, d1 + 1, d2);
    Some(Decimal { neg: false, units, frac, frac_len: (d2 - d1 - 1) as u64 })
}

/// Extracts the game clock from the `env.time` reply, such as
/// `env.time: "10.63853"`.  Yields nothing when the pattern does not
/// match anywhere; the caller then keeps its previous clock value.
pub fn env_time(response: &[u8]) -> (r: Option<Decimal>)
    ensures
        r == spec_env_time(response@),
        r matches Some(d) ==> d.wf(),
{
    let n: usize = response.len();
    let mut i: usize = 0;
    while i < n
        invariant
            0 <= i <= n,
            n == response@.len(),
            spec_env_time(response@) == spec_env_time_from(response@, i as int),
        decreases n - i,
    {
        match try_env_time_at(response, i) {
            Some(d) => {
                return Some(d);
            },
            None => {},
        }
        i = i + 1;
    }
    None
}

/// The decoded positional listing lines, first error first.
pub open spec fn spec_pos_lines(ls: Seq<Seq<u8>>) -> Result<Seq<PlayerPosV>, DecodeError>
    decreases ls.len(),
{
    if ls.len() == 0 {
        Ok(Seq::empty())
    } else {
        match spec_pos_line(ls[0]) {
            Err(e) => Err(e),
            Ok(p) => match spec_pos_lines(ls.drop_first()) {
                Err(e) => Err(e),
                Ok(rest) => Ok(seq![p] + rest),
            },
        }
    }
}

/// What the whole positional reply decodes to: every line but the first
/// (the header), in order.
pub open spec fn spec_playerlistpos(s: Seq<u8>) -> Result<Seq<PlayerPosV>, DecodeError> {
    let ls = spec_lines(s);
    if ls.len() == 0 {
        Ok(Seq::empty())
    } else {
        spec_pos_lines(ls.drop_first())
    }
}

/// Decodes the `global.playerlistpos` reply: the header line is
/// discarded, every further line must parse.
pub fn global_playerlistpos(response: &[u8]) -> (r: Result<PlayerPosList, DecodeError>)
    ensures
        match r {
            Ok(v) => spec_playerlistpos(response@) == Ok::<Seq<PlayerPosV>, DecodeError>(
                views_of(v@),
            ),
            Err(e) => spec_playerlistpos(response@) == Err::<Seq<PlayerPosV>, DecodeError>(e),
        },
        r matches Ok(v) ==> forall|m: int| 0 <= m < v@.len() ==> pos_wf(#[trigger] v@[m]@),
{
    let lines = split_lines(response);
    let ghost lviews = lines@.map_values(|t: &[u8]| t@);
    let mut out: Vec<PlayerPos> = Vec::new();
    let m: usize = lines.len();
    if m == 0 {
        proof {
            assert(views_of(out@) =~= Seq::<PlayerPosV>::empty());
        }
        return Ok(out);
    }
    let ghost tail1 = lviews.drop_first();
    proof {
        assert(tail1 =~= lviews.skip(1));
    }
    let mut idx: usize = 1;
    while idx < m
        invariant
            1 <= idx <= m,
            m == lines@.len(),
            lviews == lines@.map_values(|t: &[u8]| t@),
            spec_playerlistpos(response@) == spec_pos_lines(lviews.skip(1)),
            forall|m: int| 0 <= m < out@.len() ==> pos_wf(#[trigger] out@[m]@),
            match spec_pos_lines(lviews.skip(idx as int)) {
                Ok(rest) => spec_pos_lines(lviews.skip(1)) == Ok::<Seq<PlayerPosV>, DecodeError>(
                    views_of(out@) + rest,
                ),
                Err(e) => spec_pos_lines(lviews.skip(1)) == Err::<Seq<PlayerPosV>, DecodeError>(e),
            },
        decreases m - idx,
    {
        let ghost tail = lviews.skip(idx as int);
        proof {
            assert(tail.len() > 0);
            assert(tail[0] == lviews[idx as int]);
            assert(tail.drop_first() =~= lviews.skip(idx as int + 1));
        }
        let ghost out_before = out@;
        match parse_playerlistpos(lines[idx]) {
            Err(e) => {
                return Err(e);
            },
            Ok(p) => {
                out.push(p);
                proof {
                    assert(views_of(out@) =~= views_of(out_before) + seq![p@]);
                    match spec_pos_lines(lviews.skip(idx as int + 1)) {
                        Ok(rest2) => {
                            assert(views_of(out_before) + (seq![p@] + rest2) =~= views_of(out@)
                                + rest2);
                        },
                        Err(_) => {},
                    }
                }
            },
        }
        idx = idx + 1;
    }
    proof {
        assert(lviews.skip(m as int) =~= Seq::<Seq<u8>>::empty());
        assert(views_of(out@) + Seq::<PlayerPosV>::empty() =~= views_of(out@));
    }
    Ok(out)
}

/// The decoded tool-cupboard lines, first error first.
pub open spec fn spec_tc_lines(ls: Seq<Seq<u8>>) -> Result<Seq<ToolCupboardV>, DecodeError>
    decreases ls.len(),
{
    if ls.len() == 0 {
        Ok(Seq::empty())
    } else {
        match spec_tc_line(ls[0]) {
            Err(e) => Err(e),
            Ok(c) => match spec_tc_lines(ls.drop_first()) {
                Err(e) => Err(e),
                Ok(rest) => Ok(seq![c] + rest),
            },
        }
    }
}

/// What the whole tool-cupboard reply decodes to: every line but the
/// first (the header), in order.
pub open spec fn spec_listtoolcupboards(s: Seq<u8>) -> Result<Seq<ToolCupboardV>, DecodeError> {
    let ls = spec_lines(s);
    if ls.len() == 0 {
        Ok(Seq::empty())
    } else {
        spec_tc_lines(ls.drop_first())
    }
}

/// Decodes the `global.listtoolcupboards` reply: the header line is
/// discarded, every further line must parse.
pub fn global_listtoolcupboards(response: &[u8]) -> (r: Result<Vec<ToolCupboard>, DecodeError>)
    ensures
        match r {
            Ok(v) => spec_listtoolcupboards(response@) == Ok::<Seq<ToolCupboardV>, DecodeError>(
                views_of(v@),
            ),
            Err(e) => spec_listtoolcupboards(response@) == Err::<Seq<ToolCupboardV>, DecodeError>(
                e,
            ),
        },
        r matches Ok(v) ==> forall|m: int| 0 <= m < v@.len() ==> tc_wf(#[trigger] v@[m]@),
{
    let lines = split_lines(response);
    let ghost lviews = lines@.map_values(|t: &[u8]| t@);
    let mut out: Vec<ToolCupboard> = Vec::new();
    let m: usize = lines.len();
    if m == 0 {
        proof {
            assert(views_of(out@) =~= Seq::<ToolCupboardV>::empty());
        }
        return Ok(out);
    }
    let ghost tail1 = lviews.drop_first();
    proof {
        assert(tail1 =~= lviews.skip(1));
    }
    let mut idx: usize = 1;
    while idx < m
        invariant
            1 <= idx <= m,
            m == lines@.len(),
            lviews == lines@.map_values(|t: &[u8]| t@),
            spec_listtoolcupboards(response@) == spec_tc_lines(lviews.skip(1)),
            forall|m: int| 0 <= m < out@.len() ==> tc_wf(#[trigger] out@[m]@),
            match spec_tc_lines(lviews.skip(idx as int)) {
                Ok(rest) => spec_tc_lines(lviews.skip(1)) == Ok::<Seq<ToolCupboardV>, DecodeError>(
                    views_of(out@) + rest,
                ),
                Err(e) => spec_tc_lines(lviews.skip(1)) == Err::<Seq<ToolCupboardV>, DecodeError>(
                    e,
                ),
            },
        decreases m - idx,
    {
        let ghost tail = lviews.skip(idx as int);
        proof {
            assert(tail.len() > 0);
            assert(tail[0] == lviews[idx as int]);
            assert(tail.drop_first() =~= lviews.skip(idx as int + 1));
        }
        let ghost out_before = out@;
        match parse_listtoolcupboards(lines[idx]) {
            Err(e) => {
                return Err(e);
            },
            Ok(c) => {
                out.push(c);
                proof {
                    assert(views_of(out@) =~= views_of(out_before) + seq![c@]);
                    match spec_tc_lines(lviews.skip(idx as int + 1)) {
                        Ok(rest2) => {
                            assert(views_of(out_before) + (seq![c@] + rest2) =~= views_of(out@)
                                + rest2);
                        },
                        Err(_) => {},
                    }
                }
            },
        }
        idx = idx + 1;
    }
    proof {
        assert(lviews.skip(m as int) =~= Seq::<Seq<u8>>::empty());
        assert(views_of(out@) + Seq::<ToolCupboardV>::empty() =~= views_of(out@));
    }
    Ok(out)
}

} // verus!
