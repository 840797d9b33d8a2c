//! Decoder for the `global.playerlist` reply: a JSON array of player
//! records.
//!
//! Each record is a JSON object whose members may come in any order;
//! members with unknown keys are passed over, a duplicate known key or a
//! missing or mistyped known field fails the record.  The decoder streams
//! the members into a slot per known field and is proved to return exactly
//! what the grammar reads.

use vstd::prelude::*;

use crate::decimal::Decimal;
use crate::json::{json_ws_end, nxt_in, parse_number, parse_string, skip_json_ws, skip_value,
    sp_number, sp_skip_value, sp_string};
use crate::rcon::{info_wf, views_of, DecodeError, PlayerInfo, PlayerInfoV, PlayerList};
use crate::text::bytes_eq;
use vstd::string::StringSliceAdditionalSpecFns;

verus! {

/// A numeric field read as an unsigned 32-bit count: it must be an
/// integer in range (a negative sign is allowed only on zero).
pub open spec fn dec_to_u32(d: Decimal) -> Option<u32> {
    if d.frac_len == 0 && (!d.neg || d.units == 0) && d.units <= 0xffffffff {
        Some(d.units as u32)
    } else {
        None
    }
}

/// Reads a decimal as an unsigned 32-bit count.
pub fn decimal_to_u32(d: &Decimal) -> (r: Option<u32>)
    ensures
        r == dec_to_u32(*d),
{
    if d.frac_len == 0 && (!d.neg || d.units == 0) && d.units <= 0xffffffff {
        Some(d.units as u32)
    } else {
        None
    }
}

/// One slot per known player field, filled as the record's members
/// stream past.
#[allow(non_snake_case)]
pub struct InfoSlots {
    pub Address: Option<Vec<u8>>,
    pub ConnectedSeconds: Option<u32>,
    pub CurrentLevel: Option<Decimal>,
    pub DisplayName: Option<Vec<u8>>,
    pub Health: Option<Decimal>,
    pub OwnerSteamID: Option<Vec<u8>>,
    pub Ping: Option<u32>,
    pub SteamID: Option<Vec<u8>>,
    pub UnspentXp: Option<Decimal>,
    pub VoiationLevel: Option<Decimal>,
}

/// Mathematical view of the slots.
#[allow(non_snake_case)]
pub struct InfoSlotsV {
    pub Address: Option<Seq<u8>>,
    pub ConnectedSeconds: Option<u32>,
    pub CurrentLevel: Option<Decimal>,
    pub DisplayName: Option<Seq<u8>>,
    pub Health: Option<Decimal>,
    pub OwnerSteamID: Option<Seq<u8>>,
    pub Ping: Option<u32>,
    pub SteamID: Option<Seq<u8>>,
    pub UnspentXp: Option<Decimal>,
    pub VoiationLevel: Option<Decimal>,
}

impl View for InfoSlots {
    type V = InfoSlotsV;

    open spec fn view(&self) -> InfoSlotsV {
        InfoSlotsV {
            Address: match self.Address {
                Some(v) => Some(v@),
                None => None,
            },
            ConnectedSeconds: self.ConnectedSeconds,
            CurrentLevel: self.CurrentLevel,
            DisplayName: match self.DisplayName {
                Some(v) => Some(v@),
                None => None,
            },
            Health: self.Health,
            OwnerSteamID: match self.OwnerSteamID {
                Some(v) => Some(v@),
                None => None,
            },
            Ping: self.Ping,
            SteamID: match self.SteamID {
                Some(v) => Some(v@),
                None => None,
            },
            UnspentXp: self.UnspentXp,
            VoiationLevel: self.VoiationLevel,
        }
    }
}

/// All slots still empty.
pub open spec fn empty_slots() -> InfoSlotsV {
    InfoSlotsV {
        Address: None,
        ConnectedSeconds: None,
        CurrentLevel: None,
        DisplayName: None,
        Health: None,
        OwnerSteamID: None,
        Ping: None,
        SteamID: None,
        UnspentXp: None,
        VoiationLevel: None,
    }
}

/// Every decimal already slotted is well formed.
pub open spec fn slots_wf(sl: InfoSlotsV) -> bool {
    &&& (sl.CurrentLevel matches Some(d) ==> d.wf())
    &&& (sl.Health matches Some(d) ==> d.wf())
    &&& (sl.UnspentXp matches Some(d) ==> d.wf())
    &&& (sl.VoiationLevel matches Some(d) ==> d.wf())
}

/// The record a filled slot set denotes; nothing while a field is
/// missing.
pub open spec fn finish_info(sl: InfoSlotsV) -> Option<PlayerInfoV> {
    if sl.Address is Some && sl.ConnectedSeconds is Some && sl.CurrentLevel is Some
        && sl.DisplayName is Some && sl.Health is Some && sl.OwnerSteamID is Some
        && sl.Ping is Some && sl.SteamID is Some && sl.UnspentXp is Some
        && sl.VoiationLevel is Some {
        Some(
            PlayerInfoV {
                Address: sl.Address.unwrap(),
                ConnectedSeconds: sl.ConnectedSeconds.unwrap(),
                CurrentLevel: sl.CurrentLevel.unwrap(),
                DisplayName: sl.DisplayName.unwrap(),
                Health: sl.Health.unwrap(),
                OwnerSteamID: sl.OwnerSteamID.unwrap(),
                Ping: sl.Ping.unwrap(),
                SteamID: sl.SteamID.unwrap(),
                UnspentXp: sl.UnspentXp.unwrap(),
                VoiationLevel: sl.VoiationLevel.unwrap(),
            },
        )
    } else {
        None
    }
}

/// One member value at `v` under the given key: a known key fills its
/// slot (a second time is a fault, as is a mistyped value), an unknown
/// key's value is passed over.  Returns the updated slots and the index
/// just past the value.
#[verifier::opaque]
pub open spec fn sp_info_member_val(s: Seq<u8>, v: int, key: Seq<u8>, sl: InfoSlotsV) -> Option<
    (InfoSlotsV, int),
> {
    if key == "Address".spec_bytes() {
        if sl.Address is Some {
            None
        } else {
            match sp_string(s, v) {
                Some(q) => Some((InfoSlotsV { Address: Some(q.0), ..sl }, q.1)),
                None => None,
            }
        }
    } else if key == "ConnectedSeconds".spec_bytes() {
        if sl.ConnectedSeconds is Some {
            None
        } else {
            match sp_number(s, v) {
                Some(q) => match dec_to_u32(q.0) {
                    Some(u) => Some((InfoSlotsV { ConnectedSeconds: Some(u), ..sl }, q.1)),
                    None => None,
                },
                None => None,
            }
        }
    } else if key == "CurrentLevel".spec_bytes() {
        if sl.CurrentLevel is Some {
            None
        } else {
            match sp_number(s, v) {
                Some(q) => Some((InfoSlotsV { CurrentLevel: Some(q.0), ..sl }, q.1)),
                None => None,
            }
        }
    } else if key == "DisplayName".spec_bytes() {
        if sl.DisplayName is Some {
            None
        } else {
            match sp_string(s, v) {
                Some(q) => Some((InfoSlotsV { DisplayName: Some(q.0), ..sl }, q.1)),
                None => None,
            }
        }
    } else if key == "Health".spec_bytes() {
        if sl.Health is Some {
            None
        } else {
            match sp_number(s, v) {
                Some(q) => Some((InfoSlotsV { Health: Some(q.0), ..sl }, q.1)),
                None => None,
            }
        }
    } else if key == "OwnerSteamID".spec_bytes() {
        if sl.OwnerSteamID is Some {
            None
        } else {
            match sp_string(s, v) {
                Some(q) => Some((InfoSlotsV { OwnerSteamID: Some(q.0), ..sl }, q.1)),
                None => None,
            }
        }
    } else if key == "Ping".spec_bytes() {
        if sl.Ping is Some {
            None
        } else {
            match sp_number(s, v) {
                Some(q) => match dec_to_u32(q.0) {
                    Some(u) => Some((InfoSlotsV { Ping: Some(u), ..sl }, q.1)),
                    None => None,
                },
                None => None,
            }
        }
    } else if key == "SteamID".spec_bytes() {
        if sl.SteamID is Some {
            None
        } else {
            match sp_string(s, v) {
                Some(q) => Some((InfoSlotsV { SteamID: Some(q.0), ..sl }, q.1)),
                None => None,
            }
        }
    } else if key == "UnspentXp".spec_bytes() {
        if sl.UnspentXp is Some {
            None
        } else {
            match sp_number(s, v) {
                Some(q) => Some((InfoSlotsV { UnspentXp: Some(q.0), ..sl }, q.1)),
                None => None,
            }
        }
    } else if key == "VoiationLevel".spec_bytes() {
        if sl.VoiationLevel is Some {
            None
        } else {
            match sp_number(s, v) {
                Some(q) => Some((InfoSlotsV { VoiationLevel: Some(q.0), ..sl }, q.1)),
                None => None,
            }
        }
    } else {
        match sp_skip_value(s, v) {
            Some(e) => Some((sl, e)),
            None => None,
        }
    }
}

/// The record members from `i` on (`i` points at a member key), given the
/// slots already filled: the finished record and the index just past the
/// closing brace.
pub open spec fn sp_info_members(s: Seq<u8>, i: int, sl: InfoSlotsV) -> Option<(PlayerInfoV, int)>
    decreases s.len() - i
        when 0 <= i <= s.len()
{
    if i >= s.len() {
        None
    } else {
        match sp_string(s, i) {
            None => None,
            Some(p) => {
                let c = json_ws_end(s, nxt_in(s, i, p.1));
                if !(0 <= c < s.len()) || s[c] != 0x3a {
                    None
                } else {
                    let v = nxt_in(s, i, json_ws_end(s, c + 1));
                    match sp_info_member_val(s, v, p.0, sl) {
                        None => None,
                        Some(q) => {
                            let w = json_ws_end(s, nxt_in(s, i, q.1));
                            if !(0 <= w < s.len()) {
                                None
                            } else if s[w] == 0x2c {
                                sp_info_members(s, nxt_in(s, i, json_ws_end(s, w + 1)), q.0)
                            } else if s[w] == 0x7d {
                                match finish_info(q.0) {
                                    Some(info) => Some((info, w + 1)),
                                    None => None,
                                }
                            } else {
                                None
                            }
                        },
                    }
                }
            },
        }
    }
}

/// One player record: a JSON object with every known field present
/// exactly once.
#[verifier::opaque]
pub open spec fn sp_info_obj(s: Seq<u8>, i: int) -> Option<(PlayerInfoV, int)> {
    if 0 <= i < s.len() && s[i] == 0x7b {
        let k = nxt_in(s, i, json_ws_end(s, i + 1));
        if k < s.len() && s[k] == 0x7d {
            None
        } else {
            sp_info_members(s, k, empty_slots())
        }
    } else {
        None
    }
}

/// The array elements from `i` on (`i` points at a record), given those
/// already read: all records and the index just past the closing bracket.
pub open spec fn sp_info_elems(s: Seq<u8>, i: int, acc: Seq<PlayerInfoV>) -> Option<
    (Seq<PlayerInfoV>, int),
>
    decreases s.len() - i
        when 0 <= i <= s.len()
{
    if i >= s.len() {
        None
    } else {
        match sp_info_obj(s, i) {
            None => None,
            Some(p) => {
                let w = json_ws_end(s, nxt_in(s, i, p.1));
                if !(0 <= w < s.len()) {
                    None
                } else if s[w] == 0x2c {
                    sp_info_elems(s, nxt_in(s, i, json_ws_end(s, w + 1)), acc.push(p.0))
                } else if s[w] == 0x5d {
                    Some((acc.push(p.0), w + 1))
                } else {
                    None
                }
            },
        }
    }
}

/// What the whole player-list reply decodes to: a JSON array of player
/// records with nothing but whitespace around it.
pub open spec fn spec_playerlist(s: Seq<u8>) -> Result<Seq<PlayerInfoV>, DecodeError> {
    let i = json_ws_end(s, 0);
    if !(0 <= i < s.len()) || s[i] != 0x5b {
        Err(DecodeError::Json)
    } else {
        let k = nxt_in(s, i, json_ws_end(s, i + 1));
        if k < s.len() && s[k] == 0x5d {
            if 0 <= k + 1 <= s.len() && json_ws_end(s, k + 1) == s.len() {
                Ok(Seq::empty())
            } else {
                Err(DecodeError::Json)
            }
        } else {
            match sp_info_elems(s, k, Seq::empty()) {
                None => Err(DecodeError::Json),
                Some(p) => {
                    if 0 <= p.1 <= s.len() && json_ws_end(s, p.1) == s.len() {
                        Ok(p.0)
                    } else {
                        Err(DecodeError::Json)
                    }
                },
            }
        }
    }
}

/// Reads one member value and fills its slot.
fn info_member_val(s: &[u8], v: usize, key: &Vec<u8>, sl: InfoSlots) -> (r: Option<
    (InfoSlots, usize),
>)
    requires
        v <= s@.len(),
    ensures
        match r {
            Some(p) => sp_info_member_val(s@, v as int, key@, sl@) == Some((p.0@, p.1 as int)) && v
                < p.1 <= s@.len(),
            None => sp_info_member_val(s@, v as int, key@, sl@) is None,
        },
        r matches Some(p) ==> (slots_wf(sl@) ==> slots_wf(p.0@)),
{
    proof {
        reveal(sp_info_member_val);
    }
    if bytes_eq(key.as_slice(), "Address".as_bytes()) {
        if sl.Address.is_some() {
            return None;
        }
        match parse_string(s, v) {
            Some(q) => Some((InfoSlots { Address: Some(q.0), ..sl }, q.1)),
            None => None,
        }
    } else if bytes_eq(key.as_slice(), "ConnectedSeconds".as_bytes()) {
        if sl.ConnectedSeconds.is_some() {
            return None;
        }
        match parse_number(s, v) {
            Some(q) => match decimal_to_u32(&q.0) {
                Some(u) => Some((InfoSlots { ConnectedSeconds: Some(u), ..sl }, q.1)),
                None => None,
            },
            None => None,
        }
    } else if bytes_eq(key.as_slice(), "CurrentLevel".as_bytes()) {
        if sl.CurrentLevel.is_some() {
            return None;
        }
        match parse_number(s, v) {
            Some(q) => Some((InfoSlots { CurrentLevel: Some(q.0), ..sl }, q.1)),
            None => None,
        }
    } else if bytes_eq(key.as_slice(), "DisplayName".as_bytes()) {
        if sl.DisplayName.is_some() {
            return None;
        }
        match parse_string(s, v) {
            Some(q) => Some((InfoSlots { DisplayName: Some(q.0), ..sl }, q.1)),
            None => None,
        }
    } else if bytes_eq(key.as_slice(), "Health".as_bytes()) {
        if sl.Health.is_some() {
            return None;
        }
        match parse_number(s, v) {
            Some(q) => Some((InfoSlots { Health: Some(q.0), ..sl }, q.1)),
            None => None,
        }
    } else if bytes_eq(key.as_slice(), "OwnerSteamID".as_bytes()) {
        if sl.OwnerSteamID.is_some() {
            return None;
        }
        match parse_string(s, v) {
            Some(q) => Some((InfoSlots { OwnerSteamID: Some(q.0), ..sl }, q.1)),
            None => None,
        }
    } else if bytes_eq(key.as_slice(), "Ping".as_bytes()) {
        if sl.Ping.is_some() {
            return None;
        }
        match parse_number(s, v) {
            Some(q) => match decimal_to_u32(&q.0) {
                Some(u) => Some((InfoSlots { Ping: Some(u), ..sl }, q.1)),
                None => None,
            },
            None => None,
        }
    } else if bytes_eq(key.as_slice(), "SteamID".as_bytes()) {
        if sl.SteamID.is_some() {
            return None;
        }
        match parse_string(s, v) {
            Some(q) => Some((InfoSlots { SteamID: Some(q.0), ..sl }, q.1)),
            None => None,
        }
    } else if bytes_eq(key.as_slice(), "UnspentXp".as_bytes()) {
        if sl.UnspentXp.is_some() {
            return None;
        }
        match parse_number(s, v) {
            Some(q) => Some((InfoSlots { UnspentXp: Some(q.0), ..sl }, q.1)),
            None => None,
        }
    } else if bytes_eq(key.as_slice(), "VoiationLevel".as_bytes()) {
        if sl.VoiationLevel.is_some() {
            return None;
        }
        match parse_number(s, v) {
            Some(q) => Some((InfoSlots { VoiationLevel: Some(q.0), ..sl }, q.1)),
            None => None,
        }
    } else {
        match skip_value(s, v) {
            Some(e) => Some((sl, e)),
            None => None,
        }
    }
}

/// Builds the record once every slot is filled.
fn finish_info_exec(sl: InfoSlots) -> (r: Option<PlayerInfo>)
    ensures
        match r {
            Some(info) => finish_info(sl@) == Some(info@),
            None => finish_info(sl@) is None,
        },
        r matches Some(info) ==> (slots_wf(sl@) ==> info_wf(info@)),
{
    match (sl.Address, sl.ConnectedSeconds, sl.CurrentLevel, sl.DisplayName, sl.Health) {
        (Some(address), Some(connected), Some(level), Some(name), Some(health)) => {
            match (sl.OwnerSteamID, sl.Ping, sl.SteamID, sl.UnspentXp, sl.VoiationLevel) {
                (Some(owner), Some(ping), Some(steam_id), Some(xp), Some(violation)) => {
                    Some(
                        PlayerInfo {
                            Address: address,
                            ConnectedSeconds: connected,
                            CurrentLevel: level,
                            DisplayName: name,
                            Health: health,
                            OwnerSteamID: owner,
                            Ping: ping,
                            SteamID: steam_id,
                            UnspentXp: xp,
                            VoiationLevel: violation,
                        },
                    )
                },
                _ => None,
            }
        },
        _ => None,
    }
}

/// Reads one player record starting at `i`.
fn decode_info_obj(s: &[u8], i: usize) -> (r: Option<(PlayerInfo, usize)>)
    requires
        i <= s@.len(),
    ensures
        match r {
            Some(p) => sp_info_obj(s@, i as int) == Some((p.0@, p.1 as int)) && i < p.1
                <= s@.len(),
            None => sp_info_obj(s@, i as int) is None,
        },
        r matches Some(p) ==> info_wf(p.0@),
{
    proof {
        reveal(sp_info_obj);
    }
    let n: usize = s.len();
    if !(i < n && s[i] == 0x7b) {
        return None;
    }
    let k0: usize = skip_json_ws(s, i + 1);
    if k0 < n && s[k0] == 0x7d {
        return None;
    }
    let mut k: usize = k0;
    let mut sl = InfoSlots {
        Address: None,
        ConnectedSeconds: None,
        CurrentLevel: None,
        DisplayName: None,
        Health: None,
        OwnerSteamID: None,
        Ping: None,
        SteamID: None,
        UnspentXp: None,
        VoiationLevel: None,
    };
    proof {
        assert(sl@ == empty_slots());
    }
    loop
        invariant
            i < k0 <= k <= n,
            n == s@.len(),
            slots_wf(sl@),
            sp_info_obj(s@, i as int) == sp_info_members(s@, k as int, sl@),
        decreases n - k,
    {
        if k >= n {
            return None;
        }
        let p = match parse_string(s, k) {
            None => {
                return None;
            },
            Some(p) => p,
        };
        let c: usize = skip_json_ws(s, p.1);
        if c >= n || s[c] != 0x3a {
            return None;
        }
        let v: usize = skip_json_ws(s, c + 1);
        let (sl2, e) = match info_member_val(s, v, &p.0, sl) {
            None => {
                return None;
            },
            Some(x) => x,
        };
        sl = sl2;
        let w: usize = skip_json_ws(s, e);
        if w >= n {
            return None;
        }
        if s[w] == 0x2c {
            k = skip_json_ws(s, w + 1);
        } else if s[w] == 0x7d {
            match finish_info_exec(sl) {
                Some(info) => {
                    return Some((info, w + 1));
                },
                None => {
                    return None;
                },
            }
        } else {
            return None;
        }
    }
}

/// Decodes the `global.playerlist` reply.
#[verifier::rlimit(100)]
pub fn global_playerlist(response: &[u8]) -> (r: Result<PlayerList, DecodeError>)
    ensures
        match r {
            Ok(v) => spec_playerlist(response@) == Ok::<Seq<PlayerInfoV>, DecodeError>(
                views_of(v@),
            ),
            Err(e) => spec_playerlist(response@) == Err::<Seq<PlayerInfoV>, DecodeError>(e),
        },
        r matches Ok(v) ==> forall|m: int| 0 <= m < v@.len() ==> info_wf(#[trigger] v@[m]@),
{
    let s = response;
    let n: usize = s.len();
    let i: usize = skip_json_ws(s, 0);
    if i >= n || s[i] != 0x5b {
        return Err(DecodeError::Json);
    }
    let k0: usize = skip_json_ws(s, i + 1);
    let mut out: Vec<PlayerInfo> = Vec::new();
    if k0 < n && s[k0] == 0x5d {
        let e: usize = skip_json_ws(s, k0 + 1);
        if e == n {
            proof {
                assert(views_of(out@) =~= Seq::<PlayerInfoV>::empty());
            }
            return Ok(out);
        }
        return Err(DecodeError::Json);
    }
    let mut k: usize = k0;
    proof {
        assert(views_of(out@) =~= Seq::<PlayerInfoV>::empty());
    }
    loop
        invariant
            s@ == response@,
            i < k0 <= k <= n,
            n == s@.len(),
            0 <= (i as int) < n && s@[i as int] == 0x5b,
            k0 == nxt_in(s@, i as int, json_ws_end(s@, i as int + 1)),
            !(k0 < n && s@[k0 as int] == 0x5d),
            i as int == json_ws_end(s@, 0),
            forall|m: int| 0 <= m < out@.len() ==> info_wf(#[trigger] out@[m]@),
            sp_info_elems(s@, k0 as int, Seq::empty()) == sp_info_elems(
                s@,
                k as int,
                views_of(out@),
            ),
        decreases n - k,
    {
        if k >= n {
            return Err(DecodeError::Json);
        }
        let p = match decode_info_obj(s, k) {
            None => {
                return Err(DecodeError::Json);
            },
            Some(p) => p,
        };
        let ghost out_before = out@;
        let w: usize = skip_json_ws(s, p.1);
        if w >= n {
            return Err(DecodeError::Json);
        }
        proof {
            assert(w as int == json_ws_end(s@, nxt_in(s@, k as int, p.1 as int)));
        }
        if s[w] == 0x2c {
            out.push(p.0);
            let k2: usize = skip_json_ws(s, w + 1);
            proof {
                assert(views_of(out@) =~= views_of(out_before).push(p.0@));
                assert(k2 as int == nxt_in(s@, k as int, json_ws_end(s@, w as int + 1)));
                assert(sp_info_elems(s@, k as int, views_of(out_before)) == sp_info_elems(
                    s@,
                    k2 as int,
                    views_of(out_before).push(p.0@),
                ));
            }
            k = k2;
        } else if s[w] == 0x5d {
            out.push(p.0);
            proof {
                assert(views_of(out@) =~= views_of(out_before).push(p.0@));
                assert(sp_info_elems(s@, k as int, views_of(out_before)) == Some(
                    (views_of(out@), w as int + 1),
                ));
            }
            let e: usize = skip_json_ws(s, w + 1);
            if e == n {
                return Ok(out);
            }
            return Err(DecodeError::Json);
        } else {
            return Err(DecodeError::Json);
        }
    }
}

} // verus!
