//! The sync tick, the snapshot serializer and the subscriber registry.
//!
//! Each tick of the sync loop turns the four command replies into one new
//! snapshot: a failed or unreadable reply leaves the game clock at its
//! previous value and the affected listing empty for that tick.  The
//! snapshot is serialized once per tick and pushed to every subscriber;
//! a subscriber whose write fails is pruned from the registry.

use vstd::prelude::*;

use crate::decimal::Decimal;
use crate::decode::{env_time, global_listtoolcupboards, global_playerlistpos, spec_env_time,
    spec_listtoolcupboards, spec_playerlistpos};
use crate::playerlist::{global_playerlist, spec_playerlist};
use crate::rcon::{lemma_merge_wf, merge_playerlists, player_wf, spec_merge, state_wf, tc_wf,
    views_of, EnvTime, Player, PlayerInfoV, PlayerPosV, PlayerV, RconPosition, State, StateV,
    ToolCupboard, ToolCupboardV};
use crate::ser::{dec_bytes, digits_of, esc_bytes, push_bytes, push_decimal, push_escaped,
    push_u128_digits, push_u64_digits};
use vstd::string::StringSliceAdditionalSpecFns;

verus! {

/// The written form of a position object.
pub open spec fn position_json(p: RconPosition) -> Seq<u8> {
    "{\"x\":".spec_bytes() + dec_bytes(p.x) + ",\"y\":".spec_bytes() + dec_bytes(p.y)
        + ",\"z\":".spec_bytes() + dec_bytes(p.z) + "}".spec_bytes()
}

/// The written form of one player.
pub open spec fn player_json(p: PlayerV) -> Seq<u8> {
    "{\"address\":\"".spec_bytes() + esc_bytes(p.address) + "\",\"connected_seconds\":".spec_bytes()
        + digits_of(p.connected_seconds as nat) + ",\"display_name\":\"".spec_bytes() + esc_bytes(
        p.display_name,
    ) + "\",\"health\":".spec_bytes() + dec_bytes(p.health) + ",\"id\":\"".spec_bytes()
        + esc_bytes(p.id) + "\",\"position\":".spec_bytes() + position_json(p.position)
        + "}".spec_bytes()
}

/// The written form of one tool cupboard.
pub open spec fn tc_json(c: ToolCupboardV) -> Seq<u8> {
    "{\"id\":\"".spec_bytes() + esc_bytes(c.id) + "\",\"position\":".spec_bytes() + position_json(
        c.position,
    ) + ",\"auth_count\":".spec_bytes() + digits_of(c.auth_count as nat) + "}".spec_bytes()
}

/// The written players from index `i` on, comma-separated.
pub open spec fn players_json_from(ps: Seq<PlayerV>, i: int) -> Seq<u8>
    decreases ps.len() - i
        when 0 <= i <= ps.len()
{
    if i >= ps.len() {
        Seq::empty()
    } else {
        (if i > 0 {
            seq![0x2cu8]
        } else {
            Seq::<u8>::empty()
        }) + player_json(ps[i]) + players_json_from(ps, i + 1)
    }
}

/// The written tool cupboards from index `i` on, comma-separated.
pub open spec fn tcs_json_from(cs: Seq<ToolCupboardV>, i: int) -> Seq<u8>
    decreases cs.len() - i
        when 0 <= i <= cs.len()
{
    if i >= cs.len() {
        Seq::empty()
    } else {
        (if i > 0 {
            seq![0x2cu8]
        } else {
            Seq::<u8>::empty()
        }) + tc_json(cs[i]) + tcs_json_from(cs, i + 1)
    }
}

/// The written form of a whole snapshot, in the downstream wire format.
pub open spec fn state_json(st: StateV) -> Seq<u8> {
    "{\"players\":[".spec_bytes() + players_json_from(st.players, 0) + "],\"tcs\":[".spec_bytes()
        + tcs_json_from(st.tcs, 0) + "],\"game_time\":".spec_bytes() + dec_bytes(st.game_time.0)
        + ",\"sync_time_ms\":".spec_bytes() + digits_of(st.sync_time_ms as nat) + "}".spec_bytes()
}

/// Appends the written form of a position.
fn push_position(out: &mut Vec<u8>, p: &RconPosition)
    requires
        p.x.wf() && p.y.wf() && p.z.wf(),
    ensures
        final(out)@ == old(out)@ + position_json(*p),
{
    push_bytes(out, "{\"x\":".as_bytes());
    push_decimal(out, &p.x);
    push_bytes(out, ",\"y\":".as_bytes());
    push_decimal(out, &p.y);
    push_bytes(out, ",\"z\":".as_bytes());
    push_decimal(out, &p.z);
    push_bytes(out, "}".as_bytes());
    proof {
        assert(out@ =~= old(out)@ + position_json(*p));
    }
}

/// Appends the written form of one player.
fn push_player(out: &mut Vec<u8>, p: &Player)
    requires
        player_wf(p@),
    ensures
        final(out)@ == old(out)@ + player_json(p@),
{
    push_bytes(out, "{\"address\":\"".as_bytes());
    push_escaped(out, p.address.as_slice());
    push_bytes(out, "\",\"connected_seconds\":".as_bytes());
    push_u64_digits(out, p.connected_seconds as u64);
    push_bytes(out, ",\"display_name\":\"".as_bytes());
    push_escaped(out, p.display_name.as_slice());
    push_bytes(out, "\",\"health\":".as_bytes());
    push_decimal(out, &p.health);
    push_bytes(out, ",\"id\":\"".as_bytes());
    push_escaped(out, p.id.as_slice());
    push_bytes(out, "\",\"position\":".as_bytes());
    push_position(out, &p.position);
    push_bytes(out, "}".as_bytes());
    proof {
        assert(out@ =~= old(out)@ + player_json(p@));
    }
}

/// Appends the written form of one tool cupboard.
fn push_tc(out: &mut Vec<u8>, c: &ToolCupboard)
    requires
        tc_wf(c@),
    ensures
        final(out)@ == old(out)@ + tc_json(c@),
{
    push_bytes(out, "{\"id\":\"".as_bytes());
    push_escaped(out, c.id.as_slice());
    push_bytes(out, "\",\"position\":".as_bytes());
    push_position(out, &c.position);
    push_bytes(out, ",\"auth_count\":".as_bytes());
    push_u64_digits(out, c.auth_count as u64);
    push_bytes(out, "}".as_bytes());
    proof {
        assert(out@ =~= old(out)@ + tc_json(c@));
    }
}

/// Serializes a snapshot to the downstream wire format, once per tick,
/// whatever the number of subscribers.
#[verifier::rlimit(50)]
pub fn serialize_state(st: &State) -> (r: Vec<u8>)
    requires
        state_wf(st@),
    ensures
        r@ == state_json(st@),
{
    let mut out: Vec<u8> = Vec::new();
    push_bytes(&mut out, "{\"players\":[".as_bytes());
    let ghost players = st@.players;
    let ghost base = out@;
    let n: usize = st.players.len();
    let mut i: usize = 0;
    while i < n
        invariant
            0 <= i <= n,
            n == st.players@.len(),
            players == st@.players,
            state_wf(st@),
            players.len() == n,
            base + players_json_from(players, 0) == out@ + players_json_from(players, i as int),
        decreases n - i,
    {
        let ghost before = out@;
        if i > 0 {
            out.push(0x2c);
        }
        proof {
            assert(st.players@[i as int]@ == players[i as int]);
        }
        push_player(&mut out, &st.players[i]);
        proof {
            if i > 0 {
                assert(out@ =~= before + (seq![0x2cu8] + player_json(players[i as int])));
            } else {
                assert(out@ =~= before + (Seq::<u8>::empty() + player_json(players[i as int])));
            }
            assert(before + (players_json_from(players, i as int)) =~= out@ + players_json_from(
                players,
                i as int + 1,
            ));
        }
        i = i + 1;
    }
    proof {
        assert(players_json_from(players, n as int) =~= Seq::<u8>::empty());
        assert(out@ =~= base + players_json_from(players, 0));
    }
    push_bytes(&mut out, "],\"tcs\":[".as_bytes());
    let ghost tcs = st@.tcs;
    let ghost base2 = out@;
    let m: usize = st.tcs.len();
    let mut j: usize = 0;
    while j < m
        invariant
            0 <= j <= m,
            m == st.tcs@.len(),
            tcs == st@.tcs,
            state_wf(st@),
            tcs.len() == m,
            base2 + tcs_json_from(tcs, 0) == out@ + tcs_json_from(tcs, j as int),
        decreases m - j,
    {
        let ghost before = out@;
        if j > 0 {
            out.push(0x2c);
        }
        proof {
            assert(st.tcs@[j as int]@ == tcs[j as int]);
        }
        push_tc(&mut out, &st.tcs[j]);
        proof {
            if j > 0 {
                assert(out@ =~= before + (seq![0x2cu8] + tc_json(tcs[j as int])));
            } else {
                assert(out@ =~= before + (Seq::<u8>::empty() + tc_json(tcs[j as int])));
            }
            assert(before + (tcs_json_from(tcs, j as int)) =~= out@ + tcs_json_from(
                tcs,
                j as int + 1,
            ));
        }
        j = j + 1;
    }
    proof {
        assert(tcs_json_from(tcs, m as int) =~= Seq::<u8>::empty());
        assert(out@ =~= base2 + tcs_json_from(tcs, 0));
    }
    push_bytes(&mut out, "],\"game_time\":".as_bytes());
    push_decimal(&mut out, &st.game_time.0);
    push_bytes(&mut out, ",\"sync_time_ms\":".as_bytes());
    push_u128_digits(&mut out, st.sync_time_ms);
    push_bytes(&mut out, "}".as_bytes());
    proof {
        assert(out@ =~= state_json(st@));
    }
    out
}

/// One tick's worth of state assembly: the four raw replies (nothing
/// where the exchange failed), the previous game clock and the tick's
/// wall-clock timestamp become the new snapshot.  An absent or unreadable
/// clock reply keeps the previous clock; a failed listing leaves its list
/// empty for this tick; players are the merge of the two player listings.
pub open spec fn spec_sync_tick(
    time_raw: Option<Seq<u8>>,
    playerlist_raw: Option<Seq<u8>>,
    playerlistpos_raw: Option<Seq<u8>>,
    tcs_raw: Option<Seq<u8>>,
    prev_time: EnvTime,
    sync_time_ms: u128,
) -> StateV {
    let infos = match playerlist_raw {
        Some(s) => match spec_playerlist(s) {
            Ok(v) => v,
            Err(_) => Seq::empty(),
        },
        None => Seq::empty(),
    };
    let poss = match playerlistpos_raw {
        Some(s) => match spec_playerlistpos(s) {
            Ok(v) => v,
            Err(_) => Seq::empty(),
        },
        None => Seq::empty(),
    };
    let tcs = match tcs_raw {
        Some(s) => match spec_listtoolcupboards(s) {
            Ok(v) => v,
            Err(_) => Seq::empty(),
        },
        None => Seq::empty(),
    };
    let clock = match time_raw {
        Some(s) => match spec_env_time(s) {
            Some(d) => d,
            None => prev_time.0,
        },
        None => prev_time.0,
    };
    StateV {
        players: spec_merge(poss, infos),
        tcs,
        game_time: EnvTime(clock),
        sync_time_ms,
    }
}

/// Assembles the snapshot for one sync tick.
pub fn sync_tick(
    time_raw: Option<Vec<u8>>,
    playerlist_raw: Option<Vec<u8>>,
    playerlistpos_raw: Option<Vec<u8>>,
    tcs_raw: Option<Vec<u8>>,
    prev_time: EnvTime,
    sync_time_ms: u128,
) -> (st: State)
    requires
        prev_time.0.wf(),
    ensures
        st@ == spec_sync_tick(
            match time_raw {
                Some(v) => Some(v@),
                None => None,
            },
            match playerlist_raw {
                Some(v) => Some(v@),
                None => None,
            },
            match playerlistpos_raw {
                Some(v) => Some(v@),
                None => None,
            },
            match tcs_raw {
                Some(v) => Some(v@),
                None => None,
            },
            prev_time,
            sync_time_ms,
        ),
        state_wf(st@),
{
    let ghost target = spec_sync_tick(
        match &time_raw {
            Some(v) => Some(v@),
            None => None,
        },
        match &playerlist_raw {
            Some(v) => Some(v@),
            None => None,
        },
        match &playerlistpos_raw {
            Some(v) => Some(v@),
            None => None,
        },
        match &tcs_raw {
            Some(v) => Some(v@),
            None => None,
        },
        prev_time,
        sync_time_ms,
    );
    let infos = match &playerlist_raw {
        Some(s) => match global_playerlist(s.as_slice()) {
            Ok(v) => v,
            Err(_) => Vec::new(),
        },
        None => Vec::new(),
    };
    proof {
        if views_of(infos@).len() == 0 {
            assert(views_of(infos@) =~= Seq::<PlayerInfoV>::empty());
        }
    }
    let poss = match &playerlistpos_raw {
        Some(s) => match global_playerlistpos(s.as_slice()) {
            Ok(v) => v,
            Err(_) => Vec::new(),
        },
        None => Vec::new(),
    };
    proof {
        if views_of(poss@).len() == 0 {
            assert(views_of(poss@) =~= Seq::<PlayerPosV>::empty());
        }
    }
    let tcs = match &tcs_raw {
        Some(s) => match global_listtoolcupboards(s.as_slice()) {
            Ok(v) => v,
            Err(_) => Vec::new(),
        },
        None => Vec::new(),
    };
    proof {
        if views_of(tcs@).len() == 0 {
            assert(views_of(tcs@) =~= Seq::<ToolCupboardV>::empty());
        }
        assert(views_of(tcs@) == target.tcs);
    }
    let clock: Decimal = match &time_raw {
        Some(s) => match env_time(s.as_slice()) {
            Some(d) => d,
            None => prev_time.0,
        },
        None => prev_time.0,
    };
    proof {
        assert(clock == target.game_time.0);
        lemma_merge_wf(views_of(poss@), views_of(infos@));
    }
    let players = merge_playerlists(poss, infos);
    let st = State { players, tcs, game_time: EnvTime(clock), sync_time_ms };
    proof {
        assert(st@.players =~= views_of(st.players@));
        assert(st@.tcs =~= views_of(st.tcs@));
        assert(st@.players == target.players);
        assert(st@ == target);
    }
    st
}

} // verus!
