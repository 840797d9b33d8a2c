//! The console data model and the player-state merger.
//!
//! Replies from the game server decode into these records.  The merger
//! combines the non-positional player listing with the positional one into
//! the published player list, remapping each position triple to the
//! consumer's axis order.

use vstd::prelude::*;

use crate::decimal::Decimal;
use crate::text::bytes_eq;

verus! {

/// Why decoding a console reply failed.
#[derive(Clone, Copy, Debug, PartialEq, Eq, Structural)]
pub enum DecodeError {
    /// The reply was not the JSON document the command promises.
    Json,
    /// A tabular line did not match the expected line pattern.
    Line,
    /// A numeric component could not be read as a decimal number.
    Number,
}

/// The view of a sequence of viewable values.
pub open spec fn views_of<T: View>(s: Seq<T>) -> Seq<T::V> {
    s.map_values(|t: T| t@)
}

/// One entry of the non-positional player listing, with the field names
/// the console uses as JSON keys (including its historical misspelling of
/// the violation level).  Textual fields stay as the bytes the console
/// sent; numeric fields are exact decimals.
#[allow(non_snake_case)]
#[derive(Debug, PartialEq)]
pub struct PlayerInfo {
    pub Address: Vec<u8>,
    pub ConnectedSeconds: u32,
    pub CurrentLevel: Decimal,
    pub DisplayName: Vec<u8>,
    pub Health: Decimal,
    pub OwnerSteamID: Vec<u8>,
    pub Ping: u32,
    pub SteamID: Vec<u8>,
    pub UnspentXp: Decimal,
    pub VoiationLevel: Decimal,
}

/// Mathematical view of a [`PlayerInfo`].
#[allow(non_snake_case)]
pub struct PlayerInfoV {
    pub Address: Seq<u8>,
    pub ConnectedSeconds: u32,
    pub CurrentLevel: Decimal,
    pub DisplayName: Seq<u8>,
    pub Health: Decimal,
    pub OwnerSteamID: Seq<u8>,
    pub Ping: u32,
    pub SteamID: Seq<u8>,
    pub UnspentXp: Decimal,
    pub VoiationLevel: Decimal,
}

impl View for PlayerInfo {
    type V = PlayerInfoV;

    open spec fn view(&self) -> PlayerInfoV {
        PlayerInfoV {
            Address: self.Address@,
            ConnectedSeconds: self.ConnectedSeconds,
            CurrentLevel: self.CurrentLevel,
            DisplayName: self.DisplayName@,
            Health: self.Health,
            OwnerSteamID: self.OwnerSteamID@,
            Ping: self.Ping,
            SteamID: self.SteamID@,
            UnspentXp: self.UnspentXp,
            VoiationLevel: self.VoiationLevel,
        }
    }
}

pub type PlayerList = Vec<PlayerInfo>;

/// One line of the positional player listing: the player id, the position
/// triple and the rotation triple, in the order the console prints them.
#[derive(Debug, PartialEq)]
pub struct PlayerPos {
    pub steamd_id: Vec<u8>,
    pub position: (Decimal, Decimal, Decimal),
    pub rotation: (Decimal, Decimal, Decimal),
}

/// Mathematical view of a [`PlayerPos`].
pub struct PlayerPosV {
    pub steamd_id: Seq<u8>,
    pub position: (Decimal, Decimal, Decimal),
    pub rotation: (Decimal, Decimal, Decimal),
}

impl View for PlayerPos {
    type V = PlayerPosV;

    open spec fn view(&self) -> PlayerPosV {
        PlayerPosV {
            steamd_id: self.steamd_id@,
            position: self.position,
            rotation: self.rotation,
        }
    }
}

pub type PlayerPosList = Vec<PlayerPos>;

/// A position in the consumer's axis order.
#[derive(Clone, Copy, Debug, PartialEq)]
pub struct RconPosition {
    /// Horizontal offset from the map's center.
    pub x: Decimal,
    /// Vertical offset from the map's center.
    pub y: Decimal,
    /// Altitude.
    pub z: Decimal,
}

/// A merged player: the non-positional fields of its listing entry
/// together with its remapped position.
#[derive(Debug, PartialEq)]
pub struct Player {
    pub address: Vec<u8>,
    pub connected_seconds: u32,
    pub display_name: Vec<u8>,
    pub health: Decimal,
    pub id: Vec<u8>,
    pub position: RconPosition,
}

/// Mathematical view of a [`Player`].
pub struct PlayerV {
    pub address: Seq<u8>,
    pub connected_seconds: u32,
    pub display_name: Seq<u8>,
    pub health: Decimal,
    pub id: Seq<u8>,
    pub position: RconPosition,
}

impl View for Player {
    type V = PlayerV;

    open spec fn view(&self) -> PlayerV {
        PlayerV {
            address: self.address@,
            connected_seconds: self.connected_seconds,
            display_name: self.display_name@,
            health: self.health,
            id: self.id@,
            position: self.position,
        }
    }
}

/// A tool-cupboard structure: its entity id, remapped position and the
/// count of authorized users.
#[derive(Debug, PartialEq)]
pub struct ToolCupboard {
    pub id: Vec<u8>,
    pub position: RconPosition,
    pub auth_count: u32,
}

/// Mathematical view of a [`ToolCupboard`].
pub struct ToolCupboardV {
    pub id: Seq<u8>,
    pub position: RconPosition,
    pub auth_count: u32,
}

impl View for ToolCupboard {
    type V = ToolCupboardV;

    open spec fn view(&self) -> ToolCupboardV {
        ToolCupboardV { id: self.id@, position: self.position, auth_count: self.auth_count }
    }
}

/// The game clock: a decimal reading of a 24-hour clock.
#[derive(Clone, Copy, Debug, PartialEq)]
pub struct EnvTime(pub Decimal);

/// The published snapshot.
#[derive(Debug)]
pub struct State {
    /// List of players on the server.
    pub players: Vec<Player>,
    /// List of tool cupboards on the server.
    pub tcs: Vec<ToolCupboard>,
    /// Game time as the console reports it.
    pub game_time: EnvTime,
    /// When the state was synced: a Unix timestamp in milliseconds.
    pub sync_time_ms: u128,
}

/// Mathematical view of a [`State`].
pub struct StateV {
    pub players: Seq<PlayerV>,
    pub tcs: Seq<ToolCupboardV>,
    pub game_time: EnvTime,
    pub sync_time_ms: u128,
}

impl View for State {
    type V = StateV;

    open spec fn view(&self) -> StateV {
        StateV {
            players: views_of(self.players@),
            tcs: views_of(self.tcs@),
            game_time: self.game_time,
            sync_time_ms: self.sync_time_ms,
        }
    }
}

/// Every decimal of a listing entry is well formed.
pub open spec fn info_wf(p: PlayerInfoV) -> bool {
    p.CurrentLevel.wf() && p.Health.wf() && p.UnspentXp.wf() && p.VoiationLevel.wf()
}

/// Every decimal of a positional entry is well formed.
pub open spec fn pos_wf(p: PlayerPosV) -> bool {
    p.position.0.wf() && p.position.1.wf() && p.position.2.wf() && p.rotation.0.wf()
        && p.rotation.1.wf() && p.rotation.2.wf()
}

/// Every decimal of a merged player is well formed.
pub open spec fn player_wf(p: PlayerV) -> bool {
    p.health.wf() && p.position.x.wf() && p.position.y.wf() && p.position.z.wf()
}

/// Every decimal of a tool cupboard is well formed.
pub open spec fn tc_wf(c: ToolCupboardV) -> bool {
    c.position.x.wf() && c.position.y.wf() && c.position.z.wf()
}

/// Every decimal of a snapshot is well formed.
pub open spec fn state_wf(st: StateV) -> bool {
    &&& forall|i: int| 0 <= i < st.players.len() ==> player_wf(#[trigger] st.players[i])
    &&& forall|i: int| 0 <= i < st.tcs.len() ==> tc_wf(#[trigger] st.tcs[i])
    &&& st.game_time.0.wf()
}

/// The first positional entry carrying the given player id, if any.
pub open spec fn spec_first_pos(ps: Seq<PlayerPosV>, id: Seq<u8>) -> Option<PlayerPosV>
    decreases ps.len(),
{
    if ps.len() == 0 {
        None
    } else if ps[0].steamd_id == id {
        Some(ps[0])
    } else {
        spec_first_pos(ps.drop_first(), id)
    }
}

/// The player built from a listing entry and its positional entry: the
/// position triple's two trailing components are swapped, because the
/// console prints horizontal/height/depth while the consumer model orders
/// them horizontal/depth/height.
pub open spec fn spec_merged_player(info: PlayerInfoV, pos: PlayerPosV) -> PlayerV {
    PlayerV {
        address: info.Address,
        connected_seconds: info.ConnectedSeconds,
        display_name: info.DisplayName,
        health: info.Health,
        id: info.SteamID,
        position: RconPosition { x: pos.position.0, y: pos.position.2, z: pos.position.1 },
    }
}

/// The merged player list: one player per listing entry that has a
/// positional entry with the same id, in listing order; entries without a
/// position are dropped.
pub open spec fn spec_merge(poss: Seq<PlayerPosV>, infos: Seq<PlayerInfoV>) -> Seq<PlayerV>
    decreases infos.len(),
{
    if infos.len() == 0 {
        Seq::empty()
    } else {
        let rest = spec_merge(poss, infos.drop_first());
        match spec_first_pos(poss, infos[0].SteamID) {
            Some(pos) => seq![spec_merged_player(infos[0], pos)] + rest,
            None => rest,
        }
    }
}

/// A listing entry whose id the first `j` positional entries do not carry,
/// but entry `j` does, resolves to entry `j`.
pub proof fn lemma_first_pos_found(ps: Seq<PlayerPosV>, id: Seq<u8>, j: int)
    requires
        0 <= j < ps.len(),
        ps[j].steamd_id == id,
        forall|m: int| 0 <= m < j ==> ps[m].steamd_id != id,
    ensures
        spec_first_pos(ps, id) == Some(ps[j]),
    decreases j,
{
    if j > 0 {
        lemma_first_pos_found(ps.drop_first(), id, j - 1);
    }
}

/// An id that no positional entry carries resolves to nothing.
pub proof fn lemma_first_pos_none(ps: Seq<PlayerPosV>, id: Seq<u8>)
    requires
        forall|m: int| 0 <= m < ps.len() ==> ps[m].steamd_id != id,
    ensures
        spec_first_pos(ps, id) is None,
    decreases ps.len(),
{
    if ps.len() > 0 {
        lemma_first_pos_none(ps.drop_first(), id);
    }
}

/// A resolved position is one of the listing's entries.
pub proof fn lemma_first_pos_in(ps: Seq<PlayerPosV>, id: Seq<u8>)
    ensures
        spec_first_pos(ps, id) matches Some(p) ==> ps.contains(p),
    decreases ps.len(),
{
    if ps.len() > 0 {
        if ps[0].steamd_id == id {
            assert(ps.contains(ps[0]));
        } else {
            lemma_first_pos_in(ps.drop_first(), id);
            match spec_first_pos(ps.drop_first(), id) {
                Some(p) => {
                    let w = choose|w: int|
                        0 <= w < ps.drop_first().len() && ps.drop_first()[w] == p;
                    assert(ps[w + 1] == p);
                },
                None => {},
            }
        }
    }
}

/// Merging well-formed listings yields well-formed players.
pub proof fn lemma_merge_wf(poss: Seq<PlayerPosV>, infos: Seq<PlayerInfoV>)
    requires
        forall|i: int| 0 <= i < poss.len() ==> pos_wf(#[trigger] poss[i]),
        forall|i: int| 0 <= i < infos.len() ==> info_wf(#[trigger] infos[i]),
    ensures
        forall|k: int|
            0 <= k < spec_merge(poss, infos).len() ==> player_wf(
                #[trigger] spec_merge(poss, infos)[k],
            ),
    decreases infos.len(),
{
    if infos.len() > 0 {
        assert forall|i: int| 0 <= i < infos.drop_first().len() implies info_wf(
            #[trigger] infos.drop_first()[i],
        ) by {
            assert(infos.drop_first()[i] == infos[i + 1]);
        }
        lemma_merge_wf(poss, infos.drop_first());
        let rest = spec_merge(poss, infos.drop_first());
        match spec_first_pos(poss, infos[0].SteamID) {
            Some(pos) => {
                lemma_first_pos_in(poss, infos[0].SteamID);
                let w = choose|w: int| 0 <= w < poss.len() && poss[w] == pos;
                assert(pos_wf(pos));
                assert(player_wf(spec_merged_player(infos[0], pos)));
                assert forall|k: int| 0 <= k < spec_merge(poss, infos).len() implies player_wf(
                    #[trigger] spec_merge(poss, infos)[k],
                ) by {
                    if k > 0 {
                        assert(spec_merge(poss, infos)[k] == rest[k - 1]);
                    }
                }
            },
            None => {},
        }
    }
}

/// The merge law for one listing entry: a matching positional entry yields
/// exactly the remapped player, and a missing one yields no player.
pub proof fn lemma_merge_single(poss: Seq<PlayerPosV>, info: PlayerInfoV)
    ensures
        spec_first_pos(poss, info.SteamID) matches Some(pos) ==> spec_merge(poss, seq![info])
            =~= seq![spec_merged_player(info, pos)],
        spec_first_pos(poss, info.SteamID) is None ==> spec_merge(poss, seq![info]) =~= Seq::<
            PlayerV,
        >::empty(),
{
    let e = Seq::<PlayerInfoV>::empty();
    assert(seq![info].drop_first() =~= e);
    assert(spec_merge(poss, e) == Seq::<PlayerV>::empty());
    assert(seq![info][0] == info);
    match spec_first_pos(poss, info.SteamID) {
        Some(pos) => {
            assert(spec_merge(poss, seq![info]) =~= seq![spec_merged_player(info, pos)]);
        },
        None => {
            assert(spec_merge(poss, seq![info]) =~= Seq::<PlayerV>::empty());
        },
    }
}

/// Clones a byte string.
fn clone_bytes(v: &Vec<u8>) -> (r: Vec<u8>)
    ensures
        r@ == v@,
{
    let r = v.clone();
    proof {
        assert(r@ =~= v@);
    }
    r
}

/// Index of the first positional entry carrying the given id.
fn find_pos(poss: &Vec<PlayerPos>, id: &Vec<u8>) -> (r: Option<usize>)
    ensures
        match r {
            Some(j) => j < poss@.len() && poss@[j as int]@.steamd_id == id@ && spec_first_pos(
                views_of(poss@),
                id@,
            ) == Some(poss@[j as int]@),
            None => spec_first_pos(views_of(poss@), id@) is None,
        },
{
    let n: usize = poss.len();
    let mut j: usize = 0;
    while j < n
        invariant
            0 <= j <= n,
            n == poss@.len(),
            forall|m: int| 0 <= m < j ==> views_of(poss@)[m].steamd_id != id@,
        decreases n - j,
    {
        if bytes_eq(poss[j].steamd_id.as_slice(), id.as_slice()) {
            proof {
                lemma_first_pos_found(views_of(poss@), id@, j as int);
            }
            return Some(j);
        }
        j = j + 1;
    }
    proof {
        lemma_first_pos_none(views_of(poss@), id@);
    }
    None
}

/// Merges the positional and the non-positional player listings.
///
/// Each listing entry that has a positional entry with the same id becomes
/// one player, in listing order, its position remapped as
/// [`spec_merged_player`] states; an entry without a position yields no
/// player.
pub fn merge_playerlists(playerlistpos: PlayerPosList, playerlist: PlayerList) -> (r: Vec<Player>)
    ensures
        views_of(r@) == spec_merge(views_of(playerlistpos@), views_of(playerlist@)),
{
    let ghost gposs = views_of(playerlistpos@);
    let ghost ginfos = views_of(playerlist@);
    let mut players: Vec<Player> = Vec::new();
    let n: usize = playerlist.len();
    let mut idx: usize = 0;
    proof {
        assert(ginfos.skip(0) =~= ginfos);
        assert(views_of(players@) =~= Seq::<PlayerV>::empty());
    }
    while idx < n
        invariant
            0 <= idx <= n,
            n == playerlist@.len(),
            gposs == views_of(playerlistpos@),
            ginfos == views_of(playerlist@),
            views_of(players@) + spec_merge(gposs, ginfos.skip(idx as int)) == spec_merge(
                gposs,
                ginfos,
            ),
        decreases n - idx,
    {
        let info = &playerlist[idx];
        let ghost tail = ginfos.skip(idx as int);
        proof {
            assert(tail.len() > 0);
            assert(tail[0] == ginfos[idx as int]);
            assert(tail.drop_first() =~= ginfos.skip(idx as int + 1));
        }
        let found = find_pos(&playerlistpos, &info.SteamID);
        let ghost players_before = players@;
        match found {
            Some(j) => {
                let pos = &playerlistpos[j];
                let p = Player {
                    address: clone_bytes(&info.Address),
                    connected_seconds: info.ConnectedSeconds,
                    display_name: clone_bytes(&info.DisplayName),
                    health: info.Health,
                    id: clone_bytes(&info.SteamID),
                    position: RconPosition {
                        x: pos.position.0,
                        y: pos.position.2,
                        z: pos.position.1,
                    },
                };
                proof {
                    assert(p@ == spec_merged_player(ginfos[idx as int], gposs[j as int]));
                }
                players.push(p);
                proof {
                    assert(views_of(players@) =~= views_of(players_before) + seq![p@]);
                    assert(views_of(players@) + spec_merge(gposs, ginfos.skip(idx as int + 1))
                        =~= spec_merge(gposs, ginfos));
                }
            },
            None => {
                proof {
                    assert(views_of(players@) + spec_merge(gposs, ginfos.skip(idx as int + 1))
                        =~= spec_merge(gposs, ginfos));
                }
            },
        }
        idx = idx + 1;
    }
    proof {
        assert(ginfos.skip(n as int) =~= Seq::<PlayerInfoV>::empty());
        assert(views_of(players@) =~= views_of(players@) + spec_merge(
            gposs,
            ginfos.skip(n as int),
        ));
    }
    players
}

} // verus!
