//! Tests for the player-state merger.

use rcon_bridge::rcon::{merge_playerlists, PlayerInfo, PlayerPos};
use rcon_bridge::Decimal;

fn dec(units: u64, frac: u64, frac_len: u64) -> Decimal {
    Decimal { neg: false, units, frac, frac_len }
}

fn info(steam_id: &str, name: &str) -> PlayerInfo {
    PlayerInfo {
        Address: b"203.0.113.7:1".to_vec(),
        ConnectedSeconds: 60,
        CurrentLevel: dec(0, 0, 1),
        DisplayName: name.as_bytes().to_vec(),
        Health: dec(100, 0, 1),
        OwnerSteamID: b"0".to_vec(),
        Ping: 20,
        SteamID: steam_id.as_bytes().to_vec(),
        UnspentXp: dec(0, 0, 1),
        VoiationLevel: dec(0, 0, 1),
    }
}

fn pos(steam_id: &str, px: Decimal, py: Decimal, pz: Decimal) -> PlayerPos {
    PlayerPos {
        steamd_id: steam_id.as_bytes().to_vec(),
        position: (px, py, pz),
        rotation: (dec(0, 0, 1), dec(0, 0, 1), dec(0, 0, 1)),
    }
}

#[test]
fn merge_swaps_trailing_components() {
    // the parsed triple (px, py, pz) becomes the player position (px, pz, py)
    let px = dec(100, 5, 1);
    let py = dec(7, 25, 2);
    let pz = dec(650, 0, 1);
    let merged = merge_playerlists(
        vec![pos("76561198135242017", px, py, pz)],
        vec![info("76561198135242017", "Jeti")],
    );
    assert_eq!(merged.len(), 1);
    assert_eq!(merged[0].position.x, px);
    assert_eq!(merged[0].position.y, pz);
    assert_eq!(merged[0].position.z, py);
    assert_eq!(merged[0].id, b"76561198135242017".to_vec());
    assert_eq!(merged[0].display_name, b"Jeti".to_vec());
    assert_eq!(merged[0].health, dec(100, 0, 1));
    assert_eq!(merged[0].connected_seconds, 60);
}

#[test]
fn merge_drops_unresolved_infos() {
    // a listing entry with no positional entry yields no player
    let merged = merge_playerlists(
        vec![pos("111", dec(1, 0, 1), dec(2, 0, 1), dec(3, 0, 1))],
        vec![info("111", "有"), info("222", "nowhere")],
    );
    assert_eq!(merged.len(), 1);
    assert_eq!(merged[0].id, b"111".to_vec());
}

#[test]
fn merge_keeps_listing_order() {
    let poss = vec![
        pos("b", dec(2, 0, 1), dec(0, 0, 1), dec(0, 0, 1)),
        pos("a", dec(1, 0, 1), dec(0, 0, 1), dec(0, 0, 1)),
    ];
    let infos = vec![info("a", "first"), info("b", "second")];
    let merged = merge_playerlists(poss, infos);
    assert_eq!(merged.len(), 2);
    assert_eq!(merged[0].id, b"a".to_vec());
    assert_eq!(merged[1].id, b"b".to_vec());
}

#[test]
fn merge_takes_first_matching_position() {
    let poss = vec![
        pos("x", dec(10, 0, 1), dec(0, 0, 1), dec(0, 0, 1)),
        pos("x", dec(20, 0, 1), dec(0, 0, 1), dec(0, 0, 1)),
    ];
    let merged = merge_playerlists(poss, vec![info("x", "double")]);
    assert_eq!(merged.len(), 1);
    assert_eq!(merged[0].position.x, dec(10, 0, 1));
}

#[test]
fn merge_of_empty_listings() {
    assert_eq!(merge_playerlists(vec![], vec![]), vec![]);
    assert_eq!(
        merge_playerlists(vec![], vec![info("a", "alone")]),
        vec![]
    );
}
