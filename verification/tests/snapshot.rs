//! Tests for the sync tick, the snapshot serializer, the subscriber
//! registry, and their interplay over one broadcast pass.

use rcon_bridge::config::Config;
use rcon_bridge::rcon::EnvTime;
use rcon_bridge::registry::Registry;
use rcon_bridge::sync::{serialize_state, sync_tick};
use rcon_bridge::Decimal;

fn zero_time() -> EnvTime {
    EnvTime(Decimal { neg: false, units: 0, frac: 0, frac_len: 1 })
}

fn playerlist_raw() -> Vec<u8> {
    "[{\"Address\":\"203.0.113.7:52624\",\"ConnectedSeconds\":3600,\"CurrentLevel\":0.0,\
\"DisplayName\":\"Jeti\",\"Health\":87.5,\"OwnerSteamID\":\"0\",\"Ping\":42,\
\"SteamID\":\"76561198135242017\",\"UnspentXp\":0.0,\"VoiationLevel\":0.0}]"
        .as_bytes()
        .to_vec()
}

fn playerlistpos_raw() -> Vec<u8> {
    b"SteamID DisplayName POS ROT\n\
76561198135242017 Jeti        (-1027.08, 0.31, 668.11) (-0.72, 0.00, 0.69)"
        .to_vec()
}

fn tcs_raw() -> Vec<u8> {
    b"EntityId Position Authed\n754298   (278.51, 37.18, 83.82)     0".to_vec()
}

fn time_raw() -> Vec<u8> {
    b"env.time: \"10.63853\"".to_vec()
}

#[test]
fn tick_assembles_snapshot() {
    let st = sync_tick(
        Some(time_raw()),
        Some(playerlist_raw()),
        Some(playerlistpos_raw()),
        Some(tcs_raw()),
        zero_time(),
        1700000000123,
    );
    assert_eq!(st.players.len(), 1);
    assert_eq!(st.players[0].id, b"76561198135242017".to_vec());
    // the parsed triple's trailing components land swapped
    assert_eq!(st.players[0].position.y, Decimal { neg: false, units: 668, frac: 11, frac_len: 2 });
    assert_eq!(st.players[0].position.z, Decimal { neg: false, units: 0, frac: 31, frac_len: 2 });
    assert_eq!(st.tcs.len(), 1);
    assert_eq!(st.game_time.0, Decimal { neg: false, units: 10, frac: 63853, frac_len: 5 });
    assert_eq!(st.sync_time_ms, 1700000000123);
}

#[test]
fn tick_falls_back_on_failures() {
    let prev = EnvTime(Decimal { neg: false, units: 23, frac: 5, frac_len: 1 });
    // the clock reply is unreadable, the listings fail outright
    let st = sync_tick(
        Some(b"no clock here".to_vec()),
        None,
        Some(b"header\nbroken line".to_vec()),
        None,
        prev,
        42,
    );
    // the clock keeps its previous value; the lists are empty for the tick
    assert_eq!(st.game_time, prev);
    assert_eq!(st.players.len(), 0);
    assert_eq!(st.tcs.len(), 0);
}

#[test]
fn tick_drops_players_without_position() {
    // the positional reply succeeds but lists nobody
    let st = sync_tick(
        Some(time_raw()),
        Some(playerlist_raw()),
        Some(b"SteamID DisplayName POS ROT".to_vec()),
        Some(tcs_raw()),
        zero_time(),
        1,
    );
    assert_eq!(st.players.len(), 0);
}

#[test]
fn snapshot_document_shape() {
    let st = sync_tick(
        Some(time_raw()),
        Some(playerlist_raw()),
        Some(playerlistpos_raw()),
        Some(tcs_raw()),
        zero_time(),
        1700000000123,
    );
    let doc = serialize_state(&st);
    let v: serde_json::Value = serde_json::from_slice(&doc).unwrap();
    assert_eq!(v["players"].as_array().unwrap().len(), 1);
    let p = &v["players"][0];
    assert_eq!(p["address"].as_str().unwrap(), "203.0.113.7:52624");
    assert_eq!(p["connected_seconds"].as_u64().unwrap(), 3600);
    assert_eq!(p["display_name"].as_str().unwrap(), "Jeti");
    assert_eq!(p["health"].as_f64().unwrap(), 87.5);
    assert_eq!(p["id"].as_str().unwrap(), "76561198135242017");
    assert_eq!(p["position"]["x"].as_f64().unwrap(), -1027.08);
    assert_eq!(p["position"]["y"].as_f64().unwrap(), 668.11);
    assert_eq!(p["position"]["z"].as_f64().unwrap(), 0.31);
    let c = &v["tcs"][0];
    assert_eq!(c["id"].as_str().unwrap(), "754298");
    assert_eq!(c["auth_count"].as_u64().unwrap(), 0);
    assert_eq!(c["position"]["x"].as_f64().unwrap(), 278.51);
    assert_eq!(c["position"]["y"].as_f64().unwrap(), 83.82);
    assert_eq!(c["position"]["z"].as_f64().unwrap(), 37.18);
    assert_eq!(v["game_time"].as_f64().unwrap(), 10.63853);
    assert_eq!(v["sync_time_ms"].as_u64().unwrap(), 1700000000123);
}

#[test]
fn snapshot_escapes_names() {
    let raw = "[{\"Address\":\"a\",\"ConnectedSeconds\":1,\"CurrentLevel\":0,\
\"DisplayName\":\"a \\\"quoted\\\" name\",\"Health\":1,\"OwnerSteamID\":\"0\",\"Ping\":1,\
\"SteamID\":\"76561198135242017\",\"UnspentXp\":0,\"VoiationLevel\":0}]"
        .as_bytes()
        .to_vec();
    let st = sync_tick(
        None,
        Some(raw),
        Some(playerlistpos_raw()),
        None,
        zero_time(),
        7,
    );
    let doc = serialize_state(&st);
    let v: serde_json::Value = serde_json::from_slice(&doc).unwrap();
    assert_eq!(
        v["players"][0]["display_name"].as_str().unwrap(),
        "a \"quoted\" name"
    );
}

#[test]
fn registry_hands_out_fresh_ids() {
    let mut reg = Registry::new();
    let a = reg.accept();
    let b = reg.accept();
    let c = reg.accept();
    assert_eq!((a, b, c), (0, 1, 2));
    assert_eq!(reg.ids, vec![0, 1, 2]);
    reg.prune(&vec![1]);
    // a later accept never reuses a pruned id
    let d = reg.accept();
    assert_eq!(d, 3);
    assert_eq!(reg.ids, vec![0, 2, 3]);
}

#[test]
fn broadcast_prunes_failed_subscriber() {
    // three subscribers are registered
    let mut reg = Registry::new();
    let s0 = reg.accept();
    let s1 = reg.accept();
    let s2 = reg.accept();
    // one sync tick produces one snapshot, serialized once
    let st = sync_tick(
        Some(time_raw()),
        Some(playerlist_raw()),
        Some(playerlistpos_raw()),
        Some(tcs_raw()),
        zero_time(),
        99,
    );
    let doc = serialize_state(&st);
    // the broadcast pass: subscriber s1's handle is closed externally, so
    // its write fails; the others each receive the document once
    let mut delivered: Vec<(u64, Vec<u8>)> = Vec::new();
    let mut failed: Vec<u64> = Vec::new();
    for id in reg.ids.clone() {
        let write_ok = id != s1;
        if write_ok {
            delivered.push((id, doc.clone()));
        } else {
            failed.push(id);
        }
    }
    reg.prune(&failed);
    // the registry holds exactly the other two subscribers
    assert_eq!(reg.ids, vec![s0, s2]);
    // each received exactly one well-formed snapshot document for the tick
    assert_eq!(delivered.len(), 2);
    for (_, d) in &delivered {
        let v: serde_json::Value = serde_json::from_slice(d).unwrap();
        assert!(v["players"].is_array());
        assert!(v["tcs"].is_array());
        assert!(v["game_time"].is_number());
        assert_eq!(v["sync_time_ms"].as_u64().unwrap(), 99);
    }
}

#[test]
fn config_keeps_connection_string() {
    let c = Config::get(String::from("ws://127.0.0.1:28016/its-rcon-password"));
    assert_eq!(c.rcon_connection, "ws://127.0.0.1:28016/its-rcon-password");
}
