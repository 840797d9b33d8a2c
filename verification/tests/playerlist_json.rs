//! Tests for the JSON player-list decoder.

use rcon_bridge::playerlist::global_playerlist;
use rcon_bridge::{Decimal, DecodeError};

fn one_player_json() -> Vec<u8> {
    "[{\"Address\":\"203.0.113.7:52624\",\
\"ConnectedSeconds\":3600,\
\"CurrentLevel\":0.0,\
\"DisplayName\":\"Jeti\",\
\"Health\":100.0,\
\"OwnerSteamID\":\"0\",\
\"Ping\":42,\
\"SteamID\":\"76561198135242017\",\
\"UnspentXp\":0.0,\
\"VoiationLevel\":0.0}]"
        .as_bytes()
        .to_vec()
}

#[test]
fn playerlist_single_record() {
    let list = global_playerlist(&one_player_json()).unwrap();
    assert_eq!(list.len(), 1);
    let p = &list[0];
    assert_eq!(p.Address, b"203.0.113.7:52624".to_vec());
    assert_eq!(p.ConnectedSeconds, 3600);
    assert_eq!(p.DisplayName, b"Jeti".to_vec());
    assert_eq!(p.Health, Decimal { neg: false, units: 100, frac: 0, frac_len: 1 });
    assert_eq!(p.Ping, 42);
    assert_eq!(p.SteamID, b"76561198135242017".to_vec());
}

#[test]
fn playerlist_field_order_is_free() {
    let text = "[ { \"SteamID\" : \"76561198347416108\", \"Health\": 55.5,\
 \"DisplayName\": \"softside bandit Erkki\", \"Address\": \"198.51.100.2:1000\",\
 \"Ping\": 7, \"ConnectedSeconds\": 12, \"CurrentLevel\": 1,\
 \"OwnerSteamID\": \"0\", \"UnspentXp\": 2.5, \"VoiationLevel\": 0.0 } ]";
    let list = global_playerlist(text.as_bytes()).unwrap();
    assert_eq!(list.len(), 1);
    assert_eq!(list[0].DisplayName, b"softside bandit Erkki".to_vec());
    assert_eq!(list[0].Health, Decimal { neg: false, units: 55, frac: 5, frac_len: 1 });
}

#[test]
fn playerlist_unknown_fields_are_passed_over() {
    let text = "[{\"Address\":\"a\",\"ConnectedSeconds\":1,\"CurrentLevel\":0,\
\"DisplayName\":\"n\",\"Health\":1,\"OwnerSteamID\":\"0\",\"Ping\":1,\
\"SteamID\":\"s\",\"UnspentXp\":0,\"VoiationLevel\":0,\
\"Extra\":{\"nested\":[1,2,{\"deep\":null}],\"flag\":true}}]";
    let list = global_playerlist(text.as_bytes()).unwrap();
    assert_eq!(list.len(), 1);
    assert_eq!(list[0].SteamID, b"s".to_vec());
}

#[test]
fn playerlist_name_escapes() {
    let text = "[{\"Address\":\"a\",\"ConnectedSeconds\":1,\"CurrentLevel\":0,\
\"DisplayName\":\"quote \\\" back \\\\ tab \\t uni \\u00e9\",\
\"Health\":1,\"OwnerSteamID\":\"0\",\"Ping\":1,\
\"SteamID\":\"s\",\"UnspentXp\":0,\"VoiationLevel\":0}]";
    let list = global_playerlist(text.as_bytes()).unwrap();
    let expected = "quote \" back \\ tab \t uni \u{e9}".as_bytes().to_vec();
    assert_eq!(list[0].DisplayName, expected);
}

#[test]
fn playerlist_empty_array() {
    assert_eq!(global_playerlist(b"[]").unwrap(), vec![]);
    assert_eq!(global_playerlist(b"  [ ]  ").unwrap(), vec![]);
}

#[test]
fn playerlist_errors() {
    // not JSON at all
    assert_eq!(global_playerlist(b"lorem ipsum"), Err(DecodeError::Json));
    // not an array
    assert_eq!(global_playerlist(b"{}"), Err(DecodeError::Json));
    // a record with a field missing
    assert_eq!(
        global_playerlist(b"[{\"Address\":\"a\"}]"),
        Err(DecodeError::Json)
    );
    // a record with a duplicate field
    let dup = "[{\"Address\":\"a\",\"Address\":\"b\",\"ConnectedSeconds\":1,\"CurrentLevel\":0,\
\"DisplayName\":\"n\",\"Health\":1,\"OwnerSteamID\":\"0\",\"Ping\":1,\
\"SteamID\":\"s\",\"UnspentXp\":0,\"VoiationLevel\":0}]";
    assert_eq!(global_playerlist(dup.as_bytes()), Err(DecodeError::Json));
    // a mistyped field
    let bad = "[{\"Address\":7,\"ConnectedSeconds\":1,\"CurrentLevel\":0,\
\"DisplayName\":\"n\",\"Health\":1,\"OwnerSteamID\":\"0\",\"Ping\":1,\
\"SteamID\":\"s\",\"UnspentXp\":0,\"VoiationLevel\":0}]";
    assert_eq!(global_playerlist(bad.as_bytes()), Err(DecodeError::Json));
    // trailing garbage after the array
    assert_eq!(global_playerlist(b"[] trailing"), Err(DecodeError::Json));
}

#[test]
fn playerlist_agrees_with_reference_parser() {
    // the decoder and a reference JSON parser agree on what the record says
    let raw = one_player_json();
    let v: serde_json::Value = serde_json::from_slice(&raw).unwrap();
    let list = global_playerlist(&raw).unwrap();
    assert_eq!(
        v[0]["SteamID"].as_str().unwrap().as_bytes().to_vec(),
        list[0].SteamID
    );
    assert_eq!(v[0]["Ping"].as_u64().unwrap() as u32, list[0].Ping);
}
