//! Tests for the text decoders: float triples, listing lines, the game
//! clock, and the whole tabular replies.

use rcon_bridge::decode::{env_time, global_listtoolcupboards, global_playerlistpos,
    parse_float_triple, parse_listtoolcupboards, parse_playerlistpos};
use rcon_bridge::{Decimal, DecodeError};

/// The numeric value a decimal denotes, read back through the standard
/// float parser so it matches a source literal exactly.
fn dec_f64(d: &Decimal) -> f64 {
    let sign = if d.neg { "-" } else { "" };
    let text = if d.frac_len == 0 {
        format!("{}{}", sign, d.units)
    } else {
        let frac = format!("{:0>width$}", d.frac.to_string(), width = d.frac_len as usize);
        format!("{}{}.{}", sign, d.units, frac)
    };
    text.parse().unwrap()
}

fn triple_f64(t: &(Decimal, Decimal, Decimal)) -> (f64, f64, f64) {
    (dec_f64(&t.0), dec_f64(&t.1), dec_f64(&t.2))
}

#[test]
fn test_parse_float_triple() {
    assert_eq!(
        triple_f64(&parse_float_triple(b"821.94, 0.00, 676.77").unwrap()),
        (821.94, 0.00, 676.77)
    );
    assert_eq!(
        triple_f64(&parse_float_triple(b"821.94, 0.00, -676.77").unwrap()),
        (821.94, 0.00, -676.77)
    );
}

#[test]
fn test_parse_playerlistpos() {
    let p = parse_playerlistpos(
        b"76561198135242017 Jeti        (-1027.08, 0.31, 668.11) (-0.72, 0.00, 0.69)",
    )
    .unwrap();
    assert_eq!(triple_f64(&p.position), (-1027.08, 0.31, 668.11));
    assert_eq!(triple_f64(&p.rotation), (-0.72, 0.00, 0.69));
    assert_eq!(p.steamd_id, b"76561198135242017".to_vec());

    let p = parse_playerlistpos(
        b"76561198347416108 TheRedGam3r (-1804.55, 33.14, -696.72) (0.23, -0.59, 0.77)",
    )
    .unwrap();
    assert_eq!(triple_f64(&p.position), (-1804.55, 33.14, -696.72));
    assert_eq!(triple_f64(&p.rotation), (0.23, -0.59, 0.77));
    assert_eq!(p.steamd_id, b"76561198347416108".to_vec());

    let p = parse_playerlistpos(
        b"76561198135242017 Raudus      (1627.04, 2.02, 1795.76)   (-0.15, 0.04, 0.99)",
    )
    .unwrap();
    assert_eq!(triple_f64(&p.position), (1627.04, 2.02, 1795.76));
    assert_eq!(triple_f64(&p.rotation), (-0.15, 0.04, 0.99));
    assert_eq!(p.steamd_id, b"76561198135242017".to_vec());

    let p = parse_playerlistpos(
        b"76561199278150966 softside bandit Erkki (-138.61, 8.61, -634.68) (0.94, -0.17, 0.30)",
    )
    .unwrap();
    assert_eq!(triple_f64(&p.position), (-138.61, 8.61, -634.68));
    assert_eq!(triple_f64(&p.rotation), (0.94, -0.17, 0.30));
    assert_eq!(p.steamd_id, b"76561199278150966".to_vec());
}

#[test]
fn test_parse_listtoolcupboards() {
    let c = parse_listtoolcupboards(b"754298   (278.51, 37.18, 83.82)     0").unwrap();
    assert_eq!(c.auth_count, 0);
    assert_eq!(c.id, b"754298".to_vec());
    assert_eq!(dec_f64(&c.position.x), 278.51);
    assert_eq!(dec_f64(&c.position.z), 37.18);
    assert_eq!(dec_f64(&c.position.y), 83.82);

    let c = parse_listtoolcupboards(b"55220    (-211.04, 7.62, -605.48) 1").unwrap();
    assert_eq!(c.auth_count, 1);
    assert_eq!(c.id, b"55220".to_vec());
    assert_eq!(dec_f64(&c.position.x), -211.04);
    assert_eq!(dec_f64(&c.position.z), 7.62);
    assert_eq!(dec_f64(&c.position.y), -605.48);
}

#[test]
fn float_triple_exact_fields() {
    let t = parse_float_triple(b"821.94, 0.00, -676.77").unwrap();
    assert_eq!(t.0, Decimal { neg: false, units: 821, frac: 94, frac_len: 2 });
    assert_eq!(t.1, Decimal { neg: false, units: 0, frac: 0, frac_len: 2 });
    assert_eq!(t.2, Decimal { neg: true, units: 676, frac: 77, frac_len: 2 });
}

#[test]
fn float_triple_errors() {
    assert_eq!(parse_float_triple(b"1.0, 2.0"), Err(DecodeError::Line));
    assert_eq!(parse_float_triple(b""), Err(DecodeError::Line));
    assert_eq!(parse_float_triple(b"1.0, 2.0, abc"), Err(DecodeError::Number));
    assert_eq!(parse_float_triple(b"1.0, , 3.0"), Err(DecodeError::Number));
    // a digit run wider than nineteen digits cannot be represented exactly
    assert_eq!(
        parse_float_triple(b"1.0, 2.0, 12345678901234567890123"),
        Err(DecodeError::Number)
    );
}

#[test]
fn float_triple_ignores_extra_components() {
    let t = parse_float_triple(b"1.5, -2, 3.25, 99").unwrap();
    assert_eq!(dec_f64(&t.0), 1.5);
    assert_eq!(dec_f64(&t.1), -2.0);
    assert_eq!(dec_f64(&t.2), 3.25);
}

#[test]
fn playerlistpos_line_errors() {
    assert_eq!(
        parse_playerlistpos(b"no parens at all"),
        Err(DecodeError::Line)
    );
    assert_eq!(
        parse_playerlistpos(b"123 Shorty (1, 2, 3) (4, 5, 6)"),
        Err(DecodeError::Line)
    );
    assert_eq!(
        parse_playerlistpos(b"76561198135242017 Jeti (1, 2) (4, 5, 6)"),
        Err(DecodeError::Line)
    );
    assert_eq!(
        parse_playerlistpos(b"76561198135242017 Jeti (1, x, 3) (4, 5, 6)"),
        Err(DecodeError::Number)
    );
}

#[test]
fn toolcupboard_line_errors() {
    assert_eq!(parse_listtoolcupboards(b""), Err(DecodeError::Line));
    assert_eq!(
        parse_listtoolcupboards(b"754298 (1, 2, 3)"),
        Err(DecodeError::Line)
    );
    assert_eq!(
        parse_listtoolcupboards(b"754298 (1, 2, x) 0"),
        Err(DecodeError::Number)
    );
    // a count too wide for its 32-bit field
    assert_eq!(
        parse_listtoolcupboards(b"754298 (1, 2, 3) 4294967296"),
        Err(DecodeError::Number)
    );
}

#[test]
fn env_time_examples() {
    let d = env_time(b"env.time: \"10.63853\"").unwrap();
    assert_eq!(dec_f64(&d), 10.63853);
    // the pattern may sit anywhere in free text
    let d = env_time(b"server says env.time: \"23.99\" and more").unwrap();
    assert_eq!(dec_f64(&d), 23.99);
    // no fractional part, no quotes, or no match at all yield nothing
    assert_eq!(env_time(b"env.time: \"10\""), None);
    assert_eq!(env_time(b"env.time: 10.63853"), None);
    assert_eq!(env_time(b"something else entirely"), None);
    assert_eq!(env_time(b""), None);
}

#[test]
fn playerlistpos_reply_discards_header() {
    let reply = b"SteamID           DisplayName POS                     ROT\n\
76561198135242017 Jeti        (-1027.08, 0.31, 668.11) (-0.72, 0.00, 0.69)\n\
76561198347416108 TheRedGam3r (-1804.55, 33.14, -696.72) (0.23, -0.59, 0.77)";
    let list = global_playerlistpos(reply).unwrap();
    assert_eq!(list.len(), 2);
    assert_eq!(list[0].steamd_id, b"76561198135242017".to_vec());
    assert_eq!(list[1].steamd_id, b"76561198347416108".to_vec());
}

#[test]
fn playerlistpos_reply_empty_and_errors() {
    assert_eq!(global_playerlistpos(b"").unwrap(), vec![]);
    // a header alone means nobody is online
    assert_eq!(global_playerlistpos(b"SteamID DisplayName POS ROT").unwrap(), vec![]);
    // any bad line after the header fails the reply
    assert_eq!(
        global_playerlistpos(b"header\nnot a player line"),
        Err(DecodeError::Line)
    );
}

#[test]
fn listtoolcupboards_reply_discards_header() {
    let reply = b"EntityId Position Authed\n\
754298   (278.51, 37.18, 83.82)     0\n\
55220    (-211.04, 7.62, -605.48) 1\n";
    let list = global_listtoolcupboards(reply).unwrap();
    assert_eq!(list.len(), 2);
    assert_eq!(list[0].id, b"754298".to_vec());
    assert_eq!(list[0].auth_count, 0);
    assert_eq!(list[1].id, b"55220".to_vec());
    assert_eq!(list[1].auth_count, 1);
}

#[test]
fn listtoolcupboards_reply_errors() {
    assert_eq!(global_listtoolcupboards(b"").unwrap(), vec![]);
    assert_eq!(
        global_listtoolcupboards(b"header\nbroken line"),
        Err(DecodeError::Line)
    );
}

#[test]
fn lines_with_carriage_returns() {
    let reply = b"EntityId Position Authed\r\n754298   (278.51, 37.18, 83.82)     0\r\n";
    let list = global_listtoolcupboards(reply).unwrap();
    assert_eq!(list.len(), 1);
    assert_eq!(list[0].id, b"754298".to_vec());
}

#[test]
fn pos_line_with_trailing_whitespace() {
    let p = parse_playerlistpos(
        b"76561198135242017 Jeti (-1027.08, 0.31, 668.11) (-0.72, 0.00, 0.69)   ",
    )
    .unwrap();
    assert_eq!(p.steamd_id, b"76561198135242017".to_vec());
    assert_eq!(triple_f64(&p.rotation), (-0.72, 0.00, 0.69));
}
