//! The upstream wire protocol: command frames out, reply frames in, and
//! the correlator that matches a reply to the command that caused it.
//!
//! An outbound frame is the JSON object `{"Identifier":<n>,"Message":<s>}`.
//! An inbound frame is a JSON object carrying `Identifier`, `Message`,
//! `Type` and `Stacktrace`; only the first two are consumed, but all four
//! must be present for the frame to count as a reply.  A frame that does
//! not decode, or whose identifier is not the pending one, is discarded;
//! only a matching reply ends the wait.

use vstd::prelude::*;

use crate::decimal::Decimal;
use crate::json::{json_ws_end, nxt_in, parse_number, parse_string, skip_json_ws, skip_value,
    sp_number, sp_skip_value, sp_string};
use crate::ser::{digits_of, esc_bytes, push_bytes, push_escaped, push_u64_digits};
use crate::text::bytes_eq;
use vstd::string::StringSliceAdditionalSpecFns;

verus! {

/// The consumed part of a reply frame.
#[derive(Debug)]
pub struct Response {
    pub identifier: i32,
    pub message: Vec<u8>,
}

/// Mathematical view of a [`Response`].
pub struct ResponseV {
    pub identifier: i32,
    pub message: Seq<u8>,
}

impl View for Response {
    type V = ResponseV;

    open spec fn view(&self) -> ResponseV {
        ResponseV { identifier: self.identifier, message: self.message@ }
    }
}

/// A numeric field read as a signed 32-bit identifier: an integer in
/// range.
pub open spec fn dec_to_i32(d: Decimal) -> Option<i32> {
    if d.frac_len != 0 {
        None
    } else if d.neg {
        if d.units <= 0x80000000 {
            Some((0 - d.units as int) as i32)
        } else {
            None
        }
    } else {
        if d.units <= 0x7fffffff {
            Some(d.units as i32)
        } else {
            None
        }
    }
}

/// Reads a decimal as a signed 32-bit identifier.
pub fn decimal_to_i32(d: &Decimal) -> (r: Option<i32>)
    ensures
        r == dec_to_i32(*d),
{
    if d.frac_len != 0 {
        None
    } else if d.neg {
        if d.units <= 0x80000000 {
            Some((0 - (d.units as i64)) as i32)
        } else {
            None
        }
    } else {
        if d.units <= 0x7fffffff {
            Some(d.units as i32)
        } else {
            None
        }
    }
}

/// One slot per reply field; the two fields whose content is not consumed
/// only record that they were seen.
pub struct RespSlots {
    pub identifier: Option<i32>,
    pub message: Option<Vec<u8>>,
    pub typ_seen: bool,
    pub stack_seen: bool,
}

/// Mathematical view of the reply slots.
pub struct RespSlotsV {
    pub identifier: Option<i32>,
    pub message: Option<Seq<u8>>,
    pub typ_seen: bool,
    pub stack_seen: bool,
}

impl View for RespSlots {
    type V = RespSlotsV;

    open spec fn view(&self) -> RespSlotsV {
        RespSlotsV {
            identifier: self.identifier,
            message: match self.message {
                Some(v) => Some(v@),
                None => None,
            },
            typ_seen: self.typ_seen,
            stack_seen: self.stack_seen,
        }
    }
}

/// All reply slots still empty.
pub open spec fn empty_resp_slots() -> RespSlotsV {
    RespSlotsV { identifier: None, message: None, typ_seen: false, stack_seen: false }
}

/// The reply a filled slot set denotes; nothing while a field is missing.
pub open spec fn finish_resp(sl: RespSlotsV) -> Option<ResponseV> {
    if sl.identifier is Some && sl.message is Some && sl.typ_seen && sl.stack_seen {
        Some(ResponseV { identifier: sl.identifier.unwrap(), message: sl.message.unwrap() })
    } else {
        None
    }
}

/// One reply member value at `v` under the given key: `Identifier` must
/// be an integer in range, the other three must be strings; a duplicate
/// known key is a fault, an unknown key's value is passed over.
#[verifier::opaque]
pub open spec fn sp_resp_member_val(s: Seq<u8>, v: int, key: Seq<u8>, sl: RespSlotsV) -> Option<
    (RespSlotsV, int),
> {
    if key == "Identifier".spec_bytes() {
        if sl.identifier is Some {
            None
        } else {
            match sp_number(s, v) {
                Some(q) => match dec_to_i32(q.0) {
                    Some(id) => Some((RespSlotsV { identifier: Some(id), ..sl }, q.1)),
                    None => None,
                },
                None => None,
            }
        }
    } else if key == "Message".spec_bytes() {
        if sl.message is Some {
            None
        } else {
            match sp_string(s, v) {
                Some(q) => Some((RespSlotsV { message: Some(q.0), ..sl }, q.1)),
                None => None,
            }
        }
    } else if key == "Type".spec_bytes() {
        if sl.typ_seen {
            None
        } else {
            match sp_string(s, v) {
                Some(q) => Some((RespSlotsV { typ_seen: true, ..sl }, q.1)),
                None => None,
            }
        }
    } else if key == "Stacktrace".spec_bytes() {
        if sl.stack_seen {
            None
        } else {
            match sp_string(s, v) {
                Some(q) => Some((RespSlotsV { stack_seen: true, ..sl }, q.1)),
                None => None,
            }
        }
    } else {
        match sp_skip_value(s, v) {
            Some(e) => Some((sl, e)),
            None => None,
        }
    }
}

/// The reply members from `i` on, given the slots already filled: the
/// finished reply and the index just past the closing brace.
pub open spec fn sp_resp_members(s: Seq<u8>, i: int, sl: RespSlotsV) -> Option<(ResponseV, int)>
    decreases s.len() - i
        when 0 <= i <= s.len()
{
    if i >= s.len() {
        None
    } else {
        match sp_string(s, i) {
            None => None,
            Some(p) => {
                let c = json_ws_end(s, nxt_in(s, i, p.1));
                if !(0 <= c < s.len()) || s[c] != 0x3a {
                    None
                } else {
                    let v = nxt_in(s, i, json_ws_end(s, c + 1));
                    match sp_resp_member_val(s, v, p.0, sl) {
                        None => None,
                        Some(q) => {
                            let w = json_ws_end(s, nxt_in(s, i, q.1));
                            if !(0 <= w < s.len()) {
                                None
                            } else if s[w] == 0x2c {
                                sp_resp_members(s, nxt_in(s, i, json_ws_end(s, w + 1)), q.0)
                            } else if s[w] == 0x7d {
                                match finish_resp(q.0) {
                                    Some(resp) => Some((resp, w + 1)),
                                    None => None,
                                }
                            } else {
                                None
                            }
                        },
                    }
                }
            },
        }
    }
}

/// What a whole reply frame decodes to: a JSON object with the four reply
/// fields, each exactly once, and nothing but whitespace around it.
pub open spec fn spec_decode_response(s: Seq<u8>) -> Option<ResponseV> {
    let i = json_ws_end(s, 0);
    if !(0 <= i < s.len()) || s[i] != 0x7b {
        None
    } else {
        let k = nxt_in(s, i, json_ws_end(s, i + 1));
        if k < s.len() && s[k] == 0x7d {
            None
        } else {
            match sp_resp_members(s, k, empty_resp_slots()) {
                None => None,
                Some(p) => {
                    if 0 <= p.1 <= s.len() && json_ws_end(s, p.1) == s.len() {
                        Some(p.0)
                    } else {
                        None
                    }
                },
            }
        }
    }
}

/// Reads one reply member value and fills its slot.
fn resp_member_val(s: &[u8], v: usize, key: &Vec<u8>, sl: RespSlots) -> (r: Option<
    (RespSlots, usize),
>)
    requires
        v <= s@.len(),
    ensures
        match r {
            Some(p) => sp_resp_member_val(s@, v as int, key@, sl@) == Some((p.0@, p.1 as int)) && v
                < p.1 <= s@.len(),
            None => sp_resp_member_val(s@, v as int, key@, sl@) is None,
        },
{
    proof {
        reveal(sp_resp_member_val);
    }
    if bytes_eq(key.as_slice(), "Identifier".as_bytes()) {
        if sl.identifier.is_some() {
            return None;
        }
        match parse_number(s, v) {
            Some(q) => match decimal_to_i32(&q.0) {
                Some(id) => Some((RespSlots { identifier: Some(id), ..sl }, q.1)),
                None => None,
            },
            None => None,
        }
    } else if bytes_eq(key.as_slice(), "Message".as_bytes()) {
        if sl.message.is_some() {
            return None;
        }
        match parse_string(s, v) {
            Some(q) => Some((RespSlots { message: Some(q.0), ..sl }, q.1)),
            None => None,
        }
    } else if bytes_eq(key.as_slice(), "Type".as_bytes()) {
        if sl.typ_seen {
            return None;
        }
        match parse_string(s, v) {
            Some(q) => Some((RespSlots { typ_seen: true, ..sl }, q.1)),
            None => None,
        }
    } else if bytes_eq(key.as_slice(), "Stacktrace".as_bytes()) {
        if sl.stack_seen {
            return None;
        }
        match parse_string(s, v) {
            Some(q) => Some((RespSlots { stack_seen: true, ..sl }, q.1)),
            None => None,
        }
    } else {
        match skip_value(s, v) {
            Some(e) => Some((sl, e)),
            None => None,
        }
    }
}

/// Decodes one reply frame.
pub fn decode_response(s: &[u8]) -> (r: Option<Response>)
    ensures
        match r {
            Some(resp) => spec_decode_response(s@) == Some(resp@),
            None => spec_decode_response(s@) is None,
        },
{
    let n: usize = s.len();
    let i: usize = skip_json_ws(s, 0);
    if i >= n || s[i] != 0x7b {
        return None;
    }
    let k0: usize = skip_json_ws(s, i + 1);
    if k0 < n && s[k0] == 0x7d {
        return None;
    }
    let mut k: usize = k0;
    let mut sl = RespSlots { identifier: None, message: None, typ_seen: false, stack_seen: false };
    proof {
        assert(sl@ == empty_resp_slots());
    }
    loop
        invariant
            i < k0 <= k <= n,
            n == s@.len(),
            0 <= (i as int) < n && s@[i as int] == 0x7b,
            i as int == json_ws_end(s@, 0),
            k0 == nxt_in(s@, i as int, json_ws_end(s@, i as int + 1)),
            !(k0 < n && s@[k0 as int] == 0x7d),
            sp_resp_members(s@, k0 as int, empty_resp_slots()) == sp_resp_members(
                s@,
                k as int,
                sl@,
            ),
        decreases n - k,
    {
        if k >= n {
            return None;
        }
        let p = match parse_string(s, k) {
            None => {
                return None;
            },
            Some(p) => p,
        };
        let c: usize = skip_json_ws(s, p.1);
        if c >= n || s[c] != 0x3a {
            return None;
        }
        let v: usize = skip_json_ws(s, c + 1);
        let (sl2, e) = match resp_member_val(s, v, &p.0, sl) {
            None => {
                return None;
            },
            Some(x) => x,
        };
        sl = sl2;
        let w: usize = skip_json_ws(s, e);
        if w >= n {
            return None;
        }
        if s[w] == 0x2c {
            k = skip_json_ws(s, w + 1);
        } else if s[w] == 0x7d {
            match (sl.identifier, sl.message) {
                (Some(identifier), Some(message)) => {
                    if sl.typ_seen && sl.stack_seen {
                        let resp = Response { identifier, message };
                        let tail: usize = skip_json_ws(s, w + 1);
                        if tail == n {
                            return Some(resp);
                        }
                        return None;
                    }
                    return None;
                },
                _ => {
                    return None;
                },
            }
        } else {
            return None;
        }
    }
}

/// The outbound frame for a command: the identifier and the command text
/// as one JSON object, written without insignificant whitespace.
pub open spec fn spec_encode_command(identifier: i32, message: Seq<u8>) -> Seq<u8> {
    "{\"Identifier\":".spec_bytes() + (if identifier < 0 {
        seq![0x2du8]
    } else {
        Seq::<u8>::empty()
    }) + digits_of((if identifier < 0 {
        -(identifier as int)
    } else {
        identifier as int
    }) as nat) + ",\"Message\":\"".spec_bytes() + esc_bytes(message) + "\"}".spec_bytes()
}

/// Writes the outbound frame for a command.
pub fn encode_command(identifier: i32, message: &[u8]) -> (r: Vec<u8>)
    ensures
        r@ == spec_encode_command(identifier, message@),
{
    let mut out: Vec<u8> = Vec::new();
    push_bytes(&mut out, "{\"Identifier\":".as_bytes());
    if identifier < 0 {
        out.push(0x2d);
        push_u64_digits(&mut out, (0i64 - (identifier as i64)) as u64);
    } else {
        push_u64_digits(&mut out, identifier as u64);
    }
    push_bytes(&mut out, ",\"Message\":\"".as_bytes());
    push_escaped(&mut out, message);
    push_bytes(&mut out, "\"}".as_bytes());
    proof {
        assert(out@ =~= spec_encode_command(identifier, message@));
    }
    out
}

/// What a reply frame means to a pending command: the reply's message
/// when the frame decodes and carries the pending identifier, nothing
/// otherwise.
pub open spec fn spec_correlate(identifier: i32, frame: Seq<u8>) -> Option<Seq<u8>> {
    match spec_decode_response(frame) {
        Some(resp) => if resp.identifier == identifier {
            Some(resp.message)
        } else {
            None
        },
        None => None,
    }
}

/// Relies on rand::random_range: an identifier drawn uniformly below
/// 9999; nothing is assumed of the draw beyond its range.
#[verifier::external_body]
fn random_identifier() -> (r: i32)
    ensures
        0 <= r < 9999,
{
    rand::random_range(0..9999)
}

/// One pending correlated exchange: the identifier chosen for a command
/// and the command text itself.  While the exchange is pending, no other
/// may be started on the same connection (single-flight).
pub struct Correlator {
    pub identifier: i32,
    pub message: Vec<u8>,
}

impl Correlator {
    /// A pending exchange under a chosen identifier.
    pub fn new(identifier: i32, message: Vec<u8>) -> (r: Correlator)
        ensures
            r.identifier == identifier,
            r.message@ == message@,
    {
        Correlator { identifier, message }
    }

    /// A pending exchange under a freshly drawn identifier.  With one
    /// exchange in flight at a time, any identifier will do.
    pub fn start(message: Vec<u8>) -> (r: Correlator)
        ensures
            0 <= r.identifier < 9999,
            r.message@ == message@,
    {
        let identifier = random_identifier();
        Correlator { identifier, message }
    }

    /// The frame to write upstream for this exchange.
    pub fn frame(&self) -> (r: Vec<u8>)
        ensures
            r@ == spec_encode_command(self.identifier, self.message@),
    {
        encode_command(self.identifier, self.message.as_slice())
    }

    /// Answers one inbound frame: the reply's message when it is the
    /// matching reply, nothing when the frame is to be discarded and the
    /// wait goes on.  A stray reply under another identifier never ends
    /// the wait.
    pub fn step(&self, frame: &[u8]) -> (r: Option<Vec<u8>>)
        ensures
            match r {
                Some(m) => spec_correlate(self.identifier, frame@) == Some(m@),
                None => spec_correlate(self.identifier, frame@) is None,
            },
    {
        match decode_response(frame) {
            Some(resp) => {
                if resp.identifier == self.identifier {
                    Some(resp.message)
                } else {
                    None
                }
            },
            None => None,
        }
    }
}

/// Whether a pending exchange has run out its budget: true exactly when
/// the elapsed time has reached the timeout.
pub fn timed_out(elapsed_ms: u64, timeout_ms: u64) -> (r: bool)
    ensures
        r == (elapsed_ms >= timeout_ms),
{
    elapsed_ms >= timeout_ms
}

} // verus!
