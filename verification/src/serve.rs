//! The wire formats of the local serve runtime: HTTP responses, the MQTT
//! 3.1.1 subset (CONNECT checks, SUBSCRIBE parsing, SUBACK and PUBLISH
//! framing, remaining-length coding, topic filters) and Modbus TCP framing,
//! plus the policies for bind hosts and for untrusted external text.

use vstd::prelude::*;

use crate::text::{
    byte_len, char_is_ascii_alphanumeric, chars_of, concat2, decimal, is_ascii_alphanumeric,
    is_control, push_char, push_str, split_char, split_on, str_byte_len, str_eq, to_owned,
    u64_to_string, usize_to_string,
};
use crate::value::{Value, ValueView};

verus! {

/// Errors of the serve runtime.
#[derive(Debug, PartialEq, Eq)]
pub enum ServeError {
    /// A scenario run failed, with its message.
    Core(String),
    /// Rendering JSON failed, with its message.
    Json(String),
    /// The runtime rejected or failed an HTTP/MQTT/Modbus operation.
    Runtime(String),
}

impl ServeError {
    pub fn message(&self) -> (m: String)
        ensures
            match self {
                ServeError::Core(s) => m@ == s@,
                ServeError::Json(s) => m@ == s@,
                ServeError::Runtime(s) => m@ == "serve error: "@ + s@,
            },
    {
        match self {
            ServeError::Core(s) => s.clone(),
            ServeError::Json(s) => s.clone(),
            ServeError::Runtime(s) => concat2("serve error: ", s.as_str()),
        }
    }
}

// ---------------------------------------------------------------------------
// Hosts and external text
// ---------------------------------------------------------------------------

/// The hosts the runtime binds without an explicit override.
pub open spec fn loopback(host: Seq<char>) -> bool {
    host == "127.0.0.1"@ || host == "localhost"@ || host == "::1"@
}

pub fn is_loopback_host(host: &str) -> (r: bool)
    ensures
        r == loopback(host@),
{
    str_eq(host, "127.0.0.1") || str_eq(host, "localhost") || str_eq(host, "::1")
}

pub open spec fn key_char(c: char) -> char {
    if is_ascii_alphanumeric(c) || c == '.' || c == '_' || c == '-' || c == ':' || c == '/' {
        c
    } else {
        '_'
    }
}

/// An external key with every character outside `[A-Za-z0-9._:/-]` replaced
/// by `_`, or `unknown` when it is empty.
pub open spec fn sanitized_key(raw: Seq<char>) -> Seq<char> {
    if raw.len() == 0 {
        "unknown"@
    } else {
        raw.map_values(|c: char| key_char(c))
    }
}

pub fn sanitize_external_key(raw: &str) -> (r: String)
    ensures
        r@ == sanitized_key(raw@),
{
    let chars = chars_of(raw);
    if chars.len() == 0 {
        return to_owned("unknown");
    }
    let mut out = String::new();
    let mut i: usize = 0;
    while i < chars.len()
        invariant
            i <= chars.len(),
            chars@ == raw@,
            out@ == raw@.take(i as int).map_values(|c: char| key_char(c)),
        decreases chars.len() - i,
    {
        let c = chars[i];
        let k = if char_is_ascii_alphanumeric(c) || c == '.' || c == '_' || c == '-' || c == ':'
            || c == '/' {
            c
        } else {
            '_'
        };
        push_char(&mut out, k);
        assert(out@ =~= raw@.take(i + 1).map_values(|c: char| key_char(c)));
        i = i + 1;
    }
    assert(raw@.take(chars.len() as int) =~= raw@);
    out
}

pub open spec fn message_char(c: char) -> char {
    if is_control(c) {
        ' '
    } else {
        c
    }
}

/// External text with every control character replaced by a space.
pub fn sanitize_external_message_value(raw: &str) -> (r: String)
    ensures
        r@ == raw@.map_values(|c: char| message_char(c)),
{
    let chars = chars_of(raw);
    let mut out = String::new();
    let mut i: usize = 0;
    while i < chars.len()
        invariant
            i <= chars.len(),
            chars@ == raw@,
            out@ == raw@.take(i as int).map_values(|c: char| message_char(c)),
        decreases chars.len() - i,
    {
        let c = chars[i];
        let m = if crate::text::char_is_control(c) {
            ' '
        } else {
            c
        };
        push_char(&mut out, m);
        assert(out@ =~= raw@.take(i + 1).map_values(|c: char| message_char(c)));
        i = i + 1;
    }
    assert(raw@.take(chars.len() as int) =~= raw@);
    out
}

// ---------------------------------------------------------------------------
// HTTP
// ---------------------------------------------------------------------------

/// The reason phrase of a status code.
pub open spec fn reason_phrase(status: u16) -> Seq<char> {
    if status == 200 {
        "OK"@
    } else if status == 202 {
        "Accepted"@
    } else if status == 400 {
        "Bad Request"@
    } else if status == 409 {
        "Conflict"@
    } else if status == 404 {
        "Not Found"@
    } else if status == 500 {
        "Internal Server Error"@
    } else if status == 503 {
        "Service Unavailable"@
    } else {
        "OK"@
    }
}

/// An HTTP/1.1 response that closes the connection.
pub open spec fn http_response(status: u16, content_type: Seq<char>, body: Seq<char>) -> Seq<char> {
    "HTTP/1.1 "@ + decimal(status as nat) + " "@ + reason_phrase(status) + "\r\nContent-Type: "@
        + content_type + "\r\nContent-Length: "@ + decimal(byte_len(body) as nat)
        + "\r\nConnection: close\r\n\r\n"@ + body
}

pub fn raw_response(status: u16, content_type: &str, body: &str) -> (r: String)
    ensures
        r@ == http_response(status, content_type@, body@),
{
    let reason = if status == 200 {
        "OK"
    } else if status == 202 {
        "Accepted"
    } else if status == 400 {
        "Bad Request"
    } else if status == 409 {
        "Conflict"
    } else if status == 404 {
        "Not Found"
    } else if status == 500 {
        "Internal Server Error"
    } else if status == 503 {
        "Service Unavailable"
    } else {
        "OK"
    };
    let mut out = to_owned("HTTP/1.1 ");
    let code = u64_to_string(status as u64);
    push_str(&mut out, code.as_str());
    push_str(&mut out, " ");
    push_str(&mut out, reason);
    push_str(&mut out, "\r\nContent-Type: ");
    push_str(&mut out, content_type);
    push_str(&mut out, "\r\nContent-Length: ");
    let length = usize_to_string(str_byte_len(body));
    push_str(&mut out, length.as_str());
    push_str(&mut out, "\r\nConnection: close\r\n\r\n");
    push_str(&mut out, body);
    out
}

pub open spec fn json_escaped_char(c: char) -> Seq<char> {
    if c == '\\' {
        "\\\\"@
    } else if c == '"' {
        "\\\""@
    } else {
        seq![c]
    }
}

pub open spec fn json_escaped(s: Seq<char>) -> Seq<char>
    decreases s.len(),
{
    if s.len() == 0 {
        Seq::empty()
    } else {
        json_escaped(s.drop_last()) + json_escaped_char(s.last())
    }
}

/// Escapes backslashes and double quotes.
pub fn escape_json_string(value: &str) -> (r: String)
    ensures
        r@ == json_escaped(value@),
{
    let chars = chars_of(value);
    let mut out = String::new();
    let mut i: usize = 0;
    assert(value@.take(0) =~= Seq::<char>::empty());
    while i < chars.len()
        invariant
            i <= chars.len(),
            chars@ == value@,
            out@ == json_escaped(value@.take(i as int)),
        decreases chars.len() - i,
    {
        let c = chars[i];
        assert(value@.take(i + 1).drop_last() =~= value@.take(i as int));
        proof {
            reveal_strlit("\\\\");
            reveal_strlit("\\\"");
        }
        if c == '\\' {
            push_str(&mut out, "\\\\");
        } else if c == '"' {
            push_str(&mut out, "\\\"");
        } else {
            let ghost before = out@;
            push_char(&mut out, c);
            assert(out@ =~= before + seq![c]);
        }
        i = i + 1;
    }
    assert(value@.take(chars.len() as int) =~= value@);
    out
}

// ---------------------------------------------------------------------------
// MQTT
// ---------------------------------------------------------------------------

pub open spec fn be16(hi: u8, lo: u8) -> int {
    hi as int * 256 + lo as int
}

/// A CONNECT payload the runtime accepts: protocol name `MQTT` and protocol
/// level 4 (MQTT 3.1.1).
pub open spec fn connect_accepted(p: Seq<u8>) -> bool {
    p.len() >= 2 && {
        let n = be16(p[0], p[1]);
        p.len() > 2 + n && p.subrange(2, 2 + n) == seq![77u8, 81u8, 84u8, 84u8] && p[2 + n] == 4
    }
}

pub fn validate_mqtt_connect(payload: &[u8]) -> (r: bool)
    ensures
        r == connect_accepted(payload@),
{
    if payload.len() < 2 {
        return false;
    }
    let n = (payload[0] as usize) * 256 + (payload[1] as usize);
    let end = 2 + n;
    if payload.len() <= end {
        return false;
    }
    if n != 4 {
        assert(payload@.subrange(2, 2 + n as int).len() != 4);
        return false;
    }
    let name_ok = payload[2] == 77 && payload[3] == 81 && payload[4] == 84 && payload[5] == 84;
    if !name_ok {
        proof {
            let name = payload@.subrange(2, 6);
            if name == seq![77u8, 81u8, 84u8, 84u8] {
                assert(name[0] == payload@[2] && name[1] == payload@[3] && name[2] == payload@[4]
                    && name[3] == payload@[5]);
            }
        }
        return false;
    }
    assert(payload@.subrange(2, 6) =~= seq![77u8, 81u8, 84u8, 84u8]);
    payload[end] == 4
}

/// CONNACK return code: connection accepted.
pub const MQTT_CONNACK_ACCEPTED: u8 = 0x00;

/// CONNACK return code: unacceptable protocol version.
pub const MQTT_CONNACK_UNACCEPTABLE_PROTOCOL: u8 = 0x01;

/// The CONNACK answering a CONNECT: accepted, or refused for an
/// unacceptable protocol.
pub fn mqtt_connack(connect_payload: &[u8]) -> (r: Vec<u8>)
    ensures
        r@ == seq![0x20u8, 0x02u8, 0x00u8, if connect_accepted(connect_payload@) { 0x00u8 } else { 0x01u8 }],
{
    let code: u8 = if validate_mqtt_connect(connect_payload) {
        MQTT_CONNACK_ACCEPTED
    } else {
        MQTT_CONNACK_UNACCEPTABLE_PROTOCOL
    };
    let r = vec![0x20u8, 0x02u8, 0x00u8, code];
    r
}

/// The remaining-length encoding of `n`: seven bits per byte, least
/// significant first, the top bit marking that more bytes follow.
pub open spec fn remaining_length_bytes(n: nat) -> Seq<u8>
    decreases n,
{
    if n < 128 {
        seq![n as u8]
    } else {
        seq![((n % 128) + 128) as u8] + remaining_length_bytes(n / 128)
    }
}

/// Appends the remaining-length encoding of `length`.
pub fn encode_mqtt_remaining_length(length: usize, packet: &mut Vec<u8>)
    ensures
        final(packet)@ == old(packet)@ + remaining_length_bytes(length as nat),
{
    let mut rest = length;
    let ghost start = packet@;
    loop
        invariant
            packet@ + remaining_length_bytes(rest as nat) == start + remaining_length_bytes(
                length as nat,
            ),
            start == old(packet)@,
        decreases rest,
    {
        let low = (rest % 128) as u8;
        let next = rest / 128;
        let ghost before = packet@;
        if next > 0 {
            packet.push(low + 128);
            assert(packet@ + remaining_length_bytes(next as nat) =~= before + remaining_length_bytes(
                rest as nat,
            ));
            rest = next;
        } else {
            packet.push(low);
            assert(packet@ =~= before + remaining_length_bytes(rest as nat));
            assert(packet@ =~= start + remaining_length_bytes(length as nat));
            return;
        }
    }
}

/// Decodes a remaining length from at most four bytes: the value and the
/// number of bytes it used, or `None` when four bytes all say more follow
/// or the bytes run out first.
pub open spec fn decode_remaining(bytes: Seq<u8>, i: nat, value: nat, multiplier: nat) -> Option<
    (nat, nat),
>
    decreases 4 - i,
{
    if i >= 4 || i >= bytes.len() {
        None
    } else {
        let b = bytes[i as int];
        let v = (value + (b % 128) as nat * multiplier) as nat;
        if b < 128 {
            Some((v, i + 1))
        } else {
            decode_remaining(bytes, i + 1, v, multiplier * 128)
        }
    }
}

pub open spec fn decoded_remaining_length(bytes: Seq<u8>) -> Option<(nat, nat)> {
    decode_remaining(bytes, 0, 0, 1)
}

/// Decodes the remaining length at the start of `bytes`.
pub fn decode_mqtt_remaining_length(bytes: &[u8]) -> (r: Option<(usize, usize)>)
    ensures
        match r {
            Some((v, used)) => decoded_remaining_length(bytes@) == Some((v as nat, used as nat)),
            None => decoded_remaining_length(bytes@) is None,
        },
{
    let mut i: usize = 0;
    let mut value: usize = 0;
    let mut multiplier: usize = 1;
    while i < 4 && i < bytes.len()
        invariant
            i <= 4,
            multiplier == pow128(i as nat),
            value < multiplier,
            decoded_remaining_length(bytes@) == decode_remaining(
                bytes@,
                i as nat,
                value as nat,
                multiplier as nat,
            ),
        decreases 4 - i,
    {
        let b = bytes[i];
        proof {
            lemma_pow128_bound(i as nat);
        }
        assert((b % 128) as nat * multiplier <= 127 * multiplier) by (nonlinear_arith)
            requires
                (b % 128) <= 127,
        ;
        let v = value + ((b % 128) as usize) * multiplier;
        if b < 128 {
            return Some((v, i + 1));
        }
        assert(v < multiplier * 128) by (nonlinear_arith)
            requires
                value < multiplier,
                v == value + (b % 128) * multiplier,
                b % 128 <= 127,
        ;
        value = v;
        multiplier = multiplier * 128;
        i = i + 1;
    }
    None
}

pub open spec fn pow128(i: nat) -> nat
    decreases i,
{
    if i == 0 {
        1
    } else {
        128 * pow128((i - 1) as nat)
    }
}

proof fn lemma_pow128_bound(i: nat)
    requires
        i < 4,
    ensures
        pow128(i) <= 2097152,
{
    reveal_with_fuel(pow128, 4);
}

/// Decoding the encoding of a length within MQTT's four bytes gives the
/// length back, with the encoding's size.
pub proof fn law_remaining_length_round_trip(n: nat)
    requires
        n < 268435456,
    ensures
        decoded_remaining_length(remaining_length_bytes(n)) == Some(
            (n, remaining_length_bytes(n).len()),
        ),
{
    reveal_with_fuel(pow128, 5);
    lemma_decode_suffix(n, 0, 0, 1);
    assert(Seq::<u8>::empty() + remaining_length_bytes(n) =~= remaining_length_bytes(n));
}

proof fn lemma_encoding_len(n: nat)
    ensures
        remaining_length_bytes(n).len() >= 1,
    decreases n,
{
    if n >= 128 {
        lemma_encoding_len(n / 128);
    }
}

/// Decoding from byte `i` of a prefix followed by the encoding of `n`
/// continues with the accumulated value.
proof fn lemma_decode_suffix(n: nat, i: nat, value: nat, multiplier: nat)
    requires
        i <= 3,
        multiplier == pow128(i),
        n * multiplier < 268435456,
        n < pow128((4 - i) as nat),
    ensures
        forall|p: Seq<u8>|
            p.len() == i ==> decode_remaining(
                #[trigger] (p + remaining_length_bytes(n)),
                i,
                value,
                multiplier,
            ) == Some((value + n * multiplier, i + remaining_length_bytes(n).len())),
    decreases n,
{
    assert forall|p: Seq<u8>| p.len() == i implies decode_remaining(
        #[trigger] (p + remaining_length_bytes(n)),
        i,
        value,
        multiplier,
    ) == Some((value + n * multiplier, i + remaining_length_bytes(n).len())) by {
        let all = p + remaining_length_bytes(n);
        lemma_encoding_len(n);
        assert(all[i as int] == remaining_length_bytes(n)[0]);
        if n < 128 {
            assert(all[i as int] == n as u8);
            assert((n as u8) % 128 == n);
        } else {
            let low = ((n % 128) + 128) as u8;
            assert(all[i as int] == low);
            assert(low % 128 == n % 128);
            reveal_with_fuel(pow128, 5);
            assert(i < 3) by {
                if i == 3 {
                    assert(pow128(1) == 128);
                }
            }
            assert(n / 128 < pow128((4 - (i + 1)) as nat)) by {
                assert(pow128((4 - i) as nat) == 128 * pow128((4 - (i + 1)) as nat));
            }
            assert((n / 128) * (multiplier * 128) < 268435456) by (nonlinear_arith)
                requires
                    n * multiplier < 268435456,
                    multiplier > 0,
            ;
            assert(multiplier > 0) by {
                lemma_pow128_positive(i);
            }
            lemma_decode_suffix(n / 128, i + 1, value + (n % 128) * multiplier, multiplier * 128);
            let p2 = p.push(low);
            assert(p2 + remaining_length_bytes(n / 128) =~= all);
            assert(value + (n % 128) * multiplier + (n / 128) * (multiplier * 128) == value + n
                * multiplier) by (nonlinear_arith);
        }
    }
}

proof fn lemma_pow128_positive(i: nat)
    ensures
        pow128(i) > 0,
    decreases i,
{
    if i > 0 {
        lemma_pow128_positive((i - 1) as nat);
    }
}

/// `String::from_utf8`: the text when the bytes are valid UTF-8, else the
/// error's message. What the message says is not stated.
#[verifier::external_body]
fn string_from_utf8(bytes: Vec<u8>) -> (r: Result<String, String>)
    ensures
        match r {
            Ok(s) => vstd::utf8::valid_utf8(bytes@) && s@ == vstd::utf8::decode_utf8(bytes@),
            Err(_) => !vstd::utf8::valid_utf8(bytes@),
        },
{
    match String::from_utf8(bytes) {
        Ok(s) => Ok(s),
        Err(e) => Err(e.to_string()),
    }
}

fn copy_range(bytes: &[u8], start: usize, end: usize) -> (r: Vec<u8>)
    requires
        start <= end <= bytes@.len(),
    ensures
        r@ == bytes@.subrange(start as int, end as int),
{
    let mut r: Vec<u8> = Vec::new();
    let mut i: usize = start;
    while i < end
        invariant
            start <= i <= end <= bytes@.len(),
            r@ == bytes@.subrange(start as int, i as int),
        decreases end - i,
    {
        r.push(bytes[i]);
        assert(r@ =~= bytes@.subrange(start as int, i + 1));
        i = i + 1;
    }
    r
}

/// A SUBSCRIBE request: its packet id and one filter per requested topic;
/// a topic asked at a QoS other than 0 gets an empty filter.
#[derive(Debug)]
pub struct MqttSubscribe {
    pub packet_id: u16,
    pub filters: Vec<String>,
}

/// The filters of a SUBSCRIBE payload from `offset` on; `Err(None)` is a
/// filter that is not UTF-8.
pub open spec fn subscribe_filters(p: Seq<u8>, offset: int) -> Result<Seq<Seq<char>>, Option<Seq<char>>>
    decreases p.len() - offset,
{
    if offset < 0 || offset >= p.len() {
        Ok(Seq::empty())
    } else if p.len() < offset + 3 {
        Err(Some("malformed MQTT subscribe topic"@))
    } else {
        let n = be16(p[offset], p[offset + 1]);
        let start = offset + 2;
        if p.len() < start + n + 1 {
            Err(Some("malformed MQTT subscribe topic"@))
        } else {
            let bytes = p.subrange(start, start + n);
            if !vstd::utf8::valid_utf8(bytes) {
                Err(None)
            } else {
                let filter = if p[start + n] == 0 {
                    vstd::utf8::decode_utf8(bytes)
                } else {
                    Seq::empty()
                };
                match subscribe_filters(p, start + n + 1) {
                    Err(e) => Err(e),
                    Ok(rest) => Ok(seq![filter] + rest),
                }
            }
        }
    }
}

/// What a SUBSCRIBE payload asks for: its packet id and filters.
pub open spec fn subscribe_request(p: Seq<u8>) -> Result<(u16, Seq<Seq<char>>), Option<Seq<char>>> {
    if p.len() < 5 {
        Err(Some("malformed MQTT subscribe"@))
    } else if be16(p[0], p[1]) == 0 {
        Err(Some("malformed MQTT subscribe packet id"@))
    } else {
        match subscribe_filters(p, 2) {
            Err(e) => Err(e),
            Ok(filters) => if filters.len() == 0 {
                Err(Some("empty MQTT subscribe"@))
            } else {
                Ok((be16(p[0], p[1]) as u16, filters))
            },
        }
    }
}

/// Parses a SUBSCRIBE payload.
pub fn parse_mqtt_subscribe(payload: &[u8]) -> (r: Result<MqttSubscribe, ServeError>)
    ensures
        match r {
            Ok(s) => subscribe_request(payload@) == Ok::<(u16, Seq<Seq<char>>), Option<Seq<char>>>(
                (s.packet_id, s.filters@.map_values(|f: String| f@)),
            ),
            Err(ServeError::Runtime(m)) => subscribe_request(payload@) == Err::<
                (u16, Seq<Seq<char>>),
                Option<Seq<char>>,
            >(Some(m@)) || subscribe_request(payload@) == Err::<
                (u16, Seq<Seq<char>>),
                Option<Seq<char>>,
            >(None),
            Err(_) => false,
        },
{
    let ghost p = payload@;
    if payload.len() < 5 {
        return Err(ServeError::Runtime(to_owned("malformed MQTT subscribe")));
    }
    let packet_id = ((payload[0] as u32) * 256 + (payload[1] as u32)) as u16;
    if packet_id == 0 {
        return Err(ServeError::Runtime(to_owned("malformed MQTT subscribe packet id")));
    }
    let mut offset: usize = 2;
    let mut filters: Vec<String> = Vec::new();
    while offset < payload.len()
        invariant
            2 <= offset <= payload.len(),
            p == payload@,
            p.len() >= 5,
            be16(p[0], p[1]) != 0,
            packet_id == be16(p[0], p[1]),
            subscribe_filters(p, 2) matches Ok(all) ==> subscribe_filters(p, offset as int) matches Ok(
                rest,
            ) && all == filters@.map_values(|f: String| f@) + rest,
            subscribe_filters(p, 2) is Err ==> subscribe_filters(p, offset as int) == subscribe_filters(p, 2),
            subscribe_filters(p, 2) is Ok ==> subscribe_filters(p, offset as int) is Ok,
        decreases payload.len() - offset,
    {
        if payload.len() - offset < 3 {
            return Err(ServeError::Runtime(to_owned("malformed MQTT subscribe topic")));
        }
        let n = (payload[offset] as usize) * 256 + (payload[offset + 1] as usize);
        let start = offset + 2;
        if payload.len() - start < n + 1 {
            return Err(ServeError::Runtime(to_owned("malformed MQTT subscribe topic")));
        }
        let bytes = copy_range(payload, start, start + n);
        let topic = match string_from_utf8(bytes) {
            Ok(t) => t,
            Err(m) => {
                return Err(ServeError::Runtime(m));
            },
        };
        let qos = payload[start + n];
        let ghost before = filters@.map_values(|f: String| f@);
        if qos == 0 {
            filters.push(topic);
        } else {
            filters.push(String::new());
        }
        assert(filters@.map_values(|f: String| f@) =~= before.push(filters@.last()@));
        proof {
            if subscribe_filters(p, 2) is Ok {
                let rest = subscribe_filters(p, offset as int)->Ok_0;
                let next = subscribe_filters(p, start + n + 1)->Ok_0;
                assert(rest == seq![filters@.last()@] + next);
                assert(before + rest =~= filters@.map_values(|f: String| f@) + next);
            }
        }
        offset = start + n + 1;
    }
    proof {
        if subscribe_filters(p, 2) is Ok {
            let all = subscribe_filters(p, 2)->Ok_0;
            assert(all =~= filters@.map_values(|f: String| f@));
        }
    }
    if filters.len() == 0 {
        return Err(ServeError::Runtime(to_owned("empty MQTT subscribe")));
    }
    Ok(MqttSubscribe { packet_id, filters })
}

/// Whether a topic filter (where `+` stands for any one level) matches a
/// topic, level by level.
pub open spec fn topic_matches_filter(filter: Seq<char>, topic: Seq<char>) -> bool {
    let f = split_on(filter, '/');
    let t = split_on(topic, '/');
    f.len() == t.len() && forall|i: int| 0 <= i < f.len() ==> #[trigger] f[i] == "+"@ || f[i] == t[i]
}

pub fn mqtt_topic_matches_filter(filter: &str, topic: &str) -> (r: bool)
    ensures
        r == topic_matches_filter(filter@, topic@),
{
    let f = split_char(filter, '/');
    let t = split_char(topic, '/');
    let ghost fs = f@.map_values(|s: String| s@);
    let ghost ts = t@.map_values(|s: String| s@);
    if f.len() != t.len() {
        return false;
    }
    let mut i: usize = 0;
    while i < f.len()
        invariant
            i <= f.len() == t.len(),
            fs == f@.map_values(|s: String| s@),
            ts == t@.map_values(|s: String| s@),
            fs == split_on(filter@, '/'),
            ts == split_on(topic@, '/'),
            forall|j: int| 0 <= j < i ==> #[trigger] fs[j] == "+"@ || fs[j] == ts[j],
        decreases f.len() - i,
    {
        assert(fs[i as int] == f@[i as int]@ && ts[i as int] == t@[i as int]@);
        if !(str_eq(f[i].as_str(), "+") || str_eq(f[i].as_str(), t[i].as_str())) {
            assert(!(fs[i as int] == "+"@ || fs[i as int] == ts[i as int]));
            return false;
        }
        i = i + 1;
    }
    true
}

pub open spec fn be16_bytes(v: u16) -> Seq<u8> {
    seq![(v / 256) as u8, (v % 256) as u8]
}

/// A SUBACK packet: the packet id and one return code per filter.
pub open spec fn suback_bytes(packet_id: u16, codes: Seq<u8>) -> Seq<u8> {
    seq![0x90u8] + remaining_length_bytes((2 + codes.len()) as nat) + be16_bytes(packet_id) + codes
}

pub fn mqtt_suback_packet(packet_id: u16, return_codes: &[u8]) -> (r: Vec<u8>)
    requires
        return_codes@.len() + 2 <= usize::MAX,
    ensures
        r@ == suback_bytes(packet_id, return_codes@),
{
    let mut packet: Vec<u8> = vec![0x90u8];
    encode_mqtt_remaining_length(2 + return_codes.len(), &mut packet);
    packet.push((packet_id / 256) as u8);
    packet.push((packet_id % 256) as u8);
    let ghost head = packet@;
    let mut i: usize = 0;
    while i < return_codes.len()
        invariant
            i <= return_codes@.len(),
            packet@ == head + return_codes@.take(i as int),
        decreases return_codes.len() - i,
    {
        packet.push(return_codes[i]);
        assert(packet@ =~= head + return_codes@.take(i + 1));
        i = i + 1;
    }
    assert(return_codes@.take(return_codes.len() as int) =~= return_codes@);
    assert(packet@ =~= suback_bytes(packet_id, return_codes@));
    packet
}

/// A retained PUBLISH sent to a subscriber: the topic's length (as the low
/// 16 bits of its byte length), the topic and the JSON payload.
pub open spec fn publish_bytes(topic: Seq<u8>, payload: Seq<u8>) -> Seq<u8> {
    let variable = be16_bytes((topic.len() % 65536) as u16) + topic + payload;
    seq![0x31u8] + remaining_length_bytes(variable.len()) + variable
}

fn append_bytes(packet: &mut Vec<u8>, bytes: &[u8])
    ensures
        final(packet)@ == old(packet)@ + bytes@,
{
    let ghost start = packet@;
    let mut i: usize = 0;
    while i < bytes.len()
        invariant
            i <= bytes@.len(),
            packet@ == start + bytes@.take(i as int),
        decreases bytes.len() - i,
    {
        packet.push(bytes[i]);
        assert(packet@ =~= start + bytes@.take(i + 1));
        i = i + 1;
    }
    assert(bytes@.take(bytes.len() as int) =~= bytes@);
}

/// Frames a retained state payload, already rendered as JSON, as PUBLISH.
pub fn mqtt_publish_response_packet(topic: &str, payload_json: &[u8]) -> (r: Vec<u8>)
    requires
        vstd::utf8::encode_utf8(topic@).len() + payload_json@.len() + 2 <= usize::MAX,
    ensures
        r@ == publish_bytes(vstd::utf8::encode_utf8(topic@), payload_json@),
{
    let topic_bytes = topic.as_bytes();
    let len16 = (topic_bytes.len() % 65536) as u16;
    let mut variable: Vec<u8> = Vec::new();
    variable.push((len16 / 256) as u8);
    variable.push((len16 % 256) as u8);
    append_bytes(&mut variable, topic_bytes);
    append_bytes(&mut variable, payload_json);
    let mut packet: Vec<u8> = vec![0x31u8];
    encode_mqtt_remaining_length(variable.len(), &mut packet);
    append_bytes(&mut packet, variable.as_slice());
    assert(variable@ =~= be16_bytes(len16) + vstd::utf8::encode_utf8(topic@) + payload_json@);
    packet
}

/// A PUBLISH frame read by the runtime: the topic and the raw payload bytes.
#[derive(Debug)]
pub struct MqttPublishFrame {
    pub topic: String,
    pub payload: Vec<u8>,
}

/// What a PUBLISH payload holds: its topic (UTF-8) and the bytes after it;
/// `Err(None)` is a topic that is not UTF-8.
pub open spec fn publish_frame(p: Seq<u8>) -> Result<(Seq<char>, Seq<u8>), Option<Seq<char>>> {
    if p.len() < 2 {
        Err(Some("malformed MQTT publish"@))
    } else {
        let n = be16(p[0], p[1]);
        if p.len() < 2 + n {
            Err(Some("malformed MQTT topic"@))
        } else if !vstd::utf8::valid_utf8(p.subrange(2, 2 + n)) {
            Err(None)
        } else {
            Ok((vstd::utf8::decode_utf8(p.subrange(2, 2 + n)), p.subrange(2 + n, p.len() as int)))
        }
    }
}

/// Splits a PUBLISH payload into its topic and the JSON bytes after it.
pub fn parse_mqtt_publish_frame(payload: &[u8]) -> (r: Result<MqttPublishFrame, ServeError>)
    ensures
        match r {
            Ok(f) => publish_frame(payload@) == Ok::<(Seq<char>, Seq<u8>), Option<Seq<char>>>(
                (f.topic@, f.payload@),
            ),
            Err(ServeError::Runtime(m)) => publish_frame(payload@) == Err::<
                (Seq<char>, Seq<u8>),
                Option<Seq<char>>,
            >(Some(m@)) || publish_frame(payload@) == Err::<(Seq<char>, Seq<u8>), Option<Seq<char>>>(
                None,
            ),
            Err(_) => false,
        },
{
    if payload.len() < 2 {
        return Err(ServeError::Runtime(to_owned("malformed MQTT publish")));
    }
    let n = (payload[0] as usize) * 256 + (payload[1] as usize);
    if payload.len() < 2 + n {
        return Err(ServeError::Runtime(to_owned("malformed MQTT topic")));
    }
    let topic_bytes = copy_range(payload, 2, 2 + n);
    let topic = match string_from_utf8(topic_bytes) {
        Ok(t) => t,
        Err(m) => {
            return Err(ServeError::Runtime(m));
        },
    };
    let rest = copy_range(payload, 2 + n, payload.len());
    Ok(MqttPublishFrame { topic, payload: rest })
}

// ---------------------------------------------------------------------------
// Modbus TCP
// ---------------------------------------------------------------------------

/// A Modbus TCP response: the MBAP header (transaction id, protocol 0, the
/// length of the unit id and PDU, the unit id) followed by the PDU.
pub open spec fn modbus_frame(transaction_id: u16, unit_id: u8, pdu: Seq<u8>) -> Seq<u8> {
    be16_bytes(transaction_id) + seq![0u8, 0u8] + be16_bytes(((pdu.len() + 1) % 65536) as u16)
        + seq![unit_id] + pdu
}

pub fn modbus_tcp_response(transaction_id: u16, unit_id: u8, pdu: &[u8]) -> (r: Vec<u8>)
    requires
        pdu@.len() < 65535,
    ensures
        r@ == modbus_frame(transaction_id, unit_id, pdu@),
{
    let mut response: Vec<u8> = Vec::new();
    response.push((transaction_id / 256) as u8);
    response.push((transaction_id % 256) as u8);
    response.push(0u8);
    response.push(0u8);
    let length = (pdu.len() + 1) as u16;
    response.push((length / 256) as u8);
    response.push((length % 256) as u8);
    response.push(unit_id);
    append_bytes(&mut response, pdu);
    assert(response@ =~= modbus_frame(transaction_id, unit_id, pdu@));
    response
}

/// A successful response: the function code followed by the payload.
pub fn modbus_success_response(transaction_id: u16, unit_id: u8, function: u8, payload: &[u8]) -> (r:
    Vec<u8>)
    requires
        payload@.len() < 65534,
    ensures
        r@ == modbus_frame(transaction_id, unit_id, seq![function] + payload@),
{
    let mut pdu: Vec<u8> = vec![function];
    append_bytes(&mut pdu, payload);
    modbus_tcp_response(transaction_id, unit_id, pdu.as_slice())
}

/// An exception response: the function code with its top bit set, then the
/// exception code.
pub fn modbus_exception_response(transaction_id: u16, unit_id: u8, function: u8, exception: u8) -> (r:
    Vec<u8>)
    ensures
        r@ == modbus_frame(transaction_id, unit_id, seq![function | 0x80u8, exception]),
{
    let pdu = vec![function | 0x80u8, exception];
    modbus_tcp_response(transaction_id, unit_id, pdu.as_slice())
}

/// The request fields of a Modbus TCP header, once the PDU length is known
/// to be acceptable.
#[derive(Debug)]
pub struct ModbusHeader {
    pub transaction_id: u16,
    pub unit_id: u8,
    pub pdu_len: usize,
}

/// Reads a seven-byte MBAP header: protocol id 0 and a length of 1 to 260.
pub fn parse_modbus_header(header: &[u8]) -> (r: Result<ModbusHeader, ServeError>)
    requires
        header@.len() == 7,
    ensures
        match r {
            Ok(h) => be16(header@[2], header@[3]) == 0 && 1 <= be16(header@[4], header@[5]) <= 260
                && h.transaction_id == be16(header@[0], header@[1]) && h.unit_id == header@[6]
                && h.pdu_len == be16(header@[4], header@[5]) - 1,
            Err(ServeError::Runtime(m)) => (be16(header@[2], header@[3]) != 0 && m@
                == "invalid Modbus protocol id"@) || (be16(header@[2], header@[3]) == 0 && !(1
                <= be16(header@[4], header@[5]) <= 260) && m@ == "invalid Modbus TCP length"@),
            Err(_) => false,
        },
{
    let transaction_id = ((header[0] as u32) * 256 + (header[1] as u32)) as u16;
    let protocol_id = (header[2] as u32) * 256 + (header[3] as u32);
    if protocol_id != 0 {
        return Err(ServeError::Runtime(to_owned("invalid Modbus protocol id")));
    }
    let length = (header[4] as usize) * 256 + (header[5] as usize);
    if length == 0 || length > 260 {
        return Err(ServeError::Runtime(to_owned("invalid Modbus TCP length")));
    }
    Ok(ModbusHeader { transaction_id, unit_id: header[6], pdu_len: length - 1 })
}

/// A register value as a 16-bit word: an integer that fits, or a boolean.
pub open spec fn register_word(v: ValueView) -> Option<u16> {
    match v {
        ValueView::Int(n) => if 0 <= n <= 65535 {
            Some(n as u16)
        } else {
            None
        },
        ValueView::Bool(b) => Some(if b { 1u16 } else { 0u16 }),
        _ => None,
    }
}

pub fn json_to_u16(value: &Value) -> (r: Option<u16>)
    ensures
        r == register_word(value@),
{
    match value {
        Value::Int(n) => if *n >= 0 && *n <= 65535 {
            Some(*n as u16)
        } else {
            None
        },
        Value::UInt(n) => if *n <= 65535 {
            Some(*n as u16)
        } else {
            None
        },
        Value::Bool(b) => Some(
            if *b {
                1u16
            } else {
                0u16
            },
        ),
        _ => None,
    }
}

} // verus!
