//! The binary TCP protocol: request payloads, their parsing, and error replies.
use vstd::prelude::*;
use vstd::string::{StrSliceExecFns, StringExecFns, StringSliceAdditionalSpecFns};
use crate::client::{request_payload, set_light_data};
use crate::gateway::{state_error_message, state_error_text};
use crate::state::{DeviceStateValue, LightState, Message, MessageType, Timestamp};
use crate::store::{StateStore, StateError, update_state_result};
use vstd::utf8::{valid_utf8, decode_utf8, encode_utf8};

verus! {

/// The text that bytes encode, when they are valid UTF-8.
pub open spec fn utf8_text(bytes: Seq<u8>) -> Option<Seq<char>> {
    if valid_utf8(bytes) { Some(decode_utf8(bytes)) } else { None }
}

/// Decodes bytes with `String::from_utf8`, which accepts exactly the valid UTF-8 byte sequences
/// and then holds the characters they encode.
#[verifier::external_body]
fn string_from_utf8(bytes: Vec<u8>) -> (res: Option<String>)
    ensures
        match utf8_text(bytes@) {
            Some(t) => res matches Some(s) && s@ == t,
            None => res is None,
        },
{
    String::from_utf8(bytes).ok()
}

/// A request of the binary protocol.
#[derive(Debug)]
pub enum TcpRequest {
    /// Type byte 1: list every device.
    DiscoverDevices,
    /// Type byte 2: the state of a device; the rest of the payload is its id.
    GetDeviceState { device_id: String },
    /// Type byte 3: set a light; a length byte, the id, then the encoded light state.
    SetLightState { device_id: String, state_bytes: Vec<u8> },
}

/// What a payload asks for, in spec terms.
pub enum TcpParse {
    Discover,
    GetState(Seq<char>),
    SetLight(Seq<char>, Seq<u8>),
    Fail(Seq<char>),
}

/// How a request payload is read: its first byte names the request; the error text when it
/// cannot be read.
pub open spec fn parse_payload(p: Seq<u8>) -> TcpParse {
    if p.len() == 0 {
        TcpParse::Fail("Empty payload"@)
    } else if p[0] == 1 {
        TcpParse::Discover
    } else if p[0] == 2 {
        if p.len() < 2 {
            TcpParse::Fail("Missing device ID"@)
        } else {
            match utf8_text(p.skip(1)) {
                Some(id) => TcpParse::GetState(id),
                None => TcpParse::Fail("Invalid device ID"@),
            }
        }
    } else if p[0] == 3 {
        if p.len() < 3 {
            TcpParse::Fail("Invalid payload"@)
        } else if p.len() < 2 + p[1] {
            TcpParse::Fail("Invalid device ID length"@)
        } else {
            match utf8_text(p.subrange(2, 2 + p[1])) {
                Some(id) => TcpParse::SetLight(id, p.skip(2 + p[1])),
                None => TcpParse::Fail("Invalid device ID"@),
            }
        }
    } else {
        TcpParse::Fail("Unknown request type"@)
    }
}

/// The bytes of `v` from `from` to `to`.
fn copy_range(v: &Vec<u8>, from: usize, to: usize) -> (res: Vec<u8>)
    requires
        from <= to <= v@.len(),
    ensures
        res@ == v@.subrange(from as int, to as int),
{
    let mut out: Vec<u8> = Vec::new();
    let mut i: usize = from;
    while i < to
        invariant
            from <= i <= to,
            to <= v@.len(),
            out@ == v@.subrange(from as int, i as int),
        decreases to - i,
    {
        out.push(v[i]);
        assert(v@.subrange(from as int, i as int + 1) =~= v@.subrange(from as int, i as int).push(v@[i as int]));
        i = i + 1;
    }
    out
}

/// Reads a request payload; the error text when it cannot be read.
pub fn parse_tcp_request(payload: &Vec<u8>) -> (res: Result<TcpRequest, String>)
    ensures
        match parse_payload(payload@) {
            TcpParse::Discover => res matches Ok(TcpRequest::DiscoverDevices),
            TcpParse::GetState(id) => res matches Ok(TcpRequest::GetDeviceState { device_id }) && device_id@ == id,
            TcpParse::SetLight(id, st) => res matches Ok(TcpRequest::SetLightState { device_id, state_bytes })
                && device_id@ == id && state_bytes@ == st,
            TcpParse::Fail(m) => res matches Err(e) && e@ == m,
        },
{
    let n = payload.len();
    if n == 0 {
        return Err(String::from_str("Empty payload"));
    }
    let kind = payload[0];
    if kind == 1 {
        Ok(TcpRequest::DiscoverDevices)
    } else if kind == 2 {
        if n < 2 {
            return Err(String::from_str("Missing device ID"));
        }
        let rest = copy_range(payload, 1, n);
        assert(rest@ =~= payload@.skip(1));
        match string_from_utf8(rest) {
            Some(id) => Ok(TcpRequest::GetDeviceState { device_id: id }),
            None => Err(String::from_str("Invalid device ID")),
        }
    } else if kind == 3 {
        if n < 3 {
            return Err(String::from_str("Invalid payload"));
        }
        let id_len = payload[1] as usize;
        if n < 2 + id_len {
            return Err(String::from_str("Invalid device ID length"));
        }
        let id_bytes = copy_range(payload, 2, 2 + id_len);
        let state_bytes = copy_range(payload, 2 + id_len, n);
        assert(state_bytes@ =~= payload@.skip(2 + payload@[1]));
        match string_from_utf8(id_bytes) {
            Some(id) => Ok(TcpRequest::SetLightState { device_id: id, state_bytes }),
            None => Err(String::from_str("Invalid device ID")),
        }
    } else {
        Err(String::from_str("Unknown request type"))
    }
}

/// The error reply to a request: its correlation id, the error kind, the error's text as the
/// payload, and time `now`.
pub fn create_error_response(correlation_id: String, error: &str, now: Timestamp) -> (res: Message)
    ensures
        res.correlation_id@ == correlation_id@,
        res.message_type == MessageType::Error,
        res.payload@ == error.spec_bytes(),
        res.timestamp == now,
{
    Message { correlation_id, message_type: MessageType::Error, payload: error.as_bytes_vec(), timestamp: now }
}

/// A reply carrying `payload`.
pub fn create_response(correlation_id: String, payload: Vec<u8>, now: Timestamp) -> (res: Message)
    ensures
        res.correlation_id@ == correlation_id@,
        res.message_type == MessageType::Response,
        res.payload@ == payload@,
        res.timestamp == now,
{
    Message { correlation_id, message_type: MessageType::Response, payload, timestamp: now }
}

/// The state a get-state request answers with, or the error text.
pub fn get_state_reply(store: &StateStore, device_id: &str) -> (res: Result<DeviceStateValue, String>)
    requires
        store.wf(),
    ensures
        match store.device(device_id@) {
            Some(d) => res == Ok::<DeviceStateValue, String>(d.state),
            None => res matches Err(e) && e@ == "Device not found"@,
        },
{
    match store.get_state(device_id) {
        Some(s) => Ok(s),
        None => Err(String::from_str("Device not found")),
    }
}

/// Sets a light as a set-light request asks, at time `now`; the error text when the store has
/// no such device.
pub fn set_light_reply(store: &mut StateStore, device_id: &String, light: LightState, now: Timestamp) -> (res: Result<(), String>)
    requires
        old(store).wf(),
    ensures
        final(store).wf(),
        final(store).groups() == old(store).groups(),
        match old(store).device(device_id@) {
            Some(_) => res is Ok && final(store).entries() == update_state_result(old(store).entries(), device_id@,
                DeviceStateValue::Light(light), now),
            None => res matches Err(e) && e@ == "Update failed: "@ + state_error_text(StateError::DeviceNotFound(*device_id))
                && final(store).entries() == old(store).entries(),
        },
{
    match store.update_device_state(device_id, DeviceStateValue::Light(light), now) {
        Ok(()) => Ok(()),
        Err(e) => {
            let mut m = String::from_str("Update failed: ");
            let t = state_error_message(&e);
            m.append(t.as_str());
            Err(m)
        },
    }
}

/// A set-light payload, built as the client builds it from an id's UTF-8 bytes, is read back as
/// that id and the state bytes, whenever the id's encoding fits the length byte.
pub proof fn law_set_light_request_roundtrip(id: Seq<char>, state_bytes: Seq<u8>)
    requires
        0 < encode_utf8(id).len() <= 255,
    ensures
        parse_payload(request_payload(3, set_light_data(encode_utf8(id), state_bytes))) == TcpParse::SetLight(id, state_bytes),
{
    law_set_light_frame_roundtrip(encode_utf8(id), state_bytes);
    vstd::utf8::encode_utf8_valid_utf8(id);
    vstd::utf8::encode_utf8_decode_utf8(id);
}

/// A set-light payload, built as the client builds it, is read back as the id bytes and state
/// bytes it was made from, whenever the id fits the length byte.
pub proof fn law_set_light_frame_roundtrip(id_bytes: Seq<u8>, state_bytes: Seq<u8>)
    requires
        0 < id_bytes.len() <= 255,
    ensures
        ({
            let p = request_payload(3, set_light_data(id_bytes, state_bytes));
            &&& p[0] == 3
            &&& p.len() >= 3
            &&& p[1] as int == id_bytes.len()
            &&& p.len() >= 2 + p[1]
            &&& p.subrange(2, 2 + p[1]) == id_bytes
            &&& p.skip(2 + p[1]) == state_bytes
            &&& parse_payload(p) == match utf8_text(id_bytes) {
                Some(id) => TcpParse::SetLight(id, state_bytes),
                None => TcpParse::Fail("Invalid device ID"@),
            }
        }),
{
    let p = request_payload(3, set_light_data(id_bytes, state_bytes));
    let l: int = id_bytes.len() as int;
    assert((l % 256) as u8 as int == l);
    assert(p[1] as int == l);
    assert(p.subrange(2, 2 + l) =~= id_bytes);
    assert(p.skip(2 + l) =~= state_bytes);
}

} // verus!
