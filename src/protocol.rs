//! Wire format: event bytes, frame layouts and the byte helpers that build them.
use vstd::prelude::*;
use vstd::string::StringSliceAdditionalSpecFns;

verus! {

/// Closes a function-call frame.
pub const END: u8 = 0x00;

/// The ready handshake, sent by either side.
pub const READY: u8 = 0x01;

/// Opens a function-call frame.
pub const FUNCTION_HEADER: u8 = 0x02;

/// Opens a function-return frame.
pub const RETURN_HEADER: u8 = 0x03;

/// The longest function name that the one-byte length field can carry.
pub const MAX_NAME_LEN: usize = 255;

/// The longest payload that the two-byte length field can carry.
pub const MAX_PAYLOAD_LEN: usize = 65535;

/// Two bytes holding `v` little-endian.
pub open spec fn u16_le(v: nat) -> Seq<u8> {
    seq![(v % 256) as u8, (v / 256) as u8]
}

/// `[FUNCTION_HEADER][name_len:u8][name][payload_len:u16 LE][payload][END]`.
pub open spec fn call_frame(name: Seq<u8>, payload: Seq<u8>) -> Seq<u8> {
    seq![FUNCTION_HEADER, name.len() as u8] + name + u16_le(payload.len()) + payload + seq![END]
}

/// `[RETURN_HEADER][reply]`: the reply carries no length of its own.
pub open spec fn return_frame(reply: Seq<u8>) -> Seq<u8> {
    seq![RETURN_HEADER] + reply
}

/// `[level_len:u8][level][message_len:u16 LE][message]`: the payload of a log record.
pub open spec fn log_payload(level: Seq<u8>, message: Seq<u8>) -> Seq<u8> {
    seq![level.len() as u8] + level + u16_le(message.len()) + message
}

/// Appends `src` to `dst`.
pub fn append_bytes(dst: &mut Vec<u8>, src: &[u8])
    ensures
        final(dst)@ == old(dst)@ + src@,
{
    let mut i: usize = 0;
    while i < src.len()
        invariant
            i <= src@.len(),
            dst@ == old(dst)@ + src@.subrange(0, i as int),
        decreases src@.len() - i,
    {
        dst.push(src[i]);
        i = i + 1;
        assert(src@.subrange(0, i as int) == src@.subrange(0, i - 1 as int).push(src@[i - 1]));
    }
    assert(src@.subrange(0, i as int) == src@);
}

/// Copies `v[start..end]` into a new vector.
pub fn copy_range(v: &[u8], start: usize, end: usize) -> (r: Vec<u8>)
    requires
        start <= end <= v@.len(),
    ensures
        r@ == v@.subrange(start as int, end as int),
{
    let mut r: Vec<u8> = Vec::new();
    let mut i: usize = start;
    while i < end
        invariant
            start <= i <= end <= v@.len(),
            r@ == v@.subrange(start as int, i as int),
        decreases end - i,
    {
        r.push(v[i]);
        i = i + 1;
        assert(v@.subrange(start as int, i as int) == v@.subrange(start as int, i - 1 as int).push(v@[i - 1]));
    }
    r
}

/// Byte-exact comparison.
pub fn bytes_eq(a: &[u8], b: &[u8]) -> (r: bool)
    ensures
        r == (a@ == b@),
{
    if a.len() != b.len() {
        return false;
    }
    let mut i: usize = 0;
    while i < a.len()
        invariant
            a@.len() == b@.len(),
            i <= a@.len(),
            forall|j: int| 0 <= j < i ==> a@[j] == b@[j],
        decreases a@.len() - i,
    {
        if a[i] != b[i] {
            return false;
        }
        i = i + 1;
    }
    assert(a@ == b@);
    true
}

/// Appends `v` as two little-endian bytes.
pub fn push_u16_le(dst: &mut Vec<u8>, v: usize)
    requires
        v <= MAX_PAYLOAD_LEN,
    ensures
        final(dst)@ == old(dst)@ + u16_le(v as nat),
{
    dst.push((v % 256) as u8);
    dst.push((v / 256) as u8);
    assert(final(dst)@ == old(dst)@ + u16_le(v as nat));
}

/// Builds the function-call frame that invokes `name` with `payload`.
pub fn encode_call(name: &str, payload: &[u8]) -> (r: Vec<u8>)
    requires
        name.spec_bytes().len() <= MAX_NAME_LEN,
        payload@.len() <= MAX_PAYLOAD_LEN,
    ensures
        r@ == call_frame(name.spec_bytes(), payload@),
{
    let name_bytes = name.as_bytes();
    let mut r: Vec<u8> = Vec::new();
    r.push(FUNCTION_HEADER);
    r.push(name_bytes.len() as u8);
    append_bytes(&mut r, name_bytes);
    push_u16_le(&mut r, payload.len());
    append_bytes(&mut r, payload);
    r.push(END);
    assert(r@ == call_frame(name.spec_bytes(), payload@));
    r
}

/// Builds the payload of a log record from its level name and message.
pub fn format_record(level: &str, message: &str) -> (r: Vec<u8>)
    requires
        level.spec_bytes().len() <= MAX_NAME_LEN,
        message.spec_bytes().len() <= MAX_PAYLOAD_LEN,
    ensures
        r@ == log_payload(level.spec_bytes(), message.spec_bytes()),
{
    let level_bytes = level.as_bytes();
    let message_bytes = message.as_bytes();
    let mut r: Vec<u8> = Vec::new();
    r.push(level_bytes.len() as u8);
    append_bytes(&mut r, level_bytes);
    push_u16_le(&mut r, message_bytes.len());
    append_bytes(&mut r, message_bytes);
    assert(r@ == log_payload(level.spec_bytes(), message.spec_bytes()));
    r
}

} // verus!
