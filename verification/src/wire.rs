//! Bytes on the wire: little-endian integers, the handshake request, the
//! query frame and the NUL-terminated reply of the handshake.

use vstd::prelude::*;
use vstd::utf8::{decode_utf8, encode_utf8, valid_utf8};
use byteorder::{ByteOrder, LittleEndian};
use crate::ql2::{JSON_MAGIC, VERSION_MAGIC};

verus! {

/// The `width` low bytes of `n`, the lowest first.
pub open spec fn le_bytes(n: nat, width: nat) -> Seq<u8>
    decreases width,
{
    if width == 0 {
        Seq::empty()
    } else {
        seq![(n % 256) as u8] + le_bytes(n / 256, (width - 1) as nat)
    }
}

/// The number that bytes hold, the lowest byte first.
pub open spec fn le_value(bytes: Seq<u8>) -> nat
    decreases bytes.len(),
{
    if bytes.len() == 0 {
        0
    } else {
        bytes[0] as nat + 256 * le_value(bytes.skip(1))
    }
}

/// Whether `n` can be written in `width` bytes.
pub open spec fn fits(n: nat, width: nat) -> bool
    decreases width,
{
    if width == 0 {
        n == 0
    } else {
        fits(n / 256, (width - 1) as nat)
    }
}

/// Writing a number and reading the bytes back gives the number, wherever
/// it can be written in that many bytes; and there are that many bytes.
pub proof fn lemma_le_round_trip(n: nat, width: nat)
    requires
        fits(n, width),
    ensures
        le_bytes(n, width).len() == width,
        le_value(le_bytes(n, width)) == n,
    decreases width,
{
    if width > 0 {
        lemma_le_round_trip(n / 256, (width - 1) as nat);
        assert(le_bytes(n, width).skip(1) =~= le_bytes(n / 256, (width - 1) as nat));
    }
}

/// Reading bytes and writing the number into as many bytes gives the
/// bytes back: no two byte strings of one length hold the same number.
pub proof fn lemma_le_value_round_trip(bytes: Seq<u8>)
    ensures
        le_bytes(le_value(bytes), bytes.len()) == bytes,
    decreases bytes.len(),
{
    if bytes.len() > 0 {
        lemma_le_value_round_trip(bytes.skip(1));
        let rest = le_value(bytes.skip(1));
        assert((bytes[0] as nat + 256 * rest) % 256 == bytes[0] as nat);
        assert((bytes[0] as nat + 256 * rest) / 256 == rest);
        assert(le_bytes(le_value(bytes), bytes.len()) =~= bytes);
    } else {
        assert(le_bytes(le_value(bytes), bytes.len()) =~= bytes);
    }
}

/// Every 32-bit number can be written in four bytes, every 64-bit number
/// in eight.
pub proof fn lemma_fits(a: u32, b: u64)
    ensures
        fits(a as nat, 4),
        fits(b as nat, 8),
{
    reveal_with_fuel(fits, 9);
}

/// `byteorder::LittleEndian::write_u32` on a buffer of four bytes: the
/// buffer then holds the four bytes of `n`, the lowest first.
#[verifier::external_body]
fn put_u32(n: u32) -> (bytes: Vec<u8>)
    ensures
        bytes@ == le_bytes(n as nat, 4),
{
    let mut buffer: Vec<u8> = vec![0u8; 4];
    LittleEndian::write_u32(&mut buffer, n);
    buffer
}

/// `byteorder::LittleEndian::write_u64` on a buffer of eight bytes: the
/// buffer then holds the eight bytes of `n`, the lowest first.
#[verifier::external_body]
fn put_u64(n: u64) -> (bytes: Vec<u8>)
    ensures
        bytes@ == le_bytes(n as nat, 8),
{
    let mut buffer: Vec<u8> = vec![0u8; 8];
    LittleEndian::write_u64(&mut buffer, n);
    buffer
}

/// `byteorder::LittleEndian::read_u32`: the number that the first four
/// bytes hold, the lowest first. It panics on fewer than four bytes.
#[verifier::external_body]
fn get_u32(bytes: &[u8]) -> (n: u32)
    requires
        bytes@.len() >= 4,
    ensures
        n as nat == le_value(bytes@.take(4)),
{
    LittleEndian::read_u32(bytes)
}

/// `byteorder::LittleEndian::read_u64`: the number that the first eight
/// bytes hold, the lowest first. It panics on fewer than eight bytes.
#[verifier::external_body]
fn get_u64(bytes: &[u8]) -> (n: u64)
    requires
        bytes@.len() >= 8,
    ensures
        n as nat == le_value(bytes@.take(8)),
{
    LittleEndian::read_u64(bytes)
}

/// `String::from_utf8`: the text that the bytes encode, where they are
/// valid UTF-8, and nothing where they are not.
#[verifier::external_body]
fn utf8_text(bytes: Vec<u8>) -> (text: Option<String>)
    ensures
        text is Some <==> valid_utf8(bytes@),
        text is Some ==> text->Some_0@ == decode_utf8(bytes@),
{
    String::from_utf8(bytes).ok()
}

/// A length as a 32-bit length field holds it: modulo 2^32.
pub open spec fn length_field(len: nat) -> nat {
    len % 0x1_0000_0000
}

/// The bytes that open a session: the protocol version, the length of
/// the authentication key, the key, and the wire format.
pub open spec fn handshake_bytes(auth_key: Seq<u8>) -> Seq<u8> {
    le_bytes(VERSION_MAGIC as nat, 4) + le_bytes(length_field(auth_key.len()), 4) + auth_key
        + le_bytes(JSON_MAGIC as nat, 4)
}

/// The bytes that carry one query: its token, the length of its text, and
/// the text.
pub open spec fn frame_bytes(token: u64, query: Seq<u8>) -> Seq<u8> {
    le_bytes(token as nat, 8) + le_bytes(length_field(query.len()), 4) + query
}

fn append_bytes(out: &mut Vec<u8>, bytes: &[u8])
    ensures
        final(out)@ == old(out)@ + bytes@,
{
    let ghost before = out@;
    let mut i: usize = 0;
    while i < bytes.len()
        invariant
            i <= bytes@.len(),
            out@ == before + bytes@.take(i as int),
        decreases bytes.len() - i,
    {
        out.push(bytes[i]);
        assert(out@ =~= before + bytes@.take(i as int + 1));
        i += 1;
    }
    assert(bytes@.take(i as int) =~= bytes@);
}

/// The handshake request for an authentication key.
pub fn handshake_request(auth_key: &str) -> (bytes: Vec<u8>)
    ensures
        bytes@ == handshake_bytes(encode_utf8(auth_key@)),
{
    let key = auth_key.as_bytes();
    let mut bytes = put_u32(VERSION_MAGIC);
    let mut length = put_u32((key.len() as u64 % 0x1_0000_0000) as u32);
    bytes.append(&mut length);
    append_bytes(&mut bytes, key);
    let mut format = put_u32(JSON_MAGIC);
    bytes.append(&mut format);
    bytes
}

/// The frame of one query.
pub fn query_frame(token: u64, query: &str) -> (bytes: Vec<u8>)
    ensures
        bytes@ == frame_bytes(token, encode_utf8(query@)),
{
    let text = query.as_bytes();
    let mut bytes = put_u64(token);
    let mut length = put_u32((text.len() as u64 % 0x1_0000_0000) as u32);
    bytes.append(&mut length);
    append_bytes(&mut bytes, text);
    bytes
}

/// The token that opens a reply.
pub fn reply_token(header: &[u8]) -> (token: u64)
    requires
        header@.len() == 8,
    ensures
        token as nat == le_value(header@),
{
    assert(header@.take(8) =~= header@);
    get_u64(header)
}

/// The length of the text of a reply.
pub fn reply_length(header: &[u8]) -> (len: u32)
    requires
        header@.len() == 4,
    ensures
        len as nat == le_value(header@),
{
    assert(header@.take(4) =~= header@);
    get_u32(header)
}

/// A token that was written into a frame is read back from the frame's
/// first eight bytes, and the length of the text from the next four.
pub proof fn lemma_frame_symmetry(token: u64, query: Seq<u8>)
    ensures
        frame_bytes(token, query).len() == 12 + query.len(),
        le_value(frame_bytes(token, query).take(8)) == token,
        le_value(frame_bytes(token, query).subrange(8, 12)) == length_field(query.len()),
        frame_bytes(token, query).skip(12) == query,
{
    let len = length_field(query.len());
    lemma_fits(len as u32, token);
    lemma_le_round_trip(token as nat, 8);
    lemma_le_round_trip(len, 4);
    let frame = frame_bytes(token, query);
    assert(frame.take(8) =~= le_bytes(token as nat, 8));
    assert(frame.subrange(8, 12) =~= le_bytes(len, 4));
    assert(frame.skip(12) =~= query);
}

/// The bytes before the first zero byte; all of them where there is none.
pub open spec fn c_string(input: Seq<u8>) -> Seq<u8>
    decreases input.len(),
{
    if input.len() == 0 || input[0] == 0 {
        Seq::empty()
    } else {
        seq![input[0]] + c_string(input.skip(1))
    }
}

/// Why a NUL-terminated text could not be read.
#[derive(Debug, PartialEq, Eq)]
pub enum ReadStringError {
    /// The bytes before the terminator are not UTF-8.
    FromUtf8Error,
    /// The transport failed; the text says how.
    IoError(String),
}

/// What `read_string` gives for the bytes that were received.
pub open spec fn read_string_spec(input: Seq<u8>) -> Option<Seq<char>> {
    if valid_utf8(c_string(input)) {
        Some(decode_utf8(c_string(input)))
    } else {
        None
    }
}

/// Reads a NUL-terminated text: the bytes before the first zero byte, as
/// UTF-8. Bytes that end without a zero byte are read to their end.
pub fn read_string(input: &[u8]) -> (r: Result<String, ReadStringError>)
    ensures
        match r {
            Ok(text) => read_string_spec(input@) == Some(text@),
            Err(e) => read_string_spec(input@) is None && e == ReadStringError::FromUtf8Error,
        },
{
    let mut bytes: Vec<u8> = Vec::new();
    let mut i: usize = 0;
    proof {
        assert(input@.skip(0) =~= input@);
        assert(bytes@ + c_string(input@) =~= c_string(input@));
    }
    while i < input.len() && input[i] != 0
        invariant
            i <= input@.len(),
            bytes@ == input@.take(i as int),
            c_string(input@) == bytes@ + c_string(input@.skip(i as int)),
        decreases input.len() - i,
    {
        bytes.push(input[i]);
        proof {
            let rest = input@.skip(i as int);
            assert(rest.skip(1) =~= input@.skip(i + 1));
            assert(bytes@ =~= input@.take(i + 1));
            assert(input@.take(i as int) + (seq![rest[0]] + c_string(rest.skip(1)))
                =~= input@.take(i + 1) + c_string(rest.skip(1)));
        }
        i += 1;
    }
    proof {
        assert(c_string(input@.skip(i as int)) =~= Seq::<u8>::empty());
        assert(c_string(input@) =~= bytes@);
    }
    match utf8_text(bytes) {
        Some(text) => Ok(text),
        None => Err(ReadStringError::FromUtf8Error),
    }
}

} // verus!
