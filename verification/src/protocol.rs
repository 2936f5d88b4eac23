//! The identification protocol engine's decision logic: how the
//! line-delimited read loop accumulates bytes, how a raw response is decoded
//! and trimmed, and when a response confirms a profile's expected answer.
//! The serial I/O itself happens outside the library; each read outcome is
//! handed in as a [`ReadEvent`].

use vstd::prelude::*;
use vstd::utf8::{decode_utf8, valid_utf8};
use crate::text::{trim_of, trim_str};

verus! {

/// One outcome of reading a single byte from the serial line.
pub enum ReadEvent {
    /// A byte arrived.
    Byte(u8),
    /// The read returned zero bytes: the stream ended.
    Closed,
    /// The read failed (timeout or I/O error).
    Failed,
}

/// One step of the line-delimited read loop: a data byte other than the
/// line feed is accumulated and reading continues; a line feed, an ended
/// stream or a failed read stops the loop, and the line feed is excluded
/// from the buffer.
pub fn read_step(buffer: &mut Vec<u8>, event: ReadEvent) -> (proceed: bool)
    ensures
        (match event {
            ReadEvent::Byte(b) => {
                if b == 10 {
                    final(buffer)@ == old(buffer)@ && !proceed
                } else {
                    final(buffer)@ == old(buffer)@.push(b) && proceed
                }
            },
            ReadEvent::Closed => final(buffer)@ == old(buffer)@ && !proceed,
            ReadEvent::Failed => final(buffer)@ == old(buffer)@ && !proceed,
        }),
{
    match event {
        ReadEvent::Byte(b) => {
            if b == 10 {
                false
            } else {
                buffer.push(b);
                true
            }
        },
        ReadEvent::Closed => false,
        ReadEvent::Failed => false,
    }
}

/// Relies on `String::from_utf8`: decodes the bytes exactly when they are
/// valid UTF-8, as `vstd::utf8` defines validity and decoding.
#[verifier::external_body]
fn string_from_utf8(bytes: &Vec<u8>) -> (r: Option<String>)
    ensures
        r is Some <==> valid_utf8(bytes@),
        (r matches Some(s) ==> s@ == decode_utf8(bytes@)),
{
    match String::from_utf8(bytes.clone()) {
        Ok(s) => Some(s),
        Err(_) => None,
    }
}

/// The decoded text of a raw response: its UTF-8 decoding, or the empty
/// sequence when the bytes are not valid UTF-8 (a silent degradation, so
/// that a garbled response merely fails the comparison).
pub open spec fn decoded_of(bytes: Seq<u8>) -> Seq<char> {
    if valid_utf8(bytes) {
        decode_utf8(bytes)
    } else {
        Seq::empty()
    }
}

/// The response text the engine compares: decoded, then trimmed.
pub open spec fn response_of(bytes: Seq<u8>) -> Seq<char> {
    trim_of(decoded_of(bytes))
}

/// Decodes and trims a raw response buffer.
pub fn decode_response(bytes: &Vec<u8>) -> (r: String)
    ensures
        r@ == response_of(bytes@),
{
    let decoded = match string_from_utf8(bytes) {
        Some(s) => s,
        None => String::new(),
    };
    proof {
        assert(decoded@ == decoded_of(bytes@));
    }
    trim_str(decoded.as_str())
}

/// The comparison that ends the handshake: success exactly when the trimmed
/// decoded response equals the trimmed expected response.
pub fn identification_outcome(bytes: &Vec<u8>, expected: &str) -> (r: bool)
    ensures
        r == (response_of(bytes@) == trim_of(expected@)),
{
    let response = decode_response(bytes);
    let wanted = trim_str(expected);
    response.eq(&wanted)
}

} // verus!
