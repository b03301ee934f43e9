//! The packet codec scaffolding: a generic encode/decode contract and its
//! one implementation, plain UTF-8 strings. It defines no wire protocol.

use vstd::prelude::*;
use vstd::utf8::{encode_utf8, decode_utf8, valid_utf8};

verus! {

/// Ways the networking layer can fail.
pub enum NetworkError {
    /// The received bytes did not decode into a packet.
    InvalidPacket,
    /// The packet exceeds its type's maximum size.
    PacketTooLarge,
    /// The receive buffer cannot hold the packet.
    BufferTooSmall,
    /// No peer is connected.
    NoConnection,
    /// The named address could not be connected to.
    UnableToConnect(String),
    /// The underlying socket failed.
    Io(std::io::Error),
}

#[verifier::external_type_specification]
#[verifier::external_body]
pub struct ExIoError(std::io::Error);

impl From<std::io::Error> for NetworkError {
    fn from(e: std::io::Error) -> (r: NetworkError)
        ensures
            r is Io,
    {
        NetworkError::Io(e)
    }
}

impl vstd::std_specs::convert::FromSpecImpl<std::io::Error> for NetworkError {
    open spec fn obeys_from_spec() -> bool {
        true
    }

    open spec fn from_spec(e: std::io::Error) -> NetworkError {
        NetworkError::Io(e)
    }
}

impl NetworkError {
    /// A short human-readable account of the failure.
    pub fn describe(&self) -> (r: &'static str)
        ensures
            *self is InvalidPacket ==> r@ == "Could not parse packet"@,
            *self is PacketTooLarge ==> r@ == "Packet is too large"@,
            *self is BufferTooSmall ==> r@ == "Buffer is too small"@,
            *self is NoConnection ==> r@ == "No connection"@,
            *self is UnableToConnect ==> r@ == "Unable to connect"@,
            *self is Io ==> r@ == "A network error occured"@,
    {
        match self {
            NetworkError::InvalidPacket => "Could not parse packet",
            NetworkError::PacketTooLarge => "Packet is too large",
            NetworkError::BufferTooSmall => "Buffer is too small",
            NetworkError::NoConnection => "No connection",
            NetworkError::UnableToConnect(_) => "Unable to connect",
            NetworkError::Io(_) => "A network error occured",
        }
    }
}

/// A value that can cross the wire: it serialises itself to bytes, and its
/// `Output` form is recovered from bytes when they parse.
pub trait Packet {
    type Output;

    /// Largest admissible encoding, in bytes.
    const MAX_SIZE: usize;

    /// This value's byte encoding.
    fn to_bytes(&self) -> &[u8];

    /// Recover a value from received bytes, if they parse.
    fn from_bytes(bytes: &[u8]) -> Option<Self::Output>;
}

/// Round trip: the bytes a string packet encodes always parse, and parse
/// back to the very characters that were sent.
pub proof fn lemma_string_packet_round_trip(s: Seq<char>)
    ensures
        valid_utf8(encode_utf8(s)),
        decode_utf8(encode_utf8(s)) == s,
{
    vstd::utf8::encode_utf8_valid_utf8(s);
    vstd::utf8::encode_utf8_decode_utf8(s);
}

/// Relies on `String::from_utf8`: it succeeds exactly on valid UTF-8 and
/// returns the string those bytes encode, as vstd's UTF-8 model states it.
#[verifier::external_body]
fn bytes_to_string(bytes: &[u8]) -> (r: Option<String>)
    ensures
        r matches Some(s) ==> valid_utf8(bytes@) && s@ == decode_utf8(bytes@),
        valid_utf8(bytes@) ==> r is Some,
{
    String::from_utf8(bytes.to_vec()).ok()
}

impl Packet for String {
    type Output = String;

    const MAX_SIZE: usize = 1080;

    /// The string's UTF-8 encoding.
    fn to_bytes(&self) -> (r: &[u8])
        ensures
            r@ == encode_utf8(self@),
    {
        self.as_str().as_bytes()
    }

    /// Exactly valid UTF-8 parses, to the string it encodes.
    fn from_bytes(bytes: &[u8]) -> (r: Option<String>)
        ensures
            r matches Some(s) ==> valid_utf8(bytes@) && s@ == decode_utf8(bytes@),
            valid_utf8(bytes@) ==> r is Some,
    {
        bytes_to_string(bytes)
    }
}

} // verus!
