//! Trusted boundary to the external packet codec (`aprs_parser`): the
//! declarations of its types and the two calls the library makes into it,
//! with the contracts the library relies on.

use vstd::prelude::*;
use std::io::Write;

verus! {

#[verifier::external_type_specification]
#[verifier::external_body]
pub struct ExAprsPacket(aprs_parser::AprsPacket);

#[verifier::external_type_specification]
#[verifier::external_body]
pub struct ExDecodeError(aprs_parser::DecodeError);

#[verifier::external_type_specification]
#[verifier::external_body]
pub struct ExEncodeError(aprs_parser::EncodeError);

/// Whether the external decoder accepts these bytes as one structured
/// packet; a function of the bytes alone.
pub uninterp spec fn aprs_decodes(raw: Seq<u8>) -> bool;

/// Relies on `aprs_parser::AprsPacket::decode_textual`: parses one textual
/// packet line, deterministically in the bytes it is given.
#[verifier::external_body]
pub(crate) fn decode_packet(raw: &Vec<u8>) -> (r: Result<
    aprs_parser::AprsPacket,
    aprs_parser::DecodeError,
>)
    ensures
        r is Ok <==> aprs_decodes(raw@),
{
    aprs_parser::AprsPacket::decode_textual(raw.as_slice())
}

/// Whether the external encoder can serialize this packet into a textual
/// line; a function of the packet value alone.
pub uninterp spec fn aprs_encodes(packet: aprs_parser::AprsPacket) -> bool;

/// Relies on `aprs_parser::AprsPacket::encode_textual`: serializes a
/// packet into the bytes of one textual line, succeeding or failing
/// deterministically in the packet value alone. Which bytes come out on
/// success is not claimed.
#[verifier::external_body]
pub(crate) fn encode_packet(packet: &aprs_parser::AprsPacket) -> (r: Result<
    Vec<u8>,
    aprs_parser::EncodeError,
>)
    ensures
        r is Ok <==> aprs_encodes(*packet),
{
    let mut buf: Vec<u8> = Vec::new();
    match packet.encode_textual(&mut buf) {
        Ok(()) => Ok(buf),
        Err(e) => Err(e),
    }
}

} // verus!
