//! The send path's pure core: serializing an outbound packet into the
//! bytes of one line, and typing its failures.

use vstd::prelude::*;
use crate::aprs;
use crate::error::ISSendError;

verus! {

/// Exact mapping of the external encoder's outcome onto the send path's
/// result: encoded bytes pass through unchanged, an encoding failure
/// becomes the send error that carries it.
pub fn send_payload(enc: Result<Vec<u8>, aprs_parser::EncodeError>) -> (r: Result<
    Vec<u8>,
    ISSendError,
>)
    ensures
        enc is Ok ==> r is Ok && r.unwrap() == enc.unwrap(),
        enc is Err ==> r is Err && r.unwrap_err() == ISSendError::EncodeError(enc.unwrap_err()),
{
    match enc {
        Ok(v) => Ok(v),
        Err(e) => Err(ISSendError::EncodeError(e)),
    }
}

/// Serializes an outbound packet into the bytes of one line through the
/// external encoder; the framing delimiter is the writer codec's to add.
/// It succeeds exactly on the packets the encoder can serialize, and a
/// failure is always an encoding failure: the transport was not touched.
pub fn encode_for_send(packet: &aprs_parser::AprsPacket) -> (r: Result<Vec<u8>, ISSendError>)
    ensures
        r is Ok <==> aprs::aprs_encodes(*packet),
        r is Err ==> r.unwrap_err() is EncodeError,
{
    send_payload(aprs::encode_packet(packet))
}

} // verus!
