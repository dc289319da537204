//! Which packets may enter the management transport.

use vstd::prelude::*;

verus! {

/// The most bytes that a packet may hold.
pub const MAX_PACKET_BYTES: usize = 65536;

/// The codes by which a packet's header tells requests and responses from
/// everything else.
#[derive(Clone, Copy)]
pub struct RpcPacketCodes {
    pub request: u8,
    pub response: u8,
}

/// Whether a packet of this size may be looked into.
pub open spec fn is_packet_size(size: nat) -> bool {
    0 < size <= MAX_PACKET_BYTES
}

/// A packet of an admissible size whose header marks it as a request or a
/// response. `packet_type` is the code in its header, where it has one.
pub open spec fn is_rpc_packet(
    bytes: Seq<u8>,
    packet_type: Option<u8>,
    codes: RpcPacketCodes,
) -> bool {
    &&& is_packet_size(bytes.len())
    &&& packet_type is Some
    &&& packet_type->0 == codes.request || packet_type->0 == codes.response
}

/// Whether the header of a packet may be looked for.
pub fn valid_packet_size(bytes: &[u8]) -> (valid: bool)
    ensures
        valid == is_packet_size(bytes@.len()),
        valid <==> 1 <= bytes@.len() <= 65536,
{
    bytes.len() > 0 && bytes.len() <= MAX_PACKET_BYTES
}

/// Whether a packet may enter the transport.
pub fn valid_rpc_packet_bytes(
    bytes: &[u8],
    packet_type: Option<u8>,
    codes: RpcPacketCodes,
) -> (valid: bool)
    ensures
        valid == is_rpc_packet(bytes@, packet_type, codes),
        valid <==> 1 <= bytes@.len() <= 65536 && (packet_type == Some(codes.request) || packet_type
            == Some(codes.response)),
{
    if !valid_packet_size(bytes) {
        return false;
    }
    match packet_type {
        Some(value) => value == codes.request || value == codes.response,
        None => false,
    }
}

/// Of two packets with the same type, neither is favoured for what it holds: where one
/// may enter, so may the other, if it is not empty and no longer.
pub proof fn lemma_contents_do_not_matter(
    a: Seq<u8>,
    b: Seq<u8>,
    packet_type: Option<u8>,
    codes: RpcPacketCodes,
)
    requires
        is_rpc_packet(a, packet_type, codes),
        0 < b.len() <= a.len(),
    ensures
        is_rpc_packet(b, packet_type, codes),
{
}

/// Requests and responses of up to 64 KiB may enter, and no other packet may.
pub proof fn lemma_requests_and_responses_enter(
    bytes: Seq<u8>,
    packet_type: Option<u8>,
    codes: RpcPacketCodes,
)
    ensures
        0 < bytes.len() <= 65536 ==> is_rpc_packet(bytes, Some(codes.request), codes)
            && is_rpc_packet(bytes, Some(codes.response), codes),
        packet_type != Some(codes.request) && packet_type != Some(codes.response)
            ==> !is_rpc_packet(bytes, packet_type, codes),
        bytes.len() == 0 || bytes.len() > 65536 ==> !is_rpc_packet(bytes, packet_type, codes),
{
}

} // verus!
