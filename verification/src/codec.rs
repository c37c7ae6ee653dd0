//! Arbitration-field codec: packs and unpacks the bit-packed addressing field
//! attached to every bus frame into its logical subfields (source address,
//! destination address, fragment kind, remaining-fragment count, connection
//! id) and back.  Pure and stateless; out-of-range inputs are masked, never
//! rejected.

use vstd::prelude::*;

verus! {

/// Number of payload bytes a single CAN frame can carry.
pub const CAN_FRAME_SIZE: u8 = 8;

/// Offset of the CSP identifier header inside a Begin frame's payload.
pub const CFP1_CSP_HEADER_OFFSET: u8 = 0;
/// Size in bytes of the CSP identifier header at the front of a Begin frame.
pub const CFP1_CSP_HEADER_SIZE: u8 = 4;
/// Offset of the declared-length field inside a Begin frame's payload.
pub const CFP1_DATA_LEN_OFFSET: u8 = 4;
/// Size in bytes of the declared-length field.
pub const CFP1_DATA_LEN_SIZE: u8 = 2;
/// Offset of the first data byte inside a Begin frame's payload.
pub const CFP1_DATA_OFFSET: u8 = 6;

/// Destination address that addresses every node on the bus.
pub const CSP_BROADCAST_ADDR: u8 = 0x1F;

/// Capacity in bytes of a reassembly buffer's payload storage.
pub const CSP_BUFFER_SIZE: usize = 256;

/// Width in bits of the source and destination address subfields.
pub const CFP_HOST_SIZE: u32 = 5;
/// Width in bits of the fragment-kind subfield.
pub const CFP_TYPE_SIZE: u32 = 1;
/// Width in bits of the remaining-fragment-count subfield.
pub const CFP_REMAIN_SIZE: u32 = 8;
/// Width in bits of the connection identification subfield.
pub const CFP_IDENT_SIZE: u32 = 10;

/// Bit offset of the remaining-count subfield.
pub const CFP_REMAIN_SHIFT: u32 = CFP_IDENT_SIZE;
/// Bit offset of the fragment-kind subfield.
pub const CFP_TYPE_SHIFT: u32 = CFP_REMAIN_SIZE + CFP_IDENT_SIZE;
/// Bit offset of the destination address subfield.
pub const CFP_DST_SHIFT: u32 = CFP_TYPE_SIZE + CFP_REMAIN_SIZE + CFP_IDENT_SIZE;
/// Bit offset of the source address subfield.
pub const CFP_SRC_SHIFT: u32 = CFP_HOST_SIZE + CFP_TYPE_SIZE + CFP_REMAIN_SIZE + CFP_IDENT_SIZE;

/// All-ones mask of a host address subfield (5 bits wide).
pub const CFP_HOST_MASK: u32 = 0x1F;
/// All-ones mask of the fragment-kind subfield (1 bit wide).
pub const CFP_TYPE_MASK: u32 = 0x1;
/// All-ones mask of the remaining-count subfield (8 bits wide).
pub const CFP_REMAIN_MASK: u32 = 0xFF;
/// All-ones mask of the connection identification subfield (10 bits wide).
pub const CFP_IDENT_MASK: u32 = 0x3FF;
/// All-ones mask of a whole arbitration field (29 bits wide).
pub const CFP_FIELD_MASK: u32 = 0x1FFF_FFFF;

/// Mask selecting the source, destination and connection-id bits of an
/// arbitration field: exactly the subset that identifies one logical packet
/// stream, deliberately excluding the fragment-kind and remaining-count bits
/// so that a lookup matches every fragment of the same stream.
pub const CFP_ID_CONN_MASK: u32 = (CFP_HOST_MASK << CFP_SRC_SHIFT) | (CFP_HOST_MASK
    << CFP_DST_SHIFT) | CFP_IDENT_MASK;

/// Fragment-kind subfield of an arbitration field.
pub open spec fn spec_cfp_type(id: u32) -> u32 {
    (id >> CFP_TYPE_SHIFT) & CFP_TYPE_MASK
}

/// Remaining-fragment-count subfield of an arbitration field.
pub open spec fn spec_cfp_remain(id: u32) -> u32 {
    (id >> CFP_REMAIN_SHIFT) & CFP_REMAIN_MASK
}

/// Connection identification subfield of an arbitration field.
pub open spec fn spec_cfp_ident(id: u32) -> u32 {
    id & CFP_IDENT_MASK
}

/// Destination address subfield of an arbitration field.
pub open spec fn spec_cfp_dst(id: u32) -> u32 {
    (id >> CFP_DST_SHIFT) & CFP_HOST_MASK
}

/// Source address subfield of an arbitration field.
pub open spec fn spec_cfp_src(id: u32) -> u32 {
    (id >> CFP_SRC_SHIFT) & CFP_HOST_MASK
}

/// The connection tag of an arbitration field: the masked subset of its bits
/// that identifies one logical packet stream.
pub open spec fn spec_conn_tag(id: u32) -> u32 {
    id & CFP_ID_CONN_MASK
}

/// An arbitration field assembled from its subfields, each masked to its
/// width first.
pub open spec fn spec_cfp_make(src: u32, dst: u32, kind: u32, remain: u32, ident: u32) -> u32 {
    ((src & CFP_HOST_MASK) << CFP_SRC_SHIFT) | ((dst & CFP_HOST_MASK) << CFP_DST_SHIFT) | ((kind
        & CFP_TYPE_MASK) << CFP_TYPE_SHIFT) | ((remain & CFP_REMAIN_MASK) << CFP_REMAIN_SHIFT) | (
    ident & CFP_IDENT_MASK)
}

/// Extracts the fragment-kind subfield.
pub fn cfp_type(id: u32) -> (r: u32)
    ensures
        r == spec_cfp_type(id),
{
    (id >> CFP_TYPE_SHIFT) & CFP_TYPE_MASK
}

/// Extracts the remaining-fragment-count subfield.
pub fn cfp_remain(id: u32) -> (r: u32)
    ensures
        r == spec_cfp_remain(id),
{
    (id >> CFP_REMAIN_SHIFT) & CFP_REMAIN_MASK
}

/// Extracts the connection identification subfield.
pub fn cfp_ident(id: u32) -> (r: u32)
    ensures
        r == spec_cfp_ident(id),
{
    id & CFP_IDENT_MASK
}

/// Extracts the destination address subfield.
pub fn cfp_dst(id: u32) -> (r: u32)
    ensures
        r == spec_cfp_dst(id),
{
    (id >> CFP_DST_SHIFT) & CFP_HOST_MASK
}

/// Extracts the source address subfield.
pub fn cfp_src(id: u32) -> (r: u32)
    ensures
        r == spec_cfp_src(id),
{
    (id >> CFP_SRC_SHIFT) & CFP_HOST_MASK
}

/// Assembles an arbitration field from its subfields.
pub fn cfp_make(src: u32, dst: u32, kind: u32, remain: u32, ident: u32) -> (r: u32)
    ensures
        r == spec_cfp_make(src, dst, kind, remain, ident),
{
    ((src & CFP_HOST_MASK) << CFP_SRC_SHIFT) | ((dst & CFP_HOST_MASK) << CFP_DST_SHIFT) | ((kind
        & CFP_TYPE_MASK) << CFP_TYPE_SHIFT) | ((remain & CFP_REMAIN_MASK) << CFP_REMAIN_SHIFT) | (
    ident & CFP_IDENT_MASK)
}

/// Every decoded subfield fits its declared width.
pub proof fn lemma_cfp_field_bounds(id: u32)
    by (bit_vector)
    ensures
        spec_cfp_type(id) <= 1,
        spec_cfp_remain(id) < 256,
        spec_cfp_ident(id) < 1024,
        spec_cfp_dst(id) < 32,
        spec_cfp_src(id) < 32,
{
}

/// Decoding an encoded field recovers each subfield, masked to its width:
/// the codec is an exact bit-shift/mask round trip.
pub proof fn lemma_cfp_decode_encode(src: u32, dst: u32, kind: u32, remain: u32, ident: u32)
    by (bit_vector)
    ensures
        spec_cfp_src(spec_cfp_make(src, dst, kind, remain, ident)) == src & CFP_HOST_MASK,
        spec_cfp_dst(spec_cfp_make(src, dst, kind, remain, ident)) == dst & CFP_HOST_MASK,
        spec_cfp_type(spec_cfp_make(src, dst, kind, remain, ident)) == kind & CFP_TYPE_MASK,
        spec_cfp_remain(spec_cfp_make(src, dst, kind, remain, ident)) == remain & CFP_REMAIN_MASK,
        spec_cfp_ident(spec_cfp_make(src, dst, kind, remain, ident)) == ident & CFP_IDENT_MASK,
{
}

/// Re-encoding the decoded subfields of a field recovers the field's
/// protocol bits: the inverse direction of the round trip.
pub proof fn lemma_cfp_encode_decode(id: u32)
    by (bit_vector)
    ensures
        spec_cfp_make(
            spec_cfp_src(id),
            spec_cfp_dst(id),
            spec_cfp_type(id),
            spec_cfp_remain(id),
            spec_cfp_ident(id),
        ) == id & CFP_FIELD_MASK,
{
}

/// The connection tag of a frame does not depend on its fragment kind or its
/// remaining count: every fragment of one stream carries the same tag.
pub proof fn lemma_conn_tag_ignores_kind_remain(
    src: u32,
    dst: u32,
    kind1: u32,
    remain1: u32,
    kind2: u32,
    remain2: u32,
    ident: u32,
)
    by (bit_vector)
    ensures
        spec_conn_tag(spec_cfp_make(src, dst, kind1, remain1, ident)) == spec_conn_tag(
            spec_cfp_make(src, dst, kind2, remain2, ident),
        ),
{
}

} // verus!
