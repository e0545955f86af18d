//! Identifiers: UUIDs carried as their 128-bit value.
use vstd::prelude::*;

verus! {

/// The value `uuid::Uuid::parse_str` reads from a text, or `None` when it
/// rejects the text.
pub uninterp spec fn uuid_parse(text: Seq<char>) -> Option<u128>;

/// The version number a UUID value carries (bits 76..80).
pub open spec fn uuid_version(id: u128) -> u128 {
    (id >> 76u128) & 0xfu128
}

/// The two top variant bits a UUID value carries (bits 62..64); `2` (`10`)
/// is the RFC 4122 variant.
pub open spec fn uuid_variant(id: u128) -> u128 {
    (id >> 62u128) & 0x3u128
}

/// `id` is a random (version 4, RFC 4122 variant) UUID value: one that
/// `version4_from` makes of some 16 bytes.
pub open spec fn is_random_uuid(id: u128) -> bool {
    &&& uuid_version(id) == 4
    &&& uuid_variant(id) == 2
    &&& exists|b: Seq<u8>| b.len() == 16 && id == version4_from(b)
}

/// The big-endian value of a byte sequence.
pub open spec fn big_endian(bytes: Seq<u8>) -> nat
    decreases bytes.len(),
{
    if bytes.len() == 0 {
        0
    } else {
        (big_endian(bytes.drop_last()) * 256 + bytes.last()) as nat
    }
}

/// The UUID value made of 16 random bytes: their big-endian value with the
/// version nibble (bits 76..80) set to 4 and the two top variant bits
/// (62..64) set to `10`.
pub open spec fn version4_from(bytes: Seq<u8>) -> u128 {
    ((big_endian(bytes) as u128) & 0xFFFF_FFFF_FFFF_0FFF_3FFF_FFFF_FFFF_FFFFu128)
        | 0x0000_0000_0000_4000_8000_0000_0000_0000u128
}

/// Calls `getrandom::fill` on a 16-byte buffer: the bytes from the system's
/// random source, or `None` when `fill` reports an error. The bytes are
/// random, so nothing is claimed of them.
#[verifier::external_body]
fn random_bytes() -> Option<[u8; 16]> {
    let mut bytes = [0u8; 16];
    match getrandom::fill(&mut bytes) {
        Ok(()) => Some(bytes),
        Err(_) => None,
    }
}

/// Calls `uuid::Builder::from_random_bytes(bytes).into_uuid()` and returns
/// its 128-bit value. Its source (`with_variant`, `with_version`, and the
/// big-endian `as_u128`) keeps the bytes and only sets byte 6's high nibble
/// to 4 and byte 8's two high bits to `10`: that is `version4_from`.
#[verifier::external_body]
fn version4_uuid(bytes: [u8; 16]) -> (id: u128)
    ensures
        id == version4_from(bytes@),
{
    uuid::Builder::from_random_bytes(bytes).into_uuid().as_u128()
}

/// Calls `uuid::Uuid::parse_str` on `text`; the result (as a 128-bit value,
/// or `None` on a parse error) is named `uuid_parse`.
#[verifier::external_body]
fn parse_uuid(text: &str) -> (r: Option<u128>)
    ensures
        r == uuid_parse(text@),
{
    match uuid::Uuid::parse_str(text) {
        Ok(u) => Some(u.as_u128()),
        Err(_) => None,
    }
}

/// A fresh random (version 4) identifier, or `None` when the system's
/// random source fails.
pub fn new_id() -> (r: Option<u128>)
    ensures
        r matches Some(id) ==> is_random_uuid(id),
{
    match random_bytes() {
        Some(bytes) => {
            let id = version4_uuid(bytes);
            let ghost v = big_endian(bytes@) as u128;
            assert(((v & 0xFFFF_FFFF_FFFF_0FFF_3FFF_FFFF_FFFF_FFFFu128) | 0x0000_0000_0000_4000_8000_0000_0000_0000u128) >> 76u128 & 0xfu128 == 4) by (bit_vector);
            assert(((v & 0xFFFF_FFFF_FFFF_0FFF_3FFF_FFFF_FFFF_FFFFu128) | 0x0000_0000_0000_4000_8000_0000_0000_0000u128) >> 62u128 & 0x3u128 == 2) by (bit_vector);
            assert(bytes@.len() == 16);
            Some(id)
        },
        None => None,
    }
}

/// The identifier a stored text denotes; the nil identifier (0) when the
/// text is not a UUID.
pub fn id_from_text(text: &str) -> (id: u128)
    ensures
        id == match uuid_parse(text@) {
            Some(v) => v,
            None => 0u128,
        },
{
    match parse_uuid(text) {
        Some(v) => v,
        None => 0,
    }
}

} // verus!
