//! Checksums, fresh random strings and the clock.
use vstd::prelude::*;
use vstd::string::*;
use rand::RngCore;
use crate::encoding::{
    base58_encode, base58_text, hex_encode, hex_text, hex_value, is_hex_text,
    lemma_hex_round_trip, sha256, sha256_digest,
};

verus! {

/// Number of random bytes behind a random string.
pub const RANDOM_STRING_BYTES: usize = 32;

/// Number of hexadecimal digits in a checksum.
pub const CHECKSUM_LEN: usize = 8;

/// The checksum of `data`: the first eight hexadecimal digits of its double
/// SHA-256 digest.
pub open spec fn checksum(data: Seq<u8>) -> Seq<char> {
    hex_text(sha256(sha256(data))).take(CHECKSUM_LEN as int)
}

/// What a random string can be: the Base58 text of 32 bytes.
pub open spec fn is_random_string(text: Seq<char>) -> bool {
    exists|bytes: Seq<u8>|
        bytes.len() == RANDOM_STRING_BYTES && text == #[trigger] base58_text(bytes)
}

/// Hexadecimal text is ASCII, two characters per byte.
pub proof fn lemma_hex_text_ascii(data: Seq<u8>)
    ensures
        hex_text(data).len() == 2 * data.len(),
        vstd::utf8::is_ascii_chars(hex_text(data)),
{
    assert forall|i: int| 0 <= i < hex_text(data).len() implies '\0' <= #[trigger] hex_text(
        data,
    )[i] <= '\u{7f}' by {
        let byte = data[i / 2] as int;
        assert(0 <= byte / 16 < 16);
        assert(0 <= byte % 16 < 16);
    }
}

/// `rand::RngCore::fill_bytes` on the thread's generator: `count` bytes of
/// which nothing else is known.
#[verifier::external_body]
pub(crate) fn random_bytes(count: usize) -> (out: Vec<u8>)
    ensures
        out@.len() == count,
{
    let mut bytes = vec![0u8; count];
    rand::thread_rng().fill_bytes(&mut bytes);
    bytes
}

/// `std::time::SystemTime::now`, as nanoseconds since the Unix epoch: zero
/// for a clock set before it.
#[verifier::external_body]
pub(crate) fn get_timestamp() -> (nanos: u64)
{
    std::time::SystemTime::now()
        .duration_since(std::time::SystemTime::UNIX_EPOCH)
        .unwrap_or_default()
        .as_nanos() as u64
}

/// Gets the checksum of `data`: hashes with SHA-256 twice and returns the
/// first eight hexadecimal digits.
pub fn get_checksum(data: &[u8]) -> (out: String)
    ensures
        out@ == checksum(data@),
        out@.len() == CHECKSUM_LEN,
        is_hex_text(out@),
        sha256(sha256(data@)).len() == crate::encoding::SHA256_LEN,
{
    let once = sha256_digest(data);
    let twice = sha256_digest(once.as_slice());
    let hex = hex_encode(twice.as_slice());
    proof {
        lemma_hex_text_ascii(twice@);
        lemma_hex_round_trip(twice@);
        assert forall|i: int| 0 <= i < CHECKSUM_LEN implies (#[trigger] hex_value(
            checksum(data@)[i],
        )) is Some by {
            assert(checksum(data@)[i] == hex_text(twice@)[i]);
        }
    }
    String::from_str(hex.as_str().substring_ascii(0, CHECKSUM_LEN))
}

/// Generates 32 random bytes and returns their Base58 text.
pub fn generate_random_string() -> (out: String)
    ensures
        is_random_string(out@),
{
    let bytes = random_bytes(RANDOM_STRING_BYTES);
    base58_encode(bytes.as_slice())
}

} // verus!
