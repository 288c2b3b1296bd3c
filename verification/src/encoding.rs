//! Digests and text encodings of byte strings.
//!
//! The digests and the Base58 alphabet arithmetic are computed by the crates
//! `sha2`, `ripemd160`, `base58` and `hex`. Their results are modelled here:
//! the digests and Base58 by named functions, hexadecimal text by a
//! definition.
use vstd::prelude::*;
use sha2::Digest;
use base58::ToBase58;
use base58::FromBase58;

verus! {

/// The SHA-256 digest of a byte string.
pub uninterp spec fn sha256(data: Seq<u8>) -> Seq<u8>;

/// The RIPEMD-160 digest of a byte string.
pub uninterp spec fn ripemd160(data: Seq<u8>) -> Seq<u8>;

/// The Base58 text of a byte string.
pub uninterp spec fn base58_text(data: Seq<u8>) -> Seq<char>;

/// The byte string that a Base58 text stands for, if it is one.
pub uninterp spec fn base58_bytes(text: Seq<char>) -> Option<Seq<u8>>;

/// Length of a SHA-256 digest in bytes.
pub const SHA256_LEN: usize = 32;

/// Length of a RIPEMD-160 digest in bytes.
pub const RIPEMD160_LEN: usize = 20;

/// Longest byte string that is handed to the Base58 encoder.
pub const BASE58_MAX_BYTES: usize = 128;

/// Longest text that is handed to the Base58 decoder.
pub const BASE58_MAX_TEXT: usize = 132;

/// The lowercase hexadecimal digit of a value below sixteen.
pub open spec fn hex_digit(value: int) -> char {
    seq!['0', '1', '2', '3', '4', '5', '6', '7', '8', '9', 'a', 'b', 'c', 'd', 'e', 'f'][value]
}

/// Lowercase hexadecimal text: two digits per byte, high nibble first.
pub open spec fn hex_text(data: Seq<u8>) -> Seq<char> {
    Seq::new(
        2 * data.len(),
        |i: int|
            if i % 2 == 0 {
                hex_digit(data[i / 2] as int / 16)
            } else {
                hex_digit(data[i / 2] as int % 16)
            },
    )
}

/// The value of a hexadecimal digit of either case.
pub open spec fn hex_value(c: char) -> Option<int> {
    if '0' <= c && c <= '9' {
        Some(c as int - '0' as int)
    } else if 'a' <= c && c <= 'f' {
        Some(c as int - 'a' as int + 10)
    } else if 'A' <= c && c <= 'F' {
        Some(c as int - 'A' as int + 10)
    } else {
        None
    }
}

/// Whether a text is an even number of hexadecimal digits.
pub open spec fn is_hex_text(text: Seq<char>) -> bool {
    &&& text.len() % 2 == 0
    &&& forall|i: int| 0 <= i < text.len() ==> (#[trigger] hex_value(text[i])) is Some
}

/// The bytes that a hexadecimal text stands for.
pub open spec fn hex_bytes(text: Seq<char>) -> Seq<u8>
    recommends
        is_hex_text(text),
{
    Seq::new(
        text.len() / 2,
        |i: int| (hex_value(text[2 * i])->0 * 16 + hex_value(text[2 * i + 1])->0) as u8,
    )
}

/// Hexadecimal text stands for the bytes that it was written for.
pub proof fn lemma_hex_round_trip(data: Seq<u8>)
    ensures
        is_hex_text(hex_text(data)),
        hex_bytes(hex_text(data)) == data,
{
    let text = hex_text(data);
    assert forall|i: int| 0 <= i < text.len() implies (#[trigger] hex_value(text[i])) is Some by {
        let byte = data[i / 2] as int;
        assert(0 <= byte / 16 < 16);
        assert(0 <= byte % 16 < 16);
    }
    assert forall|j: int| 0 <= j < data.len() implies hex_bytes(text)[j] == data[j] by {
        let byte = data[j] as int;
        assert(0 <= byte / 16 < 16);
        assert(0 <= byte % 16 < 16);
        assert(text[2 * j] == hex_digit(byte / 16));
        assert(text[2 * j + 1] == hex_digit(byte % 16));
        assert(hex_value(hex_digit(byte / 16)) == Some(byte / 16));
        assert(hex_value(hex_digit(byte % 16)) == Some(byte % 16));
    }
    assert(hex_bytes(text) =~= data);
}

/// `hex::FromHexError`: why a text is no hexadecimal. Only that there is
/// an error is used.
#[verifier::external_type_specification]
#[verifier::external_body]
pub struct ExFromHexError(hex::FromHexError);

/// `base58::FromBase58Error`: why a text is no Base58. Only that there is
/// an error is used.
#[verifier::external_type_specification]
#[verifier::external_body]
pub struct ExFromBase58Error(base58::FromBase58Error);

/// `sha2::Sha256::digest`: the SHA-256 digest, which is 32 bytes long.
#[verifier::external_body]
pub(crate) fn sha256_digest(data: &[u8]) -> (out: Vec<u8>)
    ensures
        out@ == sha256(data@),
        out@.len() == SHA256_LEN,
{
    sha2::Sha256::digest(data).to_vec()
}

/// `ripemd160::Ripemd160::digest`: the RIPEMD-160 digest, which is 20 bytes
/// long.
#[verifier::external_body]
pub(crate) fn ripemd160_digest(data: &[u8]) -> (out: Vec<u8>)
    ensures
        out@ == ripemd160(data@),
        out@.len() == RIPEMD160_LEN,
{
    ripemd160::Ripemd160::digest(data).to_vec()
}

/// `hex::encode`: each byte becomes two lowercase hexadecimal digits.
#[verifier::external_body]
pub(crate) fn hex_encode(data: &[u8]) -> (text: String)
    ensures
        text@ == hex_text(data@),
{
    hex::encode(data)
}

/// `hex::decode`: succeeds exactly on an even number of hexadecimal digits of
/// either case, and then gives one byte per pair of digits.
#[verifier::external_body]
pub(crate) fn hex_decode(text: &str) -> (out: Result<Vec<u8>, hex::FromHexError>)
    ensures
        out is Ok <==> is_hex_text(text@),
        out matches Ok(bytes) ==> bytes@ == hex_bytes(text@),
{
    hex::decode(text)
}

/// `base58::ToBase58::to_base58` on a byte string of at most 128 bytes, the
/// range for which the encoder is written. The text is made of the
/// alphabet's ASCII characters, at most one for each leading zero byte and
/// as many as the encoder's buffer holds for the rest. The decoder gives the
/// bytes back.
#[verifier::external_body]
pub(crate) fn base58_encode(data: &[u8]) -> (text: String)
    requires
        data@.len() <= BASE58_MAX_BYTES,
    ensures
        text@ == base58_text(data@),
        text@.len() <= data@.len() * 138 / 100 + 1,
        vstd::utf8::is_ascii_chars(text@),
        base58_bytes(text@) == Some(data@),
{
    data.to_base58()
}

/// `base58::FromBase58::from_base58` on a text of at most 132 bytes. On a
/// longer text the decoder's buffer arithmetic can leave its range.
#[verifier::external_body]
pub(crate) fn base58_decode(text: &str) -> (out: Result<Vec<u8>, base58::FromBase58Error>)
    requires
        vstd::utf8::encode_utf8(text@).len() <= BASE58_MAX_TEXT,
    ensures
        match out {
            Ok(bytes) => base58_bytes(text@) == Some(bytes@),
            Err(_) => base58_bytes(text@) is None,
        },
{
    text.from_base58()
}

} // verus!
