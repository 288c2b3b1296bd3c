//! A user: a secp256k1 private key and the address that belongs to it.
//!
//! Keys and signatures are byte strings here. The curve arithmetic is done by
//! `k256`; what it returns is named, and stated as far as its documentation
//! goes.
use vstd::prelude::*;
use vstd::string::*;
use k256::ecdsa::signature::Signature;
use k256::ecdsa::signature::Signer;
use k256::ecdsa::signature::Verifier;
use crate::encoding::{
    base58_bytes, base58_decode, base58_encode, base58_text, hex_bytes, hex_decode, hex_encode,
    hex_text, hex_value, is_hex_text, ripemd160, ripemd160_digest, sha256, sha256_digest,
    BASE58_MAX_TEXT,
};
use crate::error::{LoadOrCreateUserError, UserSignError, ValidateUserSignatureError};
use crate::helpers::{checksum, get_checksum};
use crate::text::{append_bytes, same_text};

verus! {

/// The compressed SEC1 public key of a private key, if the bytes are one.
pub uninterp spec fn public_key_of(private_key: Seq<u8>) -> Option<Seq<u8>>;

/// The recoverable signature of a message under a private key, if one is
/// made.
pub uninterp spec fn signature_of(private_key: Seq<u8>, message: Seq<u8>) -> Option<Seq<u8>>;

/// Whether bytes are a recoverable signature.
pub uninterp spec fn is_signature(signature: Seq<u8>) -> bool;

/// The compressed SEC1 public key recovered from a signature and its
/// message, if there is one.
pub uninterp spec fn recovered_key(signature: Seq<u8>, message: Seq<u8>) -> Option<Seq<u8>>;

/// Whether a signature verifies for a message under a public key.
pub uninterp spec fn verifies(public_key: Seq<u8>, message: Seq<u8>, signature: Seq<u8>) -> bool;

/// Length of a private key in bytes.
pub const PRIVATE_KEY_LEN: usize = 32;

/// Length of a compressed public key in bytes.
pub const PUBLIC_KEY_LEN: usize = 33;

/// Length of a recoverable signature in bytes.
pub const SIGNATURE_LEN: usize = 65;

/// Number of bytes that an address stands for.
pub const ADDRESS_BYTES: usize = 25;

/// Largest number of characters of an address.
pub const ADDRESS_MAX_LEN: usize = 35;

/// `k256::ecdsa::Error`: that a key, a signature or a verification failed.
/// It says no more than that.
#[verifier::external_type_specification]
#[verifier::external_body]
pub struct ExSignatureError(k256::ecdsa::Error);

/// `SigningKey::from_bytes`, then `verifying_key` and `to_bytes`: the
/// compressed public key, 33 bytes, or an error where the bytes are no
/// private key.
#[verifier::external_body]
pub(crate) fn derive_public_key(private_key: &[u8]) -> (out: Result<Vec<u8>, k256::ecdsa::Error>)
    ensures
        match out {
            Ok(key) => public_key_of(private_key@) == Some(key@) && key@.len() == PUBLIC_KEY_LEN,
            Err(_) => public_key_of(private_key@) is None,
        },
{
    Ok(k256::ecdsa::SigningKey::from_bytes(private_key)?.verifying_key().to_bytes().to_vec())
}

/// `SigningKey::random` on the system's generator, then `to_bytes`: 32 bytes
/// that are a private key.
#[verifier::external_body]
pub(crate) fn random_private_key() -> (out: Vec<u8>)
    ensures
        out@.len() == PRIVATE_KEY_LEN,
        public_key_of(out@) is Some,
{
    k256::ecdsa::SigningKey::random(rand::rngs::OsRng).to_bytes().to_vec()
}

/// `Signer::try_sign` for a recoverable signature: 65 bytes. As the crate's
/// documentation shows, the signer's key is recovered from the signature and
/// the message, and the signature verifies under it.
#[verifier::external_body]
pub(crate) fn sign_recoverable(private_key: &[u8], message: &[u8]) -> (out: Result<
    Vec<u8>,
    k256::ecdsa::Error,
>)
    ensures
        match out {
            Ok(signature) => {
                &&& signature_of(private_key@, message@) == Some(signature@)
                &&& signature@.len() == SIGNATURE_LEN
                &&& is_signature(signature@)
                &&& public_key_of(private_key@) is Some
                &&& recovered_key(signature@, message@) == public_key_of(private_key@)
                &&& verifies(public_key_of(private_key@)->0, message@, signature@)
            },
            Err(_) => signature_of(private_key@, message@) is None,
        },
{
    let signature: k256::ecdsa::recoverable::Signature = k256::ecdsa::SigningKey::from_bytes(
        private_key,
    )?.try_sign(message)?;
    Ok(signature.as_ref().to_vec())
}

/// `Signature::from_bytes` for a recoverable signature: whether the bytes
/// are one.
#[verifier::external_body]
pub(crate) fn parse_signature(signature: &[u8]) -> (out: Result<(), k256::ecdsa::Error>)
    ensures
        out is Ok <==> is_signature(signature@),
{
    k256::ecdsa::recoverable::Signature::from_bytes(signature)?;
    Ok(())
}

/// `recoverable::Signature::recover_verifying_key`, then `to_bytes`: the
/// compressed public key, 33 bytes, or an error where none is recovered.
#[verifier::external_body]
pub(crate) fn recover_public_key(signature: &[u8], message: &[u8]) -> (out: Result<
    Vec<u8>,
    k256::ecdsa::Error,
>)
    ensures
        match out {
            Ok(key) => recovered_key(signature@, message@) == Some(key@) && key@.len()
                == PUBLIC_KEY_LEN,
            Err(_) => recovered_key(signature@, message@) is None,
        },
{
    let parsed = k256::ecdsa::recoverable::Signature::from_bytes(signature)?;
    Ok(parsed.recover_verifying_key(message)?.to_bytes().to_vec())
}

/// `Verifier::verify` of a recoverable signature under a public key given as
/// SEC1 bytes.
#[verifier::external_body]
pub(crate) fn verify_signature(public_key: &[u8], message: &[u8], signature: &[u8]) -> (out:
    Result<(), k256::ecdsa::Error>)
    ensures
        out is Ok <==> verifies(public_key@, message@, signature@),
{
    let parsed = k256::ecdsa::recoverable::Signature::from_bytes(signature)?;
    k256::ecdsa::VerifyingKey::from_sec1_bytes(public_key)?.verify(message, &parsed)
}

/// The bytes that are hashed into an address: the marker `0x04` and the
/// public key.
pub open spec fn marked_key(public_key: Seq<u8>) -> Seq<u8> {
    seq![4u8] + public_key
}

/// The version byte `0x00` and the RIPEMD-160 of the SHA-256 of the marked
/// key.
pub open spec fn address_payload(public_key: Seq<u8>) -> Seq<u8> {
    seq![0u8] + ripemd160(sha256(marked_key(public_key)))
}

/// The payload in hexadecimal, followed by its checksum.
pub open spec fn address_hex(public_key: Seq<u8>) -> Seq<char> {
    hex_text(address_payload(public_key)) + checksum(address_payload(public_key))
}

/// The bytes of an address: the payload, and the first four bytes of its
/// double SHA-256 digest as a checksum.
pub open spec fn address_bytes(public_key: Seq<u8>) -> Seq<u8> {
    address_payload(public_key) + sha256(sha256(address_payload(public_key))).take(4)
}

/// The address of a public key: the Base58 text of its address bytes.
pub open spec fn address_of(public_key: Seq<u8>) -> Seq<char> {
    base58_text(address_bytes(public_key))
}

/// The address of the owner of a private key.
pub open spec fn address_of_private_key(private_key: Seq<u8>) -> Seq<char>
    recommends
        public_key_of(private_key) is Some,
{
    address_of(public_key_of(private_key)->0)
}

/// What `User::validate_signature` returns: the first check that fails, in
/// the order decoding, parsing, recovery, address, verification.
pub open spec fn signature_check(signature: Seq<char>, data: Seq<char>, address: Seq<char>)
    -> Result<(), ValidateUserSignatureError> {
    let message = vstd::utf8::encode_utf8(data);
    if vstd::utf8::encode_utf8(signature).len() > BASE58_MAX_TEXT || base58_bytes(signature)
        is None {
        Err(ValidateUserSignatureError::FromBase58)
    } else {
        let bytes = base58_bytes(signature)->0;
        if !is_signature(bytes) {
            Err(ValidateUserSignatureError::Parse)
        } else if recovered_key(bytes, message) is None {
            Err(ValidateUserSignatureError::RecoverKey)
        } else {
            let key = recovered_key(bytes, message)->0;
            if address_of(key) != address {
                Err(ValidateUserSignatureError::AddressesNotEquals)
            } else if !verifies(key, message, bytes) {
                Err(ValidateUserSignatureError::Verify)
            } else {
                Ok(())
            }
        }
    }
}

/// What `User::sign` returns: the Base58 text of the signature, where one
/// is made.
pub open spec fn signed_text(private_key: Seq<u8>, data: Seq<char>) -> Result<
    Seq<char>,
    UserSignError,
> {
    match signature_of(private_key, vstd::utf8::encode_utf8(data)) {
        Some(signature) => Ok(base58_text(signature)),
        None => Err(UserSignError::Sign),
    }
}

/// A signature validates for one address at most: that of the key that is
/// recovered from it and the data.
pub proof fn lemma_one_address_validates(
    signature: Seq<char>,
    data: Seq<char>,
    first: Seq<char>,
    second: Seq<char>,
)
    requires
        signature_check(signature, data, first) is Ok,
        signature_check(signature, data, second) is Ok,
    ensures
        first == second,
{
}

/// A hexadecimal digit has the value that it was written for.
pub proof fn lemma_hex_digit_value(value: int)
    requires
        0 <= value < 16,
    ensures
        hex_value(crate::encoding::hex_digit(value)) == Some(value),
{
}

/// The text from which an address is decoded is hexadecimal, and stands for
/// the address bytes: the hexadecimal text of the payload and the checksum
/// decode to the payload and the first four bytes of its double digest.
pub proof fn lemma_address_hex(public_key: Seq<u8>)
    requires
        address_payload(public_key).len() == 21,
        sha256(sha256(address_payload(public_key))).len() == 32,
    ensures
        is_hex_text(address_hex(public_key)),
        hex_bytes(address_hex(public_key)) == address_bytes(public_key),
        address_bytes(public_key).len() == 25,
        address_bytes(public_key)[0] == 0,
{
    let payload = address_payload(public_key);
    let digest = sha256(sha256(payload));
    let text = address_hex(public_key);
    assert(checksum(payload) == hex_text(digest).take(8));
    assert forall|i: int| 0 <= i < text.len() implies (#[trigger] hex_value(text[i])) is Some by {
        if i < 42 {
            assert(text[i] == hex_text(payload)[i]);
            let byte = payload[i / 2] as int;
            lemma_hex_digit_value(byte / 16);
            lemma_hex_digit_value(byte % 16);
        } else {
            assert(text[i] == hex_text(digest)[i - 42]);
            let byte = digest[(i - 42) / 2] as int;
            lemma_hex_digit_value(byte / 16);
            lemma_hex_digit_value(byte % 16);
        }
    }
    let decoded = hex_bytes(text);
    let wanted = address_bytes(public_key);
    assert(decoded.len() == 25);
    assert forall|j: int| 0 <= j < 25 implies decoded[j] == wanted[j] by {
        if j < 21 {
            let byte = payload[j] as int;
            assert(text[2 * j] == hex_text(payload)[2 * j]);
            assert(text[2 * j + 1] == hex_text(payload)[2 * j + 1]);
            lemma_hex_digit_value(byte / 16);
            lemma_hex_digit_value(byte % 16);
            assert(wanted[j] == payload[j]);
        } else {
            let k = j - 21;
            let byte = digest[k] as int;
            assert(text[2 * j] == hex_text(digest)[2 * k]);
            assert(text[2 * j + 1] == hex_text(digest)[2 * k + 1]);
            lemma_hex_digit_value(byte / 16);
            lemma_hex_digit_value(byte % 16);
            assert(wanted[j] == digest[k]);
        }
    }
    assert(decoded =~= wanted);
    assert(wanted[0] == payload[0]);
}

/// A user: the private key, and the address derived from its public key.
pub struct User {
    address: String,
    private_key: Vec<u8>,
}

/// What a user is, as plain values.
pub struct UserView {
    pub address: Seq<char>,
    pub private_key: Seq<u8>,
}

impl View for User {
    type V = UserView;

    closed spec fn view(&self) -> UserView {
        UserView { address: self.address@, private_key: self.private_key@ }
    }
}

impl Clone for User {
    fn clone(&self) -> (out: Self)
        ensures
            out@ == self@,
    {
        User { address: self.address.clone(), private_key: self.private_key.clone() }
    }
}

impl User {
    /// The key is a private key, and the address is the one that belongs to
    /// it.
    pub open spec fn wf(&self) -> bool {
        &&& public_key_of(self@.private_key) is Some
        &&& self@.address == address_of_private_key(self@.private_key)
        &&& self@.address.len() <= ADDRESS_MAX_LEN
        &&& base58_bytes(self@.address) is Some
    }

    /// The user's address.
    pub fn address(&self) -> (out: &str)
        ensures
            out@ == self@.address,
    {
        self.address.as_str()
    }

    /// The user's private key, as it is stored.
    pub fn private_key(&self) -> (out: &[u8])
        ensures
            out@ == self@.private_key,
    {
        self.private_key.as_slice()
    }

    /// The user who owns `private_key`, if the bytes are a private key.
    pub fn from_bytes(private_key: Vec<u8>) -> (out: Result<User, LoadOrCreateUserError>)
        ensures
            match out {
                Ok(user) => user.wf() && user@.private_key == private_key@,
                Err(e) => e == LoadOrCreateUserError::FromBytes && public_key_of(private_key@)
                    is None,
            },
    {
        match derive_public_key(private_key.as_slice()) {
            Ok(public_key) => {
                let address = User::convert_public_key_to_address(public_key.as_slice());
                Ok(User { address, private_key })
            },
            Err(_) => Err(LoadOrCreateUserError::FromBytes),
        }
    }

    /// A user with a fresh random private key.
    pub fn generate() -> (out: User)
        ensures
            out.wf(),
    {
        let private_key = random_private_key();
        match derive_public_key(private_key.as_slice()) {
            Ok(public_key) => {
                let address = User::convert_public_key_to_address(public_key.as_slice());
                User { address, private_key }
            },
            Err(_) => vstd::pervasive::unreached(),
        }
    }

    /// Validates a signature, having only the signature, the data and the
    /// address of the one who is said to have signed.
    ///
    /// `signature` is a Base58 text as `sign` gives it.
    pub fn validate_signature(signature: &str, data: &str, address: &str) -> (out: Result<
        (),
        ValidateUserSignatureError,
    >)
        ensures
            out == signature_check(signature@, data@, address@),
    {
        if signature.as_bytes().len() > BASE58_MAX_TEXT {
            return Err(ValidateUserSignatureError::FromBase58);
        }
        let bytes = match base58_decode(signature) {
            Ok(bytes) => bytes,
            Err(_) => {
                return Err(ValidateUserSignatureError::FromBase58);
            },
        };
        if parse_signature(bytes.as_slice()).is_err() {
            return Err(ValidateUserSignatureError::Parse);
        }
        let key = match recover_public_key(bytes.as_slice(), data.as_bytes()) {
            Ok(key) => key,
            Err(_) => {
                return Err(ValidateUserSignatureError::RecoverKey);
            },
        };
        let signer = User::convert_public_key_to_address(key.as_slice());
        if !same_text(signer.as_str(), address) {
            return Err(ValidateUserSignatureError::AddressesNotEquals);
        }
        if verify_signature(key.as_slice(), data.as_bytes(), bytes.as_slice()).is_err() {
            return Err(ValidateUserSignatureError::Verify);
        }
        Ok(())
    }

    /// Signs the data with the private key and returns the signature as a
    /// Base58 text.
    pub fn sign(&self, data: &str) -> (out: Result<String, UserSignError>)
        ensures
            match out {
                Ok(text) => signed_text(self@.private_key, data@) == Ok::<Seq<char>, UserSignError>(
                    text@,
                ),
                Err(e) => signed_text(self@.private_key, data@) == Err::<Seq<char>, UserSignError>(
                    e,
                ),
            },
            out matches Ok(text) ==> (self.wf() ==> signature_check(
                text@,
                data@,
                self@.address,
            ) is Ok),
    {
        match sign_recoverable(self.private_key.as_slice(), data.as_bytes()) {
            Ok(signature) => {
                let text = base58_encode(signature.as_slice());
                proof {
                    vstd::utf8::is_ascii_chars_encode_utf8(text@);
                }
                Ok(text)
            },
            Err(_) => Err(UserSignError::Sign),
        }
    }

    /// Converts a public key into an address: SHA-256 and RIPEMD-160 of the
    /// marked key, a version byte in front, a checksum behind, in Base58.
    pub fn convert_public_key_to_address(public_key: &[u8]) -> (out: String)
        ensures
            out@ == address_of(public_key@),
            base58_bytes(out@) == Some(address_bytes(public_key@)),
            address_bytes(public_key@).len() == ADDRESS_BYTES,
            address_bytes(public_key@)[0] == 0,
            out@.len() <= ADDRESS_MAX_LEN,
            vstd::utf8::is_ascii_chars(out@),
    {
        let mut marked: Vec<u8> = Vec::new();
        marked.push(4u8);
        append_bytes(&mut marked, public_key);
        assert(marked@ == marked_key(public_key@));
        let sha256_hash = sha256_digest(marked.as_slice());
        let ripemd160_hash = ripemd160_digest(sha256_hash.as_slice());
        let mut payload: Vec<u8> = Vec::new();
        payload.push(0u8);
        append_bytes(&mut payload, ripemd160_hash.as_slice());
        assert(payload@ == address_payload(public_key@));
        let checksum = get_checksum(payload.as_slice());
        let mut hex = hex_encode(payload.as_slice());
        hex.append(checksum.as_str());
        proof {
            lemma_address_hex(public_key@);
        }
        match hex_decode(hex.as_str()) {
            Ok(bytes) => base58_encode(bytes.as_slice()),
            Err(_) => vstd::pervasive::unreached(),
        }
    }
}

} // verus!
