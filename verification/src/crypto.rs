//! The cryptographic primitives of the pairing protocol and of encrypted connections.
//!
//! A curve point is held as its canonical compressed encoding of 32 bytes.

use aes_gcm::aead::{Aead, Payload};
use aes_gcm::{Aes128Gcm, KeyInit, Nonce};
use curve25519_dalek::constants::ED25519_BASEPOINT_POINT;
use curve25519_dalek::edwards::{CompressedEdwardsY, EdwardsPoint};
use curve25519_dalek::scalar::Scalar;
use curve25519_dalek::traits::Identity;
use hkdf::Hkdf;
use rcgen::{CertificateParams, KeyPair, PKCS_RSA_SHA256};
use sha2::{Digest, Sha256, Sha512};
use subtle::{Choice, ConditionallySelectable};
use vstd::prelude::*;
use zeroize::Zeroizing;

verus! {

/// The error of the authenticated cipher; it carries nothing.
#[verifier::external_type_specification]
#[verifier::external_body]
pub struct ExCipherError(aes_gcm::Error);

/// A buffer for secret bytes, kept in `zeroize::Zeroizing`, which overwrites
/// them when the buffer is dropped.
#[verifier::external_body]
pub struct SecretBytes {
    buffer: Zeroizing<Vec<u8>>,
}

/// The bytes that a secret buffer holds.
pub uninterp spec fn secret(buffer: SecretBytes) -> Seq<u8>;

/// `Zeroizing::new` moves the bytes into a buffer that erases itself.
#[verifier::external_body]
pub(crate) fn protect(bytes: Vec<u8>) -> (buffer: SecretBytes)
    ensures
        secret(buffer) == bytes@,
{
    SecretBytes { buffer: Zeroizing::new(bytes) }
}

/// `Zeroizing::deref` lends the bytes of a secret buffer.
#[verifier::external_body]
pub(crate) fn expose(buffer: &SecretBytes) -> (bytes: &[u8])
    ensures
        bytes@ == secret(*buffer),
{
    buffer.buffer.as_slice()
}

/// The number that a byte string holds, least significant byte first.
pub open spec fn le_value(bytes: Seq<u8>) -> nat
    decreases bytes.len(),
{
    if bytes.len() == 0 {
        0
    } else {
        le_value(bytes.drop_last()) + bytes.last() as nat * power256((bytes.len() - 1) as nat)
    }
}

/// The powers of 256.
pub open spec fn power256(n: nat) -> nat
    decreases n,
{
    if n == 0 {
        1
    } else {
        256 * power256((n - 1) as nat)
    }
}

/// The order of the prime-order subgroup of the curve.
#[verifier::opaque]
pub open spec fn group_order() -> nat {
    7237005577332262213973186563042994240857116359379907606001950938285454250989nat
}

/// `Scalar::from_bytes_mod_order_wide` reduces a number of 512 bits modulo the
/// group order; `Scalar::to_bytes` gives the 32 bytes of the remainder.
#[verifier::external_body]
pub(crate) fn reduce_wide(wide: &[u8; 64]) -> (reduced: [u8; 32])
    ensures
        le_value(reduced@) == le_value(wide@) % group_order(),
{
    Scalar::from_bytes_mod_order_wide(wide).to_bytes()
}

/// What `CompressedEdwardsY::decompress` makes of an encoding: the canonical
/// encoding of the point, or nothing where no point has that encoding.
pub uninterp spec fn decompressed(encoding: Seq<u8>) -> Option<Seq<u8>>;

/// What `EdwardsPoint` addition makes of two points.
pub uninterp spec fn point_sum(left: Seq<u8>, right: Seq<u8>) -> Seq<u8>;

/// What `EdwardsPoint` subtraction makes of two points.
pub uninterp spec fn point_difference(left: Seq<u8>, right: Seq<u8>) -> Seq<u8>;

/// Whether a byte string is the canonical encoding of a point.
pub open spec fn is_point(encoding: Seq<u8>) -> bool {
    decompressed(encoding) == Some(encoding)
}

/// `CompressedEdwardsY::decompress` finds the point of an encoding, which is
/// given back as its canonical encoding.
#[verifier::external_body]
pub(crate) fn decompress(encoding: &[u8; 32]) -> (point: Option<[u8; 32]>)
    ensures
        point is Some == decompressed(encoding@) is Some,
        point is Some ==> decompressed(encoding@) == Some(point->0@) && is_point(point->0@),
{
    CompressedEdwardsY(*encoding).decompress().map(|point| point.compress().to_bytes())
}

/// `EdwardsPoint::add` on the points of two canonical encodings.
#[verifier::external_body]
pub(crate) fn add_points(left: &[u8; 32], right: &[u8; 32]) -> (sum: [u8; 32])
    requires
        is_point(left@),
        is_point(right@),
    ensures
        sum@ == point_sum(left@, right@),
        is_point(sum@),
{
    let left = CompressedEdwardsY(*left).decompress().unwrap();
    let right = CompressedEdwardsY(*right).decompress().unwrap();
    (left + right).compress().to_bytes()
}

/// `EdwardsPoint::sub` on the points of two canonical encodings.
#[verifier::external_body]
pub(crate) fn subtract_points(left: &[u8; 32], right: &[u8; 32]) -> (difference: [u8; 32])
    requires
        is_point(left@),
        is_point(right@),
    ensures
        difference@ == point_difference(left@, right@),
        is_point(difference@),
{
    let left = CompressedEdwardsY(*left).decompress().unwrap();
    let right = CompressedEdwardsY(*right).decompress().unwrap();
    (left - right).compress().to_bytes()
}

/// The encoding of the neutral point: a one and zeros.
pub open spec fn identity_encoding() -> Seq<u8> {
    Seq::new(32, |i: int| if i == 0 { 1u8 } else { 0u8 })
}

/// `EdwardsPoint::identity` is the neutral point, the one with coordinates 0 and 1.
#[verifier::external_body]
pub(crate) fn identity_point() -> (point: [u8; 32])
    ensures
        point@ == identity_encoding(),
        is_point(point@),
{
    EdwardsPoint::identity().compress().to_bytes()
}

/// The encoding of the base point of the curve.
pub open spec fn basepoint_encoding() -> Seq<u8> {
    Seq::new(32, |i: int| if i == 0 { 0x58u8 } else { 0x66u8 })
}

/// `ED25519_BASEPOINT_POINT` is the base point of the curve.
#[verifier::external_body]
pub(crate) fn basepoint() -> (point: [u8; 32])
    ensures
        point@ == basepoint_encoding(),
        is_point(point@),
{
    ED25519_BASEPOINT_POINT.compress().to_bytes()
}

/// `EdwardsPoint::conditional_select` takes the second point where the choice is
/// one, the first where it is zero, in constant time.
#[verifier::external_body]
pub(crate) fn select_point(zero: &[u8; 32], one: &[u8; 32], choice: u8) -> (selected: [u8; 32])
    requires
        is_point(zero@),
        is_point(one@),
        choice <= 1,
    ensures
        selected@ == if choice == 1 {
            one@
        } else {
            zero@
        },
{
    let zero = CompressedEdwardsY(*zero).decompress().unwrap();
    let one = CompressedEdwardsY(*one).decompress().unwrap();
    EdwardsPoint::conditional_select(&zero, &one, Choice::from(choice)).compress().to_bytes()
}

/// `u8::conditional_select` takes the second byte where the choice is one, the
/// first where it is zero, in constant time.
#[verifier::external_body]
pub(crate) fn select_byte(zero: u8, one: u8, choice: u8) -> (selected: u8)
    requires
        choice <= 1,
    ensures
        selected == if choice == 1 {
            one
        } else {
            zero
        },
{
    u8::conditional_select(&zero, &one, Choice::from(choice))
}

/// The SHA-512 digest of a byte string.
pub uninterp spec fn sha512(data: Seq<u8>) -> Seq<u8>;

/// `Sha512::digest` hashes a byte string.
#[verifier::external_body]
pub(crate) fn digest(data: &[u8]) -> (hash: [u8; 64])
    ensures
        hash@ == sha512(data@),
{
    Sha512::digest(data).into()
}

/// The first 16 bytes of HKDF-SHA-256 output, without a salt.
pub uninterp spec fn hkdf_sha256(material: Seq<u8>, info: Seq<u8>) -> Seq<u8>;

/// The error of a key derivation that asks for too many bytes.
#[verifier::external_type_specification]
#[verifier::external_body]
pub struct ExInvalidLength(hkdf::InvalidLength);

/// `Hkdf::expand` on `Hkdf::new` without a salt derives a key of 16 bytes. It
/// fails only beyond 255 blocks of output.
#[verifier::external_body]
pub(crate) fn derive_key(material: &[u8], info: &[u8]) -> (key: Result<
    [u8; 16],
    hkdf::InvalidLength,
>)
    ensures
        key is Ok,
        key->Ok_0@ == hkdf_sha256(material@, info@),
{
    let mut key = [0_u8; 16];
    Hkdf::<Sha256>::new(None, material).expand(info, &mut key)?;
    Ok(key)
}

/// What AES-128-GCM encryption gives: the ciphertext and its tag.
pub uninterp spec fn sealed(key: Seq<u8>, nonce: Seq<u8>, plaintext: Seq<u8>) -> Option<Seq<u8>>;

/// What AES-128-GCM decryption gives, where the tag is genuine.
pub uninterp spec fn opened(key: Seq<u8>, nonce: Seq<u8>, ciphertext: Seq<u8>) -> Option<Seq<u8>>;

/// `Aes128Gcm::encrypt` without associated data. It fails only beyond 2^36
/// bytes; what it returns has 16 bytes more than the plaintext, and decrypts
/// under the same key and nonce to the plaintext.
#[verifier::external_body]
pub(crate) fn seal(key: &[u8; 16], nonce: &[u8; 12], plaintext: &[u8]) -> (ciphertext: Result<
    Vec<u8>,
    aes_gcm::Error,
>)
    ensures
        ciphertext is Ok == sealed(key@, nonce@, plaintext@) is Some,
        ciphertext is Ok ==> sealed(key@, nonce@, plaintext@) == Some(ciphertext->Ok_0@),
        plaintext@.len() <= 0x10_0000_0000 ==> ciphertext is Ok,
        ciphertext is Ok ==> ciphertext->Ok_0@.len() == plaintext@.len() + 16,
        ciphertext is Ok ==> opened(key@, nonce@, ciphertext->Ok_0@) == Some(plaintext@),
{
    Aes128Gcm::new(key.into()).encrypt(Nonce::from_slice(nonce), Payload::from(plaintext))
}

/// `Aes128Gcm::decrypt` without associated data. What it returns has 16 bytes
/// less than the ciphertext.
#[verifier::external_body]
pub(crate) fn open(key: &[u8; 16], nonce: &[u8; 12], ciphertext: &[u8]) -> (plaintext: Result<
    Vec<u8>,
    aes_gcm::Error,
>)
    ensures
        plaintext is Ok == opened(key@, nonce@, ciphertext@) is Some,
        plaintext is Ok ==> opened(key@, nonce@, ciphertext@) == Some(plaintext->Ok_0@),
        plaintext is Ok ==> plaintext->Ok_0@.len() + 16 == ciphertext@.len(),
{
    Aes128Gcm::new(key.into()).decrypt(Nonce::from_slice(nonce), Payload::from(ciphertext))
}

/// What is made of an RSA key in PKCS #8 PEM form: a certificate that the key signs
/// for itself and the key, both in DER form, or the message of the failure.
pub uninterp spec fn certified(pem: Seq<char>) -> Result<(Seq<u8>, Seq<u8>), Seq<char>>;

/// `KeyPair::from_pkcs8_pem_and_sign_algo` reads the key, `self_signed` on the
/// default `CertificateParams` makes the certificate, and `KeyPair::serialize_der`
/// gives the key back. The dates of the certificate are fixed, its number is a hash
/// of the public key, and such signatures draw nothing, so that the text of the key
/// decides the result.
#[verifier::external_body]
pub(crate) fn certify(pem: &str) -> (made: Result<(Vec<u8>, Vec<u8>), String>)
    ensures
        match made {
            Ok(pair) => certified(pem@) == Ok::<_, Seq<char>>((pair.0@, pair.1@)),
            Err(message) => certified(pem@) == Err::<(Seq<u8>, Seq<u8>), _>(message@),
        },
{
    let key = KeyPair::from_pkcs8_pem_and_sign_algo(pem, &PKCS_RSA_SHA256)
        .map_err(|error| error.to_string())?;
    let certificate =
        CertificateParams::default().self_signed(&key).map_err(|error| error.to_string())?;
    Ok((certificate.der().to_vec(), key.serialize_der()))
}

/// `rand::random` draws 64 bytes. Nothing is known of them.
#[verifier::external_body]
pub(crate) fn random_wide() -> [u8; 64] {
    rand::random()
}

/// `rand::random` draws a 32-bit number. Nothing is known of it.
#[verifier::external_body]
pub(crate) fn random_id() -> u32 {
    rand::random()
}

} // verus!
