//! Pairing with a device over wireless debugging.
//!
//! The client proves that it knows the pairing code with a key exchange, and
//! then trades its public key for the identifier of the device, both sealed
//! with the exchanged key.

use crate::bytes::{
    be32, be32_value, copy_bytes, le64, lemma_be32, lemma_le64, push_be32, push_bytes, push_le64,
    read_be32,
};
use crate::crypto::{
    decompressed, derive_key, expose, hkdf_sha256, open, opened, protect, seal, sealed, secret,
    sha512, SecretBytes,
};
use crate::error::{failed, failure, AdbResult, RustADBError};
use crate::spake::{exchange, shared_point, transcript, Exchange, SpakeState, SPAKE_M, SPAKE_N};
use crate::text::{append, chars_of, decode, utf8_complaint};
use vstd::prelude::*;
use vstd::utf8::*;

verus! {

/// The label under which the TLS session exports key material.
pub const TLS_EXPORTER_LABEL: [u8; 10] = [
    0x61, 0x64, 0x62, 0x2d, 0x6c, 0x61, 0x62, 0x65, 0x6c, 0x00,
];

/// The purpose of the derived key.
pub const AES_INFO: [u8; 32] = [
    0x61, 0x64, 0x62, 0x20, 0x70, 0x61, 0x69, 0x72, 0x69, 0x6e, 0x67, 0x5f, 0x61, 0x75, 0x74, 0x68,
    0x20, 0x61, 0x65, 0x73, 0x2d, 0x31, 0x32, 0x38, 0x2d, 0x67, 0x63, 0x6d, 0x20, 0x6b, 0x65, 0x79,
];

/// The size of the information that the two sides trade.
pub const PEER_INFO_SIZE: usize = 8192;

/// The size of the largest packet payload.
pub const MAX_PAIRING_PAYLOAD: usize = 16384;

/// The kind of a packet with a message of the key exchange.
pub const SPAKE_PACKET: u8 = 0;

/// The kind of a packet with sealed information.
pub const INFO_PACKET: u8 = 1;

/// Whether a text is a pairing code: six ASCII digits.
pub open spec fn is_pairing_code(code: Seq<char>) -> bool {
    code.len() == 6 && forall|i: int| 0 <= i < 6 ==> '0' <= #[trigger] code[i] <= '9'
}

/// Refuses what is not a pairing code.
pub fn check_pairing_code(code: &str) -> (checked: AdbResult<()>)
    ensures
        if is_pairing_code(code@) {
            checked is Ok
        } else {
            failed(checked, "pairing code must contain exactly six digits"@)
        },
{
    let chars: Vec<char> = chars_of(code);
    let mut valid = chars.len() == 6;
    let mut i: usize = 0;
    while i < chars.len()
        invariant
            i <= chars@.len(),
            valid == (chars@.len() == 6 && forall|j: int|
                0 <= j < i ==> '0' <= #[trigger] chars@[j] <= '9'),
        decreases chars@.len() - i,
    {
        let c = chars[i];
        if c < '0' || c > '9' {
            valid = false;
        }
        i = i + 1;
    }
    if valid {
        Ok(())
    } else {
        Err(failure("pairing code must contain exactly six digits"))
    }
}

/// The password of the exchange: the code and the exported key material.
pub fn pairing_password(code: &str, exporter: &[u8; 64]) -> (password: SecretBytes)
    ensures
        secret(password) == encode_utf8(code@) + exporter@,
{
    let mut bytes: Vec<u8> = Vec::new();
    push_bytes(&mut bytes, code.as_bytes());
    push_bytes(&mut bytes, exporter);
    assert(bytes@ =~= encode_utf8(code@) + exporter@);
    protect(bytes)
}

/// The bytes of a packet: a version, the kind, the length and the payload.
pub open spec fn packet(kind: u8, payload: Seq<u8>) -> Seq<u8> {
    seq![1u8, kind] + be32(payload.len() as u32) + payload
}

/// Frames a payload.
pub fn write_packet(kind: u8, payload: &[u8]) -> (bytes: AdbResult<Vec<u8>>)
    ensures
        if 0 < payload@.len() <= MAX_PAIRING_PAYLOAD {
            bytes is Ok && bytes->Ok_0@ == packet(kind, payload@)
        } else {
            failed(bytes, "invalid pairing payload length"@)
        },
{
    if payload.len() == 0 || payload.len() > MAX_PAIRING_PAYLOAD {
        return Err(failure("invalid pairing payload length"));
    }
    let mut bytes: Vec<u8> = Vec::new();
    bytes.push(1);
    bytes.push(kind);
    push_be32(&mut bytes, payload.len() as u32);
    push_bytes(&mut bytes, payload);
    assert(bytes@ =~= packet(kind, payload@));
    Ok(bytes)
}

/// The length of the payload that a header of six bytes announces.
pub fn packet_length(header: &[u8], expected_kind: u8) -> (length: AdbResult<usize>)
    requires
        header@.len() >= 6,
    ensures
        if header@[0] != 1 || header@[1] != expected_kind {
            failed(length, "unexpected wireless pairing packet"@)
        } else if 0 < be32_value(header@.skip(2)) <= MAX_PAIRING_PAYLOAD {
            length is Ok && length->Ok_0 == be32_value(header@.skip(2))
        } else {
            failed(length, "invalid pairing payload length"@)
        },
{
    if header[0] != 1 || header[1] != expected_kind {
        return Err(failure("unexpected wireless pairing packet"));
    }
    let length: u32 = read_be32(header, 2);
    if length == 0 || length > MAX_PAIRING_PAYLOAD as u32 {
        return Err(failure("invalid pairing payload length"));
    }
    Ok(length as usize)
}

/// The end of the stream inside a packet.
pub open spec fn cut_short<T>(result: AdbResult<T>) -> bool {
    result is Err && result->Err_0@ == RustADBError::UnexpectedEof(
        "failed to fill whole buffer"@,
    )
}

/// The end of the stream inside a packet.
fn short_read() -> (error: RustADBError<String>)
    ensures
        error@ == RustADBError::UnexpectedEof("failed to fill whole buffer"@),
{
    let mut text = String::new();
    append(&mut text, "failed to fill whole buffer");
    assert(text@ =~= "failed to fill whole buffer"@);
    RustADBError::UnexpectedEof(text)
}

/// Reads the payload of the packet at the front of the bytes of a stream.
pub fn read_packet(stream: &[u8], expected_kind: u8) -> (payload: AdbResult<Vec<u8>>)
    ensures
        if stream@.len() < 6 {
            cut_short(payload)
        } else if stream@[0] != 1 || stream@[1] != expected_kind {
            failed(payload, "unexpected wireless pairing packet"@)
        } else {
            let length = be32_value(stream@.skip(2));
            if length == 0 || length > MAX_PAIRING_PAYLOAD {
                failed(payload, "invalid pairing payload length"@)
            } else if stream@.len() < 6 + length {
                cut_short(payload)
            } else {
                payload is Ok && payload->Ok_0@ == stream@.subrange(6, 6 + length)
            }
        },
{
    if stream.len() < 6 {
        return Err(short_read());
    }
    match packet_length(stream, expected_kind) {
        Ok(length) => {
            if stream.len() - 6 < length {
                return Err(short_read());
            }
            Ok(copy_bytes(stream, 6, 6 + length))
        },
        Err(error) => Err(error),
    }
}

/// What follows a packet in the stream does not matter, and reading a packet
/// gives back the payload that was framed.
pub proof fn packets_round_trip(kind: u8, payload: Seq<u8>, rest: Seq<u8>)
    requires
        0 < payload.len() <= MAX_PAIRING_PAYLOAD,
    ensures
        ({
            let stream = packet(kind, payload) + rest;
            &&& stream.len() >= 6 + payload.len()
            &&& stream[0] == 1
            &&& stream[1] == kind
            &&& be32_value(stream.skip(2)) == payload.len()
            &&& stream.subrange(6, (6 + payload.len()) as int) == payload
        }),
{
    let stream = packet(kind, payload) + rest;
    lemma_be32(payload.len() as u32);
    assert(be32_value(stream.skip(2)) == be32_value(be32(payload.len() as u32)));
    assert(stream.subrange(6, (6 + payload.len()) as int) =~= payload);
}

/// The nonce of a message: its number and four zeros.
pub open spec fn nonce_of(sequence: u64) -> Seq<u8> {
    le64(sequence) + seq![0u8, 0u8, 0u8, 0u8]
}

/// Two messages never share a nonce.
pub proof fn nonces_differ(left: u64, right: u64)
    requires
        left != right,
    ensures
        nonce_of(left) != nonce_of(right),
{
    lemma_le64(left);
    lemma_le64(right);
    assert(nonce_of(left).take(8) =~= le64(left));
    assert(nonce_of(right).take(8) =~= le64(right));
}

/// Builds the nonce of a message.
fn nonce(sequence: u64) -> (bytes: [u8; 12])
    ensures
        bytes@ == nonce_of(sequence),
{
    let mut front: Vec<u8> = Vec::new();
    push_le64(&mut front, sequence);
    let mut bytes: [u8; 12] = [0u8; 12];
    proof {
        lemma_le64(sequence);
    }
    let mut i: usize = 0;
    while i < 8
        invariant
            i <= 8,
            front@ == le64(sequence),
            front@.len() == 8,
            forall|j: int| 0 <= j < i ==> bytes@[j] == front@[j],
            forall|j: int| i <= j < 12 ==> bytes@[j] == 0,
        decreases 8 - i,
    {
        bytes[i] = front[i];
        i = i + 1;
    }
    assert(bytes@ =~= nonce_of(sequence));
    bytes
}

/// Seals and opens the messages of one pairing, each under its own nonce.
pub struct PairingCipher {
    key: [u8; 16],
    encrypt_sequence: u64,
    decrypt_sequence: u64,
}

impl PairingCipher {
    /// The key.
    pub closed spec fn key(&self) -> Seq<u8> {
        self.key@
    }

    /// The number of the next message to seal.
    pub closed spec fn encrypt_sequence(&self) -> u64 {
        self.encrypt_sequence
    }

    /// The number of the next message to open.
    pub closed spec fn decrypt_sequence(&self) -> u64 {
        self.decrypt_sequence
    }

    /// Derives the key from the material of the exchange.
    pub fn new(material: &[u8]) -> (cipher: AdbResult<PairingCipher>)
        ensures
            cipher is Ok,
            cipher->Ok_0.key() == hkdf_sha256(material@, AES_INFO@),
            cipher->Ok_0.encrypt_sequence() == 0,
            cipher->Ok_0.decrypt_sequence() == 0,
    {
        match derive_key(material, &AES_INFO) {
            Ok(key) => Ok(PairingCipher { key, encrypt_sequence: 0, decrypt_sequence: 0 }),
            Err(_) => Err(failure("cannot derive pairing cipher")),
        }
    }

    /// Seals the next message. A cipher with the same key that has opened as
    /// many messages as this one has sealed opens it to the plaintext.
    pub fn encrypt(&mut self, plaintext: &[u8]) -> (ciphertext: AdbResult<Vec<u8>>)
        ensures
            final(self).key() == old(self).key(),
            final(self).decrypt_sequence() == old(self).decrypt_sequence(),
            if old(self).encrypt_sequence() == u64::MAX {
                &&& failed(ciphertext, "pairing nonce exhausted"@)
                &&& final(self).encrypt_sequence() == old(self).encrypt_sequence()
            } else {
                let nonce = nonce_of(old(self).encrypt_sequence());
                &&& final(self).encrypt_sequence() == old(self).encrypt_sequence() + 1
                &&& match sealed(old(self).key(), nonce, plaintext@) {
                    Some(bytes) => ciphertext is Ok && ciphertext->Ok_0@ == bytes && bytes.len()
                        == plaintext@.len() + 16 && opened(old(self).key(), nonce, bytes) == Some(
                        plaintext@,
                    ),
                    None => failed(ciphertext, "cannot encrypt pairing information"@)
                        && plaintext@.len() > 0x10_0000_0000,
                }
            },
    {
        let nonce: [u8; 12] = nonce(self.encrypt_sequence);
        if self.encrypt_sequence == u64::MAX {
            return Err(failure("pairing nonce exhausted"));
        }
        self.encrypt_sequence = self.encrypt_sequence + 1;
        match seal(&self.key, &nonce, plaintext) {
            Ok(ciphertext) => Ok(ciphertext),
            Err(_) => Err(failure("cannot encrypt pairing information")),
        }
    }

    /// Opens the next message.
    pub fn decrypt(&mut self, ciphertext: &[u8]) -> (plaintext: AdbResult<Vec<u8>>)
        ensures
            final(self).key() == old(self).key(),
            final(self).encrypt_sequence() == old(self).encrypt_sequence(),
            if old(self).decrypt_sequence() == u64::MAX {
                &&& failed(plaintext, "pairing nonce exhausted"@)
                &&& final(self).decrypt_sequence() == old(self).decrypt_sequence()
            } else {
                let nonce = nonce_of(old(self).decrypt_sequence());
                &&& final(self).decrypt_sequence() == old(self).decrypt_sequence() + 1
                &&& match opened(old(self).key(), nonce, ciphertext@) {
                    Some(bytes) => plaintext is Ok && plaintext->Ok_0@ == bytes && bytes.len() + 16
                        == ciphertext@.len(),
                    None => failed(plaintext, "pairing code was rejected"@),
                }
            },
    {
        let nonce: [u8; 12] = nonce(self.decrypt_sequence);
        if self.decrypt_sequence == u64::MAX {
            return Err(failure("pairing nonce exhausted"));
        }
        self.decrypt_sequence = self.decrypt_sequence + 1;
        match open(&self.key, &nonce, ciphertext) {
            Ok(plaintext) => Ok(plaintext),
            Err(_) => Err(failure("pairing code was rejected")),
        }
    }
}

/// The information that the client sends: a zero, its public key, and zeros up
/// to the full size.
pub open spec fn client_info(public_key: Seq<u8>) -> Seq<u8> {
    Seq::new(
        PEER_INFO_SIZE as nat,
        |i: int|
            if 1 <= i <= public_key.len() {
                public_key[i - 1]
            } else {
                0u8
            },
    )
}

/// Lays the public key out for the device.
pub fn peer_info(public_key: &[u8]) -> (info: AdbResult<Vec<u8>>)
    ensures
        if public_key@.len() < PEER_INFO_SIZE {
            info is Ok && info->Ok_0@ == client_info(public_key@)
        } else {
            failed(info, "ADB public key is too large for pairing"@)
        },
{
    if public_key.len() >= PEER_INFO_SIZE {
        return Err(failure("ADB public key is too large for pairing"));
    }
    let mut info: Vec<u8> = Vec::new();
    info.push(0);
    push_bytes(&mut info, public_key);
    while info.len() < PEER_INFO_SIZE
        invariant
            public_key@.len() < PEER_INFO_SIZE,
            public_key@.len() < info@.len() <= PEER_INFO_SIZE,
            forall|j: int|
                0 <= j < info@.len() ==> #[trigger] info@[j] == client_info(public_key@)[j],
        decreases PEER_INFO_SIZE - info@.len(),
    {
        info.push(0);
    }
    assert(info@ =~= client_info(public_key@));
    Ok(info)
}

/// The first zero of a byte string, or its length.
pub open spec fn zero_at(bytes: Seq<u8>) -> nat
    decreases bytes.len(),
{
    if bytes.len() == 0 || bytes[0] == 0 {
        0
    } else {
        1 + zero_at(bytes.drop_first())
    }
}

/// The first zero comes after bytes that are not zero.
proof fn lemma_zero_at(bytes: Seq<u8>, n: int)
    requires
        0 <= n <= bytes.len(),
        forall|j: int| 0 <= j < n ==> bytes[j] != 0,
        n < bytes.len() ==> bytes[n] == 0,
    ensures
        zero_at(bytes) == n,
    decreases n,
{
    if n > 0 {
        lemma_zero_at(bytes.drop_first(), n - 1);
    }
}

/// Whether a character is a control character.
pub open spec fn is_control(c: char) -> bool {
    (c as u32) < 0x20 || 0x7f <= (c as u32) <= 0x9f
}

/// What the information of the device says of its identifier.
pub enum Identifier<T> {
    /// The device did not accept the code.
    Rejected,
    /// The identifier is not usable.
    Invalid,
    /// The identifier is not text, for this reason.
    NotText(T),
    /// The identifier.
    Known(T),
}

/// The identifier that the information of a device holds: the text up to the
/// first zero, behind a one.
pub open spec fn identifier(info: Seq<u8>) -> Identifier<Seq<char>> {
    if info.len() != PEER_INFO_SIZE || info[0] != 1 {
        Identifier::Rejected
    } else {
        let body = info.skip(1);
        let end = zero_at(body);
        let name = body.take(end as int);
        if end == body.len() {
            Identifier::Invalid
        } else if !valid_utf8(name) {
            Identifier::NotText(utf8_complaint(name))
        } else if 0 < end <= 255 && forall|i: int|
            0 <= i < decode_utf8(name).len() ==> !is_control(#[trigger] decode_utf8(name)[i]) {
            Identifier::Known(decode_utf8(name))
        } else {
            Identifier::Invalid
        }
    }
}

/// Reads the identifier out of the information of a device.
pub fn parse_device_guid(value: &[u8]) -> (guid: AdbResult<String>)
    ensures
        match identifier(value@) {
            Identifier::Rejected => failed(guid, "pairing code was rejected"@),
            Identifier::Invalid => failed(guid, "invalid Android pairing identifier"@),
            Identifier::NotText(complaint) => guid is Err && guid->Err_0@
                == RustADBError::InvalidText(complaint),
            Identifier::Known(text) => guid is Ok && guid->Ok_0@ == text,
        },
{
    if value.len() != PEER_INFO_SIZE || value[0] != 1 {
        return Err(failure("pairing code was rejected"));
    }
    let ghost body = value@.skip(1);
    let mut end: usize = 1;
    while end < value.len() && value[end] != 0
        invariant
            1 <= end <= value@.len(),
            body == value@.skip(1),
            forall|j: int| 0 <= j < end - 1 ==> body[j] != 0,
        decreases value@.len() - end,
    {
        assert(body[end - 1] == value@[end as int]);
        end = end + 1;
    }
    proof {
        lemma_zero_at(body, end - 1);
    }
    if end == value.len() {
        return Err(failure("invalid Android pairing identifier"));
    }
    let name: Vec<u8> = copy_bytes(value, 1, end);
    assert(name@ =~= body.take(end - 1));
    let guid: String = match decode(&name) {
        Ok(text) => text,
        Err(complaint) => return Err(RustADBError::InvalidText(complaint)),
    };
    let chars: Vec<char> = chars_of(&guid);
    let mut i: usize = 0;
    let mut usable = name.len() > 0 && name.len() <= 255;
    while i < chars.len()
        invariant
            i <= chars@.len(),
            usable == (0 < name@.len() <= 255 && forall|j: int|
                0 <= j < i ==> !is_control(#[trigger] chars@[j])),
        decreases chars@.len() - i,
    {
        let c = chars[i];
        if (c as u32) < 0x20 || ((c as u32) >= 0x7f && (c as u32) <= 0x9f) {
            usable = false;
        }
        i = i + 1;
    }
    if usable {
        Ok(guid)
    } else {
        Err(failure("invalid Android pairing identifier"))
    }
}

/// The first step of pairing: the state of the exchange, and the packet that
/// opens it. The random bytes of the exchange are drawn here.
pub fn begin(code: &str, exporter: &[u8; 64]) -> (begun: AdbResult<(SpakeState, Vec<u8>)>)
    ensures
        if !is_pairing_code(code@) {
            failed(begun, "pairing code must contain exactly six digits"@)
        } else {
            match decompressed(SPAKE_M@) {
                Some(mask) => begun is Ok && exists|random: Seq<u8>|
                    random.len() == 64 && begun->Ok_0.0@ == #[trigger] exchange(
                        random,
                        encode_utf8(code@) + exporter@,
                        mask,
                    ) && begun->Ok_0.1@ == packet(
                        SPAKE_PACKET,
                        exchange(random, encode_utf8(code@) + exporter@, mask).message,
                    ),
                None => failed(begun, "invalid SPAKE2 point"@),
            }
        },
{
    match check_pairing_code(code) {
        Ok(()) => {},
        Err(error) => return Err(error),
    }
    let password: SecretBytes = pairing_password(code, exporter);
    match SpakeState::start(expose(&password)) {
        Ok((state, message)) => match write_packet(SPAKE_PACKET, &message) {
            Ok(bytes) => Ok((state, bytes)),
            Err(error) => Err(error),
        },
        Err(error) => Err(error),
    }
}

/// The key that the second step of pairing derives.
pub open spec fn pairing_key(
    state: Exchange,
    message: Seq<u8>,
    peer: Seq<u8>,
    mask: Seq<u8>,
) -> Seq<u8> {
    hkdf_sha256(sha512(transcript(state, message, shared_point(state, peer, mask))), AES_INFO@)
}

/// The second step of pairing: the cipher that the message of the device gives,
/// and the packet with the sealed public key.
pub fn answer(state: SpakeState, peer_message: &[u8], public_key: &[u8]) -> (answered: AdbResult<
    (PairingCipher, Vec<u8>),
>)
    ensures
        if peer_message@.len() != 32 {
            failed(answered, "invalid SPAKE2 message length"@)
        } else {
            match (decompressed(peer_message@), decompressed(SPAKE_N@)) {
                (Some(peer), Some(mask)) => if public_key@.len() >= PEER_INFO_SIZE {
                    failed(answered, "ADB public key is too large for pairing"@)
                } else {
                    let key = pairing_key(state@, peer_message@, peer, mask);
                    &&& answered is Ok
                    &&& answered->Ok_0.0.key() == key
                    &&& answered->Ok_0.0.encrypt_sequence() == 1
                    &&& answered->Ok_0.0.decrypt_sequence() == 0
                    &&& sealed(key, nonce_of(0), client_info(public_key@)) is Some
                    &&& answered->Ok_0.1@ == packet(
                        INFO_PACKET,
                        sealed(key, nonce_of(0), client_info(public_key@))->0,
                    )
                },
                _ => failed(answered, "invalid SPAKE2 point"@),
            }
        },
{
    let material: SecretBytes = match state.finish(peer_message) {
        Ok(material) => material,
        Err(error) => return Err(error),
    };
    let mut cipher: PairingCipher = match PairingCipher::new(expose(&material)) {
        Ok(cipher) => cipher,
        Err(error) => return Err(error),
    };
    let info: Vec<u8> = match peer_info(public_key) {
        Ok(info) => info,
        Err(error) => return Err(error),
    };
    let sealed_info: Vec<u8> = match cipher.encrypt(&info) {
        Ok(sealed_info) => sealed_info,
        Err(error) => return Err(error),
    };
    match write_packet(INFO_PACKET, &sealed_info) {
        Ok(bytes) => Ok((cipher, bytes)),
        Err(error) => Err(error),
    }
}

/// The last step of pairing: the identifier in the sealed information of the
/// device.
pub fn complete(cipher: &mut PairingCipher, sealed_info: &[u8]) -> (guid: AdbResult<String>)
    ensures
        if old(cipher).decrypt_sequence() == u64::MAX {
            failed(guid, "pairing nonce exhausted"@)
        } else {
            match opened(old(cipher).key(), nonce_of(old(cipher).decrypt_sequence()), sealed_info@) {
                None => failed(guid, "pairing code was rejected"@),
                Some(info) => match identifier(info) {
                    Identifier::Rejected => failed(guid, "pairing code was rejected"@),
                    Identifier::Invalid => failed(guid, "invalid Android pairing identifier"@),
                    Identifier::NotText(complaint) => guid is Err && guid->Err_0@
                        == RustADBError::InvalidText(complaint),
                    Identifier::Known(text) => guid is Ok && guid->Ok_0@ == text,
                },
            }
        },
{
    match cipher.decrypt(sealed_info) {
        Ok(info) => parse_device_guid(&info),
        Err(error) => Err(error),
    }
}

/// The information for the device holds the whole public key: a zero, every byte of the
/// key in its order, and then nothing but zeros. So two keys of one length never give
/// the same information.
pub proof fn the_whole_key_is_sent(key: Seq<u8>, other: Seq<u8>)
    requires
        key.len() < 8192,
    ensures
        ({
            let info = client_info(key);
            &&& info.len() == 8192
            &&& info[0] == 0
            &&& info.subrange(1, 1 + key.len() as int) == key
            &&& forall|i: int| key.len() < i < 8192 ==> #[trigger] info[i] == 0
            &&& other.len() == key.len() && client_info(other) == info ==> other == key
        }),
{
    let info = client_info(key);
    assert(info.subrange(1, 1 + key.len() as int) =~= key);
    if other.len() == key.len() && client_info(other) == info {
        assert forall|i: int| 0 <= i < key.len() implies other[i] == key[i] by {
            assert(client_info(other)[i + 1] == other[i]);
            assert(info[i + 1] == key[i]);
        }
        assert(other =~= key);
    }
}

/// A pairing code is six of the ten digits, and nothing else is one.
pub proof fn codes_are_six_digits(code: Seq<char>)
    ensures
        is_pairing_code(code) <==> code.len() == 6 && forall|i: int|
            0 <= i < code.len() ==> "0123456789"@.contains(#[trigger] code[i]),
{
    reveal_strlit("0123456789");
    let digits = "0123456789"@;
    assert forall|c: char| '0' <= c <= '9' <==> #[trigger] digits.contains(c) by {
        if '0' <= c <= '9' {
            let i = c as int - '0' as int;
            assert(digits[i] == c);
        }
    }
    if is_pairing_code(code) {
        assert forall|i: int| 0 <= i < code.len() implies "0123456789"@.contains(
            #[trigger] code[i],
        ) by {
            assert('0' <= code[i] <= '9');
        }
    }
    if code.len() == 6 && forall|i: int|
        0 <= i < code.len() ==> "0123456789"@.contains(#[trigger] code[i]) {
        assert forall|i: int| 0 <= i < 6 implies '0' <= #[trigger] code[i] <= '9' by {
            assert(digits.contains(code[i]));
        }
    }
}

/// The identifier of a device is what stands between the first byte of its information
/// and the next zero, whatever follows that.
pub proof fn identifiers_are_read_back(name: Seq<char>, rest: Seq<u8>)
    requires
        0 < encode_utf8(name).len() <= 255,
        1 + encode_utf8(name).len() + 1 + rest.len() == 8192,
        forall|i: int| 0 <= i < encode_utf8(name).len() ==> #[trigger] encode_utf8(name)[i] != 0,
        forall|i: int|
            0 <= i < name.len() ==> 0x20 <= (#[trigger] name[i]) as u32 && !(0x7f <= name[i] as u32
                <= 0x9f),
    ensures
        identifier(seq![1u8] + encode_utf8(name) + seq![0u8] + rest) == Identifier::Known(name),
{
    let bytes = encode_utf8(name);
    let info = seq![1u8] + bytes + seq![0u8] + rest;
    let body = info.skip(1);
    assert(body =~= bytes + seq![0u8] + rest);
    lemma_zero_at(body, bytes.len() as int);
    assert(body.take(bytes.len() as int) =~= bytes);
    encode_utf8_valid_utf8(name);
    encode_utf8_decode_utf8(name);
}

/// Information that is not of the full size, or does not begin with a one, gives no
/// identifier: the code was rejected. Without a zero, or with nothing or too much before
/// it, there is none either.
pub proof fn other_information_is_refused(info: Seq<u8>)
    ensures
        info.len() != 8192 || info[0] != 1 <==> identifier(info) is Rejected,
        info.len() == 8192 && info[1] == 0 ==> !(identifier(info) is Known),
        (forall|i: int| 1 <= i < 257 ==> #[trigger] info[i] != 0) ==> !(identifier(info) is Known),
        identifier(info) matches Identifier::Known(name) ==> {
            let bytes = encode_utf8(name);
            &&& 0 < bytes.len() <= 255
            &&& info.subrange(1, 1 + bytes.len() as int) == bytes
            &&& info[1 + bytes.len() as int] == 0
        },
{
    if info.len() == 8192 && info[0] == 1 {
        let body = info.skip(1);
        let end = zero_at(body);
        lemma_zero_bounds(body);
        let name = body.take(end as int);
        assert(name =~= info.subrange(1, 1 + end as int));
        if end < body.len() {
            assert(body[end as int] == info[1 + end as int]);
        }
        if valid_utf8(name) {
            decode_utf8_encode_utf8(name);
        }
        if info[1] == 0 {
            assert(body[0] == 0);
        }
    }
}

/// The first zero is one, and none comes before it.
proof fn lemma_zero_bounds(bytes: Seq<u8>)
    ensures
        zero_at(bytes) <= bytes.len(),
        zero_at(bytes) < bytes.len() ==> bytes[zero_at(bytes) as int] == 0,
        forall|i: int| 0 <= i < zero_at(bytes) ==> #[trigger] bytes[i] != 0,
    decreases bytes.len(),
{
    if bytes.len() > 0 && bytes[0] != 0 {
        let rest = bytes.drop_first();
        lemma_zero_bounds(rest);
        assert forall|i: int| 0 <= i < zero_at(bytes) implies #[trigger] bytes[i] != 0 by {
            if i > 0 {
                assert(rest[i - 1] == bytes[i]);
            }
        }
    }
}

/// A nonce counts in its first eight bytes, the least significant one first, and ends in
/// four zeros.
pub proof fn nonces_count(sequence: u64)
    ensures
        nonce_of(sequence).len() == 12,
        nonce_of(sequence).take(8) == le64(sequence),
        nonce_of(sequence).skip(8) == seq![0u8, 0, 0, 0],
{
    lemma_le64(sequence);
    assert(nonce_of(sequence).take(8) =~= le64(sequence));
    assert(nonce_of(sequence).skip(8) =~= seq![0u8, 0, 0, 0]);
}

/// The texts that both sides of a pairing put into their keys.
pub proof fn keys_are_bound_to_their_purpose()
    ensures
        TLS_EXPORTER_LABEL@ == encode_utf8("adb-label\0"@),
        AES_INFO@ == encode_utf8("adb pairing_auth aes-128-gcm key"@),
        SPAKE_PACKET != INFO_PACKET,
        SPAKE_PACKET == 0,
        INFO_PACKET == 1,
        MAX_PAIRING_PAYLOAD == 2 * PEER_INFO_SIZE,
{
    reveal_strlit("adb-label\0");
    reveal_strlit("adb pairing_auth aes-128-gcm key");
    is_ascii_chars_encode_utf8("adb-label\0"@);
    is_ascii_chars_encode_utf8("adb pairing_auth aes-128-gcm key"@);
    assert(TLS_EXPORTER_LABEL@ =~= encode_utf8("adb-label\0"@));
    assert(AES_INFO@ =~= encode_utf8("adb pairing_auth aes-128-gcm key"@));
}

/// The key of a pairing is drawn from the hash of the transcript, for that purpose
/// alone.
pub proof fn keys_are_drawn_from_the_transcript(
    state: Exchange,
    message: Seq<u8>,
    peer: Seq<u8>,
    mask: Seq<u8>,
)
    ensures
        pairing_key(state, message, peer, mask) == hkdf_sha256(
            sha512(transcript(state, message, shared_point(state, peer, mask))),
            encode_utf8("adb pairing_auth aes-128-gcm key"@),
        ),
{
    keys_are_bound_to_their_purpose();
}

} // verus!
