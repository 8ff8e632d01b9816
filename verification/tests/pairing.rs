use adb_client::pairing::{
    answer, begin, check_pairing_code, complete, packet_length, parse_device_guid, peer_info,
    read_packet, write_packet, PairingCipher, AES_INFO, INFO_PACKET, SPAKE_PACKET,
};
use adb_client::spake::{
    add_le, clear_cofactor_bits, shift_left_three, SpakeState, CLIENT_NAME, GROUP_ORDER,
    SERVER_NAME, SPAKE_M, SPAKE_N,
};
use aes_gcm::aead::Aead;
use aes_gcm::{Aes128Gcm, KeyInit, Nonce};
use curve25519_dalek::constants::ED25519_BASEPOINT_POINT;
use curve25519_dalek::edwards::{CompressedEdwardsY, EdwardsPoint};
use curve25519_dalek::scalar::Scalar;
use curve25519_dalek::traits::Identity;
use hkdf::Hkdf;
use sha2::{Digest, Sha256, Sha512};

fn times(point: EdwardsPoint, scalar: &[u8; 32]) -> EdwardsPoint {
    let mut result = EdwardsPoint::identity();
    for bit in (0..256).rev() {
        result = result + result;
        if scalar[bit / 8] >> (bit % 8) & 1 == 1 {
            result += point;
        }
    }
    result
}

fn multiple_of_eight(mut scalar: [u8; 32]) -> [u8; 32] {
    while scalar[0] % 8 != 0 {
        let mut carry = 0u16;
        for index in 0..32 {
            carry += u16::from(scalar[index]) + u16::from(GROUP_ORDER[index]);
            scalar[index] = carry as u8;
            carry >>= 8;
        }
    }
    scalar
}

/// The device side of the exchange: its message, and the key.
fn device(password: &[u8], client_message: &[u8; 32]) -> ([u8; 32], [u8; 16]) {
    let hash: [u8; 64] = Sha512::digest(password).into();
    let w = multiple_of_eight(Scalar::from_bytes_mod_order_wide(&hash).to_bytes());
    let mut y = [0u8; 32];
    y[0] = 0x38;
    y[9] = 0x71;
    let m = CompressedEdwardsY(SPAKE_M).decompress().unwrap();
    let n = CompressedEdwardsY(SPAKE_N).decompress().unwrap();
    let message = (times(ED25519_BASEPOINT_POINT, &y) + times(n, &w)).compress().to_bytes();
    let client = CompressedEdwardsY(*client_message).decompress().unwrap();
    let shared = times(client - times(m, &w), &y).compress().to_bytes();
    let mut transcript = Vec::new();
    for part in [
        &CLIENT_NAME[..],
        &SERVER_NAME[..],
        &client_message[..],
        &message[..],
        &shared[..],
        &hash[..],
    ] {
        transcript.extend_from_slice(&(part.len() as u64).to_le_bytes());
        transcript.extend_from_slice(part);
    }
    let material: [u8; 64] = Sha512::digest(&transcript).into();
    let mut key = [0u8; 16];
    Hkdf::<Sha256>::new(None, &material).expand(&AES_INFO, &mut key).unwrap();
    (message, key)
}

#[test]
fn a_device_that_knows_the_code_is_paired() {
    let exporter = [7u8; 64];
    let (state, packet) = begin("123456", &exporter).unwrap();
    let client_message: [u8; 32] =
        read_packet(&packet, SPAKE_PACKET).unwrap().try_into().unwrap();
    let mut password = b"123456".to_vec();
    password.extend_from_slice(&exporter);
    let (message, key) = device(&password, &client_message);
    let (mut cipher, packet) = answer(state, &message, b"QAAAA key").unwrap();
    let aes = Aes128Gcm::new((&key).into());
    let nonce = [0u8; 12];
    let sealed = read_packet(&packet, INFO_PACKET).unwrap();
    let info = aes.decrypt(Nonce::from_slice(&nonce), sealed.as_slice()).unwrap();
    assert_eq!(info.len(), 8192);
    assert_eq!(info, peer_info(b"QAAAA key").unwrap());
    assert_eq!(&info[1..10], b"QAAAA key");
    let mut reply = vec![0u8; 8192];
    reply[0] = 1;
    reply[1..13].copy_from_slice(b"adb-R5CN-abc");
    let sealed = aes.encrypt(Nonce::from_slice(&nonce), reply.as_slice()).unwrap();
    assert_eq!(complete(&mut cipher, &sealed).unwrap(), "adb-R5CN-abc");
}

#[test]
fn a_device_with_another_code_is_rejected() {
    let exporter = [9u8; 64];
    let (state, packet) = begin("123456", &exporter).unwrap();
    let client_message: [u8; 32] =
        read_packet(&packet, SPAKE_PACKET).unwrap().try_into().unwrap();
    let mut password = b"654321".to_vec();
    password.extend_from_slice(&exporter);
    let (message, key) = device(&password, &client_message);
    let (mut cipher, _) = answer(state, &message, b"key").unwrap();
    let aes = Aes128Gcm::new((&key).into());
    let sealed = aes.encrypt(Nonce::from_slice(&[0u8; 12]), [1u8; 8192].as_slice()).unwrap();
    assert!(format!("{:?}", complete(&mut cipher, &sealed).unwrap_err())
        .contains("pairing code was rejected"));
}

#[test]
fn the_same_random_bytes_give_the_same_message() {
    let (_, first) = SpakeState::start_with(&[3u8; 64], b"password").unwrap();
    let (_, second) = SpakeState::start_with(&[3u8; 64], b"password").unwrap();
    let (_, other) = SpakeState::start_with(&[3u8; 64], b"other").unwrap();
    assert_eq!(first, second);
    assert_ne!(first, other);
    let (_, drawn) = SpakeState::start(b"password").unwrap();
    assert_ne!(first, drawn);
}

#[test]
fn messages_that_are_no_points_are_refused() {
    let (state, _) = SpakeState::start_with(&[3u8; 64], b"password").unwrap();
    match state.finish(&[0u8; 31]) {
        Err(error) => assert!(format!("{error:?}").contains("invalid SPAKE2 message length")),
        Ok(_) => panic!("accepted"),
    }
    let (state, _) = SpakeState::start_with(&[3u8; 64], b"password").unwrap();
    let mut no_point = [0u8; 32];
    no_point[0] = 2;
    match state.finish(&no_point) {
        Err(error) => assert!(format!("{error:?}").contains("invalid SPAKE2 point")),
        Ok(_) => panic!("accepted"),
    }
}

#[test]
fn pairing_codes_have_six_digits() {
    assert!(check_pairing_code("000000").is_ok());
    for code in ["", "12345", "1234567", "12345a", "１２３４５６"] {
        assert!(check_pairing_code(code).is_err());
        assert!(begin(code, &[0u8; 64]).is_err());
    }
}

#[test]
fn packets_carry_a_version_a_kind_and_a_length() {
    let packet = write_packet(1, b"abc").unwrap();
    assert_eq!(packet, [1, 1, 0, 0, 0, 3, b'a', b'b', b'c']);
    assert_eq!(read_packet(&packet, 1).unwrap(), b"abc");
    assert_eq!(packet_length(&packet, 1).unwrap(), 3);
    assert!(read_packet(&packet, 0).is_err());
    assert!(read_packet(&packet[..5], 1).is_err());
    assert!(read_packet(&packet[..8], 1).is_err());
    assert!(write_packet(1, b"").is_err());
    assert!(write_packet(1, &[0; 16385]).is_err());
    assert!(packet_length(&[2, 1, 0, 0, 0, 3], 1).is_err());
    assert!(packet_length(&[1, 1, 0, 0, 0, 0], 1).is_err());
    assert!(packet_length(&[1, 1, 0, 0, 0x40, 1], 1).is_err());
}

#[test]
fn what_one_cipher_seals_another_opens_in_order() {
    let mut left = PairingCipher::new(b"material").unwrap();
    let mut right = PairingCipher::new(b"material").unwrap();
    let first = left.encrypt(b"same").unwrap();
    let second = left.encrypt(b"same").unwrap();
    assert_ne!(first, second);
    assert_ne!(&first[..4], b"same");
    assert_eq!(first.len(), 20);
    assert_eq!(right.decrypt(&first).unwrap(), b"same");
    assert_eq!(right.decrypt(&second).unwrap(), b"same");
    assert!(right.decrypt(&second).is_err());
    let mut stranger = PairingCipher::new(b"other").unwrap();
    assert!(stranger.decrypt(&first).is_err());
}

#[test]
fn identifiers_of_devices() {
    let mut info = vec![0u8; 8192];
    info[0] = 1;
    info[1..4].copy_from_slice(b"abc");
    assert_eq!(parse_device_guid(&info).unwrap(), "abc");
    assert!(parse_device_guid(&info[..8191]).is_err());
    info[2] = 7;
    assert!(parse_device_guid(&info).is_err());
    info[2] = 0xff;
    assert!(parse_device_guid(&info).is_err());
    info[1] = 0;
    assert!(parse_device_guid(&info).is_err());
    info[0] = 0;
    assert!(parse_device_guid(&info).is_err());
    assert!(peer_info(&[0; 8192]).is_err());
}

#[test]
fn arithmetic_on_scalars() {
    let mut one = [0u8; 32];
    one[0] = 1;
    let all = [0xffu8; 32];
    assert_eq!(add_le(&all, &one), [0u8; 32]);
    let mut value = one;
    shift_left_three(&mut value);
    assert_eq!(value[0], 8);
    let mut value = one;
    clear_cofactor_bits(&mut value);
    assert_eq!(value, multiple_of_eight(one));
    assert_eq!(value[0] % 8, 0);
}
