use adb_client::identity::client_identity;

/// A private RSA key that is used for nothing else.
const KEY: [u8; 1217] = [
    0x30, 0x82, 0x04, 0xbd, 0x02, 0x01, 0x00, 0x30, 0x0d, 0x06, 0x09, 0x2a, 0x86, 0x48, 0x86, 0xf7,
    0x0d, 0x01, 0x01, 0x01, 0x05, 0x00, 0x04, 0x82, 0x04, 0xa7, 0x30, 0x82, 0x04, 0xa3, 0x02, 0x01,
    0x00, 0x02, 0x82, 0x01, 0x01, 0x00, 0xaf, 0x94, 0x79, 0xf7, 0x1a, 0x01, 0x5f, 0xbf, 0x60, 0xe8,
    0xdc, 0xc1, 0xb6, 0x9e, 0xea, 0xcc, 0x44, 0x3f, 0xed, 0x0e, 0x63, 0xc8, 0x8d, 0x94, 0x6c, 0xc1,
    0x27, 0xa2, 0x0a, 0x9a, 0x4e, 0xa5, 0x61, 0xfb, 0xef, 0x47, 0x55, 0xba, 0x4d, 0xa1, 0x30, 0xe5,
    0xb0, 0xa6, 0xc8, 0x39, 0xd0, 0x58, 0x2d, 0x0d, 0xaf, 0xf3, 0x49, 0xfe, 0x74, 0x93, 0x55, 0x01,
    0xe9, 0xaa, 0xac, 0xcf, 0xec, 0x00, 0x4b, 0x86, 0xbf, 0xcd, 0x68, 0x63, 0x38, 0xca, 0x0e, 0xbf,
    0xfc, 0x4c, 0x94, 0x62, 0xed, 0xe5, 0x45, 0xd0, 0x61, 0x4c, 0xbc, 0x85, 0xa3, 0x9c, 0xa7, 0x6e,
    0x2b, 0xe1, 0xb6, 0xcd, 0xc5, 0x0c, 0x91, 0x31, 0x80, 0x72, 0x08, 0x99, 0x61, 0x26, 0x14, 0x7c,
    0xff, 0x5c, 0x8f, 0x4e, 0x38, 0x97, 0xa0, 0x6a, 0x11, 0x68, 0xb8, 0x13, 0xba, 0x9e, 0xbd, 0x29,
    0x05, 0x3f, 0x24, 0x62, 0xd2, 0x88, 0x6a, 0xfb, 0x82, 0xdf, 0x9e, 0x65, 0x29, 0xa5, 0x68, 0x61,
    0x7c, 0x87, 0x60, 0x22, 0x6a, 0xba, 0x4e, 0xa9, 0xfd, 0xd8, 0xb2, 0x41, 0x8b, 0x08, 0x44, 0x0c,
    0xd2, 0x82, 0x85, 0xa0, 0xd1, 0xb3, 0x91, 0x72, 0x9d, 0x64, 0x9b, 0xa6, 0x5e, 0xb5, 0xfd, 0x91,
    0xea, 0x5f, 0xea, 0x18, 0x95, 0xcb, 0x74, 0xe9, 0x89, 0xfb, 0xd7, 0xfa, 0x28, 0x4c, 0x5c, 0xa3,
    0xd8, 0x2b, 0x40, 0x14, 0x8a, 0xda, 0xaf, 0x9f, 0x5a, 0x0d, 0xb2, 0x98, 0xa3, 0x23, 0x73, 0xa3,
    0xd0, 0xfa, 0xe3, 0xa3, 0x34, 0xfd, 0x03, 0xe1, 0x34, 0xee, 0x29, 0x2b, 0xd7, 0x52, 0xf8, 0x0a,
    0x70, 0x8c, 0x62, 0x5c, 0xc3, 0x13, 0x1d, 0xb4, 0x1b, 0xde, 0xc1, 0x79, 0x0e, 0x26, 0x3c, 0x11,
    0x4a, 0x52, 0x1f, 0xc0, 0xb5, 0x90, 0x95, 0xef, 0x11, 0xd8, 0x2e, 0x2f, 0xe7, 0xec, 0x07, 0xdc,
    0x16, 0xf9, 0x37, 0xaf, 0xe9, 0xd9, 0x02, 0x03, 0x01, 0x00, 0x01, 0x02, 0x82, 0x01, 0x00, 0x13,
    0x35, 0xe1, 0x14, 0x56, 0xad, 0x90, 0xce, 0xcd, 0x29, 0x1d, 0x42, 0x3a, 0x9b, 0x6f, 0xa0, 0x32,
    0xd5, 0x75, 0xb7, 0xed, 0xd5, 0xfb, 0x1b, 0xa2, 0xbc, 0x8d, 0x7c, 0x0e, 0xc1, 0xec, 0x59, 0xee,
    0xfb, 0x14, 0x26, 0x8f, 0x6c, 0x27, 0x63, 0x3c, 0x08, 0xdd, 0x87, 0x99, 0xff, 0xad, 0x5a, 0x80,
    0x6f, 0x6f, 0x71, 0x64, 0x86, 0xa9, 0x35, 0x97, 0x86, 0xf2, 0x8c, 0x80, 0x84, 0xed, 0x52, 0xe8,
    0xf0, 0x90, 0xda, 0xc6, 0x11, 0x99, 0x1c, 0x8e, 0x79, 0x95, 0xfe, 0xc0, 0xfb, 0x84, 0x00, 0xe2,
    0x5f, 0x16, 0xce, 0x41, 0x10, 0x34, 0x23, 0x07, 0x34, 0xa8, 0x2b, 0x75, 0x87, 0x55, 0x08, 0x77,
    0x78, 0x5d, 0x8f, 0xdc, 0x7d, 0xff, 0xa1, 0x9d, 0x7b, 0x41, 0xab, 0x5c, 0x68, 0x98, 0x0b, 0x8a,
    0xfb, 0x1f, 0xf5, 0x7f, 0xb2, 0x74, 0xe8, 0x3a, 0x55, 0x1b, 0x24, 0x59, 0xf4, 0x50, 0x09, 0x7b,
    0x9a, 0x21, 0xf6, 0x27, 0x7e, 0x4f, 0x5a, 0xc8, 0x70, 0x3d, 0xcc, 0xcc, 0xf2, 0x3b, 0x3e, 0xfd,
    0xb7, 0xbd, 0x6d, 0x7d, 0x53, 0x46, 0xea, 0xba, 0x40, 0x7e, 0x5c, 0xe9, 0x9a, 0xaf, 0x2e, 0xeb,
    0xdc, 0x34, 0x08, 0xda, 0x9b, 0x8c, 0x5d, 0xd0, 0x4b, 0xb1, 0x40, 0x07, 0xa3, 0x4f, 0x9f, 0x30,
    0xb6, 0x99, 0x25, 0x98, 0xea, 0x43, 0xcc, 0x98, 0x02, 0x78, 0xfd, 0x03, 0x72, 0x3d, 0xde, 0xc1,
    0x55, 0xc0, 0x4e, 0x9a, 0x9a, 0x28, 0x54, 0x6f, 0x81, 0x14, 0xa5, 0x7f, 0x11, 0x3d, 0x18, 0x37,
    0x62, 0x24, 0x49, 0xa5, 0xef, 0xb4, 0x7d, 0x8a, 0x95, 0xe8, 0x3b, 0x8f, 0x52, 0x0b, 0xd9, 0xb0,
    0x9f, 0x15, 0x80, 0x86, 0xfb, 0x79, 0xd4, 0x6c, 0x1f, 0x6a, 0xab, 0xff, 0xb7, 0xd0, 0x66, 0xee,
    0x45, 0x30, 0xf1, 0xb4, 0xac, 0x65, 0xa2, 0x51, 0x9c, 0x0c, 0xad, 0x43, 0x8d, 0x19, 0x89, 0x02,
    0x81, 0x81, 0x00, 0xd5, 0x43, 0x84, 0xef, 0x68, 0x79, 0x59, 0x98, 0x96, 0x25, 0xfe, 0x12, 0xdf,
    0x16, 0xc7, 0x75, 0xc5, 0x95, 0x11, 0xd6, 0x62, 0x39, 0xeb, 0xa8, 0x2c, 0x3c, 0xaf, 0x06, 0x6e,
    0xec, 0x4e, 0x8c, 0x3c, 0x7a, 0xac, 0x39, 0x45, 0x04, 0x04, 0x79, 0xaf, 0xfc, 0x40, 0x60, 0x7e,
    0xc7, 0x88, 0xcc, 0xa3, 0x1b, 0x35, 0x53, 0x7a, 0x3d, 0xc7, 0x8d, 0xa9, 0xea, 0xc4, 0x82, 0xdd,
    0xce, 0x01, 0xa6, 0x19, 0x3a, 0x2d, 0x76, 0x93, 0x1d, 0x65, 0x5c, 0xd2, 0x8e, 0x59, 0xc5, 0x09,
    0x70, 0xec, 0xae, 0x87, 0x41, 0xb1, 0xa7, 0x04, 0xf1, 0x1f, 0x8e, 0xe9, 0x7b, 0xc6, 0x5b, 0x17,
    0xb0, 0xdd, 0x1e, 0xe7, 0xbe, 0x9a, 0x8e, 0xf1, 0xb8, 0xcf, 0xe5, 0x23, 0x0f, 0x51, 0xac, 0xea,
    0x99, 0xef, 0x15, 0xd0, 0xfe, 0x56, 0x3f, 0xbd, 0x64, 0xa1, 0xe1, 0x9e, 0xd5, 0x26, 0x1f, 0x69,
    0x9d, 0x74, 0xbd, 0x02, 0x81, 0x81, 0x00, 0xd2, 0xc3, 0xc5, 0x72, 0xa1, 0x8b, 0xac, 0x4f, 0x29,
    0xa1, 0x2e, 0x9f, 0xd1, 0xc8, 0xb5, 0x33, 0x2f, 0x88, 0x84, 0xed, 0xfd, 0x3e, 0xdc, 0xcc, 0xda,
    0x45, 0xe5, 0xa2, 0x78, 0x26, 0x5a, 0xee, 0x87, 0x5b, 0x72, 0x63, 0xd9, 0x6e, 0x6c, 0xd2, 0xc3,
    0x3d, 0x63, 0xbf, 0x16, 0xa7, 0xc7, 0x72, 0xbb, 0x3f, 0xfe, 0x12, 0xe1, 0x5f, 0x99, 0x5a, 0xef,
    0xa9, 0xe2, 0xbf, 0x29, 0xfb, 0x83, 0xde, 0x3c, 0x3a, 0xe1, 0x5a, 0x98, 0x00, 0x60, 0x39, 0x8f,
    0x32, 0x57, 0xd3, 0x61, 0x08, 0xaa, 0x8a, 0xb2, 0xe0, 0x89, 0x9f, 0x5a, 0x4e, 0x16, 0xb4, 0xc1,
    0x83, 0xba, 0x8b, 0x8f, 0xd7, 0x09, 0xae, 0xdc, 0x68, 0xb5, 0xe5, 0x87, 0x18, 0xfc, 0x9e, 0xbe,
    0xcb, 0x7f, 0x63, 0x17, 0x7d, 0x6b, 0x5c, 0x18, 0x63, 0x98, 0x85, 0xa8, 0x40, 0xcf, 0x97, 0x95,
    0x9f, 0x97, 0x75, 0xc7, 0x34, 0x51, 0x4d, 0x02, 0x81, 0x80, 0x4d, 0xd4, 0x07, 0x36, 0x8b, 0xad,
    0x05, 0x8a, 0x8e, 0xf9, 0x2c, 0x80, 0xdc, 0x93, 0x66, 0x95, 0x4f, 0x56, 0xf8, 0x9c, 0x81, 0x5a,
    0x5b, 0xeb, 0x12, 0xc1, 0xce, 0xaa, 0x0d, 0x5f, 0x05, 0xc7, 0x5d, 0xe6, 0xf2, 0xe5, 0x2f, 0x8f,
    0xa8, 0xc6, 0x73, 0xf8, 0x1d, 0xd2, 0x59, 0x52, 0x1e, 0x55, 0x78, 0x0c, 0xdc, 0xe8, 0x2b, 0x0b,
    0x52, 0xc1, 0x1b, 0x4a, 0x87, 0x0e, 0xaf, 0x3d, 0x98, 0x12, 0x72, 0xd0, 0x6d, 0x79, 0x01, 0x75,
    0x4f, 0xe1, 0x91, 0x21, 0xcc, 0x17, 0x01, 0x3c, 0x09, 0xd4, 0x23, 0x9e, 0x50, 0xe4, 0x00, 0x04,
    0xb3, 0x1c, 0xa7, 0x8e, 0xb9, 0x33, 0xd3, 0x30, 0x83, 0x71, 0xdc, 0xe7, 0x0d, 0x66, 0xaf, 0x46,
    0x5f, 0xf0, 0x62, 0x5c, 0x1b, 0xd5, 0x7c, 0x04, 0x53, 0x61, 0x65, 0xd4, 0xfb, 0xca, 0xe5, 0x26,
    0x4d, 0x81, 0x96, 0x42, 0x79, 0x58, 0x2b, 0x66, 0x00, 0x0d, 0x02, 0x81, 0x80, 0x1c, 0x1f, 0xa5,
    0x74, 0x33, 0x5c, 0x38, 0xe4, 0xe3, 0x50, 0x2f, 0xb1, 0x81, 0xc3, 0xbf, 0x72, 0x12, 0x10, 0xac,
    0x74, 0x39, 0x4b, 0xaf, 0x18, 0xe2, 0xb3, 0x5a, 0xfd, 0xff, 0xfc, 0x56, 0x3b, 0xe7, 0xf1, 0xea,
    0xe4, 0xa9, 0xf9, 0xd3, 0x29, 0x98, 0x85, 0xd3, 0x8e, 0x87, 0x0e, 0x62, 0x4d, 0xcb, 0xf0, 0xb1,
    0x0d, 0x81, 0xe7, 0x48, 0xc6, 0x5a, 0x9e, 0x97, 0xb4, 0x1c, 0x7d, 0x04, 0x4e, 0x9e, 0x48, 0xd9,
    0x13, 0x46, 0x9f, 0x1e, 0x37, 0xf0, 0x04, 0xae, 0xb5, 0x75, 0x08, 0x3c, 0x01, 0x7f, 0xf6, 0xf8,
    0x46, 0x3c, 0x3d, 0x99, 0x48, 0x0b, 0x5e, 0x71, 0x80, 0xf7, 0xf3, 0xa0, 0xc6, 0x25, 0x81, 0x0f,
    0x6c, 0x8e, 0x47, 0x66, 0x46, 0x24, 0x7d, 0x71, 0x05, 0x1e, 0xf8, 0x4c, 0x60, 0x20, 0x9d, 0x01,
    0x98, 0x2c, 0x28, 0x61, 0xca, 0xff, 0x5b, 0x29, 0x51, 0xbd, 0x00, 0x1d, 0x2d, 0x02, 0x81, 0x81,
    0x00, 0x82, 0x5f, 0x52, 0x3c, 0x66, 0x91, 0x87, 0x4e, 0xb0, 0x03, 0xbf, 0x26, 0xd6, 0xb2, 0xb0,
    0x05, 0x67, 0x2f, 0x19, 0xbb, 0x22, 0x7f, 0xa1, 0xf8, 0x17, 0x6e, 0x5d, 0x4c, 0x40, 0x0a, 0x3e,
    0xc7, 0x02, 0x73, 0xbe, 0xd3, 0x60, 0xc0, 0xd0, 0x04, 0x32, 0x43, 0x08, 0x2e, 0xc0, 0xa9, 0x5c,
    0x1d, 0x4a, 0xc6, 0x72, 0xe4, 0x87, 0x83, 0x34, 0x45, 0x61, 0xb1, 0xf8, 0xcd, 0x18, 0x76, 0xa6,
    0x4e, 0x93, 0xdb, 0x06, 0xc8, 0x72, 0xf2, 0x59, 0x19, 0xeb, 0x65, 0x6f, 0x96, 0x9b, 0xf6, 0xb8,
    0xb3, 0x23, 0x0c, 0x1f, 0x88, 0xac, 0x38, 0x38, 0xff, 0xf7, 0xd6, 0xa0, 0xc2, 0x00, 0x5b, 0xaa,
    0xe8, 0x40, 0x9f, 0x99, 0x3c, 0xf2, 0x7d, 0xc4, 0xd0, 0x79, 0x27, 0xdf, 0xa1, 0x52, 0x36, 0x39,
    0xad, 0xd5, 0xbb, 0xce, 0xc1, 0x16, 0xd1, 0xa3, 0x88, 0xb3, 0x8e, 0xdd, 0xda, 0x15, 0x62, 0x9a,
    0xd1,
];

/// The PEM form of a key.
fn pem(bytes: &[u8]) -> String {
    let digits = b"ABCDEFGHIJKLMNOPQRSTUVWXYZabcdefghijklmnopqrstuvwxyz0123456789+/";
    let mut text = String::new();
    for chunk in bytes.chunks(3) {
        let mut group = [0u8; 3];
        group[..chunk.len()].copy_from_slice(chunk);
        let value = u32::from_be_bytes([0, group[0], group[1], group[2]]);
        for place in 0..4usize {
            if place <= chunk.len() {
                let digit = (value >> (18 - 6 * place)) & 63;
                text.push(digits[digit as usize] as char);
            } else {
                text.push('=');
            }
        }
        if text.len() % 65 == 64 {
            text.push('\n');
        }
    }
    let label = "PRIVATE KEY";
    format!("-----BEGIN {label}-----\n{text}\n-----END {label}-----\n")
}

#[test]
fn a_key_gives_a_certificate_and_itself() {
    let identity = client_identity(&pem(&KEY)).unwrap();
    assert_eq!(identity.key, KEY);
    assert_eq!(identity.certificate[0], 0x30);
    assert!(identity.certificate.len() > 500);
    let name = b"rcgen self signed cert";
    assert!(identity.certificate.windows(name.len()).any(|part| part == name));
    let again = client_identity(&pem(&KEY)).unwrap();
    assert_eq!(again.certificate, identity.certificate);
}

#[test]
fn what_is_no_key_has_no_identity() {
    assert!(client_identity("").is_err());
    assert!(client_identity("no key").is_err());
    assert!(client_identity(&pem(&KEY[..100])).is_err());
}
