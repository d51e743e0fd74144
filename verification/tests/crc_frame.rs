use obsbot_tiny3::crc::crc16_usb;
use obsbot_tiny3::frame::{build, parse, FLAG_SET};

fn hex(s: &str) -> Vec<u8> {
    (0..s.len())
        .step_by(2)
        .map(|i| u8::from_str_radix(&s[i..i + 2], 16).unwrap())
        .collect()
}

// The header token of the known-good "wake" frame:
//   aa 25 a5 00 0c 00 [5f ef] 0a 02 c2 a0 ...
// token is CRC over bytes[0:6] + 00 00 + bytes[8:12].
#[test]
fn wake_header_token() {
    let cov = [
        0xAA, 0x25, 0xA5, 0x00, 0x0C, 0x00, 0x00, 0x00, 0x0A, 0x02, 0xC2, 0xA0,
    ];
    assert_eq!(crc16_usb(&cov), 0xEF5F);
}

// Nested payload token of the same frame: over [len2 lo, len2 hi] + 00 00 + payload.
#[test]
fn wake_payload_token() {
    // len2 = 0x0004, payload = 00 00 00 00 (wake=0)
    let cov = [0x04, 0x00, 0x00, 0x00, 0x00, 0x00, 0x00, 0x00];
    assert_eq!(crc16_usb(&cov), 0x07BE);
}

#[test]
fn sleep_payload_token() {
    // sleep frame nested: len2=4, payload = 01 00 00 00
    let cov = [0x04, 0x00, 0x00, 0x00, 0x01, 0x00, 0x00, 0x00];
    assert_eq!(crc16_usb(&cov), 0xFBBF);
}

#[test]
fn build_wake_matches_capture() {
    // Wake frame, seq 0x00A5. Compare the 20 meaningful bytes (header +
    // nested segment); the rest is zero padding.
    let f = build(FLAG_SET, 0x00A5, 0x02, 0xA0C2, &[0, 0, 0, 0]);
    let expect = hex("aa25a5000c005fef0a02c2a00400be0700000000");
    assert_eq!(&f[..20], &expect[..]);
    assert!(f[20..].iter().all(|&b| b == 0), "tail must be zero-padded");
}

#[test]
fn build_sleep_matches_capture() {
    let f = build(FLAG_SET, 0x0042, 0x02, 0xA0C2, &[1, 0, 0, 0]);
    // header + nested, first 20 bytes are the interesting part.
    let expect = hex("aa2542000c00ea630a02c2a00400bffb01000000");
    assert_eq!(&f[..20], &expect[..]);
}

#[test]
fn roundtrip_parse() {
    let f = build(FLAG_SET, 0x1234, 0x04, 0x6484, &[1, 2, 3, 4, 5, 6]);
    let r = parse(&f).expect("parse");
    assert_eq!(r.seq, 0x1234);
    assert_eq!(r.receiver, 0x04);
    assert_eq!(r.cmd, 0x6484);
    assert_eq!(r.payload, vec![1, 2, 3, 4, 5, 6]);
}

#[test]
fn rejects_zeroed() {
    assert!(parse(&[0u8; 60]).is_none());
}
