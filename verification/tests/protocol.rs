use obsbot_tiny3::controls;
use obsbot_tiny3::crc::crc16_usb;
use obsbot_tiny3::device::{self, GetStep, Status, TrackMode};
use obsbot_tiny3::error::Error;
use obsbot_tiny3::frame::{build, parse, FLAG_GET, FLAG_SET, MAX_PAYLOAD, SENDER_HOST};
use obsbot_tiny3::op::Op;

fn reply_frame(seq: u16, cmd: u16, payload: &[u8]) -> [u8; 60] {
    // A device reply: flags 0x29, sender/receiver swapped (sender 0x0D).
    let mut f = build(0x29, seq, 0x0A, cmd, payload);
    f[8] = 0x0D;
    // Re-seal the header token over the changed sender byte.
    let mut cov = [0u8; 12];
    cov[..6].copy_from_slice(&f[..6]);
    cov[8..12].copy_from_slice(&f[8..12]);
    let t = crc16_usb(&cov).to_le_bytes();
    f[6] = t[0];
    f[7] = t[1];
    f
}

#[test]
fn crc_of_nothing_is_zero() {
    assert_eq!(crc16_usb(&[]), 0x0000);
}

#[test]
fn crc_check_value() {
    // The catalogued check value of CRC-16/USB over "123456789".
    assert_eq!(crc16_usb(b"123456789"), 0xB4C8);
}

#[test]
fn roundtrip_header_only_get() {
    let f = build(FLAG_GET, 7, 0x0D, 0x18C8, &[]);
    let r = parse(&f).expect("parse");
    assert_eq!(r.flags, FLAG_GET);
    assert_eq!(r.seq, 7);
    assert_eq!(r.sender, SENDER_HOST);
    assert_eq!(r.receiver, 0x0D);
    assert_eq!(r.cmd, 0x18C8);
    assert!(r.payload.is_empty());
    assert!(f[12..].iter().all(|&b| b == 0));
}

#[test]
fn roundtrip_full_payload() {
    let payload: Vec<u8> = (0..MAX_PAYLOAD as u8).map(|b| b.wrapping_mul(7)).collect();
    let f = build(FLAG_SET, 0xFFFF, 0x03, 0x00C3, &payload);
    let r = parse(&f).expect("parse");
    assert_eq!(r.payload, payload);
    assert_eq!(r.seq, 0xFFFF);
}

#[test]
fn parse_rejects_bad_header_token() {
    let mut f = build(FLAG_SET, 1, 2, 3, &[9, 9]);
    f[6] ^= 0x01;
    assert!(parse(&f).is_none());
}

#[test]
fn parse_rejects_bad_payload_token() {
    let mut f = build(FLAG_SET, 1, 2, 3, &[9, 9]);
    f[16] ^= 0xFF;
    assert!(parse(&f).is_none());
}

#[test]
fn parse_rejects_wrong_magic_and_len() {
    let mut f = build(FLAG_SET, 1, 2, 3, &[]);
    f[0] = 0xAB;
    assert!(parse(&f).is_none());
    let mut g = build(FLAG_SET, 1, 2, 3, &[]);
    g[4] = 0x0D;
    assert!(parse(&g).is_none());
    assert!(parse(&g[..11]).is_none());
}

#[test]
fn parse_rejects_oversized_claimed_payload() {
    let mut f = build(FLAG_SET, 1, 2, 3, &[1]);
    f[12] = 45;
    assert!(parse(&f).is_none());
    // A claimed payload that runs past the buffer.
    let g = build(FLAG_SET, 1, 2, 3, &[1, 2, 3, 4]);
    assert!(parse(&g[..18]).is_none());
}

#[test]
fn parse_accepts_bare_header() {
    let f = build(FLAG_GET, 5, 2, 0xA0C2, &[]);
    let r = parse(&f[..12]).expect("a 12-byte header parses");
    assert_eq!(r.seq, 5);
    assert!(r.payload.is_empty());
}

#[test]
fn track_mode_words() {
    assert_eq!(TrackMode::from_str("on"), Some(TrackMode::Normal));
    assert_eq!(TrackMode::from_str("upperbody"), Some(TrackMode::UpperBody));
    assert_eq!(TrackMode::from_str("close"), Some(TrackMode::CloseUp));
    assert_eq!(TrackMode::from_str("lower-body"), Some(TrackMode::LowerBody));
    assert_eq!(TrackMode::from_str("Desk"), None);
    assert_eq!(TrackMode::from_str(""), None);
}

#[test]
fn track_mode_roundtrips() {
    let all = [
        TrackMode::Off,
        TrackMode::Normal,
        TrackMode::UpperBody,
        TrackMode::CloseUp,
        TrackMode::Headless,
        TrackMode::LowerBody,
        TrackMode::Group,
        TrackMode::Hand,
        TrackMode::Whiteboard,
        TrackMode::Desk,
    ];
    for m in all {
        assert_eq!(TrackMode::from_str(m.label()), Some(m));
        let (c, s) = m.category_submode();
        assert_eq!(TrackMode::from_status(c, s), m);
    }
    assert_eq!(TrackMode::Whiteboard.category_submode(), (4, 0));
    assert_eq!(TrackMode::from_status(0, 7), TrackMode::Off);
    assert_eq!(TrackMode::from_status(2, 9), TrackMode::Normal);
    assert_eq!(TrackMode::from_status(9, 0), TrackMode::Normal);
    assert_eq!(TrackMode::from_status(1, 3), TrackMode::Group);
}

fn one_xu(ops: &[Op]) -> (u8, u8, [u8; 60]) {
    assert_eq!(ops.len(), 1);
    match &ops[0] {
        Op::XuSet { unit, selector, data } => (*unit, *selector, *data),
        other => panic!("expected an XU write, got {other:?}"),
    }
}

#[test]
fn sleep_and_wake_frames() {
    let (u, s, d) = one_xu(&device::sleep(0x0042));
    assert_eq!((u, s), (2, 2));
    assert_eq!(d, build(FLAG_SET, 0x0042, 0x02, 0xA0C2, &[1, 0, 0, 0]));
    let (_, _, w) = one_xu(&device::wake(0x00A5));
    assert_eq!(&w[..20], &[0xaa, 0x25, 0xa5, 0x00, 0x0c, 0x00, 0x5f, 0xef, 0x0a, 0x02, 0xc2, 0xa0, 0x04, 0x00, 0xbe, 0x07, 0, 0, 0, 0][..]);
}

#[test]
fn tlv_writes_are_padded() {
    let (u, s, d) = one_xu(&device::set_tracking(TrackMode::UpperBody));
    assert_eq!((u, s), (2, 6));
    assert_eq!(&d[..4], &[0x16, 0x02, 0x02, 0x01]);
    assert!(d[4..].iter().all(|&b| b == 0));
    let (_, _, h) = one_xu(&device::set_hdr(true));
    assert_eq!(&h[..4], &[0x01, 0x01, 0x01, 0x00]);
    let (_, _, f) = one_xu(&device::set_face_ae(false));
    assert_eq!(&f[..3], &[0x03, 0x01, 0x00]);
    let (_, _, v) = one_xu(&device::set_fov(2).unwrap());
    assert_eq!(&v[..3], &[0x04, 0x01, 0x02]);
}

#[test]
fn range_errors() {
    match device::set_zoom(101) {
        Err(Error::OutOfRange { what, min, max, got }) => {
            assert_eq!((what, min, max, got), ("zoom", 0, 100, 101));
        }
        _ => panic!("zoom 101 must be refused"),
    }
    assert!(device::set_zoom(-1).is_err());
    assert!(device::set_zoom(100).is_ok());
    assert!(matches!(device::set_fov(3), Err(Error::OutOfRange { what: "fov level", .. })));
    assert!(matches!(device::set_exposure(0), Err(Error::OutOfRange { what: "exposure", .. })));
    assert!(matches!(device::set_exposure(2501), Err(Error::OutOfRange { .. })));
    assert!(matches!(device::set_wb_temp(1999), Err(Error::OutOfRange { min: 2000, max: 10000, got: 1999, .. })));
    let e = device::set_zoom(101).err().unwrap();
    assert_eq!(e.message(), "zoom must be 0..=100, got 101");
}

#[test]
fn white_balance_temperature_is_written_last() {
    let ops = device::set_wb_temp(4000).unwrap();
    assert_eq!(ops.len(), 3);
    assert!(matches!(ops[0], Op::SetCtrl { id: controls::CID_AUTO_WHITE_BALANCE, value: 0 }));
    assert!(matches!(ops[1], Op::Pause { millis: 300 }));
    assert!(matches!(ops[2], Op::SetCtrl { id: controls::CID_WHITE_BALANCE_TEMPERATURE, value: 4000 }));
    for op in &ops {
        if let Op::SetCtrl { id, .. } = op {
            assert!(*id != controls::CID_RED_BALANCE && *id != controls::CID_BLUE_BALANCE);
        }
    }
}

#[test]
fn exposure_sets_manual_first() {
    let ops = device::set_exposure(330).unwrap();
    assert!(matches!(ops[0], Op::SetCtrl { id: controls::CID_EXPOSURE_AUTO, value: 1 }));
    assert!(matches!(ops[1], Op::SetCtrl { id: controls::CID_EXPOSURE_ABSOLUTE, value: 330 }));
    let auto = device::set_auto_exposure(true);
    assert!(matches!(auto[0], Op::SetCtrl { id: controls::CID_EXPOSURE_AUTO, value: 0 }));
}

#[test]
fn pan_tilt_are_clamped() {
    assert!(matches!(device::set_pan_asec(999_999)[0], Op::SetCtrl { id: controls::CID_PAN_ABSOLUTE, value: 468_000 }));
    assert!(matches!(device::set_tilt_asec(-999_999)[0], Op::SetCtrl { id: controls::CID_TILT_ABSOLUTE, value: -324_000 }));
    assert!(matches!(device::set_pan_asec(72_000)[0], Op::SetCtrl { value: 72_000, .. }));
    assert_eq!(controls::clamp_asec(-5, 3), -3);
    let r = device::recenter();
    assert!(matches!(r[0], Op::SetCtrl { id: controls::CID_PAN_ABSOLUTE, value: 0 }));
    assert!(matches!(r[1], Op::SetCtrl { id: controls::CID_TILT_ABSOLUTE, value: 0 }));
}

#[test]
fn gimbal_move_layout() {
    let (_, _, d) = one_xu(&device::gimbal_move(3, 1.0f32.to_bits(), 0, (-2.5f32).to_bits()));
    let r = parse(&d).unwrap();
    assert_eq!(r.cmd, 0x6444);
    assert_eq!(r.receiver, 0x04);
    assert_eq!(&r.payload[..4], &1.0f32.to_le_bytes());
    assert_eq!(&r.payload[8..], &(-2.5f32).to_le_bytes());
}

#[test]
fn xu_buffer_limits() {
    let b = device::xu_buffer(&[1, 2, 3]).unwrap();
    assert_eq!(&b[..4], &[1, 2, 3, 0]);
    match device::xu_buffer(&[0u8; 61]) {
        Err(Error::Usage(m)) => assert_eq!(m, "XU payload 61 bytes exceeds 60"),
        _ => panic!("61 bytes must be refused"),
    }
}

#[test]
fn status_block_decodes() {
    let mut block = [0u8; 60];
    block[0x02] = 1;
    block[0x06] = 1;
    block[0x18] = 2;
    block[0x1c] = 3;
    block[0x21] = 2;
    let st = Status::decode(&block, Some(36_000), None, Some(40), Some(0), Some(4000), Some(1));
    assert!(st.asleep && st.hdr && st.tracking_sport);
    assert_eq!(st.tracking, TrackMode::Headless);
    assert_eq!(st.pan_asec, 36_000);
    assert_eq!(st.tilt_asec, 0);
    assert_eq!(st.zoom, 40);
    assert!(!st.auto_wb);
    assert_eq!(st.wb_temp, 4000);
    assert!(!st.auto_exposure);
}

#[test]
fn get_accepts_only_matching_reply() {
    let (mut ex, op) = device::serial_request(0x0101);
    match op {
        Op::XuSet { selector, data, .. } => {
            assert_eq!(selector, 2);
            assert_eq!(data, build(FLAG_GET, 0x0101, 0x0D, 0x18C8, &[]));
            // The echoed request itself is not a reply.
            assert!(matches!(ex.on_mailbox(&data), GetStep::Poll));
        }
        _ => panic!("a GET writes a frame"),
    }
    // A stale reply to another request.
    assert!(matches!(ex.on_mailbox(&reply_frame(0x0100, 0x18C8, b"OLD")), GetStep::Poll));
    match ex.on_mailbox(&reply_frame(0x0101, 0x18C8, b"RMOWUHI3111PLN")) {
        GetStep::Reply(r) => assert_eq!(device::serial(&r.payload), "RMOWUHI3111PLN"),
        _ => panic!("the matching reply must be accepted"),
    }
}

#[test]
fn get_gives_up_after_twelve_reads() {
    let (mut ex, _) = device::uuid_request(9);
    assert_eq!(ex.what, "uuid");
    for _ in 0..11 {
        assert!(matches!(ex.on_mailbox(&[0u8; 60]), GetStep::Poll));
    }
    assert!(matches!(ex.on_mailbox(&[0u8; 60]), GetStep::NoReply));
}

#[test]
fn serial_and_uuid_text() {
    assert_eq!(device::serial(b"ABC\0\0\0"), "ABC");
    assert_eq!(device::serial(b"A\0B\0"), "A\0B");
    assert_eq!(device::serial(&[0x41, 0xFF, 0x42]), "A\u{FFFD}B");
    assert_eq!(device::uuid_hex(&[0x00, 0x0f, 0xa0, 0xff]), "000fa0ff");
    assert_eq!(device::uuid_hex(&[]), "");
}

#[test]
fn sequence_numbers() {
    let (c, s) = device::next_seq(0, 0x1234_0005);
    assert_eq!((c, s), (0x0106, 0x0106));
    let (c2, s2) = device::next_seq(c, 0);
    assert_eq!((c2, s2), (0x0107, 0x0107));
    assert_eq!(device::next_seq(0xFFFF, 0), (0, 1));
    assert_eq!(device::next_seq(0, 0xFFFF), (0, 1));
}
