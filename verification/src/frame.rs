//! The OBSBOT "V3" vendor frame carried on UVC extension-unit selector 0x02.
//!
//! Layout (60 bytes, zero-padded, little-endian):
//! ```text
//!  0      magic   0xAA
//!  1      flags   0x25 = SET (with nested payload) · 0x01 = header-only GET
//!  2..4   seq     u16   reply echoes it — match on this
//!  4..6   len     u16 = 0x000C  (header bytes 0..12 are covered by the header token)
//!  6..8   token   u16   CRC-16/USB over bytes[0:6] + 00 00 + bytes[8:12]
//!  8      sender  0x0A  (host)
//!  9      receiver      subsystem id (0x02 camera, 0x03 gimbal, 0x04 AI, 0x0D upgrade)
//! 10..12  cmd     u16   wire command id
//! -- nested payload segment, present only when there is a payload --
//! 12..14  len2    u16   payload length
//! 14..16  token2  u16   CRC-16/USB over bytes[12:14] + 00 00 + payload
//! 16..    payload
//! ```

use crate::crc::{crc16_usb, crc16_usb_spec};
use vstd::prelude::*;

verus! {

pub const MAGIC: u8 = 0xAA;

pub const FLAG_SET: u8 = 0x25;

pub const FLAG_GET: u8 = 0x01;

pub const SENDER_HOST: u8 = 0x0A;

pub const FRAME_LEN: usize = 60;

/// Max payload that fits after the 16-byte header+nested-segment prefix.
pub const MAX_PAYLOAD: usize = FRAME_LEN - 16;

/// The value of the `len` field: header bytes 0..12 are covered by the header token.
pub const HEADER_COVERED: u16 = 0x000C;

/// Little-endian encoding of a `u16`.
pub open spec fn le16(v: u16) -> Seq<u8> {
    seq![(v % 256) as u8, (v / 256) as u8]
}

/// The `u16` whose little-endian bytes are `lo`, `hi`.
pub open spec fn u16_le(lo: u8, hi: u8) -> u16 {
    (lo as int + 256 * (hi as int)) as u16
}

/// The twelve header bytes with the token field (bytes 6..8) zeroed: what the
/// header token covers.
pub open spec fn header_cover(flags: u8, seq: u16, receiver: u8, cmd: u16) -> Seq<u8> {
    seq![MAGIC, flags] + le16(seq) + le16(HEADER_COVERED) + seq![0u8, 0u8] + seq![
        SENDER_HOST,
        receiver,
    ] + le16(cmd)
}

/// The twelve header bytes, token included.
pub open spec fn header_bytes(flags: u8, seq: u16, receiver: u8, cmd: u16) -> Seq<u8> {
    let cover = header_cover(flags, seq, receiver, cmd);
    cover.subrange(0, 6) + le16(crc16_usb_spec(cover)) + cover.subrange(8, 12)
}

/// What the nested token covers: the payload length, two zero bytes, the payload.
pub open spec fn payload_cover(payload: Seq<u8>) -> Seq<u8> {
    le16(payload.len() as u16) + seq![0u8, 0u8] + payload
}

/// The nested payload segment: empty when there is no payload.
pub open spec fn nested_segment(payload: Seq<u8>) -> Seq<u8> {
    if payload.len() == 0 {
        Seq::empty()
    } else {
        le16(payload.len() as u16) + le16(crc16_usb_spec(payload_cover(payload))) + payload
    }
}

/// `n` zero bytes.
pub open spec fn zeros(n: int) -> Seq<u8> {
    Seq::new(n as nat, |i: int| 0u8)
}

/// The full 60-byte frame: header, nested segment, zero padding.
pub open spec fn frame_bytes(flags: u8, seq: u16, receiver: u8, cmd: u16, payload: Seq<u8>) -> Seq<
    u8,
> {
    let prefix = header_bytes(flags, seq, receiver, cmd) + nested_segment(payload);
    prefix + zeros(FRAME_LEN - prefix.len())
}

fn lo_byte(v: u16) -> (b: u8)
    ensures
        b == le16(v)[0],
{
    (v % 256) as u8
}

fn hi_byte(v: u16) -> (b: u8)
    ensures
        b == le16(v)[1],
{
    (v / 256) as u8
}

fn read_u16_le(lo: u8, hi: u8) -> (v: u16)
    ensures
        v == u16_le(lo, hi),
{
    lo as u16 + (hi as u16) * 256
}

/// Build a 60-byte V3 frame ready to write to XU selector 0x02.
///
/// The payload must fit in [`MAX_PAYLOAD`] (44) bytes.
pub fn build(flags: u8, seq: u16, receiver: u8, cmd: u16, payload: &[u8]) -> (f: [u8; FRAME_LEN])
    requires
        payload@.len() <= MAX_PAYLOAD,
    ensures
        f@ == frame_bytes(flags, seq, receiver, cmd, payload@),
{
    let hcov: Vec<u8> = vec![
        MAGIC,
        flags,
        lo_byte(seq),
        hi_byte(seq),
        lo_byte(HEADER_COVERED),
        hi_byte(HEADER_COVERED),
        0,
        0,
        SENDER_HOST,
        receiver,
        lo_byte(cmd),
        hi_byte(cmd),
    ];
    assert(hcov@ =~= header_cover(flags, seq, receiver, cmd));
    let token = crc16_usb(hcov.as_slice());
    let mut out: Vec<u8> = Vec::new();
    let mut i: usize = 0;
    while i < 12
        invariant
            hcov@ == header_cover(flags, seq, receiver, cmd),
            i <= 12,
            out@ =~= (if i <= 6 {
                hcov@.subrange(0, i as int)
            } else if i <= 8 {
                hcov@.subrange(0, 6) + le16(token).subrange(0, i - 6)
            } else {
                hcov@.subrange(0, 6) + le16(token) + hcov@.subrange(8, i as int)
            }),
        decreases 12 - i,
    {
        if i == 6 {
            out.push(lo_byte(token));
        } else if i == 7 {
            out.push(hi_byte(token));
        } else {
            out.push(hcov[i]);
        }
        i = i + 1;
    }
    assert(out@ =~= header_bytes(flags, seq, receiver, cmd));
    let n = payload.len();
    if n > 0 {
        let len2 = n as u16;
        let mut ncov: Vec<u8> = vec![lo_byte(len2), hi_byte(len2), 0, 0];
        let mut j: usize = 0;
        while j < n
            invariant
                n == payload@.len(),
                j <= n,
                ncov@ =~= le16(len2) + seq![0u8, 0u8] + payload@.subrange(0, j as int),
            decreases n - j,
        {
            ncov.push(payload[j]);
            j = j + 1;
        }
        assert(ncov@ =~= payload_cover(payload@));
        let token2 = crc16_usb(ncov.as_slice());
        out.push(lo_byte(len2));
        out.push(hi_byte(len2));
        out.push(lo_byte(token2));
        out.push(hi_byte(token2));
        let ghost before = out@;
        let mut j: usize = 0;
        while j < n
            invariant
                n == payload@.len(),
                j <= n,
                out@ =~= before + payload@.subrange(0, j as int),
            decreases n - j,
        {
            out.push(payload[j]);
            j = j + 1;
        }
    }
    let ghost prefix = header_bytes(flags, seq, receiver, cmd) + nested_segment(payload@);
    assert(out@ =~= prefix);
    while out.len() < FRAME_LEN
        invariant
            prefix.len() <= FRAME_LEN,
            out@.len() <= FRAME_LEN,
            out@.subrange(0, prefix.len() as int) == prefix,
            prefix.len() <= out@.len(),
            forall|k: int| prefix.len() <= k < out@.len() ==> out@[k] == 0u8,
        decreases FRAME_LEN - out.len(),
    {
        out.push(0);
    }
    assert(out@ =~= frame_bytes(flags, seq, receiver, cmd, payload@));
    let mut f = [0u8; FRAME_LEN];
    let mut k: usize = 0;
    while k < FRAME_LEN
        invariant
            out@.len() == FRAME_LEN,
            k <= FRAME_LEN,
            forall|m: int| 0 <= m < k ==> f@[m] == out@[m],
        decreases FRAME_LEN - k,
    {
        f[k] = out[k];
        k = k + 1;
    }
    assert(f@ =~= out@);
    f
}


/// A parsed V3 reply.
#[derive(Debug, Clone)]
pub struct Reply {
    pub flags: u8,
    pub seq: u16,
    pub sender: u8,
    pub receiver: u8,
    pub cmd: u16,
    pub payload: Vec<u8>,
}

/// The mathematical content of a [`Reply`].
pub struct ReplyView {
    pub flags: u8,
    pub seq: u16,
    pub sender: u8,
    pub receiver: u8,
    pub cmd: u16,
    pub payload: Seq<u8>,
}

impl View for Reply {
    type V = ReplyView;

    open spec fn view(&self) -> ReplyView {
        ReplyView {
            flags: self.flags,
            seq: self.seq,
            sender: self.sender,
            receiver: self.receiver,
            cmd: self.cmd,
            payload: self.payload@,
        }
    }
}

/// The view of an optional reply.
pub open spec fn opt_reply_view(r: Option<Reply>) -> Option<ReplyView> {
    match r {
        Some(x) => Some(x@),
        None => None,
    }
}

/// The header token in `raw` (bytes 6..8) is the CRC of bytes 0..6, two zero
/// bytes and bytes 8..12.
pub open spec fn header_token_ok(raw: Seq<u8>) -> bool {
    crc16_usb_spec(raw.subrange(0, 6) + seq![0u8, 0u8] + raw.subrange(8, 12)) == u16_le(
        raw[6],
        raw[7],
    )
}

/// The nested token in `raw` (bytes 14..16) is the CRC of bytes 12..14, two
/// zero bytes and the `n` payload bytes from offset 16.
pub open spec fn payload_token_ok(raw: Seq<u8>, n: int) -> bool {
    crc16_usb_spec(raw.subrange(12, 14) + seq![0u8, 0u8] + raw.subrange(16, 16 + n)) == u16_le(
        raw[14],
        raw[15],
    )
}

/// What a buffer means as a V3 frame: `None` unless the magic, the `len`
/// field and the header token check out; when a payload length is claimed,
/// also `None` unless the payload fits and its token checks out.
pub open spec fn spec_parse(raw: Seq<u8>) -> Option<ReplyView> {
    if raw.len() < 12 || raw[0] != MAGIC || u16_le(raw[4], raw[5]) != HEADER_COVERED
        || !header_token_ok(raw) {
        None
    } else {
        let n = u16_le(raw[12], raw[13]) as int;
        let payload = if raw.len() >= 16 && n > 0 {
            raw.subrange(16, 16 + n)
        } else {
            Seq::empty()
        };
        if raw.len() >= 16 && n > 0 && (16 + n > raw.len() || n > MAX_PAYLOAD
            || !payload_token_ok(raw, n)) {
            None
        } else {
            Some(
                ReplyView {
                    flags: raw[1],
                    seq: u16_le(raw[2], raw[3]),
                    sender: raw[8],
                    receiver: raw[9],
                    cmd: u16_le(raw[10], raw[11]),
                    payload,
                },
            )
        }
    }
}

/// Parse a buffer as a V3 frame, validating magic and both CRCs.
/// Returns None if it is not a well-formed frame (e.g. a zeroed no-reply).
pub fn parse(raw: &[u8]) -> (r: Option<Reply>)
    ensures
        opt_reply_view(r) == spec_parse(raw@),
{
    if raw.len() < 12 || raw[0] != MAGIC {
        return None;
    }
    let len = read_u16_le(raw[4], raw[5]);
    if len != HEADER_COVERED {
        return None;
    }
    let token = read_u16_le(raw[6], raw[7]);
    let hcov: Vec<u8> = vec![
        raw[0],
        raw[1],
        raw[2],
        raw[3],
        raw[4],
        raw[5],
        0,
        0,
        raw[8],
        raw[9],
        raw[10],
        raw[11],
    ];
    assert(hcov@ =~= raw@.subrange(0, 6) + seq![0u8, 0u8] + raw@.subrange(8, 12));
    if crc16_usb(hcov.as_slice()) != token {
        return None;
    }
    let mut reply = Reply {
        flags: raw[1],
        seq: read_u16_le(raw[2], raw[3]),
        sender: raw[8],
        receiver: raw[9],
        cmd: read_u16_le(raw[10], raw[11]),
        payload: Vec::new(),
    };
    if raw.len() >= 16 {
        let len2 = read_u16_le(raw[12], raw[13]) as usize;
        if len2 > 0 {
            // A payload is claimed: it must fit and its CRC must check out,
            // else the whole frame is rejected.
            if len2 > MAX_PAYLOAD || 16 + len2 > raw.len() {
                return None;
            }
            let token2 = read_u16_le(raw[14], raw[15]);
            let mut ncov: Vec<u8> = vec![raw[12], raw[13], 0, 0];
            let mut payload: Vec<u8> = Vec::new();
            let mut j: usize = 0;
            while j < len2
                invariant
                    16 + len2 <= raw.len(),
                    j <= len2,
                    ncov@ =~= raw@.subrange(12, 14) + seq![0u8, 0u8] + raw@.subrange(16, 16 + j),
                    payload@ =~= raw@.subrange(16, 16 + j),
                decreases len2 - j,
            {
                ncov.push(raw[16 + j]);
                payload.push(raw[16 + j]);
                j = j + 1;
            }
            if crc16_usb(ncov.as_slice()) != token2 {
                return None;
            }
            reply.payload = payload;
        }
    }
    Some(reply)
}

/// Law: parsing a frame that [`build`] produced gives back exactly the fields
/// it was built from, with the host as sender.
pub proof fn lemma_parse_build(flags: u8, seq: u16, receiver: u8, cmd: u16, payload: Seq<u8>)
    requires
        payload.len() <= MAX_PAYLOAD,
    ensures
        spec_parse(frame_bytes(flags, seq, receiver, cmd, payload)) == Some(
            ReplyView { flags, seq, sender: SENDER_HOST, receiver, cmd, payload },
        ),
{
    let raw = frame_bytes(flags, seq, receiver, cmd, payload);
    let cover = header_cover(flags, seq, receiver, cmd);
    let hdr = header_bytes(flags, seq, receiver, cmd);
    let nested = nested_segment(payload);
    let prefix = hdr + nested;
    assert(raw.subrange(0, 12) =~= hdr);
    assert(raw.subrange(0, 6) + seq![0u8, 0u8] + raw.subrange(8, 12) =~= cover);
    lemma_le16_roundtrip(seq);
    lemma_le16_roundtrip(cmd);
    lemma_le16_roundtrip(HEADER_COVERED);
    lemma_le16_roundtrip(crc16_usb_spec(cover));
    assert(raw[0] == MAGIC);
    assert(u16_le(raw[4], raw[5]) == HEADER_COVERED);
    assert(header_token_ok(raw));
    if payload.len() == 0 {
        assert(raw[12] == 0u8);
        assert(raw[13] == 0u8);
        assert(u16_le(raw[12], raw[13]) == 0);
        assert(payload =~= Seq::<u8>::empty());
    } else {
        let n = payload.len() as int;
        let len2 = payload.len() as u16;
        lemma_le16_roundtrip(len2);
        lemma_le16_roundtrip(crc16_usb_spec(payload_cover(payload)));
        assert(raw.subrange(12, 16 + n) =~= nested);
        assert(u16_le(raw[12], raw[13]) == len2);
        assert(raw.subrange(16, 16 + n) =~= payload);
        assert(raw.subrange(12, 14) + seq![0u8, 0u8] + raw.subrange(16, 16 + n) =~= payload_cover(
            payload,
        ));
        assert(payload_token_ok(raw, n));
    }
    assert(raw[1] == flags);
    assert(raw[8] == SENDER_HOST);
    assert(raw[9] == receiver);
    assert(u16_le(raw[2], raw[3]) == seq);
    assert(u16_le(raw[10], raw[11]) == cmd);
    assert(raw.len() == 60);
}

/// Law: every frame [`build`] produces is exactly [`FRAME_LEN`] bytes, and every
/// byte after the header, the nested segment and the payload is zero.
pub proof fn lemma_frame_zero_padded(
    flags: u8,
    seq: u16,
    receiver: u8,
    cmd: u16,
    payload: Seq<u8>,
    i: int,
)
    requires
        payload.len() <= MAX_PAYLOAD,
        (if payload.len() == 0 { 12 } else { 16 + payload.len() }) <= i < FRAME_LEN,
    ensures
        frame_bytes(flags, seq, receiver, cmd, payload).len() == FRAME_LEN,
        frame_bytes(flags, seq, receiver, cmd, payload)[i] == 0u8,
{
}

/// The little-endian encoding of a `u16` decodes back to it.
pub proof fn lemma_le16_roundtrip(v: u16)
    ensures
        u16_le(le16(v)[0], le16(v)[1]) == v,
{
}

} // verus!
