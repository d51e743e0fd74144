//! The device protocol: what each camera operation writes (vendor frames on
//! selector 2, raw TLVs on selector 6, standard UVC controls), how the vendor
//! status block decodes, and how a framed GET is matched against the reply
//! mailbox.
//!
//! Nothing here touches the camera: every operation returns the exact list of
//! [`Op`]s to perform, in order, and the caller performs them on an open video
//! node. Note that **an open fd blocks the camera from sleeping**.

use crate::controls;
use crate::error::Error;
use crate::frame::{self, build, frame_bytes, parse, spec_parse, Reply, ReplyView, FLAG_GET, FLAG_SET, SENDER_HOST};
use crate::op::{Op, OpView, ops_view};
use crate::text::{from_utf8_lossy, hex_lower, str_eq, to_hex_lower, trim_end_nul, trim_end_nuls, utf8_lossy};
use vstd::prelude::*;

verus! {

/// UVC extension unit id (same as Tiny 2: bUnitID 2).
pub const XU_UNIT: u8 = 0x02;

/// Framed V3 command channel and reply mailbox.
pub const SEL_CMD: u8 = 0x02;

/// 60-byte status block, and raw-TLV write target.
pub const SEL_STATUS: u8 = 0x06;

/// Size of every extension-unit buffer.
pub const XU_LEN: usize = 60;

// Subsystem receiver ids.
pub const RCV_CAMERA: u8 = 0x02;

pub const RCV_GIMBAL: u8 = 0x03;

pub const RCV_AI: u8 = 0x04;

pub const RCV_UPGRADE: u8 = 0x0D;

// Wire command ids.
pub const CMD_DEV_STATUS: u16 = 0xA0C2;

pub const CMD_RECENTER: u16 = 0x00C3;

pub const CMD_GIMBAL_MOVE: u16 = 0x6444;

pub const CMD_TRACK_SPEED: u16 = 0x0CC4;

pub const CMD_GET_SN: u16 = 0x18C8;

pub const CMD_GET_UUID: u16 = 0x1808;

// Raw-TLV tags on selector 6.
pub const TLV_HDR: u8 = 0x01;

pub const TLV_FACE_AE: u8 = 0x03;

pub const TLV_FOV: u8 = 0x04;

pub const TLV_AI_TRACK: u8 = 0x16;

// Status-block byte offsets.
pub const ST_SLEEP: usize = 0x02;

pub const ST_HDR: usize = 0x06;

pub const ST_AI_CATEGORY: usize = 0x18;

pub const ST_AI_SUBMODE: usize = 0x1c;

pub const ST_TRACK_SPEED: usize = 0x21;

/// How many times the reply mailbox is read before a GET gives up.
pub const GET_POLLS: u32 = 12;

/// The pause before each mailbox read, in milliseconds.
pub const GET_POLL_MILLIS: u64 = 50;


/// AI tracking mode. The wire encoding is `[0x16, 0x02, category, submode]`.
#[derive(Debug, Clone, Copy, PartialEq, Eq, Structural)]
pub enum TrackMode {
    Off,
    /// Human tracking with a framing submode.
    Normal,
    UpperBody,
    CloseUp,
    Headless,
    LowerBody,
    Group,
    Hand,
    Whiteboard,
    Desk,
}

/// The (category, submode) pair that selects a tracking mode.
pub open spec fn spec_category_submode(m: TrackMode) -> (u8, u8) {
    match m {
        TrackMode::Off => (0, 0),
        TrackMode::Normal => (2, 0),
        TrackMode::UpperBody => (2, 1),
        TrackMode::CloseUp => (2, 2),
        TrackMode::Headless => (2, 3),
        TrackMode::LowerBody => (2, 4),
        TrackMode::Group => (1, 0),
        TrackMode::Hand => (3, 0),
        TrackMode::Whiteboard => (4, 0),
        TrackMode::Desk => (5, 0),
    }
}

/// The tracking mode that a status block's (category, submode) bytes report.
/// An unknown combination reads as `Normal`.
pub open spec fn spec_from_status(category: u8, submode: u8) -> TrackMode {
    if category == 0 {
        TrackMode::Off
    } else if category == 2 {
        if submode == 0 {
            TrackMode::Normal
        } else if submode == 1 {
            TrackMode::UpperBody
        } else if submode == 2 {
            TrackMode::CloseUp
        } else if submode == 3 {
            TrackMode::Headless
        } else if submode == 4 {
            TrackMode::LowerBody
        } else {
            TrackMode::Normal
        }
    } else if category == 1 {
        TrackMode::Group
    } else if category == 3 {
        TrackMode::Hand
    } else if category == 4 {
        TrackMode::Whiteboard
    } else if category == 5 {
        TrackMode::Desk
    } else {
        TrackMode::Normal
    }
}

/// The name a tracking mode is shown under.
pub open spec fn spec_label(m: TrackMode) -> Seq<char> {
    match m {
        TrackMode::Off => "off"@,
        TrackMode::Normal => "normal"@,
        TrackMode::UpperBody => "upper-body"@,
        TrackMode::CloseUp => "close-up"@,
        TrackMode::Headless => "headless"@,
        TrackMode::LowerBody => "lower-body"@,
        TrackMode::Group => "group"@,
        TrackMode::Hand => "hand"@,
        TrackMode::Whiteboard => "whiteboard"@,
        TrackMode::Desk => "desk"@,
    }
}

/// The tracking mode a command-line word names, with its aliases.
pub open spec fn spec_track_mode_from_str(s: Seq<char>) -> Option<TrackMode> {
    if s == "off"@ {
        Some(TrackMode::Off)
    } else if s == "normal"@ || s == "on"@ {
        Some(TrackMode::Normal)
    } else if s == "upper"@ || s == "upper-body"@ || s == "upperbody"@ {
        Some(TrackMode::UpperBody)
    } else if s == "close"@ || s == "closeup"@ || s == "close-up"@ {
        Some(TrackMode::CloseUp)
    } else if s == "headless"@ {
        Some(TrackMode::Headless)
    } else if s == "lower"@ || s == "lower-body"@ || s == "lowerbody"@ {
        Some(TrackMode::LowerBody)
    } else if s == "group"@ {
        Some(TrackMode::Group)
    } else if s == "hand"@ {
        Some(TrackMode::Hand)
    } else if s == "whiteboard"@ {
        Some(TrackMode::Whiteboard)
    } else if s == "desk"@ {
        Some(TrackMode::Desk)
    } else {
        None
    }
}

impl TrackMode {
    /// The (category, submode) pair written to select this mode.
    pub fn category_submode(self) -> (r: (u8, u8))
        ensures
            r == spec_category_submode(self),
    {
        match self {
            TrackMode::Off => (0, 0),
            TrackMode::Normal => (2, 0),
            TrackMode::UpperBody => (2, 1),
            TrackMode::CloseUp => (2, 2),
            TrackMode::Headless => (2, 3),
            TrackMode::LowerBody => (2, 4),
            TrackMode::Group => (1, 0),
            TrackMode::Hand => (3, 0),
            TrackMode::Whiteboard => (4, 0),
            TrackMode::Desk => (5, 0),
        }
    }

    /// Parse a command-line tracking mode name (aliases accepted).
    pub fn from_str(s: &str) -> (r: Option<TrackMode>)
        ensures
            r == spec_track_mode_from_str(s@),
    {
        if str_eq(s, "off") {
            Some(TrackMode::Off)
        } else if str_eq(s, "normal") || str_eq(s, "on") {
            Some(TrackMode::Normal)
        } else if str_eq(s, "upper") || str_eq(s, "upper-body") || str_eq(s, "upperbody") {
            Some(TrackMode::UpperBody)
        } else if str_eq(s, "close") || str_eq(s, "closeup") || str_eq(s, "close-up") {
            Some(TrackMode::CloseUp)
        } else if str_eq(s, "headless") {
            Some(TrackMode::Headless)
        } else if str_eq(s, "lower") || str_eq(s, "lower-body") || str_eq(s, "lowerbody") {
            Some(TrackMode::LowerBody)
        } else if str_eq(s, "group") {
            Some(TrackMode::Group)
        } else if str_eq(s, "hand") {
            Some(TrackMode::Hand)
        } else if str_eq(s, "whiteboard") {
            Some(TrackMode::Whiteboard)
        } else if str_eq(s, "desk") {
            Some(TrackMode::Desk)
        } else {
            None
        }
    }

    /// Decode the tracking mode from the status block's category/submode bytes.
    pub fn from_status(category: u8, submode: u8) -> (m: TrackMode)
        ensures
            m == spec_from_status(category, submode),
    {
        if category == 0 {
            TrackMode::Off
        } else if category == 2 {
            if submode == 0 {
                TrackMode::Normal
            } else if submode == 1 {
                TrackMode::UpperBody
            } else if submode == 2 {
                TrackMode::CloseUp
            } else if submode == 3 {
                TrackMode::Headless
            } else if submode == 4 {
                TrackMode::LowerBody
            } else {
                TrackMode::Normal
            }
        } else if category == 1 {
            TrackMode::Group
        } else if category == 3 {
            TrackMode::Hand
        } else if category == 4 {
            TrackMode::Whiteboard
        } else if category == 5 {
            TrackMode::Desk
        } else {
            TrackMode::Normal
        }
    }

    /// The name this mode is shown under.
    pub fn label(self) -> (s: &'static str)
        ensures
            s@ == spec_label(self),
    {
        match self {
            TrackMode::Off => "off",
            TrackMode::Normal => "normal",
            TrackMode::UpperBody => "upper-body",
            TrackMode::CloseUp => "close-up",
            TrackMode::Headless => "headless",
            TrackMode::LowerBody => "lower-body",
            TrackMode::Group => "group",
            TrackMode::Hand => "hand",
            TrackMode::Whiteboard => "whiteboard",
            TrackMode::Desk => "desk",
        }
    }
}

/// Law: the status block reports back exactly the tracking mode that was
/// written — decoding a mode's (category, submode) gives the mode.
pub proof fn lemma_track_mode_status_roundtrip(m: TrackMode)
    ensures
        spec_from_status(spec_category_submode(m).0, spec_category_submode(m).1) == m,
{
}

/// The AI-tracking TLV write: one XU write on the status selector whose data
/// starts with tag 0x16, length 2, then `category` and `submode`.
pub open spec fn is_tracking_write(ops: Seq<OpView>, category: u8, submode: u8) -> bool {
    &&& ops.len() == 1
    &&& ops[0] matches OpView::XuSet { unit, selector, data }
    &&& unit == 0x02 && selector == 0x06 && data.len() == 60
    &&& data[0] == 0x16 && data[1] == 0x02 && data[2] == category && data[3] == submode
}

/// Law: the firmware's numbering of the tracking modes on the wire. Selecting
/// a mode writes category 0 for off, 1 for group, 2 for the human modes with
/// submode 0 normal, 1 upper body, 2 close-up, 3 headless, 4 lower body, 3 for
/// hand, 4 for whiteboard and 5 for desk (submode 0 outside the human modes).
pub proof fn lemma_tracking_wire(m: TrackMode)
    ensures
        m == TrackMode::Off ==> is_tracking_write(tracking_ops(m), 0, 0),
        m == TrackMode::Group ==> is_tracking_write(tracking_ops(m), 1, 0),
        m == TrackMode::Normal ==> is_tracking_write(tracking_ops(m), 2, 0),
        m == TrackMode::UpperBody ==> is_tracking_write(tracking_ops(m), 2, 1),
        m == TrackMode::CloseUp ==> is_tracking_write(tracking_ops(m), 2, 2),
        m == TrackMode::Headless ==> is_tracking_write(tracking_ops(m), 2, 3),
        m == TrackMode::LowerBody ==> is_tracking_write(tracking_ops(m), 2, 4),
        m == TrackMode::Hand ==> is_tracking_write(tracking_ops(m), 3, 0),
        m == TrackMode::Whiteboard ==> is_tracking_write(tracking_ops(m), 4, 0),
        m == TrackMode::Desk ==> is_tracking_write(tracking_ops(m), 5, 0),
{
    let (c, s) = spec_category_submode(m);
    let tlv = seq![TLV_AI_TRACK, 0x02u8, c, s];
    let d = padded(tlv);
    assert(d[0] == tlv[0] && d[1] == tlv[1] && d[2] == tlv[2] && d[3] == tlv[3]);
}

/// Law: how the status block's (category, submode) bytes read back: category
/// 0 is off, 1 group, 3 hand, 4 whiteboard, 5 desk, whatever the submode; in
/// category 2 submodes 0 to 4 are normal, upper body, close-up, headless and
/// lower body.
pub proof fn lemma_status_tracking_categories(category: u8, submode: u8)
    ensures
        category == 0 ==> spec_from_status(category, submode) == TrackMode::Off,
        category == 1 ==> spec_from_status(category, submode) == TrackMode::Group,
        category == 3 ==> spec_from_status(category, submode) == TrackMode::Hand,
        category == 4 ==> spec_from_status(category, submode) == TrackMode::Whiteboard,
        category == 5 ==> spec_from_status(category, submode) == TrackMode::Desk,
        category == 2 && submode == 0 ==> spec_from_status(category, submode) == TrackMode::Normal,
        category == 2 && submode == 1 ==> spec_from_status(category, submode)
            == TrackMode::UpperBody,
        category == 2 && submode == 2 ==> spec_from_status(category, submode) == TrackMode::CloseUp,
        category == 2 && submode == 3 ==> spec_from_status(category, submode)
            == TrackMode::Headless,
        category == 2 && submode == 4 ==> spec_from_status(category, submode)
            == TrackMode::LowerBody,
{
}

/// Law: every tracking mode's label parses back to that mode.
pub proof fn lemma_track_mode_label_roundtrip(m: TrackMode)
    ensures
        spec_track_mode_from_str(spec_label(m)) == Some(m),
{
    reveal_strlit("off");
    reveal_strlit("normal");
    reveal_strlit("on");
    reveal_strlit("upper");
    reveal_strlit("upper-body");
    reveal_strlit("upperbody");
    reveal_strlit("close");
    reveal_strlit("closeup");
    reveal_strlit("close-up");
    reveal_strlit("headless");
    reveal_strlit("lower");
    reveal_strlit("lower-body");
    reveal_strlit("lowerbody");
    reveal_strlit("group");
    reveal_strlit("hand");
    reveal_strlit("whiteboard");
    reveal_strlit("desk");
    let l = spec_label(m);
    assert(l.len() != "off"@.len() || l[0] != 'o' || m == TrackMode::Off);
    match m {
        TrackMode::Off => {},
        TrackMode::Normal => {
            assert(l != "off"@);
        },
        TrackMode::UpperBody => {
            assert(l != "off"@);
            assert(l != "normal"@);
            assert(l != "on"@);
            assert(l != "upper"@);
        },
        TrackMode::CloseUp => {
            assert(l[0] == 'c');
        },
        TrackMode::Headless => {
            assert(l[0] == 'h');
        },
        TrackMode::LowerBody => {
            assert(l[0] == 'l');
            assert(l != "upper-body"@);
        },
        TrackMode::Group => {
            assert(l[0] == 'g');
        },
        TrackMode::Hand => {
            assert(l[0] == 'h');
            assert(l[1] == 'a');
        },
        TrackMode::Whiteboard => {
            assert(l[0] == 'w');
        },
        TrackMode::Desk => {
            assert(l[0] == 'd');
        },
    }
}


/// Decoded snapshot of the camera's vendor status block plus key UVC controls.
/// Gimbal angles are in arc-seconds ([`controls::ASEC_PER_DEG`] per degree).
#[derive(Debug, Clone, Copy)]
pub struct Status {
    pub asleep: bool,
    pub hdr: bool,
    pub tracking: TrackMode,
    pub tracking_sport: bool,
    pub auto_wb: bool,
    pub wb_temp: i32,
    pub pan_asec: i32,
    pub tilt_asec: i32,
    pub zoom: i32,
    pub auto_exposure: bool,
}

/// Control reads that failed count as 0.
pub open spec fn or_zero(v: Option<i32>) -> i32 {
    match v {
        Some(x) => x,
        None => 0,
    }
}

fn value_or_zero(v: Option<i32>) -> (r: i32)
    ensures
        r == or_zero(v),
{
    match v {
        Some(x) => x,
        None => 0,
    }
}

impl Status {
    /// Decode the 60-byte vendor status block (selector 6) together with the
    /// UVC control reads (`None` where a read failed).
    pub fn decode(
        block: &[u8; 60],
        pan: Option<i32>,
        tilt: Option<i32>,
        zoom: Option<i32>,
        auto_wb: Option<i32>,
        wb_temp: Option<i32>,
        exposure_auto: Option<i32>,
    ) -> (st: Status)
        ensures
            st.asleep == (block@[ST_SLEEP as int] != 0),
            st.hdr == (block@[ST_HDR as int] != 0),
            st.tracking == spec_from_status(
                block@[ST_AI_CATEGORY as int],
                block@[ST_AI_SUBMODE as int],
            ),
            st.tracking_sport == (block@[ST_TRACK_SPEED as int] == 2),
            st.auto_wb == (or_zero(auto_wb) != 0),
            st.wb_temp == or_zero(wb_temp),
            st.pan_asec == or_zero(pan),
            st.tilt_asec == or_zero(tilt),
            st.zoom == or_zero(zoom),
            st.auto_exposure == (or_zero(exposure_auto) == controls::EXPOSURE_AUTO_MODE),
    {
        Status {
            asleep: block[ST_SLEEP] != 0,
            hdr: block[ST_HDR] != 0,
            tracking: TrackMode::from_status(block[ST_AI_CATEGORY], block[ST_AI_SUBMODE]),
            tracking_sport: block[ST_TRACK_SPEED] == 2,
            auto_wb: value_or_zero(auto_wb) != 0,
            wb_temp: value_or_zero(wb_temp),
            pan_asec: value_or_zero(pan),
            tilt_asec: value_or_zero(tilt),
            zoom: value_or_zero(zoom),
            auto_exposure: value_or_zero(exposure_auto) == controls::EXPOSURE_AUTO_MODE,
        }
    }
}

/// `data` zero-padded to an extension-unit buffer.
pub open spec fn padded(data: Seq<u8>) -> Seq<u8> {
    data + Seq::new((XU_LEN - data.len()) as nat, |i: int| 0u8)
}

fn pad(data: &[u8]) -> (buf: [u8; 60])
    requires
        data@.len() <= XU_LEN,
    ensures
        buf@ == padded(data@),
{
    let mut buf = [0u8; 60];
    let mut i: usize = 0;
    while i < data.len()
        invariant
            data@.len() <= XU_LEN,
            i <= data@.len(),
            forall|k: int| 0 <= k < i ==> buf@[k] == data@[k],
            forall|k: int| i <= k < XU_LEN ==> buf@[k] == 0u8,
        decreases data.len() - i,
    {
        buf[i] = data[i];
        i = i + 1;
    }
    assert(buf@ =~= padded(data@));
    buf
}

/// The buffer an extension-unit SET_CUR of `data` writes: `data` zero-padded
/// to 60 bytes. More than 60 bytes is refused.
pub fn xu_buffer(data: &[u8]) -> (r: Result<[u8; 60], Error>)
    ensures
        data@.len() <= XU_LEN ==> (r matches Ok(buf) && buf@ == padded(data@)),
        data@.len() > XU_LEN ==> (r matches Err(Error::Usage(m)) && m@ == "XU payload "@
            + crate::text::nat_decimal(data@.len()) + " bytes exceeds 60"@),
{
    if data.len() > XU_LEN {
        let mut m = String::new();
        m.append("XU payload ");
        m.append(crate::text::decimal_usize(data.len()).as_str());
        m.append(" bytes exceeds 60");
        return Err(Error::Usage(m));
    }
    Ok(pad(data))
}

/// A framed vendor SET on the command selector.
pub open spec fn set_frame_op(seq: u16, receiver: u8, cmd: u16, payload: Seq<u8>) -> OpView {
    OpView::XuSet {
        unit: XU_UNIT,
        selector: SEL_CMD,
        data: frame_bytes(FLAG_SET, seq, receiver, cmd, payload),
    }
}

/// A raw TLV write on the status selector.
pub open spec fn tlv_op(tlv: Seq<u8>) -> OpView {
    OpView::XuSet { unit: XU_UNIT, selector: SEL_STATUS, data: padded(tlv) }
}

/// Send a framed SET (fire-and-forget: no mailbox reply is expected).
fn send_set(seq: u16, receiver: u8, cmd: u16, payload: &[u8]) -> (ops: Vec<Op>)
    requires
        payload@.len() <= frame::MAX_PAYLOAD,
    ensures
        ops_view(ops@) == seq![set_frame_op(seq, receiver, cmd, payload@)],
{
    let f = build(FLAG_SET, seq, receiver, cmd, payload);
    let ops = vec![Op::XuSet { unit: XU_UNIT, selector: SEL_CMD, data: f }];
    assert(ops_view(ops@) =~= seq![set_frame_op(seq, receiver, cmd, payload@)]);
    ops
}

fn send_tlv(tlv: &[u8]) -> (ops: Vec<Op>)
    requires
        tlv@.len() <= XU_LEN,
    ensures
        ops_view(ops@) == seq![tlv_op(tlv@)],
{
    let ops = vec![Op::XuSet { unit: XU_UNIT, selector: SEL_STATUS, data: pad(tlv) }];
    assert(ops_view(ops@) =~= seq![tlv_op(tlv@)]);
    ops
}

fn set_ctrl(id: u32, value: i32) -> (ops: Vec<Op>)
    ensures
        ops_view(ops@) == seq![OpView::SetCtrl { id, value }],
{
    let ops = vec![Op::SetCtrl { id, value }];
    assert(ops_view(ops@) =~= seq![OpView::SetCtrl { id, value }]);
    ops
}

/// What vendor sleep writes.
pub open spec fn sleep_ops(seq: u16) -> Seq<OpView> {
    seq![set_frame_op(seq, RCV_CAMERA, CMD_DEV_STATUS, seq![1u8, 0u8, 0u8, 0u8])]
}

/// What vendor wake writes.
pub open spec fn wake_ops(seq: u16) -> Seq<OpView> {
    seq![set_frame_op(seq, RCV_CAMERA, CMD_DEV_STATUS, seq![0u8, 0u8, 0u8, 0u8])]
}

/// What selecting a tracking mode writes.
pub open spec fn tracking_ops(mode: TrackMode) -> Seq<OpView> {
    seq![tlv_op(seq![TLV_AI_TRACK, 0x02u8, spec_category_submode(mode).0, spec_category_submode(mode).1])]
}

/// What recentering writes.
pub open spec fn recenter_ops() -> Seq<OpView> {
    seq![
        OpView::SetCtrl { id: controls::CID_PAN_ABSOLUTE, value: 0 },
        OpView::SetCtrl { id: controls::CID_TILT_ABSOLUTE, value: 0 },
    ]
}

/// What restoring auto white balance writes.
pub open spec fn wb_auto_ops() -> Seq<OpView> {
    seq![OpView::SetCtrl { id: controls::CID_AUTO_WHITE_BALANCE, value: 1 }]
}

/// Vendor sleep: LED off, gimbal parks.
pub fn sleep(seq: u16) -> (ops: Vec<Op>)
    ensures
        ops_view(ops@) == sleep_ops(seq),
{
    let p: [u8; 4] = [1, 0, 0, 0];
    assert(p@ =~= seq![1u8, 0u8, 0u8, 0u8]);
    send_set(seq, RCV_CAMERA, CMD_DEV_STATUS, &p)
}

/// Vendor wake: LED on, gimbal lifts back up.
pub fn wake(seq: u16) -> (ops: Vec<Op>)
    ensures
        ops_view(ops@) == wake_ops(seq),
{
    let p: [u8; 4] = [0, 0, 0, 0];
    assert(p@ =~= seq![0u8, 0u8, 0u8, 0u8]);
    send_set(seq, RCV_CAMERA, CMD_DEV_STATUS, &p)
}

/// Set the AI tracking mode (or Off). Raw TLV on selector 6.
pub fn set_tracking(mode: TrackMode) -> (ops: Vec<Op>)
    ensures
        ops_view(ops@) == tracking_ops(mode),
{
    let (category, submode) = mode.category_submode();
    let t: [u8; 4] = [TLV_AI_TRACK, 0x02, category, submode];
    assert(t@ =~= seq![TLV_AI_TRACK, 0x02u8, category, submode]);
    send_tlv(&t)
}

/// Set tracking speed (experimental): `sport` = fast; otherwise standard.
pub fn set_track_speed(seq: u16, sport: bool) -> (ops: Vec<Op>)
    ensures
        ops_view(ops@) == seq![set_frame_op(seq, RCV_AI, CMD_TRACK_SPEED, seq![if sport { 2u8 } else { 0u8 }])],
{
    let v: u8 = if sport { 0x02 } else { 0x00 };
    let p: [u8; 1] = [v];
    assert(p@ =~= seq![v]);
    send_set(seq, RCV_AI, CMD_TRACK_SPEED, &p)
}

/// Return the gimbal to mechanical center (pan 0°, tilt 0°) through the UVC
/// pan/tilt controls, which keeps the driver's pan/tilt readback honest.
pub fn recenter() -> (ops: Vec<Op>)
    ensures
        ops_view(ops@) == recenter_ops(),
{
    let ops = vec![
        Op::SetCtrl { id: controls::CID_PAN_ABSOLUTE, value: 0 },
        Op::SetCtrl { id: controls::CID_TILT_ABSOLUTE, value: 0 },
    ];
    assert(ops_view(ops@) =~= seq![
        OpView::SetCtrl { id: controls::CID_PAN_ABSOLUTE, value: 0 },
        OpView::SetCtrl { id: controls::CID_TILT_ABSOLUTE, value: 0 },
    ]);
    ops
}

/// Vendor recenter/home frame. Moves the gimbal but desyncs the UVC pan/tilt
/// readback cache — prefer [`recenter`].
pub fn recenter_vendor(seq: u16) -> (ops: Vec<Op>)
    ensures
        ops_view(ops@) == seq![set_frame_op(seq, RCV_GIMBAL, CMD_RECENTER, seq![0u8, 0u8, 0u8, 0u8, 0u8, 0u8])],
{
    let p: [u8; 6] = [0, 0, 0, 0, 0, 0];
    assert(p@ =~= seq![0u8, 0u8, 0u8, 0u8, 0u8, 0u8]);
    send_set(seq, RCV_GIMBAL, CMD_RECENTER, &p)
}

/// Little-endian bytes of a `u32`.
pub open spec fn le32(v: u32) -> Seq<u8> {
    seq![
        (v % 256) as u8,
        ((v / 256) % 256) as u8,
        ((v / 65536) % 256) as u8,
        (v / 16777216) as u8,
    ]
}

fn push_le32(p: &mut Vec<u8>, v: u32)
    ensures
        final(p)@ == old(p)@ + le32(v),
{
    p.push((v % 256) as u8);
    p.push(((v / 256) % 256) as u8);
    p.push(((v / 65536) % 256) as u8);
    p.push((v / 16777216) as u8);
    assert(p@ =~= old(p)@ + le32(v));
}

/// Move the gimbal to an absolute motor angle (experimental). The angles are
/// the IEEE-754 bit patterns of the roll, pitch and yaw `f32` degrees.
pub fn gimbal_move(seq: u16, roll_bits: u32, pitch_bits: u32, yaw_bits: u32) -> (ops: Vec<Op>)
    ensures
        ops_view(ops@) == seq![set_frame_op(seq, RCV_AI, CMD_GIMBAL_MOVE, le32(roll_bits) + le32(pitch_bits) + le32(yaw_bits))],
{
    let mut p: Vec<u8> = Vec::new();
    push_le32(&mut p, roll_bits);
    push_le32(&mut p, pitch_bits);
    push_le32(&mut p, yaw_bits);
    send_set(seq, RCV_AI, CMD_GIMBAL_MOVE, p.as_slice())
}

/// The clamp of `raw` to `-max..=max`.
pub open spec fn clamped(raw: i32, max: i32) -> i32 {
    if raw < -max {
        (-max) as i32
    } else if raw > max {
        max
    } else {
        raw
    }
}

/// Law: whatever angle is asked for, the pan/tilt value written stays within
/// the gimbal's range, and an angle within range is written unchanged.
pub proof fn lemma_clamped_in_range(raw: i32, max: i32)
    requires
        0 <= max,
    ensures
        -max <= clamped(raw, max) <= max,
        -max <= raw <= max ==> clamped(raw, max) == raw,
{
}

/// Absolute pan via the standard UVC control, in arc-seconds, clamped to ±130°.
pub fn set_pan_asec(raw: i32) -> (ops: Vec<Op>)
    ensures
        ops_view(ops@) == seq![OpView::SetCtrl { id: controls::CID_PAN_ABSOLUTE, value: clamped(raw, controls::PAN_MAX) }],
{
    set_ctrl(controls::CID_PAN_ABSOLUTE, controls::clamp_asec(raw, controls::PAN_MAX))
}

/// Absolute tilt via the standard UVC control, in arc-seconds, clamped to ±90°.
pub fn set_tilt_asec(raw: i32) -> (ops: Vec<Op>)
    ensures
        ops_view(ops@) == seq![OpView::SetCtrl { id: controls::CID_TILT_ABSOLUTE, value: clamped(raw, controls::TILT_MAX) }],
{
    set_ctrl(controls::CID_TILT_ABSOLUTE, controls::clamp_asec(raw, controls::TILT_MAX))
}

/// Absolute zoom 0..=100 via the standard UVC control.
pub fn set_zoom(zoom: i32) -> (r: Result<Vec<Op>, Error>)
    ensures
        0 <= zoom <= 100 ==> (r matches Ok(ops) && ops_view(ops@) == seq![OpView::SetCtrl { id: controls::CID_ZOOM_ABSOLUTE, value: zoom }]),
        !(0 <= zoom <= 100) ==> r == Err::<Vec<Op>, Error>(Error::OutOfRange { what: "zoom", min: 0, max: 100, got: zoom as i64 }),
{
    if !(0 <= zoom && zoom <= 100) {
        return Err(Error::OutOfRange { what: "zoom", min: 0, max: 100, got: zoom as i64 });
    }
    Ok(set_ctrl(controls::CID_ZOOM_ABSOLUTE, zoom))
}

/// Pin manual white balance at `temp` Kelvin, in the firmware-safe order.
pub fn set_wb_temp(temp: i32) -> (r: Result<Vec<Op>, Error>)
    ensures
        controls::WB_TEMP_MIN <= temp <= controls::WB_TEMP_MAX ==> (r matches Ok(ops) && ops_view(ops@) == seq![
            OpView::SetCtrl { id: controls::CID_AUTO_WHITE_BALANCE, value: 0 },
            OpView::Pause { millis: controls::WB_SETTLE_MILLIS },
            OpView::SetCtrl { id: controls::CID_WHITE_BALANCE_TEMPERATURE, value: temp },
        ] && controls::wb_temperature_written_last(ops_view(ops@), temp)),
        !(controls::WB_TEMP_MIN <= temp <= controls::WB_TEMP_MAX) ==> r == Err::<Vec<Op>, Error>(Error::OutOfRange {
            what: "white balance temperature (Kelvin)",
            min: controls::WB_TEMP_MIN as i64,
            max: controls::WB_TEMP_MAX as i64,
            got: temp as i64,
        }),
{
    if !(controls::WB_TEMP_MIN <= temp && temp <= controls::WB_TEMP_MAX) {
        return Err(Error::OutOfRange {
            what: "white balance temperature (Kelvin)",
            min: controls::WB_TEMP_MIN as i64,
            max: controls::WB_TEMP_MAX as i64,
            got: temp as i64,
        });
    }
    Ok(controls::pin_white_balance(temp))
}

/// Restore auto white balance (the safe watchable fallback).
pub fn set_wb_auto() -> (ops: Vec<Op>)
    ensures
        ops_view(ops@) == wb_auto_ops(),
{
    controls::white_balance_auto()
}

/// HDR/WDR on or off. Raw TLV on selector 6.
pub fn set_hdr(on: bool) -> (ops: Vec<Op>)
    ensures
        ops_view(ops@) == seq![tlv_op(seq![TLV_HDR, 0x01u8, if on { 1u8 } else { 0u8 }])],
{
    let v: u8 = if on { 1 } else { 0 };
    let t: [u8; 3] = [TLV_HDR, 0x01, v];
    assert(t@ =~= seq![TLV_HDR, 0x01u8, v]);
    send_tlv(&t)
}

/// Field of view: 0 wide(86°), 1 medium(78°), 2 narrow(65°).
pub fn set_fov(level: u8) -> (r: Result<Vec<Op>, Error>)
    ensures
        level <= 2 ==> (r matches Ok(ops) && ops_view(ops@) == seq![tlv_op(seq![TLV_FOV, 0x01u8, level])]),
        level > 2 ==> r == Err::<Vec<Op>, Error>(Error::OutOfRange { what: "fov level", min: 0, max: 2, got: level as i64 }),
{
    if level > 2 {
        return Err(Error::OutOfRange { what: "fov level", min: 0, max: 2, got: level as i64 });
    }
    let t: [u8; 3] = [TLV_FOV, 0x01, level];
    assert(t@ =~= seq![TLV_FOV, 0x01u8, level]);
    Ok(send_tlv(&t))
}

/// Face-priority auto-exposure: false = global metering, true = face.
pub fn set_face_ae(face: bool) -> (ops: Vec<Op>)
    ensures
        ops_view(ops@) == seq![tlv_op(seq![TLV_FACE_AE, 0x01u8, if face { 1u8 } else { 0u8 }])],
{
    let v: u8 = if face { 1 } else { 0 };
    let t: [u8; 3] = [TLV_FACE_AE, 0x01, v];
    assert(t@ =~= seq![TLV_FACE_AE, 0x01u8, v]);
    send_tlv(&t)
}

/// Auto exposure on/off (standard UVC menu control).
pub fn set_auto_exposure(auto: bool) -> (ops: Vec<Op>)
    ensures
        ops_view(ops@) == seq![OpView::SetCtrl {
            id: controls::CID_EXPOSURE_AUTO,
            value: if auto { controls::EXPOSURE_AUTO_MODE } else { controls::EXPOSURE_MANUAL_MODE },
        }],
{
    let v = if auto { controls::EXPOSURE_AUTO_MODE } else { controls::EXPOSURE_MANUAL_MODE };
    set_ctrl(controls::CID_EXPOSURE_AUTO, v)
}

/// Manual exposure time (device units, 1..=2500). Sets manual mode first.
pub fn set_exposure(value: i32) -> (r: Result<Vec<Op>, Error>)
    ensures
        1 <= value <= 2500 ==> (r matches Ok(ops) && ops_view(ops@) == seq![
            OpView::SetCtrl { id: controls::CID_EXPOSURE_AUTO, value: controls::EXPOSURE_MANUAL_MODE },
            OpView::SetCtrl { id: controls::CID_EXPOSURE_ABSOLUTE, value },
        ]),
        !(1 <= value <= 2500) ==> r == Err::<Vec<Op>, Error>(Error::OutOfRange { what: "exposure", min: 1, max: 2500, got: value as i64 }),
{
    if !(1 <= value && value <= 2500) {
        return Err(Error::OutOfRange { what: "exposure", min: 1, max: 2500, got: value as i64 });
    }
    let ops = vec![
        Op::SetCtrl { id: controls::CID_EXPOSURE_AUTO, value: controls::EXPOSURE_MANUAL_MODE },
        Op::SetCtrl { id: controls::CID_EXPOSURE_ABSOLUTE, value },
    ];
    assert(ops_view(ops@) =~= seq![
        OpView::SetCtrl { id: controls::CID_EXPOSURE_AUTO, value: controls::EXPOSURE_MANUAL_MODE },
        OpView::SetCtrl { id: controls::CID_EXPOSURE_ABSOLUTE, value },
    ]);
    Ok(ops)
}


/// A framed GET awaiting its reply in the mailbox. The mailbox retains the
/// previous reply, so a reply is accepted only when its seq AND cmd match the
/// request and its sender is not the host (which rejects an echoed request).
pub struct GetExchange {
    pub seq: u16,
    pub cmd: u16,
    /// What is being asked for, for the `NoReply` error.
    pub what: &'static str,
    /// Mailbox reads so far.
    pub polls: u32,
}

/// The outcome of one mailbox read.
pub enum GetStep {
    /// The matching reply arrived.
    Reply(Reply),
    /// Not yet: pause [`GET_POLL_MILLIS`] and read the mailbox again.
    Poll,
    /// [`GET_POLLS`] reads brought no matching reply.
    NoReply,
}

/// A reply answers the request with sequence `seq` and command `cmd`.
pub open spec fn reply_matches(r: ReplyView, seq: u16, cmd: u16) -> bool {
    r.seq == seq && r.cmd == cmd && r.sender != SENDER_HOST
}

/// Start a framed GET: the exchange to poll, and the request frame to write.
pub fn begin_get(seq: u16, receiver: u8, cmd: u16, what: &'static str) -> (r: (GetExchange, Op))
    ensures
        r.0.seq == seq,
        r.0.cmd == cmd,
        r.0.what == what,
        r.0.polls == 0,
        r.1@ == (OpView::XuSet {
            unit: XU_UNIT,
            selector: SEL_CMD,
            data: frame_bytes(FLAG_GET, seq, receiver, cmd, Seq::empty()),
        }),
{
    let empty: [u8; 0] = [];
    assert(empty@ =~= Seq::<u8>::empty());
    let f = build(FLAG_GET, seq, receiver, cmd, &empty);
    (GetExchange { seq, cmd, what, polls: 0 }, Op::XuSet { unit: XU_UNIT, selector: SEL_CMD, data: f })
}

impl GetExchange {
    /// Judge one read of the mailbox.
    pub fn on_mailbox(&mut self, raw: &[u8]) -> (step: GetStep)
        ensures
            final(self).seq == old(self).seq,
            final(self).cmd == old(self).cmd,
            final(self).what == old(self).what,
            (spec_parse(raw@) matches Some(rv) && reply_matches(rv, old(self).seq, old(self).cmd))
                ==> (step matches GetStep::Reply(r) && spec_parse(raw@) == Some(r@)
                && final(self).polls == old(self).polls),
            !(spec_parse(raw@) matches Some(rv) && reply_matches(rv, old(self).seq, old(self).cmd))
                ==> ({
                let polls = if old(self).polls < GET_POLLS {
                    old(self).polls + 1
                } else {
                    old(self).polls as int
                };
                &&& final(self).polls == polls
                &&& (polls >= GET_POLLS ==> step is NoReply)
                &&& (polls < GET_POLLS ==> step is Poll)
            }),
    {
        if let Some(r) = parse(raw) {
            if r.seq == self.seq && r.cmd == self.cmd && r.sender != SENDER_HOST {
                return GetStep::Reply(r);
            }
        }
        if self.polls < GET_POLLS {
            self.polls = self.polls + 1;
        }
        if self.polls >= GET_POLLS {
            GetStep::NoReply
        } else {
            GetStep::Poll
        }
    }
}

/// Start reading the 14-character device serial, via the Upgrade subsystem.
pub fn serial_request(seq: u16) -> (r: (GetExchange, Op))
    ensures
        r.0.seq == seq,
        r.0.cmd == CMD_GET_SN,
        r.0.what@ == "serial number"@,
        r.0.polls == 0,
        r.1@ == (OpView::XuSet {
            unit: XU_UNIT,
            selector: SEL_CMD,
            data: frame_bytes(FLAG_GET, seq, RCV_UPGRADE, CMD_GET_SN, Seq::empty()),
        }),
{
    begin_get(seq, RCV_UPGRADE, CMD_GET_SN, "serial number")
}

/// Start reading the 24-byte device UUID.
pub fn uuid_request(seq: u16) -> (r: (GetExchange, Op))
    ensures
        r.0.seq == seq,
        r.0.cmd == CMD_GET_UUID,
        r.0.what@ == "uuid"@,
        r.0.polls == 0,
        r.1@ == (OpView::XuSet {
            unit: XU_UNIT,
            selector: SEL_CMD,
            data: frame_bytes(FLAG_GET, seq, RCV_UPGRADE, CMD_GET_UUID, Seq::empty()),
        }),
{
    begin_get(seq, RCV_UPGRADE, CMD_GET_UUID, "uuid")
}

/// The serial number a reply payload carries: the payload as (lossy) UTF-8,
/// without trailing NULs.
pub fn serial(payload: &[u8]) -> (s: String)
    ensures
        s@ == trim_end_nul(utf8_lossy(payload@)),
{
    let text = from_utf8_lossy(payload);
    trim_end_nuls(text.as_str())
}

/// The UUID a reply payload carries, as lowercase hex.
pub fn uuid_hex(payload: &[u8]) -> (s: String)
    ensures
        s@ == hex_lower(payload@),
{
    to_hex_lower(payload)
}

/// The counter value a fresh process starts from: its pid's low 16 bits with
/// bit 8 set, so concurrent invocations rarely collide and it is never 0.
pub open spec fn seq_seed(pid: u32) -> u16 {
    ((pid % 65536) as u16) | 0x0100
}

/// The next frame sequence number. `counter` is the shared counter (0 before
/// the first frame); the result is the counter's new value and the sequence
/// number to use, which is never 0.
pub fn next_seq(counter: u16, pid: u32) -> (r: (u16, u16))
    ensures
        r.0 == (if counter == 0 {
            (seq_seed(pid) + 1) % 65536
        } else {
            (counter + 1) % 65536
        }),
        r.1 == (if r.0 == 0 { 1 } else { r.0 }),
        r.1 != 0,
{
    let cur: u16 = if counter == 0 {
        ((pid % 65536) as u16) | 0x0100
    } else {
        counter
    };
    let next: u16 = cur.wrapping_add(1);
    let seq: u16 = if next == 0 { 1 } else { next };
    (next, seq)
}

} // verus!
