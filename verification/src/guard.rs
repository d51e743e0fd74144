//! The white-balance guard's decisions: its command line, and the state
//! machine that keeps manual white balance pinned without holding the camera
//! open while it is idle.
//!
//! Two firmware quirks shape the design. Opening the video node at all wakes
//! the camera, so while no app holds it the guard holds no file descriptor and
//! only waits on an inotify open-watch; it opens the camera only once an app
//! already holds it awake. And the last-written WB control wins, so the
//! temperature is written last (see `controls::pin_white_balance`).
//!
//! States: ABSENT (node missing: poll every 5s), IDLE (node present, no app
//! holds it: wait for an open, then settle 1.5s), ACTIVE (an app holds the
//! camera: re-pin WB if it went auto, poll every 2s, back to IDLE when no app
//! holds it any more).

use crate::controls;
use crate::text::{parse_i32, parse_u32, spec_parse_i32, spec_parse_u32, str_eq};
use crate::cli::args_view;
use vstd::prelude::*;

verus! {

/// Wait after an app opens the camera, letting its stream handshake finish (ms).
pub const SETTLE_MILLIS: u64 = 1500;

/// Poll interval while an app holds the camera (ms).
pub const ACTIVE_POLL_MILLIS: u64 = 2000;

/// Poll interval while the camera node is missing (ms).
pub const ABSENT_POLL_MILLIS: u64 = 5000;

/// How long an idle wait lasts before presence is checked again (ms).
pub const IDLE_REVALIDATE_MILLIS: u64 = 60000;

/// What the guard's command line asks for.
pub enum GuardArgs {
    Help,
    /// An argument it does not know.
    Unknown(String),
    /// Guard at `temp` Kelvin; `device` overrides discovery; `once` pins once
    /// and exits.
    Run { temp: i32, device: Option<String>, once: bool },
}

/// The meaning of the arguments from position `i` on, given what was read so far.
pub enum GuardArgsView {
    Help,
    Unknown(Seq<char>),
    Run { temp: i32, device: Option<Seq<char>>, once: bool },
}

pub open spec fn spec_guard_args(
    args: Seq<Seq<char>>,
    i: int,
    temp: i32,
    device: Option<Seq<char>>,
    once: bool,
) -> GuardArgsView
    decreases args.len() - i,
{
    if i < 0 || i >= args.len() {
        GuardArgsView::Run { temp, device, once }
    } else if args[i] == "--temp"@ || args[i] == "-t"@ {
        // The value is consumed even when it does not parse; then the
        // temperature is unchanged.
        if i + 1 < args.len() {
            let t = match spec_parse_i32(args[i + 1]) {
                Some(v) => v,
                None => temp,
            };
            spec_guard_args(args, i + 2, t, device, once)
        } else {
            GuardArgsView::Run { temp, device, once }
        }
    } else if args[i] == "--device"@ || args[i] == "-d"@ {
        if i + 1 < args.len() {
            spec_guard_args(args, i + 2, temp, Some(args[i + 1]), once)
        } else {
            GuardArgsView::Run { temp, device: None, once }
        }
    } else if args[i] == "--once"@ {
        spec_guard_args(args, i + 1, temp, device, true)
    } else if args[i] == "-h"@ || args[i] == "--help"@ {
        GuardArgsView::Help
    } else {
        GuardArgsView::Unknown(args[i])
    }
}

pub open spec fn opt_string_view(s: Option<String>) -> Option<Seq<char>> {
    match s {
        Some(x) => Some(x@),
        None => None,
    }
}

pub open spec fn guard_args_view(g: GuardArgs) -> GuardArgsView {
    match g {
        GuardArgs::Help => GuardArgsView::Help,
        GuardArgs::Unknown(a) => GuardArgsView::Unknown(a@),
        GuardArgs::Run { temp, device, once } => GuardArgsView::Run {
            temp,
            device: opt_string_view(device),
            once,
        },
    }
}

/// Read the guard's arguments (`--temp K`/`-t K`, `--device P`/`-d P`,
/// `--once`, `-h`/`--help`), starting from the configured temperature.
pub fn parse_guard_args(args: &Vec<String>, config_temp: i32) -> (g: GuardArgs)
    ensures
        guard_args_view(g) == spec_guard_args(args_view(args@), 0, config_temp, None, false),
{
    let ghost av = args_view(args@);
    let mut temp = config_temp;
    let mut device: Option<String> = None;
    let mut once = false;
    let mut i: usize = 0;
    while i < args.len()
        invariant
            av == args_view(args@),
            av.len() == args@.len(),
            i <= args@.len(),
            spec_guard_args(av, 0, config_temp, None, false) == spec_guard_args(
                av,
                i as int,
                temp,
                opt_string_view(device),
                once,
            ),
        decreases args@.len() - i,
    {
        let a = args[i].as_str();
        assert(av[i as int] == a@);
        if str_eq(a, "--temp") || str_eq(a, "-t") {
            if i + 1 >= args.len() {
                return GuardArgs::Run { temp, device, once };
            }
            assert(av[i + 1] == args@[i + 1]@);
            match parse_i32(args[i + 1].as_str()) {
                Some(v) => {
                    temp = v;
                },
                None => {},
            }
            i = i + 2;
        } else if str_eq(a, "--device") || str_eq(a, "-d") {
            if i + 1 >= args.len() {
                return GuardArgs::Run { temp, device: None, once };
            }
            assert(av[i + 1] == args@[i + 1]@);
            device = Some(args[i + 1].clone());
            i = i + 2;
        } else if str_eq(a, "--once") {
            once = true;
            i = i + 1;
        } else if str_eq(a, "-h") || str_eq(a, "--help") {
            return GuardArgs::Help;
        } else {
            return GuardArgs::Unknown(args[i].clone());
        }
    }
    GuardArgs::Run { temp, device, once }
}

/// Whether the guard may run at temperature `temp` (the firmware's range).
pub fn temp_in_range(temp: i32) -> (ok: bool)
    ensures
        ok == (controls::WB_TEMP_MIN <= temp <= controls::WB_TEMP_MAX),
{
    controls::WB_TEMP_MIN <= temp && temp <= controls::WB_TEMP_MAX
}

/// The result of waiting on the inotify open-watch.
#[derive(Debug, Clone, Copy, PartialEq, Eq, Structural)]
pub enum OpenWait {
    /// An app opened the camera.
    Opened,
    /// The node went away.
    Gone,
    /// The wait ran out (or was interrupted).
    Timeout,
    /// The watch failed.
    Error,
}

/// What the guard learned from its last action.
pub enum GuardEvent {
    /// The node's (by-id path, real /dev/videoN) pair, or `None` when absent.
    Resolved(Option<(String, String)>),
    /// Whether any other process holds an fd on the node.
    Holders(bool),
    /// How the wait for an open ended.
    Waited(OpenWait),
    /// A sleep finished.
    Slept,
    /// A pin-if-auto attempt finished.
    Pinned,
}

/// What the guard does next. Only `PinIfAuto` opens the camera.
pub enum GuardAction {
    /// Find the node (discovery or the override) and resolve it.
    Resolve,
    /// Scan /proc for other processes holding the node (opens no fd on it).
    CountHolders { node: String },
    /// Block on an inotify open-watch of the node (holds no fd on it).
    WaitForOpen { node: String, timeout_millis: u64 },
    /// Sleep.
    Sleep { millis: u64 },
    /// Open the camera; if auto white balance is on, pin manual white balance.
    PinIfAuto { path: String },
}

/// Where the guard is in its cycle.
#[derive(Debug, Clone, Copy, PartialEq, Eq, Structural)]
pub enum Phase {
    /// Waiting for the node to be resolved.
    Resolving,
    /// Sleeping before looking for the node again.
    Absent,
    /// Checking whether an app holds the node before idling.
    IdleCheck,
    /// Waiting on the open-watch.
    Waiting,
    /// Letting a new app's stream handshake settle.
    Settling,
    /// Checking whether an app still holds the node.
    ActiveCheck,
    /// Pinning white balance.
    Pinning,
    /// Sleeping between active checks.
    ActiveSleep,
}

/// The guard's state: the phase, and the node it is watching.
pub struct GuardState {
    pub phase: Phase,
    pub path: String,
    pub node: String,
}

/// The phase and action that follow `event` in `phase` (by their kinds).
pub open spec fn phase_after(phase: Phase, event: GuardEvent) -> Phase {
    match (phase, event) {
        (Phase::Resolving, GuardEvent::Resolved(None)) => Phase::Absent,
        (Phase::Resolving, GuardEvent::Resolved(Some(_))) => Phase::IdleCheck,
        (Phase::Absent, GuardEvent::Slept) => Phase::Resolving,
        (Phase::IdleCheck, GuardEvent::Holders(false)) => Phase::Waiting,
        (Phase::IdleCheck, GuardEvent::Holders(true)) => Phase::ActiveCheck,
        (Phase::Waiting, GuardEvent::Waited(OpenWait::Opened)) => Phase::Settling,
        (Phase::Waiting, GuardEvent::Waited(OpenWait::Error)) => Phase::Absent,
        (Phase::Waiting, GuardEvent::Waited(_)) => Phase::Resolving,
        (Phase::Settling, GuardEvent::Slept) => Phase::ActiveCheck,
        (Phase::ActiveCheck, GuardEvent::Holders(true)) => Phase::Pinning,
        (Phase::ActiveCheck, GuardEvent::Holders(false)) => Phase::Resolving,
        (Phase::Pinning, GuardEvent::Pinned) => Phase::ActiveSleep,
        (Phase::ActiveSleep, GuardEvent::Slept) => Phase::ActiveCheck,
        _ => Phase::Resolving,
    }
}


/// The mathematical content of a [`GuardAction`].
pub enum GuardActionView {
    Resolve,
    CountHolders { node: Seq<char> },
    WaitForOpen { node: Seq<char>, timeout_millis: u64 },
    Sleep { millis: u64 },
    PinIfAuto { path: Seq<char> },
}

impl View for GuardAction {
    type V = GuardActionView;

    open spec fn view(&self) -> GuardActionView {
        match self {
            GuardAction::Resolve => GuardActionView::Resolve,
            GuardAction::CountHolders { node } => GuardActionView::CountHolders { node: node@ },
            GuardAction::WaitForOpen { node, timeout_millis } => GuardActionView::WaitForOpen {
                node: node@,
                timeout_millis: *timeout_millis,
            },
            GuardAction::Sleep { millis } => GuardActionView::Sleep { millis: *millis },
            GuardAction::PinIfAuto { path } => GuardActionView::PinIfAuto { path: path@ },
        }
    }
}

/// The node a `Resolved` event carries, when it carries one (else the node
/// already watched).
pub open spec fn node_after(path: Seq<char>, node: Seq<char>, phase: Phase, event: GuardEvent) -> (
    Seq<char>,
    Seq<char>,
) {
    match (phase, event) {
        (Phase::Resolving, GuardEvent::Resolved(Some(pr))) => (pr.0@, pr.1@),
        _ => (path, node),
    }
}

/// The action that follows `event` in `phase`, watching node (`path`, `node`)
/// after the event.
pub open spec fn action_after(phase: Phase, event: GuardEvent, path: Seq<char>, node: Seq<char>) -> GuardActionView {
    match (phase, event) {
        (Phase::Resolving, GuardEvent::Resolved(None)) => GuardActionView::Sleep { millis: ABSENT_POLL_MILLIS },
        (Phase::Resolving, GuardEvent::Resolved(Some(_))) => GuardActionView::CountHolders { node },
        (Phase::Absent, GuardEvent::Slept) => GuardActionView::Resolve,
        (Phase::IdleCheck, GuardEvent::Holders(false)) => GuardActionView::WaitForOpen {
            node,
            timeout_millis: IDLE_REVALIDATE_MILLIS,
        },
        (Phase::IdleCheck, GuardEvent::Holders(true)) => GuardActionView::CountHolders { node },
        (Phase::Waiting, GuardEvent::Waited(OpenWait::Opened)) => GuardActionView::Sleep { millis: SETTLE_MILLIS },
        (Phase::Waiting, GuardEvent::Waited(OpenWait::Error)) => GuardActionView::Sleep { millis: ABSENT_POLL_MILLIS },
        (Phase::Waiting, GuardEvent::Waited(_)) => GuardActionView::Resolve,
        (Phase::Settling, GuardEvent::Slept) => GuardActionView::CountHolders { node },
        (Phase::ActiveCheck, GuardEvent::Holders(true)) => GuardActionView::PinIfAuto { path },
        (Phase::ActiveCheck, GuardEvent::Holders(false)) => GuardActionView::Resolve,
        (Phase::Pinning, GuardEvent::Pinned) => GuardActionView::Sleep { millis: ACTIVE_POLL_MILLIS },
        (Phase::ActiveSleep, GuardEvent::Slept) => GuardActionView::CountHolders { node },
        _ => GuardActionView::Resolve,
    }
}

impl GuardState {
    /// The guard starting up: it first looks for the camera.
    pub fn new() -> (r: (GuardState, GuardAction))
        ensures
            r.0.phase == Phase::Resolving,
            r.0.path@ == Seq::<char>::empty(),
            r.0.node@ == Seq::<char>::empty(),
            r.1@ == GuardActionView::Resolve,
    {
        (
            GuardState { phase: Phase::Resolving, path: String::new(), node: String::new() },
            GuardAction::Resolve,
        )
    }

    /// Advance on `event`, the outcome of the last action; returns the next action.
    pub fn step(&mut self, event: GuardEvent) -> (a: GuardAction)
        ensures
            final(self).phase == phase_after(old(self).phase, event),
            (final(self).path@, final(self).node@) == node_after(
                old(self).path@,
                old(self).node@,
                old(self).phase,
                event,
            ),
            a@ == action_after(
                old(self).phase,
                event,
                final(self).path@,
                final(self).node@,
            ),
            // The guard opens the camera only right after seeing another holder.
            a is PinIfAuto ==> (old(self).phase == Phase::ActiveCheck && event matches GuardEvent::Holders(true)),
    {
        let phase = self.phase;
        match event {
            GuardEvent::Resolved(r) => {
                if phase == Phase::Resolving {
                    match r {
                        None => {
                            self.phase = Phase::Absent;
                            GuardAction::Sleep { millis: ABSENT_POLL_MILLIS }
                        },
                        Some((path, node)) => {
                            self.phase = Phase::IdleCheck;
                            self.path = path;
                            self.node = node;
                            GuardAction::CountHolders { node: self.node.clone() }
                        },
                    }
                } else {
                    self.phase = Phase::Resolving;
                    GuardAction::Resolve
                }
            },
            GuardEvent::Holders(held) => {
                if phase == Phase::IdleCheck {
                    if held {
                        self.phase = Phase::ActiveCheck;
                        GuardAction::CountHolders { node: self.node.clone() }
                    } else {
                        self.phase = Phase::Waiting;
                        GuardAction::WaitForOpen {
                            node: self.node.clone(),
                            timeout_millis: IDLE_REVALIDATE_MILLIS,
                        }
                    }
                } else if phase == Phase::ActiveCheck {
                    if held {
                        self.phase = Phase::Pinning;
                        GuardAction::PinIfAuto { path: self.path.clone() }
                    } else {
                        self.phase = Phase::Resolving;
                        GuardAction::Resolve
                    }
                } else {
                    self.phase = Phase::Resolving;
                    GuardAction::Resolve
                }
            },
            GuardEvent::Waited(w) => {
                if phase == Phase::Waiting {
                    match w {
                        OpenWait::Opened => {
                            self.phase = Phase::Settling;
                            GuardAction::Sleep { millis: SETTLE_MILLIS }
                        },
                        OpenWait::Error => {
                            self.phase = Phase::Absent;
                            GuardAction::Sleep { millis: ABSENT_POLL_MILLIS }
                        },
                        _ => {
                            self.phase = Phase::Resolving;
                            GuardAction::Resolve
                        },
                    }
                } else {
                    self.phase = Phase::Resolving;
                    GuardAction::Resolve
                }
            },
            GuardEvent::Slept => {
                if phase == Phase::Absent {
                    self.phase = Phase::Resolving;
                    GuardAction::Resolve
                } else if phase == Phase::Settling || phase == Phase::ActiveSleep {
                    self.phase = Phase::ActiveCheck;
                    GuardAction::CountHolders { node: self.node.clone() }
                } else {
                    self.phase = Phase::Resolving;
                    GuardAction::Resolve
                }
            },
            GuardEvent::Pinned => {
                if phase == Phase::Pinning {
                    self.phase = Phase::ActiveSleep;
                    GuardAction::Sleep { millis: ACTIVE_POLL_MILLIS }
                } else {
                    self.phase = Phase::Resolving;
                    GuardAction::Resolve
                }
            },
        }
    }
}

/// Law: the guard opens the camera (to pin white balance) only in the step
/// right after a /proc scan found another process holding the camera, so it
/// never wakes an idle camera. In every other phase, whatever happened, its
/// next action does not open the camera.
pub proof fn lemma_pin_only_when_held(phase: Phase, event: GuardEvent, path: Seq<char>, node: Seq<char>)
    ensures
        action_after(phase, event, path, node) is PinIfAuto <==> (phase == Phase::ActiveCheck
            && event matches GuardEvent::Holders(true)),
{
}


/// inotify event masks (linux/inotify.h).
pub const IN_OPEN: u32 = 0x0000_0020;

pub const IN_DELETE_SELF: u32 = 0x0000_0400;

pub const IN_IGNORED: u32 = 0x0000_8000;

/// Size of `struct inotify_event` before its name.
pub const INOTIFY_EVENT_HEADER: usize = 16;

/// The `u32` at `buf[i..i + 4]`, in little- or big-endian byte order.
pub open spec fn u32_at(buf: Seq<u8>, i: int, little_endian: bool) -> u32 {
    if little_endian {
        (buf[i] as int + 256 * buf[i + 1] + 65536 * buf[i + 2] + 16777216 * buf[i + 3]) as u32
    } else {
        (buf[i + 3] as int + 256 * buf[i + 2] + 65536 * buf[i + 1] + 16777216 * buf[i]) as u32
    }
}

/// What the inotify events from offset `off` on report: the first event that
/// reports the node deleted or its watch removed means `Gone`; else the first
/// that reports an open means `Opened`; no such event means `Timeout`. Each
/// event is a 16-byte header (`wd`, `mask`, `cookie`, `len`) and `len` name
/// bytes; a trailing partial header is ignored.
pub open spec fn events_outcome(buf: Seq<u8>, off: int, little_endian: bool) -> OpenWait
    decreases buf.len() - off,
{
    if off < 0 || off + INOTIFY_EVENT_HEADER > buf.len() {
        OpenWait::Timeout
    } else {
        let mask = u32_at(buf, off + 4, little_endian);
        let len = u32_at(buf, off + 12, little_endian);
        if mask & (IN_DELETE_SELF | IN_IGNORED) != 0 {
            OpenWait::Gone
        } else if mask & IN_OPEN != 0 {
            OpenWait::Opened
        } else if off + INOTIFY_EVENT_HEADER + len > buf.len() {
            OpenWait::Timeout
        } else {
            events_outcome(buf, off + INOTIFY_EVENT_HEADER + len, little_endian)
        }
    }
}

fn read_u32(buf: &[u8], i: usize, little_endian: bool) -> (v: u32)
    requires
        i + 4 <= buf.len(),
    ensures
        v == u32_at(buf@, i as int, little_endian),
{
    let (b0, b1, b2, b3) = if little_endian {
        (buf[i], buf[i + 1], buf[i + 2], buf[i + 3])
    } else {
        (buf[i + 3], buf[i + 2], buf[i + 1], buf[i])
    };
    b0 as u32 + 256 * (b1 as u32) + 65536 * (b2 as u32) + 16777216 * (b3 as u32)
}

/// Classify the events read from the inotify watch (`little_endian`: the
/// machine's byte order, which the kernel writes in).
pub fn inotify_outcome(buf: &[u8], little_endian: bool) -> (w: OpenWait)
    ensures
        w == events_outcome(buf@, 0, little_endian),
{
    let n = buf.len();
    let mut off: u64 = 0;
    while off < n as u64 && n as u64 - off >= 16
        invariant
            n == buf@.len(),
            off <= n,
            events_outcome(buf@, 0, little_endian) == events_outcome(buf@, off as int, little_endian),
        decreases n - off,
    {
        let o = off as usize;
        let mask = read_u32(buf, o + 4, little_endian);
        let len = read_u32(buf, o + 12, little_endian);
        if mask & (IN_DELETE_SELF | IN_IGNORED) != 0 {
            return OpenWait::Gone;
        }
        if mask & IN_OPEN != 0 {
            return OpenWait::Opened;
        }
        let next = match (off + 16).checked_add(len as u64) {
            Some(x) => x,
            None => {
                return OpenWait::Timeout;
            },
        };
        if next > n as u64 {
            return OpenWait::Timeout;
        }
        off = next;
    }
    OpenWait::Timeout
}

/// The process a `/proc` entry stands for, unless it is this one (`me`): the
/// entry's name read as a process id, as `str::parse::<u32>` reads it.
pub fn other_pid(entry: &str, me: u32) -> (r: Option<u32>)
    ensures
        r == (match spec_parse_u32(entry@) {
            Some(p) => if p == me {
                None::<u32>
            } else {
                Some(p)
            },
            None => None,
        }),
{
    match parse_u32(entry) {
        Some(p) => if p == me {
            None
        } else {
            Some(p)
        },
        None => None,
    }
}

/// Law: the guard waits on the open-watch only right after a /proc scan from
/// the idle check found no other process holding the camera.
pub proof fn lemma_wait_only_when_unheld(phase: Phase, event: GuardEvent, path: Seq<char>, node: Seq<char>)
    ensures
        action_after(phase, event, path, node) is WaitForOpen ==> phase == Phase::IdleCheck
            && event matches GuardEvent::Holders(false),
{
}

/// Law: when the guard (re)starts while an app already holds the camera, it
/// skips the idle wait: the idle check's scan finding a holder leads to the
/// active check (another scan, no open-watch), and a second scan finding the
/// holder pins white balance at once.
pub proof fn lemma_held_camera_pinned(path: Seq<char>, node: Seq<char>)
    ensures
        phase_after(Phase::IdleCheck, GuardEvent::Holders(true)) == Phase::ActiveCheck,
        action_after(Phase::IdleCheck, GuardEvent::Holders(true), path, node)
            == (GuardActionView::CountHolders { node }),
        phase_after(Phase::ActiveCheck, GuardEvent::Holders(true)) == Phase::Pinning,
        action_after(Phase::ActiveCheck, GuardEvent::Holders(true), path, node)
            == (GuardActionView::PinIfAuto { path }),
{
}

} // verus!
