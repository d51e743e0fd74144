//! The command line of `t3ctl`: global options, command words, and the
//! arguments of each command, decided here; the binary only performs them.

use crate::device::{self, spec_track_mode_from_str, Status, TrackMode};
use crate::error::Error;
use crate::controls;
use crate::op::{Op, OpView, ops_view};
use crate::text::{parse_i32, spec_parse_i32, str_eq};
use vstd::prelude::*;

verus! {

/// The characters of each argument.
pub open spec fn args_view(args: Seq<String>) -> Seq<Seq<char>> {
    args.map_values(|a: String| a@)
}

/// What the global options before the command word ask for.
pub enum Invocation {
    /// Print the usage text.
    Help,
    /// Run the command word `args[command]` with the arguments after it.
    Run { device: Option<String>, json: bool, command: usize },
}

/// The meaning of the leading global options from position `i` on, given the
/// device path and JSON flag collected so far.
pub enum GlobalsView {
    Help,
    Run { device: Option<Seq<char>>, json: bool, command: int },
    NoCommand,
    MissingDevicePath,
}

pub open spec fn spec_globals(
    args: Seq<Seq<char>>,
    i: int,
    device: Option<Seq<char>>,
    json: bool,
) -> GlobalsView
    decreases args.len() - i,
{
    if i < 0 || i >= args.len() {
        GlobalsView::NoCommand
    } else if args[i] == "-h"@ || args[i] == "--help"@ || args[i] == "help"@ {
        GlobalsView::Help
    } else if args[i] == "--json"@ {
        spec_globals(args, i + 1, device, true)
    } else if args[i] == "--device"@ || args[i] == "-d"@ {
        if i + 1 >= args.len() {
            GlobalsView::MissingDevicePath
        } else {
            spec_globals(args, i + 2, Some(args[i + 1]), json)
        }
    } else {
        GlobalsView::Run { device, json, command: i }
    }
}

/// The view of an optional string.
pub open spec fn opt_view(s: Option<String>) -> Option<Seq<char>> {
    match s {
        Some(x) => Some(x@),
        None => None,
    }
}

/// Read the global options (`-h`/`--help`/`help`, `--json`, `--device PATH`
/// or `-d PATH`) that precede the command word.
pub fn parse_globals(args: &Vec<String>) -> (r: Result<Invocation, Error>)
    ensures
        match spec_globals(args_view(args@), 0, None, false) {
            GlobalsView::Help => r matches Ok(Invocation::Help),
            GlobalsView::Run { device, json, command } => r matches Ok(
                Invocation::Run { device: d, json: j, command: c },
            ) && opt_view(d) == device && j == json && c == command,
            GlobalsView::NoCommand => r matches Err(Error::Usage(m)) && m@ == "no command given"@,
            GlobalsView::MissingDevicePath => r matches Err(Error::Usage(m)) && m@
                == "--device needs a PATH"@,
        },
{
    let ghost av = args_view(args@);
    let mut device: Option<String> = None;
    let mut json = false;
    let mut i: usize = 0;
    while i < args.len()
        invariant
            av == args_view(args@),
            av.len() == args@.len(),
            i <= args@.len(),
            spec_globals(av, 0, None, false) == spec_globals(av, i as int, opt_view(device), json),
        decreases args.len() - i,
    {
        let a = args[i].as_str();
        assert(av[i as int] == a@);
        if str_eq(a, "-h") || str_eq(a, "--help") || str_eq(a, "help") {
            return Ok(Invocation::Help);
        } else if str_eq(a, "--json") {
            json = true;
            i = i + 1;
        } else if str_eq(a, "--device") || str_eq(a, "-d") {
            if i + 1 >= args.len() {
                return Err(Error::Usage(String::from_str("--device needs a PATH")));
            }
            assert(av[i + 1] == args@[i + 1]@);
            device = Some(args[i + 1].clone());
            i = i + 2;
        } else {
            return Ok(Invocation::Run { device, json, command: i });
        }
    }
    Err(Error::Usage(String::from_str("no command given")))
}

/// The commands of `t3ctl`.
#[derive(Debug, Clone, Copy, PartialEq, Eq, Structural)]
pub enum Command {
    Power,
    Sleep,
    Wake,
    Toggle,
    Status,
    Info,
    Track,
    Recenter,
    Pan,
    Tilt,
    Zoom,
    Preset,
    Wb,
    Hdr,
    Fov,
    Exposure,
    FaceAe,
    Reset,
}

/// The command a command word names.
pub open spec fn spec_command(w: Seq<char>) -> Option<Command> {
    if w == "power"@ {
        Some(Command::Power)
    } else if w == "sleep"@ {
        Some(Command::Sleep)
    } else if w == "wake"@ {
        Some(Command::Wake)
    } else if w == "toggle"@ {
        Some(Command::Toggle)
    } else if w == "status"@ {
        Some(Command::Status)
    } else if w == "info"@ {
        Some(Command::Info)
    } else if w == "track"@ {
        Some(Command::Track)
    } else if w == "recenter"@ || w == "park"@ || w == "home"@ {
        Some(Command::Recenter)
    } else if w == "pan"@ {
        Some(Command::Pan)
    } else if w == "tilt"@ {
        Some(Command::Tilt)
    } else if w == "zoom"@ {
        Some(Command::Zoom)
    } else if w == "preset"@ {
        Some(Command::Preset)
    } else if w == "wb"@ {
        Some(Command::Wb)
    } else if w == "hdr"@ {
        Some(Command::Hdr)
    } else if w == "fov"@ {
        Some(Command::Fov)
    } else if w == "exposure"@ {
        Some(Command::Exposure)
    } else if w == "face-ae"@ {
        Some(Command::FaceAe)
    } else if w == "reset"@ {
        Some(Command::Reset)
    } else {
        None
    }
}

/// Law: each command word names the command of the same name (`recenter`,
/// `park` and `home` all name `Recenter`), and no other word names it.
pub proof fn lemma_command_words(w: Seq<char>)
    ensures
        w == "power"@ <==> spec_command(w) == Some(Command::Power),
        w == "sleep"@ <==> spec_command(w) == Some(Command::Sleep),
        w == "wake"@ <==> spec_command(w) == Some(Command::Wake),
        w == "toggle"@ <==> spec_command(w) == Some(Command::Toggle),
        w == "status"@ <==> spec_command(w) == Some(Command::Status),
        w == "info"@ <==> spec_command(w) == Some(Command::Info),
        w == "track"@ <==> spec_command(w) == Some(Command::Track),
        (w == "recenter"@ || w == "park"@ || w == "home"@) <==> spec_command(w) == Some(
            Command::Recenter,
        ),
        w == "pan"@ <==> spec_command(w) == Some(Command::Pan),
        w == "tilt"@ <==> spec_command(w) == Some(Command::Tilt),
        w == "zoom"@ <==> spec_command(w) == Some(Command::Zoom),
        w == "preset"@ <==> spec_command(w) == Some(Command::Preset),
        w == "wb"@ <==> spec_command(w) == Some(Command::Wb),
        w == "hdr"@ <==> spec_command(w) == Some(Command::Hdr),
        w == "fov"@ <==> spec_command(w) == Some(Command::Fov),
        w == "exposure"@ <==> spec_command(w) == Some(Command::Exposure),
        w == "face-ae"@ <==> spec_command(w) == Some(Command::FaceAe),
        w == "reset"@ <==> spec_command(w) == Some(Command::Reset),
{
    reveal_strlit("power");
    reveal_strlit("sleep");
    reveal_strlit("wake");
    reveal_strlit("toggle");
    reveal_strlit("status");
    reveal_strlit("info");
    reveal_strlit("track");
    reveal_strlit("recenter");
    reveal_strlit("park");
    reveal_strlit("home");
    reveal_strlit("pan");
    reveal_strlit("tilt");
    reveal_strlit("zoom");
    reveal_strlit("preset");
    reveal_strlit("wb");
    reveal_strlit("hdr");
    reveal_strlit("fov");
    reveal_strlit("exposure");
    reveal_strlit("face-ae");
    reveal_strlit("reset");
    if w == "power"@ {
        assert(w[0] == 'p' && w.len() == 5);
    }
    if w == "sleep"@ {
        assert(w[0] == 's' && w.len() == 5);
    }
    if w == "wake"@ {
        assert(w[0] == 'w' && w.len() == 4);
    }
    if w == "toggle"@ {
        assert(w[0] == 't' && w.len() == 6);
    }
    if w == "status"@ {
        assert(w[0] == 's' && w.len() == 6);
    }
    if w == "info"@ {
        assert(w[0] == 'i' && w.len() == 4);
    }
    if w == "track"@ {
        assert(w[0] == 't' && w.len() == 5);
    }
    if w == "recenter"@ {
        assert(w[0] == 'r' && w.len() == 8);
    }
    if w == "park"@ {
        assert(w[0] == 'p' && w.len() == 4);
    }
    if w == "home"@ {
        assert(w[0] == 'h' && w.len() == 4);
    }
    if w == "pan"@ {
        assert(w[0] == 'p' && w.len() == 3);
    }
    if w == "tilt"@ {
        assert(w[0] == 't' && w.len() == 4);
    }
    if w == "zoom"@ {
        assert(w[0] == 'z' && w.len() == 4);
    }
    if w == "preset"@ {
        assert(w[0] == 'p' && w.len() == 6);
    }
    if w == "wb"@ {
        assert(w[0] == 'w' && w.len() == 2);
    }
    if w == "hdr"@ {
        assert(w[0] == 'h' && w.len() == 3);
    }
    if w == "fov"@ {
        assert(w[0] == 'f' && w.len() == 3);
    }
    if w == "exposure"@ {
        assert(w[0] == 'e' && w.len() == 8);
    }
    if w == "face-ae"@ {
        assert(w[0] == 'f' && w.len() == 7);
    }
    if w == "reset"@ {
        assert(w[0] == 'r' && w.len() == 5);
    }
}

impl Command {
    /// The command a command word names, or the usage error for an unknown one.
    pub fn from_word(w: &str) -> (r: Result<Command, Error>)
        ensures
            match spec_command(w@) {
                Some(c) => r == Ok::<Command, Error>(c),
                None => r matches Err(Error::Usage(m)) && m@ == "unknown command '"@ + w@ + "'"@,
            },
    {
        if str_eq(w, "power") {
            Ok(Command::Power)
        } else if str_eq(w, "sleep") {
            Ok(Command::Sleep)
        } else if str_eq(w, "wake") {
            Ok(Command::Wake)
        } else if str_eq(w, "toggle") {
            Ok(Command::Toggle)
        } else if str_eq(w, "status") {
            Ok(Command::Status)
        } else if str_eq(w, "info") {
            Ok(Command::Info)
        } else if str_eq(w, "track") {
            Ok(Command::Track)
        } else if str_eq(w, "recenter") || str_eq(w, "park") || str_eq(w, "home") {
            Ok(Command::Recenter)
        } else if str_eq(w, "pan") {
            Ok(Command::Pan)
        } else if str_eq(w, "tilt") {
            Ok(Command::Tilt)
        } else if str_eq(w, "zoom") {
            Ok(Command::Zoom)
        } else if str_eq(w, "preset") {
            Ok(Command::Preset)
        } else if str_eq(w, "wb") {
            Ok(Command::Wb)
        } else if str_eq(w, "hdr") {
            Ok(Command::Hdr)
        } else if str_eq(w, "fov") {
            Ok(Command::Fov)
        } else if str_eq(w, "exposure") {
            Ok(Command::Exposure)
        } else if str_eq(w, "face-ae") {
            Ok(Command::FaceAe)
        } else if str_eq(w, "reset") {
            Ok(Command::Reset)
        } else {
            let mut m = String::from_str("unknown command '");
            m.append(w);
            m.append("'");
            Err(Error::Usage(m))
        }
    }

    /// Whether the command opens the camera (every command but `power`, which
    /// reads sysfs only, so as not to wake the camera).
    pub fn opens_device(self) -> (b: bool)
        ensures
            b == (self != Command::Power),
    {
        !matches!(self, Command::Power)
    }
}

/// The first argument after the command word, or the usage error
/// `expected {what}`.
pub fn need_arg<'a>(rest: &'a [String], what: &str) -> (r: Result<&'a String, Error>)
    ensures
        rest@.len() > 0 ==> r == Ok::<&String, Error>(&rest@[0]),
        rest@.len() == 0 ==> (r matches Err(Error::Usage(m)) && m@ == "expected "@ + what@),
{
    if rest.len() == 0 {
        let mut m = String::from_str("expected ");
        m.append(what);
        return Err(Error::Usage(m));
    }
    Ok(&rest[0])
}

/// The usage error for an argument that should have been a number.
pub fn not_a_number(what: &str) -> (e: Error)
    ensures
        e matches Error::Usage(m) && m@ == what@ + " must be a number"@,
{
    let mut m = String::from_str(what);
    m.append(" must be a number");
    Error::Usage(m)
}

/// The first argument as an `i32`.
pub fn need_i32(rest: &[String], what: &str) -> (r: Result<i32, Error>)
    ensures
        rest@.len() == 0 ==> (r matches Err(Error::Usage(m)) && m@ == "expected "@ + what@),
        rest@.len() > 0 ==> match spec_parse_i32(rest@[0]@) {
            Some(v) => r == Ok::<i32, Error>(v),
            None => r matches Err(Error::Usage(m)) && m@ == what@ + " must be an integer"@,
        },
{
    let a = need_arg(rest, what)?;
    match parse_i32(a.as_str()) {
        Some(v) => Ok(v),
        None => {
            let mut m = String::from_str(what);
            m.append(" must be an integer");
            Err(Error::Usage(m))
        },
    }
}

/// `on`/`true`/`1` mean on; `off`/`false`/`0` mean off.
pub open spec fn spec_on_off(w: Seq<char>) -> Option<bool> {
    if w == "on"@ || w == "true"@ || w == "1"@ {
        Some(true)
    } else if w == "off"@ || w == "false"@ || w == "0"@ {
        Some(false)
    } else {
        None
    }
}

/// Law: `on`, `true` and `1` are read as on, `off`, `false` and `0` as off,
/// and no other word is read either way.
pub proof fn lemma_on_off_words(w: Seq<char>)
    ensures
        (w == "on"@ || w == "true"@ || w == "1"@) <==> spec_on_off(w) == Some(true),
        (w == "off"@ || w == "false"@ || w == "0"@) <==> spec_on_off(w) == Some(false),
{
    reveal_strlit("on");
    reveal_strlit("true");
    reveal_strlit("1");
    reveal_strlit("off");
    reveal_strlit("false");
    reveal_strlit("0");
    if w == "on"@ {
        assert(w[0] == 'o' && w.len() == 2);
    }
    if w == "true"@ {
        assert(w[0] == 't' && w.len() == 4);
    }
    if w == "1"@ {
        assert(w[0] == '1' && w.len() == 1);
    }
    if w == "off"@ {
        assert(w[0] == 'o' && w.len() == 3);
    }
    if w == "false"@ {
        assert(w[0] == 'f' && w.len() == 5);
    }
    if w == "0"@ {
        assert(w[0] == '0' && w.len() == 1);
    }
}

/// The first argument as on/off.
pub fn need_on_off(rest: &[String], what: &str) -> (r: Result<bool, Error>)
    ensures
        match (if rest@.len() > 0 { spec_on_off(rest@[0]@) } else { None }) {
            Some(b) => r == Ok::<bool, Error>(b),
            None => r matches Err(Error::Usage(m)) && m@ == what@ + " on|off"@,
        },
{
    if rest.len() > 0 {
        let a = rest[0].as_str();
        if str_eq(a, "on") || str_eq(a, "true") || str_eq(a, "1") {
            return Ok(true);
        } else if str_eq(a, "off") || str_eq(a, "false") || str_eq(a, "0") {
            return Ok(false);
        }
    }
    let mut m = String::from_str(what);
    m.append(" on|off");
    Err(Error::Usage(m))
}

/// `on` or `off`.
pub fn onoff(b: bool) -> (s: &'static str)
    ensures
        s@ == (if b { "on"@ } else { "off"@ }),
{
    if b {
        "on"
    } else {
        "off"
    }
}


/// What `track` was asked to do.
#[derive(Debug, Clone, Copy, PartialEq, Eq, Structural)]
pub enum TrackAction {
    /// Tracking off when on, `Normal` when off.
    Toggle,
    /// Tracking speed: sport (`true`) or standard.
    Speed(bool),
    /// Select a tracking mode.
    Mode(TrackMode),
}

/// The arguments of `track`.
pub open spec fn spec_track_args(rest: Seq<Seq<char>>) -> Option<TrackAction> {
    if rest.len() == 0 {
        None
    } else if rest[0] == "toggle"@ {
        Some(TrackAction::Toggle)
    } else if rest[0] == "speed"@ {
        if rest.len() > 1 && (rest[1] == "sport"@ || rest[1] == "fast"@) {
            Some(TrackAction::Speed(true))
        } else if rest.len() > 1 && (rest[1] == "std"@ || rest[1] == "standard"@ || rest[1]
            == "normal"@) {
            Some(TrackAction::Speed(false))
        } else {
            None
        }
    } else {
        match spec_track_mode_from_str(rest[0]) {
            Some(m) => Some(TrackAction::Mode(m)),
            None => None,
        }
    }
}

/// Read the arguments of `track`: `toggle`, `speed std|sport`, or a mode name.
pub fn track_args(rest: &[String]) -> (r: Result<TrackAction, Error>)
    ensures
        match spec_track_args(args_view(rest@)) {
            Some(a) => r == Ok::<TrackAction, Error>(a),
            None => if rest@.len() == 0 {
                r matches Err(Error::Usage(m)) && m@ == "track needs on|off|toggle|<mode>|speed"@
            } else if rest@[0]@ == "speed"@ {
                r matches Err(Error::Usage(m)) && m@ == "track speed std|sport"@
            } else {
                r matches Err(Error::Usage(m)) && m@ == "unknown tracking mode '"@ + rest@[0]@
                    + "'"@
            },
        },
{
    let ghost av = args_view(rest@);
    if rest.len() == 0 {
        return Err(Error::Usage(String::from_str("track needs on|off|toggle|<mode>|speed")));
    }
    let arg = rest[0].as_str();
    assert(av[0] == arg@);
    if str_eq(arg, "toggle") {
        return Ok(TrackAction::Toggle);
    }
    if str_eq(arg, "speed") {
        if rest.len() > 1 {
            let s = rest[1].as_str();
            assert(av[1] == s@);
            if str_eq(s, "sport") || str_eq(s, "fast") {
                return Ok(TrackAction::Speed(true));
            } else if str_eq(s, "std") || str_eq(s, "standard") || str_eq(s, "normal") {
                return Ok(TrackAction::Speed(false));
            }
        }
        return Err(Error::Usage(String::from_str("track speed std|sport")));
    }
    match TrackMode::from_str(arg) {
        Some(m) => Ok(TrackAction::Mode(m)),
        None => {
            let mut m = String::from_str("unknown tracking mode '");
            m.append(arg);
            m.append("'");
            Err(Error::Usage(m))
        },
    }
}

/// `track toggle`: off when tracking is on, `Normal` when it is off; with the
/// word to print.
pub fn track_toggle(current: TrackMode) -> (r: (TrackMode, &'static str))
    ensures
        current != TrackMode::Off ==> r.0 == TrackMode::Off && r.1@ == "off"@,
        current == TrackMode::Off ==> r.0 == TrackMode::Normal && r.1@ == "on"@,
{
    if current != TrackMode::Off {
        (TrackMode::Off, "off")
    } else {
        (TrackMode::Normal, "on")
    }
}

/// `toggle`: wake a sleeping camera, put an awake one to sleep. Reading the
/// vendor sleep bit does not wake the camera. Returns the operations and the
/// word for the resulting state.
pub fn power_toggle(st: &Status, seq: u16) -> (r: (Vec<Op>, &'static str))
    ensures
        st.asleep ==> ops_view(r.0@) == device::wake_ops(seq) && r.1@ == "awake"@,
        !st.asleep ==> ops_view(r.0@) == device::sleep_ops(seq) && r.1@ == "asleep"@,
{
    if st.asleep {
        (device::wake(seq), "awake")
    } else {
        (device::sleep(seq), "asleep")
    }
}

/// What `preset` was asked to do.
pub enum PresetAction {
    List,
    Save(String),
    Recall(String),
}

/// Read the arguments of `preset`: `list`, `save <name>`, `recall <name>`
/// (alias `load`).
pub fn preset_args(rest: &[String]) -> (r: Result<PresetAction, Error>)
    ensures
        if rest@.len() > 0 && rest@[0]@ == "list"@ {
            r matches Ok(PresetAction::List)
        } else if rest@.len() > 0 && rest@[0]@ == "save"@ {
            if rest@.len() > 1 {
                r matches Ok(PresetAction::Save(n)) && n@ == rest@[1]@
            } else {
                r matches Err(Error::Usage(m)) && m@ == "preset save <name>"@
            }
        } else if rest@.len() > 0 && (rest@[0]@ == "recall"@ || rest@[0]@ == "load"@) {
            if rest@.len() > 1 {
                r matches Ok(PresetAction::Recall(n)) && n@ == rest@[1]@
            } else {
                r matches Err(Error::Usage(m)) && m@ == "preset recall <name>"@
            }
        } else {
            r matches Err(Error::Usage(m)) && m@ == "preset save|recall|list"@
        },
{
    if rest.len() > 0 {
        let a = rest[0].as_str();
        if str_eq(a, "list") {
            return Ok(PresetAction::List);
        } else if str_eq(a, "save") {
            if rest.len() > 1 {
                return Ok(PresetAction::Save(rest[1].clone()));
            }
            return Err(Error::Usage(String::from_str("preset save <name>")));
        } else if str_eq(a, "recall") || str_eq(a, "load") {
            if rest.len() > 1 {
                return Ok(PresetAction::Recall(rest[1].clone()));
            }
            return Err(Error::Usage(String::from_str("preset recall <name>")));
        }
    }
    Err(Error::Usage(String::from_str("preset save|recall|list")))
}

/// What `wb` was asked to do.
#[derive(Debug, Clone, Copy, PartialEq, Eq, Structural)]
pub enum WbAction {
    Auto,
    Temp(i32),
    /// Pin to the temperature of the config file.
    Pin,
}

/// Read the arguments of `wb`: `auto`, `temp <kelvin>`, `pin`.
pub fn wb_args(rest: &[String]) -> (r: Result<WbAction, Error>)
    ensures
        if rest@.len() > 0 && rest@[0]@ == "auto"@ {
            r == Ok::<WbAction, Error>(WbAction::Auto)
        } else if rest@.len() > 0 && rest@[0]@ == "temp"@ {
            if rest@.len() > 1 {
                match spec_parse_i32(rest@[1]@) {
                    Some(t) => r == Ok::<WbAction, Error>(WbAction::Temp(t)),
                    None => r matches Err(Error::Usage(m)) && m@
                        == "white balance temperature must be an integer"@,
                }
            } else {
                r matches Err(Error::Usage(m)) && m@ == "expected white balance temperature"@
            }
        } else if rest@.len() > 0 && rest@[0]@ == "pin"@ {
            r == Ok::<WbAction, Error>(WbAction::Pin)
        } else {
            r matches Err(Error::Usage(m)) && m@ == "wb auto | wb temp <2000..10000> | wb pin"@
        },
{
    if rest.len() > 0 {
        let a = rest[0].as_str();
        if str_eq(a, "auto") {
            return Ok(WbAction::Auto);
        } else if str_eq(a, "temp") {
            if rest.len() < 2 {
                return Err(Error::Usage(String::from_str("expected white balance temperature")));
            }
            return match parse_i32(rest[1].as_str()) {
                Some(t) => Ok(WbAction::Temp(t)),
                None => Err(
                    Error::Usage(String::from_str("white balance temperature must be an integer")),
                ),
            };
        } else if str_eq(a, "pin") {
            return Ok(WbAction::Pin);
        }
    }
    let m = String::from_str("wb auto | wb temp <2000..10000> | wb pin");
    Err(Error::Usage(m))
}

/// Read the argument of `fov`: `wide` (0), `medium`/`med` (1), `narrow` (2).
pub fn fov_args(rest: &[String]) -> (r: Result<u8, Error>)
    ensures
        if rest@.len() > 0 && rest@[0]@ == "wide"@ {
            r == Ok::<u8, Error>(0)
        } else if rest@.len() > 0 && (rest@[0]@ == "medium"@ || rest@[0]@ == "med"@) {
            r == Ok::<u8, Error>(1)
        } else if rest@.len() > 0 && rest@[0]@ == "narrow"@ {
            r == Ok::<u8, Error>(2)
        } else {
            r matches Err(Error::Usage(m)) && m@ == "fov wide|medium|narrow"@
        },
{
    if rest.len() > 0 {
        let a = rest[0].as_str();
        if str_eq(a, "wide") {
            return Ok(0);
        } else if str_eq(a, "medium") || str_eq(a, "med") {
            return Ok(1);
        } else if str_eq(a, "narrow") {
            return Ok(2);
        }
    }
    Err(Error::Usage(String::from_str("fov wide|medium|narrow")))
}

/// What `exposure` was asked to do.
#[derive(Debug, Clone, Copy, PartialEq, Eq, Structural)]
pub enum ExposureAction {
    Auto,
    Manual(i32),
}

/// Read the argument of `exposure`: `auto` or a manual exposure time.
pub fn exposure_args(rest: &[String]) -> (r: Result<ExposureAction, Error>)
    ensures
        if rest@.len() > 0 && rest@[0]@ == "auto"@ {
            r == Ok::<ExposureAction, Error>(ExposureAction::Auto)
        } else if rest@.len() > 0 && spec_parse_i32(rest@[0]@) is Some {
            r == Ok::<ExposureAction, Error>(ExposureAction::Manual(spec_parse_i32(rest@[0]@)->0))
        } else {
            r matches Err(Error::Usage(m)) && m@ == "exposure auto|<1..2500>"@
        },
{
    if rest.len() > 0 {
        let a = rest[0].as_str();
        if str_eq(a, "auto") {
            return Ok(ExposureAction::Auto);
        }
        match parse_i32(a) {
            Some(v) => {
                return Ok(ExposureAction::Manual(v));
            },
            None => {},
        }
    }
    Err(Error::Usage(String::from_str("exposure auto|<1..2500>")))
}

/// `reset`: the safe defaults — awake, tracking off, recentered, auto white
/// balance, in that order.
pub fn reset(seq: u16) -> (ops: Vec<Op>)
    ensures
        ops_view(ops@) == device::wake_ops(seq) + device::tracking_ops(TrackMode::Off)
            + device::recenter_ops() + device::wb_auto_ops(),
{
    let mut ops = device::wake(seq);
    let mut t = device::set_tracking(TrackMode::Off);
    let mut c = device::recenter();
    let mut w = device::set_wb_auto();
    let ghost (a, b, cc, d) = (ops@, t@, c@, w@);
    ops.append(&mut t);
    ops.append(&mut c);
    ops.append(&mut w);
    assert(ops@ == a + b + cc + d);
    assert(ops_view(ops@) =~= ops_view(a) + ops_view(b) + ops_view(cc) + ops_view(d));
    ops
}

/// `preset recall`: move to a saved preset — zoom first, then pan, then tilt
/// (each angle, in arc-seconds, clamped to its range). A saved zoom out of
/// range is refused with the zoom range error before anything is sent.
pub fn recall_preset(zoom: i32, pan_asec: i32, tilt_asec: i32) -> (r: Result<Vec<Op>, Error>)
    ensures
        0 <= zoom <= 100 ==> (r matches Ok(ops) && ops_view(ops@) == seq![
            OpView::SetCtrl { id: controls::CID_ZOOM_ABSOLUTE, value: zoom },
            OpView::SetCtrl {
                id: controls::CID_PAN_ABSOLUTE,
                value: device::clamped(pan_asec, controls::PAN_MAX),
            },
            OpView::SetCtrl {
                id: controls::CID_TILT_ABSOLUTE,
                value: device::clamped(tilt_asec, controls::TILT_MAX),
            },
        ]),
        !(0 <= zoom <= 100) ==> r == Err::<Vec<Op>, Error>(
            Error::OutOfRange { what: "zoom", min: 0, max: 100, got: zoom as i64 },
        ),
{
    let mut ops = match device::set_zoom(zoom) {
        Ok(z) => z,
        Err(e) => return Err(e),
    };
    let mut p = device::set_pan_asec(pan_asec);
    let mut t = device::set_tilt_asec(tilt_asec);
    let ghost (a, b, c) = (ops@, p@, t@);
    ops.append(&mut p);
    ops.append(&mut t);
    assert(ops@ == a + b + c);
    assert(ops_view(ops@) =~= ops_view(a) + ops_view(b) + ops_view(c));
    Ok(ops)
}

} // verus!
