use obsbot_tiny3::cli::{
    self, Command, ExposureAction, Invocation, PresetAction, TrackAction, WbAction,
};
use obsbot_tiny3::config::{self, Config};
use obsbot_tiny3::device::{self, Status, TrackMode};
use obsbot_tiny3::discover;
use obsbot_tiny3::error::Error;
use obsbot_tiny3::guard::{self, GuardAction, GuardArgs, GuardEvent, GuardState, OpenWait, Phase};
use obsbot_tiny3::op::Op;
use obsbot_tiny3::text;

fn strings(v: &[&str]) -> Vec<String> {
    v.iter().map(|s| s.to_string()).collect()
}

fn usage(r: Result<impl std::fmt::Debug, Error>) -> String {
    match r {
        Err(Error::Usage(m)) => m,
        other => panic!("expected a usage error, got {other:?}"),
    }
}

#[test]
fn config_text_parses() {
    let kv = config::parse("# comment\n\n wb_temp = 4500 \r\nnoequals\nkey=a=b\n#x=1\nwb_temp=3000\n");
    assert_eq!(kv.get("wb_temp").map(String::as_str), Some("3000"));
    assert_eq!(kv.get("key").map(String::as_str), Some("a=b"));
    assert_eq!(kv.get("noequals"), None);
    assert_eq!(kv.get("#x"), None);
    assert_eq!(kv.entries.len(), 3);
    assert_eq!(config::parse("").entries.len(), 0);
    assert_eq!(config::parse("a = \t").get("a").map(String::as_str), Some(""));
}

#[test]
fn config_load_order_and_defaults() {
    assert_eq!(Config::default().wb_temp, 4000);
    assert_eq!(Config::load(&vec![]).wb_temp, 4000);
    assert_eq!(Config::load(&vec![None, Some("wb_temp = 5200".to_string())]).wb_temp, 5200);
    // The first readable file wins, even when it sets nothing.
    assert_eq!(
        Config::load(&vec![Some("other = 1".to_string()), Some("wb_temp = 5200".to_string())]).wb_temp,
        4000
    );
    assert_eq!(Config::load(&vec![Some("wb_temp = warm".to_string())]).wb_temp, 4000);
    assert_eq!(Config::load(&vec![Some("wb_temp = +3100".to_string())]).wb_temp, 3100);
}

#[test]
fn config_paths() {
    assert_eq!(config::config_dir(Some("/x/cfg"), Some("/home/u")), "/x/cfg/obsbot-tiny3");
    assert_eq!(config::config_dir(Some(""), Some("/home/u")), "/home/u/.config/obsbot-tiny3");
    assert_eq!(config::config_dir(None, None), "/root/.config/obsbot-tiny3");
    assert_eq!(config::config_dir(Some("/x/"), None), "/x/obsbot-tiny3");
    assert_eq!(config::config_dir(None, Some("")), ".config/obsbot-tiny3");
    assert_eq!(config::config_path(None, Some("/h")), "/h/.config/obsbot-tiny3/config");
    assert_eq!(config::presets_dir(None, Some("/h")), "/h/.config/obsbot-tiny3/presets");
}

#[test]
fn preset_names_and_files() {
    assert!(config::valid_name("desk_2-A"));
    assert!(!config::valid_name(""));
    assert!(!config::valid_name("a/b"));
    assert!(!config::valid_name("ü"));
    assert!(config::valid_name(&"a".repeat(64)));
    assert!(!config::valid_name(&"a".repeat(65)));
    assert_eq!(config::save_preset_path("/p", "desk").unwrap(), "/p/desk");
    assert_eq!(
        usage(config::save_preset_path("/p", "../x")),
        "invalid preset name '../x' (use letters, digits, - and _)"
    );
    assert_eq!(usage(config::load_preset_path("/p", "a b")), "invalid preset name 'a b'");
    match config::no_preset_error("desk") {
        Error::Config(m) => assert_eq!(m, "no preset named 'desk'"),
        _ => panic!(),
    }
    assert_eq!(config::preset_body("1.5", "-2", 40), "pan_deg = 1.5\ntilt_deg = -2\nzoom = 40\n");
    let f = config::preset_fields("pan_deg = 1.5\ntilt_deg = -2\nzoom = 40\n");
    assert_eq!(f.pan_deg.as_deref(), Some("1.5"));
    assert_eq!(f.tilt_deg.as_deref(), Some("-2"));
    assert_eq!(f.zoom, 40);
    assert_eq!(config::preset_fields("zoom = x").zoom, 0);
    let sorted = config::sort_names(&strings(&["b", "a", "B", "ab", "a"]));
    assert_eq!(sorted, strings(&["B", "a", "a", "ab", "b"]));
}

#[test]
fn integers_parse_like_std() {
    for s in ["0", "+5", "-0", "-2147483648", "2147483647", "0000000000000000000012", "1x", "", "+", "-", " 1", "2147483648", "-2147483649", "99999999999999999999"] {
        assert_eq!(text::parse_i32(s), s.parse::<i32>().ok(), "{s:?}");
    }
    assert_eq!(text::decimal(i64::MIN), i64::MIN.to_string());
    assert_eq!(text::decimal(0), "0");
    assert_eq!(text::decimal(-45), "-45");
    assert_eq!(text::trim_str("\u{3000} a b\t\n"), "a b");
    assert!(text::str_eq("abc", "abc") && !text::str_eq("abc", "abd"));
}

#[test]
fn camera_node_names() {
    assert!(discover::is_camera_node("usb-Remo_Tech_Co.__Ltd._OBSBOT_Tiny_3_Lite-video-index0"));
    assert!(discover::is_camera_node("usb-x-obsbot_TINY_3-VIDEO-INDEX0"));
    assert!(!discover::is_camera_node("usb-Remo_Tech_Co.__Ltd._OBSBOT_Tiny_3_Lite-video-index1"));
    assert!(!discover::is_camera_node("usb-OBSBOT_Tiny_2-video-index0"));
    let names = strings(&[
        "usb-b_OBSBOT_Tiny_3-video-index0",
        "usb-a_OBSBOT_Tiny_3-video-index1",
        "usb-c_OBSBOT_Tiny_3_SE-video-index0",
        "usb-a_OBSBOT_Tiny_3_Lite-video-index0",
    ]);
    assert_eq!(
        discover::find_device(&names).unwrap(),
        "/dev/v4l/by-id/usb-a_OBSBOT_Tiny_3_Lite-video-index0"
    );
    match discover::find_device(&strings(&["usb-other-video-index0"])) {
        Err(Error::DeviceNotFound(m)) => assert!(m.starts_with("no 'OBSBOT_Tiny_3*-video-index0'")),
        _ => panic!("no camera must be reported"),
    }
    assert_eq!(discover::sysfs_device_dir("/dev/video2"), "/sys/class/video4linux/video2/device");
    assert_eq!(discover::sysfs_device_dir("video0"), "/sys/class/video4linux/video0/device");
    assert!(matches!(discover::power_probe_step(0, true, true), discover::PowerProbe::Read));
    assert!(matches!(discover::power_probe_step(3, true, false), discover::PowerProbe::Ascend));
    assert!(matches!(discover::power_probe_step(8, true, true), discover::PowerProbe::GiveUp));
}

#[test]
fn global_options() {
    match cli::parse_globals(&strings(&["--json", "-d", "/dev/x", "zoom", "5"])).unwrap() {
        Invocation::Run { device, json, command } => {
            assert_eq!(device.as_deref(), Some("/dev/x"));
            assert!(json);
            assert_eq!(command, 3);
        }
        Invocation::Help => panic!(),
    }
    assert!(matches!(cli::parse_globals(&strings(&["--json", "help"])), Ok(Invocation::Help)));
    assert_eq!(usage(cli::parse_globals(&strings(&["--json"])).map(|_| ())), "no command given");
    assert_eq!(usage(cli::parse_globals(&strings(&["--device"])).map(|_| ())), "--device needs a PATH");
    // Help after the command word is the command's argument, not a global.
    assert!(matches!(cli::parse_globals(&strings(&["sleep", "-h"])), Ok(Invocation::Run { command: 0, .. })));
}

#[test]
fn command_words() {
    assert_eq!(Command::from_word("home").unwrap(), Command::Recenter);
    assert_eq!(Command::from_word("face-ae").unwrap(), Command::FaceAe);
    assert_eq!(usage(Command::from_word("dance")), "unknown command 'dance'");
    assert!(!Command::Power.opens_device());
    assert!(Command::Status.opens_device());
    assert_eq!(usage(cli::need_i32(&[], "zoom 0..100")), "expected zoom 0..100");
    assert_eq!(usage(cli::need_i32(&strings(&["x"]), "zoom 0..100")), "zoom 0..100 must be an integer");
    assert_eq!(cli::need_i32(&strings(&["-7"]), "n").unwrap(), -7);
    assert!(cli::need_on_off(&strings(&["true"]), "hdr").unwrap());
    assert!(!cli::need_on_off(&strings(&["0"]), "hdr").unwrap());
    assert_eq!(usage(cli::need_on_off(&strings(&["maybe"]), "hdr")), "hdr on|off");
    assert_eq!(cli::onoff(true), "on");
    match cli::not_a_number("pan degrees") {
        Error::Usage(m) => assert_eq!(m, "pan degrees must be a number"),
        _ => panic!(),
    }
}

#[test]
fn command_arguments() {
    assert_eq!(cli::track_args(&strings(&["toggle"])).unwrap(), TrackAction::Toggle);
    assert_eq!(cli::track_args(&strings(&["speed", "fast"])).unwrap(), TrackAction::Speed(true));
    assert_eq!(cli::track_args(&strings(&["on"])).unwrap(), TrackAction::Mode(TrackMode::Normal));
    assert_eq!(usage(cli::track_args(&strings(&["speed"]))), "track speed std|sport");
    assert_eq!(usage(cli::track_args(&strings(&["spin"]))), "unknown tracking mode 'spin'");
    assert_eq!(usage(cli::track_args(&[])), "track needs on|off|toggle|<mode>|speed");
    assert!(matches!(cli::preset_args(&strings(&["load", "desk"])), Ok(PresetAction::Recall(n)) if n == "desk"));
    assert_eq!(usage(cli::preset_args(&strings(&["save"])).map(|_| ())), "preset save <name>");
    assert_eq!(usage(cli::preset_args(&[]).map(|_| ())), "preset save|recall|list");
    assert_eq!(cli::wb_args(&strings(&["temp", "4200"])).unwrap(), WbAction::Temp(4200));
    assert_eq!(usage(cli::wb_args(&strings(&["temp"]))), "expected white balance temperature");
    assert_eq!(usage(cli::wb_args(&strings(&["hot"]))), "wb auto | wb temp <2000..10000> | wb pin");
    assert_eq!(cli::fov_args(&strings(&["med"])).unwrap(), 1);
    assert_eq!(usage(cli::fov_args(&strings(&["ultra"]))), "fov wide|medium|narrow");
    assert_eq!(cli::exposure_args(&strings(&["330"])).unwrap(), ExposureAction::Manual(330));
    assert_eq!(cli::exposure_args(&strings(&["auto"])).unwrap(), ExposureAction::Auto);
    assert_eq!(usage(cli::exposure_args(&[])), "exposure auto|<1..2500>");
}

#[test]
fn toggles_and_reset() {
    assert_eq!(cli::track_toggle(TrackMode::Hand), (TrackMode::Off, "off"));
    assert_eq!(cli::track_toggle(TrackMode::Off), (TrackMode::Normal, "on"));
    let mut st = Status::decode(&[0u8; 60], None, None, None, None, None, None);
    assert!(!st.asleep);
    let (ops, word) = cli::power_toggle(&st, 3);
    assert_eq!(word, "asleep");
    assert!(matches!(&ops[0], Op::XuSet { data, .. } if data[16] == 1));
    st.asleep = true;
    assert_eq!(cli::power_toggle(&st, 3).1, "awake");
    let ops = cli::reset(11);
    assert_eq!(ops.len(), 5);
    assert!(matches!(&ops[0], Op::XuSet { selector: 2, .. }));
    assert!(matches!(&ops[1], Op::XuSet { selector: 6, data, .. } if data[..4] == [0x16, 2, 0, 0]));
    assert!(matches!(ops[4], Op::SetCtrl { id: obsbot_tiny3::controls::CID_AUTO_WHITE_BALANCE, value: 1 }));
}

#[test]
fn guard_arguments() {
    match guard::parse_guard_args(&strings(&["-t", "5000", "--once", "--device", "/dev/v"]), 4000) {
        GuardArgs::Run { temp, device, once } => {
            assert_eq!(temp, 5000);
            assert_eq!(device.as_deref(), Some("/dev/v"));
            assert!(once);
        }
        _ => panic!(),
    }
    match guard::parse_guard_args(&strings(&["--temp", "hot"]), 4100) {
        GuardArgs::Run { temp, .. } => assert_eq!(temp, 4100),
        _ => panic!(),
    }
    assert!(matches!(guard::parse_guard_args(&strings(&["--bogus"]), 0), GuardArgs::Unknown(a) if a == "--bogus"));
    assert!(matches!(guard::parse_guard_args(&strings(&["--help"]), 0), GuardArgs::Help));
    assert!(guard::temp_in_range(2000) && !guard::temp_in_range(10001));
}

#[test]
fn guard_cycle() {
    let (mut g, a) = GuardState::new();
    assert!(matches!(a, GuardAction::Resolve));
    // Absent camera: back off, then look again.
    assert!(matches!(g.step(GuardEvent::Resolved(None)), GuardAction::Sleep { millis: 5000 }));
    assert!(matches!(g.step(GuardEvent::Slept), GuardAction::Resolve));
    let found = Some(("/dev/v4l/by-id/cam".to_string(), "/dev/video0".to_string()));
    assert!(matches!(g.step(GuardEvent::Resolved(found)), GuardAction::CountHolders { node } if node == "/dev/video0"));
    // Idle: wait on the open-watch, holding nothing.
    assert!(matches!(g.step(GuardEvent::Holders(false)), GuardAction::WaitForOpen { timeout_millis: 60000, .. }));
    assert!(matches!(g.step(GuardEvent::Waited(OpenWait::Opened)), GuardAction::Sleep { millis: 1500 }));
    assert!(matches!(g.step(GuardEvent::Slept), GuardAction::CountHolders { .. }));
    // Active: an app holds it, so pinning may open the camera.
    assert!(matches!(g.step(GuardEvent::Holders(true)), GuardAction::PinIfAuto { path } if path == "/dev/v4l/by-id/cam"));
    assert!(matches!(g.step(GuardEvent::Pinned), GuardAction::Sleep { millis: 2000 }));
    assert!(matches!(g.step(GuardEvent::Slept), GuardAction::CountHolders { .. }));
    assert!(matches!(g.step(GuardEvent::Holders(false)), GuardAction::Resolve));
    assert_eq!(g.phase, Phase::Resolving);
}

#[test]
fn guard_never_opens_an_idle_camera() {
    let (mut g, _) = GuardState::new();
    g.step(GuardEvent::Resolved(Some(("p".to_string(), "r".to_string()))));
    // Whatever arrives while idle, no action opens the camera.
    assert!(!matches!(g.step(GuardEvent::Holders(false)), GuardAction::PinIfAuto { .. }));
    assert!(!matches!(g.step(GuardEvent::Waited(OpenWait::Timeout)), GuardAction::PinIfAuto { .. }));
    assert!(!matches!(g.step(GuardEvent::Holders(true)), GuardAction::PinIfAuto { .. }));
    assert!(!matches!(g.step(GuardEvent::Pinned), GuardAction::PinIfAuto { .. }));
    // An inotify failure backs off like an absent camera.
    let (mut h, _) = GuardState::new();
    h.step(GuardEvent::Resolved(Some(("p".to_string(), "r".to_string()))));
    h.step(GuardEvent::Holders(false));
    assert!(matches!(h.step(GuardEvent::Waited(OpenWait::Error)), GuardAction::Sleep { millis: 5000 }));
    assert_eq!(h.phase, Phase::Absent);
}

#[test]
fn error_messages() {
    assert_eq!(Error::NoReply("uuid").message(), "no reply from camera for uuid");
    assert_eq!(Error::Config("bad".into()).message(), "config error: bad");
    assert_eq!(Error::DeviceNotFound("x".into()).message(), "no OBSBOT Tiny 3 camera found: x");
    assert_eq!(Error::Usage("u".into()).message(), "u");
    let io = Error::Io(std::io::Error::new(std::io::ErrorKind::Other, "boom"));
    assert_eq!(io.message(), "boom");
    let _ = device::set_wb_auto();
}

fn event(mask: u32, name_len: u32, le: bool) -> Vec<u8> {
    let enc = |v: u32| if le { v.to_le_bytes() } else { v.to_be_bytes() };
    let mut e = Vec::new();
    e.extend_from_slice(&enc(1));
    e.extend_from_slice(&enc(mask));
    e.extend_from_slice(&enc(0));
    e.extend_from_slice(&enc(name_len));
    e.extend(std::iter::repeat(0u8).take(name_len as usize));
    e
}

#[test]
fn inotify_events_classify() {
    let mut buf = event(0x2, 16, true);
    buf.extend(event(guard::IN_OPEN, 0, true));
    assert_eq!(guard::inotify_outcome(&buf, true), OpenWait::Opened);
    let mut gone = event(guard::IN_OPEN, 0, true);
    gone.splice(0..0, event(guard::IN_IGNORED, 0, true));
    assert_eq!(guard::inotify_outcome(&gone, true), OpenWait::Gone);
    assert_eq!(guard::inotify_outcome(&event(0x2, 0, true), true), OpenWait::Timeout);
    assert_eq!(guard::inotify_outcome(&buf[..10], true), OpenWait::Timeout);
    assert_eq!(guard::inotify_outcome(&event(guard::IN_DELETE_SELF, 4, false), false), OpenWait::Gone);
}

#[test]
fn preset_text_reads_back() {
    for (pan, tilt, zoom) in [("12.5", "-3", 42), ("0", "90", 0), ("-129.9", "0.25", -7), ("", "1e3", 100)] {
        let body = config::preset_body(pan, tilt, zoom);
        let f = config::preset_fields(&body);
        assert_eq!(f.pan_deg.as_deref(), Some(pan));
        assert_eq!(f.tilt_deg.as_deref(), Some(tilt));
        assert_eq!(f.zoom, zoom);
    }
    let f = config::preset_fields(&config::preset_body("7", "8", i32::MIN));
    assert_eq!(f.zoom, i32::MIN);
}

#[test]
fn preset_recall_order() {
    let ops = cli::recall_preset(55, 999_999, -36_000).unwrap();
    assert_eq!(ops.len(), 3);
    assert!(matches!(ops[0], Op::SetCtrl { id: obsbot_tiny3::controls::CID_ZOOM_ABSOLUTE, value: 55 }));
    assert!(matches!(ops[1], Op::SetCtrl { id: obsbot_tiny3::controls::CID_PAN_ABSOLUTE, value: 468_000 }));
    assert!(matches!(ops[2], Op::SetCtrl { id: obsbot_tiny3::controls::CID_TILT_ABSOLUTE, value: -36_000 }));
    assert!(matches!(
        cli::recall_preset(101, 0, 0),
        Err(Error::OutOfRange { what: "zoom", min: 0, max: 100, got: 101 })
    ));
}

#[test]
fn proc_entries_name_other_processes() {
    assert_eq!(guard::other_pid("1234", 99), Some(1234));
    assert_eq!(guard::other_pid("+7", 99), Some(7));
    assert_eq!(guard::other_pid("99", 99), None);
    assert_eq!(guard::other_pid("self", 99), None);
    assert_eq!(guard::other_pid("", 99), None);
    assert_eq!(guard::other_pid("-1", 99), None);
    assert_eq!(guard::other_pid("4294967295", 99), Some(4_294_967_295));
    assert_eq!(guard::other_pid("4294967296", 99), None);
    assert_eq!(text::parse_u32("007"), Some(7));
}
