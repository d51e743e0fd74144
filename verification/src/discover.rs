//! Find the camera's stable device node without opening it (opening wakes the
//! camera). We match the by-id symlink name, which is stable across
//! re-enumeration — the numeric `/dev/videoN` is not and must never be
//! hardcoded.

use crate::error::Error;
use crate::text::{chars_of, range_eq};
use vstd::prelude::*;
use vstd::utf8::encode_utf8;

verus! {

/// The directory of stable by-id device links.
pub const BY_ID_DIR: &'static str = "/dev/v4l/by-id";

/// USB vendor id of Remo Tech (all supported models).
pub const VENDOR_ID: &'static str = "3564";

/// USB product id of the Tiny 3 Lite.
pub const TINY3_LITE_PID: &'static str = "ff04";

/// ASCII lowercase of one character; other characters are unchanged.
pub open spec fn ascii_lower(c: char) -> char {
    if 'A' <= c && c <= 'Z' {
        ((c as u32) + 32) as char
    } else {
        c
    }
}

/// ASCII lowercase of a text (`str::to_ascii_lowercase`).
pub open spec fn lower_text(s: Seq<char>) -> Seq<char> {
    s.map_values(|c: char| ascii_lower(c))
}

/// `pat` occurs in `s`.
pub open spec fn has_infix(s: Seq<char>, pat: Seq<char>) -> bool {
    exists|i: int| 0 <= i <= s.len() - pat.len() && #[trigger] s.subrange(i, i + pat.len()) == pat
}

/// `s` ends with `pat`.
pub open spec fn has_suffix(s: Seq<char>, pat: Seq<char>) -> bool {
    s.len() >= pat.len() && s.subrange(s.len() - pat.len(), s.len() as int) == pat
}

/// A by-id link name of a Tiny 3 family capture node: it holds
/// `obsbot_tiny_3` and ends with `video-index0`, ignoring ASCII case.
pub open spec fn spec_is_camera_node(name: Seq<char>) -> bool {
    has_infix(lower_text(name), "obsbot_tiny_3"@) && has_suffix(
        lower_text(name),
        "video-index0"@,
    )
}

fn lower_chars(v: &Vec<char>) -> (w: Vec<char>)
    ensures
        w@ == lower_text(v@),
{
    let mut w: Vec<char> = Vec::new();
    let mut i: usize = 0;
    while i < v.len()
        invariant
            i <= v@.len(),
            w@ =~= lower_text(v@).take(i as int),
        decreases v.len() - i,
    {
        let c = v[i];
        let l = if 'A' <= c && c <= 'Z' {
            ((c as u32) + 32) as u8 as char
        } else {
            c
        };
        w.push(l);
        i = i + 1;
    }
    assert(lower_text(v@).take(v@.len() as int) =~= lower_text(v@));
    w
}

/// Whether by-id link `name` is a Tiny 3 family capture node.
pub fn is_camera_node(name: &str) -> (ok: bool)
    ensures
        ok == spec_is_camera_node(name@),
{
    let lower = lower_chars(&chars_of(name));
    let pat = chars_of("obsbot_tiny_3");
    let tail = chars_of("video-index0");
    let n = lower.len();
    let m = pat.len();
    proof {
        reveal_strlit("obsbot_tiny_3");
    }
    assert(m == 13);
    let mut found = false;
    if m <= n {
        let mut i: usize = 0;
        while i <= n - m && !found
            invariant
                m <= n,
                m == 13,
                n == lower@.len(),
                m == pat@.len(),
                i <= n - m + 1,
                found ==> has_infix(lower@, pat@),
                !found ==> forall|k: int| 0 <= k < i ==> #[trigger] lower@.subrange(k, k + pat@.len()) != pat@,
            decreases n - m + 1 - i + (if found { 0int } else { 1int }),
        {
            assert(pat@.subrange(0, m as int) =~= pat@);
            if range_eq(&lower, i, i + m, &pat, 0, m) {
                assert(lower@.subrange(i as int, i + pat@.len()) == pat@);
                found = true;
            } else {
                i = i + 1;
            }
        }
        if !found {
            assert(!has_infix(lower@, pat@));
        }
    }
    let t = tail.len();
    let ends = t <= n && range_eq(&lower, n - t, n, &tail, 0, t);
    assert(tail@.subrange(0, t as int) =~= tail@);
    found && ends
}


/// `a` sorts no later than `b` in byte-wise lexicographic order (the order of
/// `String`, which compares the UTF-8 bytes).
pub open spec fn bytes_le(a: Seq<u8>, b: Seq<u8>) -> bool
    decreases a.len(),
{
    if a.len() == 0 {
        true
    } else if b.len() == 0 {
        false
    } else if a[0] != b[0] {
        a[0] < b[0]
    } else {
        bytes_le(a.drop_first(), b.drop_first())
    }
}

pub proof fn lemma_bytes_le_total(a: Seq<u8>, b: Seq<u8>)
    ensures
        bytes_le(a, b) || bytes_le(b, a),
    decreases a.len(),
{
    if a.len() > 0 && b.len() > 0 && a[0] == b[0] {
        lemma_bytes_le_total(a.drop_first(), b.drop_first());
    }
}

pub proof fn lemma_bytes_le_trans(a: Seq<u8>, b: Seq<u8>, c: Seq<u8>)
    requires
        bytes_le(a, b),
        bytes_le(b, c),
    ensures
        bytes_le(a, c),
    decreases a.len(),
{
    if a.len() > 0 && b.len() > 0 && c.len() > 0 && a[0] == b[0] && b[0] == c[0] {
        lemma_bytes_le_trans(a.drop_first(), b.drop_first(), c.drop_first());
    }
}

pub fn bytes_le_exec(a: &[u8], b: &[u8]) -> (r: bool)
    ensures
        r == bytes_le(a@, b@),
{
    let mut i: usize = 0;
    assert(a@.skip(0) =~= a@);
    assert(b@.skip(0) =~= b@);
    while i < a.len() && i < b.len() && a[i] == b[i]
        invariant
            i <= a@.len(),
            i <= b@.len(),
            bytes_le(a@, b@) == bytes_le(a@.skip(i as int), b@.skip(i as int)),
        decreases a.len() - i,
    {
        assert(a@.skip(i as int).drop_first() =~= a@.skip(i + 1));
        assert(b@.skip(i as int).drop_first() =~= b@.skip(i + 1));
        i = i + 1;
    }
    if i == a.len() {
        true
    } else if i == b.len() {
        false
    } else {
        a[i] < b[i]
    }
}

/// The by-id path of link `name`.
pub open spec fn node_path(name: Seq<char>) -> Seq<char> {
    BY_ID_DIR@ + "/"@ + name
}

/// The by-id path of link `name` sorts no later than that of every Tiny 3 node
/// among `names`.
pub open spec fn first_in_order(p: Seq<char>, names: Seq<String>) -> bool {
    forall|j: int|
        0 <= j < names.len() && spec_is_camera_node(#[trigger] names[j]@) ==> bytes_le(
            encode_utf8(p),
            encode_utf8(node_path(names[j]@)),
        )
}

/// The message when no Tiny 3 node is present.
pub open spec fn not_found_text() -> Seq<char> {
    "no 'OBSBOT_Tiny_3*-video-index0' under /dev/v4l/by-id (camera unplugged, or asleep and de-enumerated?)"@
}

/// The by-id path of the capture node (index0) of the first attached OBSBOT
/// Tiny 3 family camera, given the names of the links in [`BY_ID_DIR`]. Matches
/// "OBSBOT_Tiny_3" so Tiny 3, Tiny 3 Lite and Tiny 3 SE all resolve; the
/// first in sorted order wins. Does NOT open the device.
pub fn find_device(names: &Vec<String>) -> (r: Result<String, Error>)
    ensures
        match r {
            Ok(p) => (exists|i: int|
                0 <= i < names@.len() && spec_is_camera_node(#[trigger] names@[i]@) && p@
                    == node_path(names@[i]@)) && first_in_order(p@, names@),
            Err(e) => (forall|j: int|
                0 <= j < names@.len() ==> !spec_is_camera_node(#[trigger] names@[j]@)) && (e matches Error::DeviceNotFound(m) && m@ == not_found_text()),
        },
{
    let mut best: Option<String> = None;
    let mut i: usize = 0;
    while i < names.len()
        invariant
            i <= names@.len(),
            match best {
                Some(p) => (exists|k: int|
                    0 <= k < i && spec_is_camera_node(#[trigger] names@[k]@) && p@ == node_path(
                        names@[k]@,
                    )) && first_in_order(p@, names@.take(i as int)),
                None => forall|j: int| 0 <= j < i ==> !spec_is_camera_node(#[trigger] names@[j]@),
            },
        decreases names.len() - i,
    {
        let name = names[i].as_str();
        let ghost old_best = best;
        if is_camera_node(name) {
            let mut path = String::from_str(BY_ID_DIR);
            path.append("/");
            path.append(name);
            let replace = match &best {
                None => true,
                Some(b) => !bytes_le_exec(b.as_str().as_bytes(), path.as_str().as_bytes()),
            };
            if replace {
                proof {
                    match old_best {
                        Some(b) => {
                            lemma_bytes_le_total(encode_utf8(b@), encode_utf8(path@));
                            assert forall|j: int|
                                0 <= j < i + 1 && spec_is_camera_node(
                                    #[trigger] names@.take(i + 1)[j]@,
                                ) implies bytes_le(
                                encode_utf8(path@),
                                encode_utf8(node_path(names@.take(i + 1)[j]@)),
                            ) by {
                                if j < i {
                                    assert(names@.take(i as int)[j] == names@.take(i + 1)[j]);
                                    lemma_bytes_le_trans(
                                        encode_utf8(path@),
                                        encode_utf8(b@),
                                        encode_utf8(node_path(names@.take(i + 1)[j]@)),
                                    );
                                } else {
                                    lemma_bytes_le_total(encode_utf8(path@), encode_utf8(path@));
                                }
                            }
                        },
                        None => {
                            assert forall|j: int|
                                0 <= j < i + 1 && spec_is_camera_node(
                                    #[trigger] names@.take(i + 1)[j]@,
                                ) implies bytes_le(
                                encode_utf8(path@),
                                encode_utf8(node_path(names@.take(i + 1)[j]@)),
                            ) by {
                                if j < i {
                                    assert(names@.take(i + 1)[j] == names@[j]);
                                } else {
                                    lemma_bytes_le_total(encode_utf8(path@), encode_utf8(path@));
                                }
                            }
                        },
                    }
                }
                best = Some(path);
            } else {
                proof {
                    let b = old_best->0;
                    assert forall|j: int|
                        0 <= j < i + 1 && spec_is_camera_node(
                            #[trigger] names@.take(i + 1)[j]@,
                        ) implies bytes_le(
                        encode_utf8(b@),
                        encode_utf8(node_path(names@.take(i + 1)[j]@)),
                    ) by {
                        if j < i {
                            assert(names@.take(i as int)[j] == names@.take(i + 1)[j]);
                        }
                    }
                }
            }
        } else {
            proof {
                match old_best {
                    Some(b) => {
                        assert forall|j: int|
                            0 <= j < i + 1 && spec_is_camera_node(
                                #[trigger] names@.take(i + 1)[j]@,
                            ) implies bytes_le(
                            encode_utf8(b@),
                            encode_utf8(node_path(names@.take(i + 1)[j]@)),
                        ) by {
                            assert(names@.take(i as int)[j] == names@.take(i + 1)[j]);
                        }
                    },
                    None => {},
                }
            }
        }
        i = i + 1;
    }
    assert(names@.take(names@.len() as int) =~= names@);
    match best {
        Some(p) => Ok(p),
        None => Err(Error::DeviceNotFound(String::from_str(
            "no 'OBSBOT_Tiny_3*-video-index0' under /dev/v4l/by-id (camera unplugged, or asleep and de-enumerated?)",
        ))),
    }
}

/// The final component of a path (the text after its last `/`).
pub open spec fn last_component(p: Seq<char>) -> Seq<char>
    decreases p.len(),
{
    if p.len() == 0 {
        p
    } else if p.last() == '/' {
        Seq::empty()
    } else {
        last_component(p.drop_last()).push(p.last())
    }
}

/// The sysfs directory of the device behind video node `real_node` (a
/// resolved `/dev/videoN` path).
pub open spec fn spec_sysfs_device_dir(real_node: Seq<char>) -> Seq<char> {
    "/sys/class/video4linux/"@ + last_component(real_node) + "/device"@
}

/// The sysfs directory of the device behind video node `real_node`, where the
/// walk up to the owning USB device starts.
pub fn sysfs_device_dir(real_node: &str) -> (d: String)
    ensures
        d@ == spec_sysfs_device_dir(real_node@),
{
    let v = chars_of(real_node);
    let n = v.len();
    let mut a = n;
    assert(v@.subrange(n as int, n as int) =~= Seq::<char>::empty());
    assert(v@.subrange(0, n as int) =~= v@);
    while a > 0 && v[a - 1] != '/'
        invariant
            a <= n,
            n == v@.len(),
            v@ == real_node@,
            last_component(v@) == last_component(v@.subrange(0, a as int)) + v@.subrange(
                a as int,
                n as int,
            ),
        decreases a,
    {
        assert(v@.subrange(0, a as int).drop_last() =~= v@.subrange(0, a - 1));
        assert(v@.subrange(a - 1, n as int) =~= seq![v@[a - 1]] + v@.subrange(a as int, n as int));
        a = a - 1;
    }
    if a > 0 {
        assert(v@.subrange(0, a as int).last() == v@[a - 1]);
    }
    let mut d = String::from_str("/sys/class/video4linux/");
    d.append(real_node.substring_char(a, n));
    d.append("/device");
    d
}

/// Where the walk up sysfs to the owning USB device goes next.
pub enum PowerProbe {
    /// This directory is the USB device: read its `power/runtime_status`.
    Read,
    /// Go up to the parent directory.
    Ascend,
    /// The walk is over without an answer.
    GiveUp,
}

/// How many directories the walk looks at before it gives up.
pub const POWER_PROBE_DEPTH: u32 = 8;

/// One step of the walk: `depth` directories have been looked at before this
/// one; the directory is the owning usb_device when it has both a `busnum`
/// file and `power/runtime_status`.
pub fn power_probe_step(depth: u32, has_busnum: bool, has_runtime_status: bool) -> (p: PowerProbe)
    ensures
        depth >= POWER_PROBE_DEPTH ==> p is GiveUp,
        depth < POWER_PROBE_DEPTH && has_busnum && has_runtime_status ==> p is Read,
        depth < POWER_PROBE_DEPTH && !(has_busnum && has_runtime_status) ==> p is Ascend,
{
    if depth >= POWER_PROBE_DEPTH {
        PowerProbe::GiveUp
    } else if has_busnum && has_runtime_status {
        PowerProbe::Read
    } else {
        PowerProbe::Ascend
    }
}

} // verus!
