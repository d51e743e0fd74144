//! The tiny config file shared by the CLI and the white-balance guard.
//!
//! Format is a minimal `key = value` INI-ish file. It lives at
//! `$XDG_CONFIG_HOME/obsbot-tiny3/config` (default `~/.config/obsbot-tiny3/config`),
//! with `/etc/obsbot-tiny3/config` as the system-wide fallback. Gimbal presets
//! live alongside it as `presets/<name>`.

use crate::error::Error;
use crate::text::{
    chars_of, find_char, find_in, int_decimal, is_ws, parse_i32, spec_parse_i32, str_eq, trim,
    trim_bounds, trim_end, trim_start,
};
use crate::discover::{bytes_le, bytes_le_exec, lemma_bytes_le_total, lemma_bytes_le_trans};
use vstd::prelude::*;
use vstd::utf8::encode_utf8;

verus! {

/// Target white-balance temperature when no config sets one (Kelvin).
pub const DEFAULT_WB_TEMP: i32 = 4000;

/// The system-wide config file, read when the per-user one is absent.
pub const SYSTEM_CONFIG_PATH: &'static str = "/etc/obsbot-tiny3/config";

/// The text split at every `'\n'` (the segment after the last one included,
/// even when empty).
pub open spec fn split_lines(t: Seq<char>) -> Seq<Seq<char>>
    decreases t.len(),
{
    if t.len() == 0 {
        seq![Seq::empty()]
    } else {
        let s = split_lines(t.drop_last());
        if t.last() == '\n' {
            s.push(Seq::empty())
        } else {
            s.update(s.len() - 1, s.last().push(t.last()))
        }
    }
}

/// The `key = value` pair a line holds: its trimmed text must be nonempty, not
/// start with `#` and hold an `=`; key and value are the trimmed text before
/// and after the first `=`.
pub open spec fn line_entry(line: Seq<char>) -> Option<(Seq<char>, Seq<char>)> {
    let t = trim(line);
    let e = find_char(t, '=');
    if t.len() == 0 || t[0] == '#' || e >= t.len() {
        None
    } else {
        Some((trim(t.take(e)), trim(t.skip(e + 1))))
    }
}

/// The pairs that `lines` hold, in order.
pub open spec fn lines_entries(lines: Seq<Seq<char>>) -> Seq<(Seq<char>, Seq<char>)>
    decreases lines.len(),
{
    if lines.len() == 0 {
        Seq::empty()
    } else {
        lines_entries(lines.drop_last()) + match line_entry(lines.last()) {
            Some(kv) => seq![kv],
            None => Seq::empty(),
        }
    }
}

/// The pairs a config text holds, in file order.
pub open spec fn config_entries(text: Seq<char>) -> Seq<(Seq<char>, Seq<char>)> {
    lines_entries(split_lines(text))
}

/// The value of `key`: the last pair with that key wins.
pub open spec fn lookup(es: Seq<(Seq<char>, Seq<char>)>, key: Seq<char>) -> Option<Seq<char>>
    decreases es.len(),
{
    if es.len() == 0 {
        None
    } else if es.last().0 == key {
        Some(es.last().1)
    } else {
        lookup(es.drop_last(), key)
    }
}

/// Law: a later `key = value` line overrides every earlier one for that key,
/// and lines for other keys leave it alone.
pub proof fn lemma_last_key_wins(
    es: Seq<(Seq<char>, Seq<char>)>,
    k: Seq<char>,
    v: Seq<char>,
    other: (Seq<char>, Seq<char>),
)
    ensures
        lookup(es.push((k, v)), k) == Some(v),
        other.0 != k ==> lookup(es.push(other), k) == lookup(es, k),
{
    assert(es.push((k, v)).drop_last() =~= es);
    assert(es.push(other).drop_last() =~= es);
}

/// Parsed `key = value` pairs, in file order.
pub struct KeyValues {
    pub entries: Vec<(String, String)>,
}

/// The characters of each pair.
pub open spec fn entries_view(es: Seq<(String, String)>) -> Seq<(Seq<char>, Seq<char>)> {
    es.map_values(|p: (String, String)| (p.0@, p.1@))
}

impl View for KeyValues {
    type V = Seq<(Seq<char>, Seq<char>)>;

    open spec fn view(&self) -> Seq<(Seq<char>, Seq<char>)> {
        entries_view(self.entries@)
    }
}

impl KeyValues {
    /// The value of `key` (the last occurrence wins, as in a map).
    pub fn get(&self, key: &str) -> (r: Option<&String>)
        ensures
            match r {
                Some(v) => lookup(self@, key@) == Some(v@),
                None => lookup(self@, key@) is None,
            },
    {
        let mut i = self.entries.len();
        assert(self@.take(i as int) =~= self@);
        while i > 0
            invariant
                i <= self.entries@.len(),
                lookup(self@, key@) == lookup(self@.take(i as int), key@),
            decreases i,
        {
            let ghost t = self@.take(i as int);
            assert(t.drop_last() =~= self@.take(i - 1));
            assert(t.last() == self@[i - 1]);
            if str_eq(self.entries[i - 1].0.as_str(), key) {
                return Some(&self.entries[i - 1].1);
            }
            i = i - 1;
        }
        None
    }
}

/// The pair line `v[a..b]` holds, as strings taken from `text` (whose
/// characters `v` holds).
fn line_entry_at(text: &str, v: &Vec<char>, a: usize, b: usize) -> (r: Option<(String, String)>)
    requires
        v@ == text@,
        a <= b <= v@.len(),
    ensures
        match r {
            Some(p) => line_entry(v@.subrange(a as int, b as int)) == Some((p.0@, p.1@)),
            None => line_entry(v@.subrange(a as int, b as int)) is None,
        },
{
    let (ta, tb) = trim_bounds(v, a, b);
    let ghost t = v@.subrange(ta as int, tb as int);
    if ta == tb || v[ta] == '#' {
        return None;
    }
    let e = find_in(v, ta, tb, '=');
    if e == tb {
        return None;
    }
    assert(t.take(e - ta) =~= v@.subrange(ta as int, e as int));
    assert(t.skip(e - ta + 1) =~= v@.subrange(e + 1, tb as int));
    let (ka, kb) = trim_bounds(v, ta, e);
    let (va, vb) = trim_bounds(v, e + 1, tb);
    let key = String::from_str(text.substring_char(ka, kb));
    let value = String::from_str(text.substring_char(va, vb));
    Some((key, value))
}

/// Parse a config text into its `key = value` pairs. Blank lines, lines
/// starting with `#` and lines without `=` are skipped.
pub fn parse(text: &str) -> (kv: KeyValues)
    ensures
        kv@ == config_entries(text@),
{
    let v = chars_of(text);
    let n = v.len();
    let mut entries: Vec<(String, String)> = Vec::new();
    let mut start: usize = 0;
    let mut i: usize = 0;
    assert(v@.take(0) =~= Seq::<char>::empty());
    assert(split_lines(v@.take(0)) =~= seq![Seq::<char>::empty()]);
    assert(v@.subrange(0, 0) =~= Seq::<char>::empty());
    while i < n
        invariant
            v@ == text@,
            n == v@.len(),
            start <= i <= n,
            split_lines(v@.take(i as int)).len() >= 1,
            split_lines(v@.take(i as int)).last() == v@.subrange(start as int, i as int),
            entries_view(entries@) == lines_entries(split_lines(v@.take(i as int)).drop_last()),
        decreases n - i,
    {
        let ghost sl = split_lines(v@.take(i as int));
        let ghost sl2 = split_lines(v@.take(i + 1));
        assert(v@.take(i + 1).drop_last() =~= v@.take(i as int));
        assert(v@.take(i + 1).last() == v@[i as int]);
        if v[i] == '\n' {
            assert(sl2 == sl.push(Seq::empty()));
            assert(sl2.drop_last() =~= sl);
            assert(sl.drop_last() =~= sl.take(sl.len() - 1));
            let entry = line_entry_at(text, &v, start, i);
            let ghost before = entries@;
            match entry {
                Some(p) => {
                    entries.push(p);
                    assert(entries_view(entries@) =~= entries_view(before) + seq![(p.0@, p.1@)]);
                },
                None => {},
            }
            assert(entries_view(entries@) == lines_entries(sl2.drop_last()));
            start = i + 1;
            assert(v@.subrange(start as int, i + 1) =~= Seq::<char>::empty());
        } else {
            assert(sl2 == sl.update(sl.len() - 1, sl.last().push(v@[i as int])));
            assert(sl2.drop_last() =~= sl.drop_last());
            assert(v@.subrange(start as int, i + 1) =~= v@.subrange(start as int, i as int).push(
                v@[i as int],
            ));
        }
        i = i + 1;
    }
    let ghost sl = split_lines(v@.take(n as int));
    assert(v@.take(n as int) =~= v@);
    let entry = line_entry_at(text, &v, start, n);
    let ghost before = entries@;
    match entry {
        Some(p) => {
            entries.push(p);
            assert(entries_view(entries@) =~= entries_view(before) + seq![(p.0@, p.1@)]);
        },
        None => {},
    }
    assert(entries_view(entries@) == lines_entries(sl));
    KeyValues { entries }
}


/// Settings the tools read from the config file.
pub struct Config {
    /// Target white-balance temperature the guard re-pins to (Kelvin).
    pub wb_temp: i32,
}

impl Default for Config {
    /// 4000K is the tuned baseline for a green-walled office; auto WB drowns
    /// in green rooms on this camera. Overridable in the config file.
    fn default() -> (c: Self)
        ensures
            c.wb_temp == DEFAULT_WB_TEMP,
    {
        Config { wb_temp: DEFAULT_WB_TEMP }
    }
}

/// The white-balance temperature a config text sets, when it sets a valid one.
pub open spec fn text_wb_temp(text: Seq<char>) -> Option<i32> {
    match lookup(config_entries(text), "wb_temp"@) {
        Some(v) => spec_parse_i32(v),
        None => None,
    }
}

/// The config the candidate files give: the first readable file wins (later
/// ones are not looked at), and a missing or unparsable `wb_temp` keeps the
/// default.
pub open spec fn spec_load(candidates: Seq<Option<String>>) -> i32
    decreases candidates.len(),
{
    if candidates.len() == 0 {
        DEFAULT_WB_TEMP
    } else {
        match candidates[0] {
            Some(text) => match text_wb_temp(text@) {
                Some(t) => t,
                None => DEFAULT_WB_TEMP,
            },
            None => spec_load(candidates.drop_first()),
        }
    }
}

impl Config {
    /// Load config from the contents of the candidate files, in search order
    /// (`None` where a file could not be read): the per-user file, then
    /// [`SYSTEM_CONFIG_PATH`]. The first file that exists wins; missing keys
    /// keep their defaults.
    pub fn load(candidates: &Vec<Option<String>>) -> (c: Config)
        ensures
            c.wb_temp == spec_load(candidates@),
    {
        let mut c = Config::default();
        let mut i: usize = 0;
        assert(candidates@.skip(0) =~= candidates@);
        while i < candidates.len()
            invariant
                i <= candidates@.len(),
                c.wb_temp == DEFAULT_WB_TEMP,
                spec_load(candidates@) == spec_load(candidates@.skip(i as int)),
            decreases candidates.len() - i,
        {
            assert(candidates@.skip(i as int).drop_first() =~= candidates@.skip(i + 1));
            assert(candidates@.skip(i as int)[0] == candidates@[i as int]);
            match &candidates[i] {
                Some(text) => {
                    let m = parse(text.as_str());
                    match m.get("wb_temp") {
                        Some(v) => match parse_i32(v.as_str()) {
                            Some(t) => {
                                c.wb_temp = t;
                            },
                            None => {},
                        },
                        None => {},
                    }
                    return c;
                },
                None => {},
            }
            i = i + 1;
        }
        c
    }
}

/// `rel` appended to the path `base` as `PathBuf::join` does for a relative
/// `rel`: with a `/` between them unless `base` is empty or already ends in one.
pub open spec fn path_join(base: Seq<char>, rel: Seq<char>) -> Seq<char> {
    if base.len() == 0 {
        rel
    } else if base.last() == '/' {
        base + rel
    } else {
        base + seq!['/'] + rel
    }
}

/// Join a relative path onto `base`.
pub fn join(base: &str, rel: &str) -> (p: String)
    ensures
        p@ == path_join(base@, rel@),
{
    let n = base.unicode_len();
    let mut p = String::from_str(base);
    if n > 0 && base.get_char(n - 1) != '/' {
        p.append("/");
        proof {
            reveal_strlit("/");
        }
    }
    p.append(rel);
    p
}

/// The config directory: `$XDG_CONFIG_HOME/obsbot-tiny3` when that variable
/// is set and nonempty, else `$HOME/.config/obsbot-tiny3` (with `/root` for an
/// unset `HOME`).
pub open spec fn spec_config_dir(xdg: Option<Seq<char>>, home: Option<Seq<char>>) -> Seq<char> {
    match xdg {
        Some(x) if x.len() > 0 => path_join(x, "obsbot-tiny3"@),
        _ => path_join(
            match home {
                Some(h) => h,
                None => "/root"@,
            },
            ".config/obsbot-tiny3"@,
        ),
    }
}

/// The view of an optional string.
pub open spec fn opt_view(s: Option<&str>) -> Option<Seq<char>> {
    match s {
        Some(x) => Some(x@),
        None => None,
    }
}

/// The config directory, given the values of `XDG_CONFIG_HOME` and `HOME`
/// (`None` where unset).
pub fn config_dir(xdg: Option<&str>, home: Option<&str>) -> (d: String)
    ensures
        d@ == spec_config_dir(opt_view(xdg), opt_view(home)),
{
    if let Some(x) = xdg {
        if x.unicode_len() > 0 {
            return join(x, "obsbot-tiny3");
        }
    }
    let h = match home {
        Some(h) => h,
        None => "/root",
    };
    join(h, ".config/obsbot-tiny3")
}

/// The per-user config file.
pub fn config_path(xdg: Option<&str>, home: Option<&str>) -> (p: String)
    ensures
        p@ == path_join(spec_config_dir(opt_view(xdg), opt_view(home)), "config"@),
{
    let d = config_dir(xdg, home);
    join(d.as_str(), "config")
}

/// The directory gimbal presets are stored in.
pub fn presets_dir(xdg: Option<&str>, home: Option<&str>) -> (p: String)
    ensures
        p@ == path_join(spec_config_dir(opt_view(xdg), opt_view(home)), "presets"@),
{
    let d = config_dir(xdg, home);
    join(d.as_str(), "presets")
}

/// A character allowed in a preset name.
pub open spec fn name_char(c: char) -> bool {
    ('a' <= c && c <= 'z') || ('A' <= c && c <= 'Z') || ('0' <= c && c <= '9') || c == '-' || c
        == '_'
}

/// A valid preset name: 1 to 64 characters, each an ASCII letter or digit,
/// `-` or `_`.
pub open spec fn spec_valid_name(name: Seq<char>) -> bool {
    &&& name.len() > 0
    &&& name.len() <= 64
    &&& forall|i: int| 0 <= i < name.len() ==> name_char(#[trigger] name[i])
}

/// Law: a preset name is valid exactly when it has 1 to 64 characters and
/// each is an ASCII letter (`a`..=`z`, `A`..=`Z`), an ASCII digit, `-` or `_`
/// (by code point).
pub proof fn lemma_valid_name_chars(name: Seq<char>)
    ensures
        spec_valid_name(name) <==> (1 <= name.len() <= 64 && forall|i: int|
            0 <= i < name.len() ==> {
                let u = #[trigger] name[i] as int;
                (97 <= u <= 122) || (65 <= u <= 90) || (48 <= u <= 57) || u == 45 || u == 95
            }),
{
    assert forall|i: int| 0 <= i < name.len() implies (name_char(#[trigger] name[i]) <==> {
        let u = name[i] as int;
        (97 <= u <= 122) || (65 <= u <= 90) || (48 <= u <= 57) || u == 45 || u == 95
    }) by {}
}

/// Whether `name` is a valid preset name.
pub fn valid_name(name: &str) -> (ok: bool)
    ensures
        ok == spec_valid_name(name@),
{
    let v = chars_of(name);
    let n = v.len();
    if n == 0 || n > 64 {
        return false;
    }
    let mut i: usize = 0;
    while i < n
        invariant
            n == v@.len(),
            v@ == name@,
            i <= n,
            forall|k: int| 0 <= k < i ==> name_char(#[trigger] v@[k]),
        decreases n - i,
    {
        let c = v[i];
        if !(('a' <= c && c <= 'z') || ('A' <= c && c <= 'Z') || ('0' <= c && c <= '9') || c
            == '-' || c == '_') {
            assert(!name_char(name@[i as int]));
            return false;
        }
        i = i + 1;
    }
    true
}

/// Where preset `name` is saved, or the usage error for an invalid name.
pub fn save_preset_path(presets_dir: &str, name: &str) -> (r: Result<String, Error>)
    ensures
        spec_valid_name(name@) ==> (r matches Ok(p) && p@ == path_join(presets_dir@, name@)),
        !spec_valid_name(name@) ==> (r matches Err(Error::Usage(m)) && m@ == "invalid preset name '"@
            + name@ + "' (use letters, digits, - and _)"@),
{
    if !valid_name(name) {
        let mut m = String::from_str("invalid preset name '");
        m.append(name);
        m.append("' (use letters, digits, - and _)");
        return Err(Error::Usage(m));
    }
    Ok(join(presets_dir, name))
}

/// Where preset `name` is loaded from, or the usage error for an invalid name.
pub fn load_preset_path(presets_dir: &str, name: &str) -> (r: Result<String, Error>)
    ensures
        spec_valid_name(name@) ==> (r matches Ok(p) && p@ == path_join(presets_dir@, name@)),
        !spec_valid_name(name@) ==> (r matches Err(Error::Usage(m)) && m@ == "invalid preset name '"@
            + name@ + "'"@),
{
    if !valid_name(name) {
        let mut m = String::from_str("invalid preset name '");
        m.append(name);
        m.append("'");
        return Err(Error::Usage(m));
    }
    Ok(join(presets_dir, name))
}

/// The error for a preset file that cannot be read.
pub fn no_preset_error(name: &str) -> (e: Error)
    ensures
        e matches Error::Config(m) && m@ == "no preset named '"@ + name@ + "'"@,
{
    let mut m = String::from_str("no preset named '");
    m.append(name);
    m.append("'");
    Error::Config(m)
}

/// A `key = value` line with its line break.
pub open spec fn kv_line(key: Seq<char>, value: Seq<char>) -> Seq<char> {
    key + " = "@ + value + "\n"@
}

/// The text of a preset file: its pan and tilt degree texts and its zoom.
pub open spec fn preset_text(pan_deg: Seq<char>, tilt_deg: Seq<char>, zoom: i32) -> Seq<char> {
    kv_line("pan_deg"@, pan_deg) + kv_line("tilt_deg"@, tilt_deg) + kv_line(
        "zoom"@,
        int_decimal(zoom as int),
    )
}

/// The zoom a preset file's text gives: its `zoom` value as an integer, 0 when
/// absent or unparsable.
pub open spec fn preset_zoom(text: Seq<char>) -> i32 {
    match lookup(config_entries(text), "zoom"@) {
        Some(v) => match spec_parse_i32(v) {
            Some(z) => z,
            None => 0,
        },
        None => 0,
    }
}

/// The text of a preset file, given the decimal text of its pan and tilt
/// degrees.
pub fn preset_body(pan_deg: &str, tilt_deg: &str, zoom: i32) -> (b: String)
    ensures
        b@ == preset_text(pan_deg@, tilt_deg@, zoom),
{
    let mut b = String::from_str("pan_deg = ");
    b.append(pan_deg);
    b.append("\ntilt_deg = ");
    b.append(tilt_deg);
    b.append("\nzoom = ");
    b.append(crate::text::decimal(zoom as i64).as_str());
    b.append("\n");
    proof {
        reveal_strlit("pan_deg = ");
        reveal_strlit("\ntilt_deg = ");
        reveal_strlit("\nzoom = ");
        reveal_strlit("\n");
        reveal_strlit("pan_deg");
        reveal_strlit("tilt_deg");
        reveal_strlit("zoom");
        reveal_strlit(" = ");
        assert(b@ =~= preset_text(pan_deg@, tilt_deg@, zoom));
    }
    b
}

/// The fields of a preset file: the raw pan and tilt degree texts (parsed as
/// floating point by the caller, 0.0 when absent or unparsable) and the zoom
/// (0 when absent or unparsable).
pub struct PresetFields {
    pub pan_deg: Option<String>,
    pub tilt_deg: Option<String>,
    pub zoom: i32,
}

/// The view of an optional string.
pub open spec fn opt_string_view(s: Option<String>) -> Option<Seq<char>> {
    match s {
        Some(x) => Some(x@),
        None => None,
    }
}

/// Read the fields of a preset file's text.
pub fn preset_fields(text: &str) -> (f: PresetFields)
    ensures
        opt_string_view(f.pan_deg) == lookup(config_entries(text@), "pan_deg"@),
        opt_string_view(f.tilt_deg) == lookup(config_entries(text@), "tilt_deg"@),
        f.zoom == preset_zoom(text@),
{
    let m = parse(text);
    let pan = match m.get("pan_deg") {
        Some(v) => Some(v.clone()),
        None => None,
    };
    let tilt = match m.get("tilt_deg") {
        Some(v) => Some(v.clone()),
        None => None,
    };
    let zoom = match m.get("zoom") {
        Some(v) => match parse_i32(v.as_str()) {
            Some(z) => z,
            None => 0,
        },
        None => 0,
    };
    PresetFields { pan_deg: pan, tilt_deg: tilt, zoom }
}


/// The names sort in byte-wise order (the order of `String`).
pub open spec fn names_sorted(s: Seq<String>) -> bool {
    forall|i: int, j: int|
        0 <= i < j < s.len() ==> bytes_le(encode_utf8(#[trigger] s[i]@), encode_utf8(#[trigger] s[j]@))
}

/// The saved presets' names, in sorted order.
pub fn sort_names(names: &Vec<String>) -> (r: Vec<String>)
    ensures
        r@.to_multiset() == names@.to_multiset(),
        names_sorted(r@),
{
    broadcast use vstd::seq_lib::group_to_multiset_ensures;
    let mut out: Vec<String> = Vec::new();
    let mut i: usize = 0;
    assert(names@.take(0) =~= out@);
    while i < names.len()
        invariant
            i <= names@.len(),
            out@.to_multiset() == names@.take(i as int).to_multiset(),
            names_sorted(out@),
        decreases names.len() - i,
    {
        let name = names[i].clone();
        let mut pos: usize = 0;
        while pos < out.len() && bytes_le_exec(out[pos].as_str().as_bytes(), name.as_str().as_bytes())
            invariant
                pos <= out@.len(),
                forall|k: int| 0 <= k < pos ==> bytes_le(encode_utf8(#[trigger] out@[k]@), encode_utf8(name@)),
            decreases out.len() - pos,
        {
            pos = pos + 1;
        }
        let ghost before = out@;
        proof {
            if pos < before.len() {
                lemma_bytes_le_total(encode_utf8(before[pos as int]@), encode_utf8(name@));
            }
            assert forall|k: int| pos <= k < before.len() implies bytes_le(encode_utf8(name@), encode_utf8(#[trigger] before[k]@)) by {
                if k > pos {
                    lemma_bytes_le_trans(encode_utf8(name@), encode_utf8(before[pos as int]@), encode_utf8(before[k]@));
                }
            }
        }
        out.insert(pos, name);
        proof {
            assert(out@ == before.insert(pos as int, names@[i as int]));
            assert(names@.take(i + 1) =~= names@.take(i as int).push(names@[i as int]));
            vstd::seq_lib::to_multiset_insert(before, pos as int, names@[i as int]);
            vstd::seq_lib::to_multiset_build(names@.take(i as int), names@[i as int]);
            assert forall|a: int, b: int| 0 <= a < b < out@.len() implies bytes_le(encode_utf8(#[trigger] out@[a]@), encode_utf8(#[trigger] out@[b]@)) by {
                if a < pos && b < pos {
                    assert(out@[a] == before[a] && out@[b] == before[b]);
                } else if a < pos && b == pos {
                } else if a < pos && b > pos {
                    assert(out@[a] == before[a] && out@[b] == before[b - 1]);
                } else if a == pos {
                    assert(out@[b] == before[b - 1]);
                } else {
                    assert(out@[a] == before[a - 1] && out@[b] == before[b - 1]);
                }
            }
        }
        i = i + 1;
    }
    assert(names@.take(names@.len() as int) =~= names@);
    out
}


/// A key that a `key = value` line gives back unchanged: nonempty, no
/// whitespace at either end, not a comment, no `=` and no line break.
pub open spec fn plain_key(k: Seq<char>) -> bool {
    &&& k.len() > 0
    &&& !is_ws(k[0])
    &&& !is_ws(k.last())
    &&& k[0] != '#'
    &&& !k.contains('=')
    &&& !k.contains('\n')
}

/// A value that a `key = value` line gives back unchanged: no line break and
/// no whitespace at either end.
pub open spec fn plain_value(v: Seq<char>) -> bool {
    &&& !v.contains('\n')
    &&& (v.len() == 0 || (!is_ws(v[0]) && !is_ws(v.last())))
}

proof fn lemma_split_lines_nonempty(t: Seq<char>)
    ensures
        split_lines(t).len() > 0,
    decreases t.len(),
{
    if t.len() > 0 {
        lemma_split_lines_nonempty(t.drop_last());
    }
}

/// Text without a line break extends the last line.
proof fn lemma_split_lines_extend(t: Seq<char>, l: Seq<char>)
    requires
        !l.contains('\n'),
    ensures
        split_lines(t + l) == split_lines(t).update(
            split_lines(t).len() - 1,
            split_lines(t).last() + l,
        ),
    decreases l.len(),
{
    lemma_split_lines_nonempty(t);
    let s = split_lines(t);
    if l.len() == 0 {
        assert(t + l =~= t);
        assert(s.last() + l =~= s.last());
        assert(s.update(s.len() - 1, s.last()) =~= s);
    } else {
        let l0 = l.drop_last();
        assert forall|i: int| 0 <= i < l0.len() implies l0[i] != '\n' by {
            assert(l0[i] == l[i]);
        }
        lemma_split_lines_extend(t, l0);
        lemma_split_lines_nonempty(t + l0);
        assert((t + l).drop_last() =~= t + l0);
        assert((t + l).last() == l[l.len() - 1]);
        let s0 = split_lines(t + l0);
        assert((s.last() + l0).push(l.last()) =~= s.last() + l);
        assert(s0.update(s0.len() - 1, s0.last().push(l.last())) =~= s.update(
            s.len() - 1,
            s.last() + l,
        ));
    }
}

/// A line and its line break end the last line and start an empty one.
proof fn lemma_split_lines_line(t: Seq<char>, l: Seq<char>)
    requires
        !l.contains('\n'),
    ensures
        split_lines(t + (l + "\n"@)) == split_lines(t).update(
            split_lines(t).len() - 1,
            split_lines(t).last() + l,
        ).push(Seq::empty()),
{
    reveal_strlit("\n");
    lemma_split_lines_extend(t, l);
    assert(t + (l + "\n"@) =~= (t + l).push('\n'));
    assert((t + l).push('\n').drop_last() =~= t + l);
}

/// `find_char` passes over a prefix without `c`.
proof fn lemma_find_char_after(a: Seq<char>, b: Seq<char>, c: char)
    requires
        !a.contains(c),
    ensures
        find_char(a + b, c) == a.len() + find_char(b, c),
    decreases a.len(),
{
    if a.len() == 0 {
        assert(a + b =~= b);
    } else {
        let a0 = a.drop_first();
        assert(a[0] != c);
        assert forall|i: int| 0 <= i < a0.len() implies a0[i] != c by {
            assert(a0[i] == a[i + 1]);
        }
        lemma_find_char_after(a0, b, c);
        assert((a + b).drop_first() =~= a0 + b);
        assert((a + b)[0] == a[0]);
    }
}

/// The line of a key and a value holds no line break.
proof fn lemma_kv_no_newline(k: Seq<char>, v: Seq<char>)
    requires
        !k.contains('\n'),
        !v.contains('\n'),
    ensures
        !(k + " = "@ + v).contains('\n'),
{
    reveal_strlit(" = ");
    let l = k + " = "@ + v;
    assert forall|i: int| 0 <= i < l.len() implies l[i] != '\n' by {
        if i < k.len() {
            assert(l[i] == k[i]);
        } else if i < k.len() + 3 {
            assert(l[i] == " = "@[i - k.len()]);
        } else {
            assert(l[i] == v[i - k.len() - 3]);
        }
    }
}

/// A `key = value` line gives back its key and value.
proof fn lemma_line_entry_kv(k: Seq<char>, v: Seq<char>)
    requires
        plain_key(k),
        plain_value(v),
    ensures
        line_entry(k + " = "@ + v) == Some((k, v)),
{
    reveal_strlit(" = ");
    let line = k + " = "@ + v;
    let u = k.push(' ').push('=');
    let w = if v.len() == 0 {
        Seq::<char>::empty()
    } else {
        seq![' '] + v
    };
    assert(line[0] == k[0]);
    assert(trim_start(line) == line);
    if v.len() == 0 {
        assert(line =~= u.push(' '));
        assert(line.drop_last() =~= u);
        assert(trim_end(u) == u);
        assert(trim_end(line) == u);
        assert(u =~= u + w);
    } else {
        assert(line.last() == v.last());
        assert(trim_end(line) == line);
        assert(line =~= u + w);
    }
    let t = u + w;
    assert(trim(line) == t);
    let rest = seq![' ', '='] + w;
    assert(t =~= k + rest);
    lemma_find_char_after(k, rest, '=');
    assert(rest.drop_first().drop_first() =~= w);
    assert(rest[0] == ' ');
    assert(rest.drop_first()[0] == '=');
    assert(find_char(rest.drop_first(), '=') == 0);
    assert(find_char(rest, '=') == 1);
    let e: int = k.len() as int + 1;
    assert(find_char(t, '=') == e);
    let kp = k.push(' ');
    assert(t.take(e) =~= kp);
    assert(kp[0] == k[0]);
    assert(trim_start(kp) == kp);
    assert(kp.drop_last() =~= k);
    assert(trim_end(k) == k);
    assert(trim_end(kp) == k);
    assert(t.skip(e + 1) =~= w);
    if v.len() == 0 {
        assert(trim_start(w) == w);
        assert(trim_end(w) == w);
    } else {
        assert(w.drop_first() =~= v);
        assert(trim_start(v) == v);
        assert(trim_start(w) == v);
        assert(trim_end(v) == v);
    }
    assert(t[0] == k[0]);
}

/// The decimal text of an integer is a plain value.
proof fn lemma_int_decimal_plain(z: int)
    ensures
        plain_value(int_decimal(z)),
{
    let s = int_decimal(z);
    if z < 0 {
        let m = (-z) as nat;
        crate::text::lemma_nat_decimal_digits(m);
        let d = crate::text::nat_decimal(m);
        assert(s =~= seq!['-'] + d);
        assert forall|i: int| 0 <= i < s.len() implies s[i] != '\n' by {
            if i > 0 {
                assert(s[i] == d[i - 1]);
            }
        }
        assert(s.last() == d[d.len() - 1]);
    } else {
        crate::text::lemma_nat_decimal_digits(z as nat);
    }
}

/// Law: a preset file's text gives back the pan and tilt degree texts and the
/// zoom it was written with, whenever those texts hold no line break and no
/// whitespace at either end (as the decimal text of a number does not).
pub proof fn lemma_preset_roundtrip(pan_deg: Seq<char>, tilt_deg: Seq<char>, zoom: i32)
    requires
        plain_value(pan_deg),
        plain_value(tilt_deg),
    ensures
        lookup(config_entries(preset_text(pan_deg, tilt_deg, zoom)), "pan_deg"@) == Some(pan_deg),
        lookup(config_entries(preset_text(pan_deg, tilt_deg, zoom)), "tilt_deg"@) == Some(
            tilt_deg,
        ),
        preset_zoom(preset_text(pan_deg, tilt_deg, zoom)) == zoom,
{
    reveal_strlit("pan_deg");
    reveal_strlit("tilt_deg");
    reveal_strlit("zoom");
    let zd = int_decimal(zoom as int);
    lemma_int_decimal_plain(zoom as int);
    crate::text::lemma_parse_decimal(zoom);
    let k1 = "pan_deg"@;
    let k2 = "tilt_deg"@;
    let k3 = "zoom"@;
    let l1 = k1 + " = "@ + pan_deg;
    let l2 = k2 + " = "@ + tilt_deg;
    let l3 = k3 + " = "@ + zd;
    lemma_kv_no_newline(k1, pan_deg);
    lemma_kv_no_newline(k2, tilt_deg);
    lemma_kv_no_newline(k3, zd);
    let e = Seq::<char>::empty();
    let a = kv_line(k1, pan_deg);
    let b = kv_line(k2, tilt_deg);
    let c = kv_line(k3, zd);
    // the lines of the text
    assert(split_lines(e) == seq![e]);
    lemma_split_lines_line(e, l1);
    assert(e + a =~= a);
    assert(seq![e].update(0, e + l1) =~= seq![l1]);
    assert(split_lines(a) == seq![l1, e]);
    lemma_split_lines_line(a, l2);
    assert(seq![l1, e].update(1, e + l2) =~= seq![l1, l2]);
    assert(split_lines(a + b) == seq![l1, l2, e]);
    lemma_split_lines_line(a + b, l3);
    assert(seq![l1, l2, e].update(2, e + l3) =~= seq![l1, l2, l3]);
    let text = preset_text(pan_deg, tilt_deg, zoom);
    assert(text == a + b + c);
    let lines = seq![l1, l2, l3, e];
    assert(split_lines(text) == lines);
    // the pairs they hold
    lemma_line_entry_kv(k1, pan_deg);
    lemma_line_entry_kv(k2, tilt_deg);
    lemma_line_entry_kv(k3, zd);
    assert(trim_start(e) == e);
    assert(trim_end(e) == e);
    assert(line_entry(e) is None);
    let p1 = (k1, pan_deg);
    let p2 = (k2, tilt_deg);
    let p3 = (k3, zd);
    assert(lines.drop_last() =~= seq![l1, l2, l3]);
    assert(seq![l1, l2, l3].drop_last() =~= seq![l1, l2]);
    assert(seq![l1, l2].drop_last() =~= seq![l1]);
    assert(seq![l1].drop_last() =~= Seq::<Seq<char>>::empty());
    assert(lines_entries(Seq::<Seq<char>>::empty()) =~= Seq::empty());
    assert(seq![l1].last() == l1);
    assert(line_entry(l1) == Some(p1));
    assert(lines_entries(seq![l1]) =~= seq![p1]);
    assert(lines_entries(seq![l1, l2]) =~= seq![p1, p2]);
    assert(lines_entries(seq![l1, l2, l3]) =~= seq![p1, p2, p3]);
    let es = seq![p1, p2, p3];
    assert(lines_entries(lines) =~= es);
    assert(config_entries(text) == es);
    // looking them up
    assert(es.drop_last() =~= seq![p1, p2]);
    assert(seq![p1, p2].drop_last() =~= seq![p1]);
    assert(k3 != k1 && k3 != k2 && k2 != k1);
    assert(lookup(seq![p1], k1) == Some(pan_deg));
    assert(lookup(seq![p1, p2], k1) == Some(pan_deg));
    assert(lookup(seq![p1, p2], k2) == Some(tilt_deg));
    assert(lookup(es, k3) == Some(zd));
}

} // verus!
