//! Capture profiles and the main `lumaway.env`: which keys each may set, where the files
//! live (relative to the configuration home), and the text of a new profile.
use vstd::prelude::*;
use crate::env_file::{update_views, upsert_env_text, upserted_env};
use crate::env_file::{last_value, pair_views};
use crate::ordered::{holds_last_values, keys_ascending, last_values_by_key};
use crate::sync_mode::opt_view;
use crate::hue_tls_pin::{join_path, join_path_exec};
use crate::text::{
    chars_of, contains, contains_str, ends_with, ends_with_str, eq_str, i64_decimal, int_decimal,
    push_chars, push_str_chars, slice_chars, starts_with, starts_with_str, string_of, trim,
    trim_str,
};

verus! {

broadcast use vstd::string::group_string_axioms;

/// Environment variable that carries a failure to load the selected profile.
pub const PROFILE_LOAD_ERROR_ENV: &'static str = "LUMAWAY_PROFILE_LOAD_ERROR";

/// Env key under which the bridge's identifier is kept.
pub const BRIDGE_ID_KEY: &'static str = "LUMAWAY_BRIDGE_ID";

/// The main env file, relative to the configuration home.
pub fn main_env_path() -> (r: &'static str)
    ensures
        r@ == "lumaway/lumaway.env"@,
{
    "lumaway/lumaway.env"
}

/// The main env file, relative to the configuration home.
pub fn lumaway_main_env_path() -> (r: &'static str)
    ensures
        r@ == "lumaway/lumaway.env"@,
{
    main_env_path()
}

/// The keys a profile may set: capture, sampling and color settings, no secrets.
pub open spec fn profile_key(key: Seq<char>) -> bool {
    key == "LUMAWAY_SYNC_MODE"@ || key == "LUMAWAY_PRESET"@ || key == "LUMAWAY_CAPTURE_BACKEND"@
        || key == "LUMAWAY_CAPTURE_FPS"@ || key == "LUMAWAY_STREAM_FPS"@ || key
        == "LUMAWAY_PIPEWIRE_FPS"@ || key == "LUMAWAY_CAPTURE_POLL_MS"@ || key
        == "LUMAWAY_SAMPLE_WIDTH"@ || key == "LUMAWAY_SAMPLE_HEIGHT"@ || key
        == "LUMAWAY_SAMPLE_EDGE_MARGIN"@ || key == "LUMAWAY_SAMPLE_CROP_LEFT"@ || key
        == "LUMAWAY_SAMPLE_CROP_RIGHT"@ || key == "LUMAWAY_SAMPLE_CROP_TOP"@ || key
        == "LUMAWAY_SAMPLE_CROP_BOTTOM"@ || key == "LUMAWAY_SAMPLING"@ || key
        == "LUMAWAY_BRIGHTNESS"@ || key == "LUMAWAY_REACTIVITY"@ || key
        == "LUMAWAY_COLOR_PROFILE"@ || key == "LUMAWAY_NOISE_THRESHOLD"@ || key
        == "LUMAWAY_MAX_STEP"@
}

/// Whether a profile may set `key`.
pub fn is_profile_key(key: &str) -> (r: bool)
    ensures
        r == profile_key(key@),
{
    let k = chars_of(key);
    eq_str(&k, "LUMAWAY_SYNC_MODE") || eq_str(&k, "LUMAWAY_PRESET") || eq_str(
        &k,
        "LUMAWAY_CAPTURE_BACKEND",
    ) || eq_str(&k, "LUMAWAY_CAPTURE_FPS") || eq_str(&k, "LUMAWAY_STREAM_FPS") || eq_str(
        &k,
        "LUMAWAY_PIPEWIRE_FPS",
    ) || eq_str(&k, "LUMAWAY_CAPTURE_POLL_MS") || eq_str(&k, "LUMAWAY_SAMPLE_WIDTH") || eq_str(
        &k,
        "LUMAWAY_SAMPLE_HEIGHT",
    ) || eq_str(&k, "LUMAWAY_SAMPLE_EDGE_MARGIN") || eq_str(&k, "LUMAWAY_SAMPLE_CROP_LEFT")
        || eq_str(&k, "LUMAWAY_SAMPLE_CROP_RIGHT") || eq_str(&k, "LUMAWAY_SAMPLE_CROP_TOP")
        || eq_str(&k, "LUMAWAY_SAMPLE_CROP_BOTTOM") || eq_str(&k, "LUMAWAY_SAMPLING") || eq_str(
        &k,
        "LUMAWAY_BRIGHTNESS",
    ) || eq_str(&k, "LUMAWAY_REACTIVITY") || eq_str(&k, "LUMAWAY_COLOR_PROFILE") || eq_str(
        &k,
        "LUMAWAY_NOISE_THRESHOLD",
    ) || eq_str(&k, "LUMAWAY_MAX_STEP")
}

/// The keys the main env file may set: every `LUMAWAY_` key and `RUST_LOG`.
pub open spec fn main_env_key(key: Seq<char>) -> bool {
    starts_with(key, "LUMAWAY_"@) || key == "RUST_LOG"@
}

/// Whether the main env file may set `key`.
pub fn is_main_env_key(key: &str) -> (r: bool)
    ensures
        r == main_env_key(key@),
{
    let k = chars_of(key);
    starts_with_str(&k, "LUMAWAY_") || eq_str(&k, "RUST_LOG")
}

/// A profile name is valid when, trimmed, it is not empty, `.` or `..` and holds no path
/// separator.
pub open spec fn valid_profile_name(name: Seq<char>) -> bool {
    let n = trim(name);
    n.len() > 0 && !contains(n, "/"@) && !contains(n, "\\"@) && n != "."@ && n != ".."@
}

/// The file of a profile relative to the configuration home, or the refusal of its name.
pub open spec fn profile_file(name: Seq<char>) -> Result<Seq<char>, Seq<char>> {
    let n = trim(name);
    if valid_profile_name(name) {
        Ok("lumaway/profiles/"@ + n + ".env"@)
    } else {
        Err("invalid profile name: "@ + n)
    }
}

/// The file of the profile `name` under the configuration home `config_home`
/// (`$XDG_CONFIG_HOME`, else `$HOME/.config`): names that could leave the profile directory
/// are refused.
pub fn profile_path(config_home: &str, name: &str) -> (r: Result<String, String>)
    ensures
        match (r, profile_file(name@)) {
            (Ok(p), Ok(q)) => p@ == join_path(config_home@, q),
            (Err(e), Err(m)) => e@ == m,
            _ => false,
        },
{
    let n = trim_str(name);
    if n.len() == 0 || contains_str(&n, "/") || contains_str(&n, "\\") || eq_str(&n, ".")
        || eq_str(&n, "..") {
        let mut msg = String::new();
        push_str_chars(&mut msg, "invalid profile name: ");
        push_chars(&mut msg, &n);
        return Err(msg);
    }
    let mut path = String::new();
    push_str_chars(&mut path, "lumaway/profiles/");
    push_chars(&mut path, &n);
    push_str_chars(&mut path, ".env");
    Ok(join_path_exec(config_home, path.as_str()))
}

/// The text of a new profile: video mode with the given backend and sample size, and the
/// defaults of the video preset.
pub open spec fn profile_text(capture_backend: Seq<char>, width: int, height: int) -> Seq<char> {
    "LUMAWAY_SYNC_MODE=video\nLUMAWAY_CAPTURE_BACKEND="@ + capture_backend
        + "\nLUMAWAY_CAPTURE_FPS=8\nLUMAWAY_STREAM_FPS=25\nLUMAWAY_PIPEWIRE_FPS=25\nLUMAWAY_CAPTURE_POLL_MS=5\nLUMAWAY_SAMPLE_WIDTH="@
        + int_decimal(width) + "\nLUMAWAY_SAMPLE_HEIGHT="@ + int_decimal(height)
        + "\nLUMAWAY_SAMPLE_EDGE_MARGIN=0.08\nLUMAWAY_SAMPLE_CROP_LEFT=0.0000\nLUMAWAY_SAMPLE_CROP_RIGHT=0.0000\nLUMAWAY_SAMPLE_CROP_TOP=0.0000\nLUMAWAY_SAMPLE_CROP_BOTTOM=0.0000\nLUMAWAY_SAMPLING=region\nLUMAWAY_BRIGHTNESS=1.00\nLUMAWAY_REACTIVITY=0.35\nLUMAWAY_COLOR_PROFILE=vivid\nLUMAWAY_NOISE_THRESHOLD=3\n"@
}

/// The text of a new profile.
pub fn default_profile_text(capture_backend: &str, sample_width: i32, sample_height: i32) -> (r:
    String)
    ensures
        r@ == profile_text(capture_backend@, sample_width as int, sample_height as int),
{
    let mut t = String::new();
    push_str_chars(&mut t, "LUMAWAY_SYNC_MODE=video\nLUMAWAY_CAPTURE_BACKEND=");
    push_str_chars(&mut t, capture_backend);
    push_str_chars(
        &mut t,
        "\nLUMAWAY_CAPTURE_FPS=8\nLUMAWAY_STREAM_FPS=25\nLUMAWAY_PIPEWIRE_FPS=25\nLUMAWAY_CAPTURE_POLL_MS=5\nLUMAWAY_SAMPLE_WIDTH=",
    );
    let w = i64_decimal(sample_width as i64);
    push_chars(&mut t, &w);
    push_str_chars(&mut t, "\nLUMAWAY_SAMPLE_HEIGHT=");
    let h = i64_decimal(sample_height as i64);
    push_chars(&mut t, &h);
    push_str_chars(
        &mut t,
        "\nLUMAWAY_SAMPLE_EDGE_MARGIN=0.08\nLUMAWAY_SAMPLE_CROP_LEFT=0.0000\nLUMAWAY_SAMPLE_CROP_RIGHT=0.0000\nLUMAWAY_SAMPLE_CROP_TOP=0.0000\nLUMAWAY_SAMPLE_CROP_BOTTOM=0.0000\nLUMAWAY_SAMPLING=region\nLUMAWAY_BRIGHTNESS=1.00\nLUMAWAY_REACTIVITY=0.35\nLUMAWAY_COLOR_PROFILE=vivid\nLUMAWAY_NOISE_THRESHOLD=3\n",
    );
    t
}

/// The main env file after recording the bridge's identifier, or `None` when the address
/// or the identifier is blank (nothing is written then). `existing` is the file's text,
/// `None` when there is no file.
pub fn persist_bridge_identity(existing: Option<&str>, bridge_ip: &str, bridge_id: &str) -> (r:
    Option<String>)
    ensures
        (trim(bridge_ip@).len() == 0 || trim(bridge_id@).len() == 0) ==> r is None,
        (trim(bridge_ip@).len() > 0 && trim(bridge_id@).len() > 0) ==> (r matches Some(t)
            && t@ == upserted_env(opt_view(existing), seq![(BRIDGE_ID_KEY@, trim(bridge_id@))])),
{
    let ip = trim_str(bridge_ip);
    let id = trim_str(bridge_id);
    if ip.len() == 0 || id.len() == 0 {
        return None;
    }
    let id_text = string_of(&id);
    let updates: Vec<(&str, &str)> = vec![(BRIDGE_ID_KEY, id_text.as_str())];
    assert(update_views(updates@) =~= seq![(BRIDGE_ID_KEY@, trim(bridge_id@))]);
    let t = upsert_env_text(existing, updates.as_slice());
    assert(opt_view(existing) == match existing {
        Some(t) => Some(t@),
        None => None::<Seq<char>>,
    });
    Some(t)
}

/// A profile path never leaves the profile directory: it is `lumaway/profiles/<name>.env`
/// with a non-empty name that holds no `/` or `\\` and is neither `.` nor `..`.
pub proof fn law_profile_paths_stay_in_profile_dir(name: Seq<char>)
    ensures
        profile_file(name) matches Ok(p) ==> {
            let n = trim(name);
            &&& p == "lumaway/profiles/"@ + n + ".env"@
            &&& n.len() > 0
            &&& n != "."@
            &&& n != ".."@
            &&& forall|i: int| 0 <= i < n.len() ==> n[i] != '/' && n[i] != '\\'
        },
{
    reveal_strlit("/");
    reveal_strlit("\\");
    let n = trim(name);
    if valid_profile_name(name) {
        assert forall|i: int| 0 <= i < n.len() implies n[i] != '/' && n[i] != '\\' by {
            if n[i] == '/' {
                assert(n.subrange(i, i + 1) =~= "/"@);
                assert(crate::text::occurs_at(n, "/"@, i));
            }
            if n[i] == '\\' {
                assert(n.subrange(i, i + 1) =~= "\\"@);
                assert(crate::text::occurs_at(n, "\\"@, i));
            }
        }
    }
}

/// The profile a file of the profile directory holds, if any: its name must end in `.env`
/// after a stem that is not empty, and the stem must be a valid profile name.
pub open spec fn listed_profile(file_name: Seq<char>) -> Option<Seq<char>> {
    if file_name.len() > 4 && ends_with(file_name, ".env"@) {
        let stem = file_name.subrange(0, file_name.len() - 4);
        if valid_profile_name(stem) {
            Some(stem)
        } else {
            None
        }
    } else {
        None
    }
}

/// The profiles of the files in order, as (name, empty) entries.
pub open spec fn profile_entries(names: Seq<Seq<char>>) -> Seq<(Seq<char>, Seq<char>)>
    decreases names.len(),
{
    if names.len() == 0 {
        Seq::empty()
    } else {
        let prev = profile_entries(names.drop_last());
        match listed_profile(names.last()) {
            Some(p) => prev.push((p, Seq::empty())),
            None => prev,
        }
    }
}

/// The views of texts.
pub open spec fn name_views(v: Seq<String>) -> Seq<Seq<char>> {
    v.map_values(|s: String| s@)
}

/// The profiles found among the names of the files in the profile directory, sorted by
/// name, each once.
pub fn available_profile_names(file_names: &[String]) -> (r: Vec<String>)
    ensures
        keys_ascending(name_views(r@).map_values(|n: Seq<char>| (n, Seq::<char>::empty()))),
        holds_last_values(
            name_views(r@).map_values(|n: Seq<char>| (n, Seq::<char>::empty())),
            profile_entries(name_views(file_names@)),
        ),
{
    let ghost fv = name_views(file_names@);
    let mut entries: Vec<(String, String)> = Vec::new();
    let mut i: usize = 0;
    while i < file_names.len()
        invariant
            i <= file_names.len(),
            fv == name_views(file_names@),
            pair_views(entries@) == profile_entries(fv.take(i as int)),
        decreases file_names.len() - i,
    {
        assert(fv.take(i + 1).drop_last() =~= fv.take(i as int));
        let name = chars_of(file_names[i].as_str());
        if name.len() > 4 && ends_with_str(&name, ".env") {
            let stem = slice_chars(&name, 0, name.len() - 4);
            let stem_text = string_of(&stem);
            if profile_path("", stem_text.as_str()).is_ok() {
                let ghost before = pair_views(entries@);
                entries.push((stem_text, String::new()));
                assert(pair_views(entries@) =~= before.push((stem@, Seq::<char>::empty())));
            }
        }
        i = i + 1;
    }
    assert(fv.take(file_names.len() as int) =~= fv);
    let sorted = last_values_by_key(&entries);
    proof {
        let pv = pair_views(sorted@);
        lemma_profile_entries_empty(fv);
        assert forall|k: int| 0 <= k < pv.len() implies (#[trigger] pv[k]).1 == Seq::<char>::empty() by {
            assert(last_value(pair_views(entries@), pv[k].0) == Some(pv[k].1));
            lemma_profile_values_empty(pair_views(entries@), pv[k].0);
        }
    }
    let mut out: Vec<String> = Vec::new();
    let mut j: usize = 0;
    while j < sorted.len()
        invariant
            j <= sorted.len(),
            forall|k: int| 0 <= k < sorted.len() ==> (#[trigger] pair_views(sorted@)[k]).1 == Seq::<char>::empty(),
            name_views(out@).map_values(|n: Seq<char>| (n, Seq::<char>::empty())) == pair_views(sorted@).take(j as int),
        decreases sorted.len() - j,
    {
        assert(pair_views(sorted@)[j as int].1 == Seq::<char>::empty());
        let ghost before = name_views(out@);
        out.push(sorted[j].0.clone());
        assert(name_views(out@) =~= before.push(sorted@[j as int].0@));
        proof {
            let pv = pair_views(sorted@);
            assert(pv[j as int] == (sorted@[j as int].0@, sorted@[j as int].1@));
            assert(pv.take(j + 1) =~= pv.take(j as int).push(pv[j as int]));
            assert(name_views(out@).map_values(|n: Seq<char>| (n, Seq::<char>::empty()))
                =~= before.map_values(|n: Seq<char>| (n, Seq::<char>::empty())).push(
                (sorted@[j as int].0@, Seq::<char>::empty()),
            ));
        }
        j = j + 1;
    }
    assert(pair_views(sorted@).take(sorted.len() as int) =~= pair_views(sorted@));
    out
}

/// The profile entries of file names carry empty values.
proof fn lemma_profile_entries_empty(names: Seq<Seq<char>>)
    ensures
        forall|i: int| 0 <= i < profile_entries(names).len() ==> (#[trigger] profile_entries(names)[i]).1 == Seq::<char>::empty(),
    decreases names.len(),
{
    if names.len() > 0 {
        lemma_profile_entries_empty(names.drop_last());
        let prev = profile_entries(names.drop_last());
        assert forall|i: int| 0 <= i < profile_entries(names).len() implies (#[trigger] profile_entries(names)[i]).1 == Seq::<char>::empty() by {
            if i < prev.len() {
                assert(profile_entries(names)[i] == prev[i]);
            }
        }
    }
}

/// The entries of profile files all carry an empty value.
proof fn lemma_profile_values_empty(es: Seq<(Seq<char>, Seq<char>)>, k: Seq<char>)
    requires
        forall|i: int| 0 <= i < es.len() ==> (#[trigger] es[i]).1 == Seq::<char>::empty(),
    ensures
        last_value(es, k) matches Some(v) ==> v == Seq::<char>::empty(),
    decreases es.len(),
{
    if es.len() > 0 {
        let init = es.drop_last();
        assert forall|i: int| 0 <= i < init.len() implies (#[trigger] init[i]).1 == Seq::<char>::empty() by {
            assert(init[i] == es[i]);
        }
        lemma_profile_values_empty(init, k);
    }
}

} // verus!
