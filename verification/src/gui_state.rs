//! What the desktop window shows and remembers: the starting mode and settings read from
//! the saved configuration, titles, area selection, and the reading of the engine's output.
use vstd::prelude::*;
use crate::dtls::flag_on;
use crate::env_file::{entries_map, saved_value, EnvValues};
use crate::i18n::{tr, translated, Catalog};
use crate::sync_mode::{
    mode_color_profile, mode_preset, resolve_sync_mode, resolved_mode, SyncMode, LEGACY_PRESET_KEY,
    SYNC_MODE_KEY,
};
use crate::text::{
    chars_of, contains, contains_str, eq_chars, eq_str, lines, lines_exec, lower, lower_chars,
    parse_u64, parse_u64_exec, push_chars, push_str_chars, slice_chars, split_once,
    split_once_exec, starts_with, starts_with_str, string_of, trim, trim_chars, trim_start,
    trim_str, views, words, words_exec,
};
use crate::user_messages::{classify_error, classify_lowered_text, text_lowercase, UserMessageCode};

verus! {

broadcast use vstd::string::group_string_axioms;

/// How strongly the lights follow the screen.
#[derive(Debug, Clone, Copy, PartialEq, Eq, Structural)]
pub enum IntensityLevel {
    Subtle,
    Moderate,
    High,
    Max,
}

/// The reactivity of a level, in percent.
pub open spec fn level_percent(l: IntensityLevel) -> u8 {
    match l {
        IntensityLevel::Subtle => 20,
        IntensityLevel::Moderate => 35,
        IntensityLevel::High => 65,
        IntensityLevel::Max => 90,
    }
}

impl IntensityLevel {
    /// The level's name.
    pub fn label(self) -> (r: &'static str)
        ensures
            r@ == match self {
                IntensityLevel::Subtle => "Subtle"@,
                IntensityLevel::Moderate => "Moderate"@,
                IntensityLevel::High => "High"@,
                IntensityLevel::Max => "Max"@,
            },
    {
        match self {
            IntensityLevel::Subtle => "Subtle",
            IntensityLevel::Moderate => "Moderate",
            IntensityLevel::High => "High",
            IntensityLevel::Max => "Max",
        }
    }

    /// The level's reactivity in percent: 20, 35, 65 or 90.
    pub fn reactivity_percent(self) -> (r: u8)
        ensures
            r == level_percent(self),
    {
        match self {
            IntensityLevel::Subtle => 20,
            IntensityLevel::Moderate => 35,
            IntensityLevel::High => 65,
            IntensityLevel::Max => 90,
        }
    }
}

/// The mode the window runs: music has no screen sync yet, so it shows video.
pub open spec fn screen_mode(m: SyncMode) -> SyncMode {
    match m {
        SyncMode::Music => SyncMode::Video,
        _ => m,
    }
}

/// The screen mode of a mode.
pub fn screen_sync_mode(mode: SyncMode) -> (r: SyncMode)
    ensures
        r == screen_mode(mode),
{
    match mode {
        SyncMode::Music => SyncMode::Video,
        m => m,
    }
}

/// The starting mode: the saved mode, else the saved legacy preset's mode, else video; shown
/// as a screen mode.
pub fn initial_sync_mode(saved: &EnvValues) -> (r: SyncMode)
    ensures
        r == screen_mode(
            resolved_mode(saved_value(saved@, SYNC_MODE_KEY@), saved_value(saved@, LEGACY_PRESET_KEY@)),
        ),
{
    let mode = saved.get(SYNC_MODE_KEY);
    let legacy = saved.get(LEGACY_PRESET_KEY);
    let resolved = match (&mode, &legacy) {
        (Some(m), Some(p)) => resolve_sync_mode(Some(m.as_str()), Some(p.as_str())),
        (Some(m), None) => resolve_sync_mode(Some(m.as_str()), None),
        (None, Some(p)) => resolve_sync_mode(None, Some(p.as_str())),
        (None, None) => resolve_sync_mode(None, None),
    };
    screen_sync_mode(resolved)
}

/// The capture preset the window uses for a mode.
pub fn preset_for_sync_mode(mode: SyncMode) -> (r: &'static str)
    ensures
        r@ == match mode_preset(screen_mode(mode)) {
            Some(p) => p,
            None => "video-wayland"@,
        },
{
    match screen_sync_mode(mode).default_preset() {
        Some(p) => p,
        None => "video-wayland",
    }
}

/// The color profile the window uses for a mode.
pub fn color_profile_for_sync_mode(mode: SyncMode) -> (r: &'static str)
    ensures
        r@ == mode_color_profile(screen_mode(mode)),
{
    match screen_sync_mode(mode) {
        SyncMode::Video => "vivid",
        SyncMode::Game => "game",
        SyncMode::Desktop => "desktop",
        SyncMode::Music => "vivid",
    }
}

/// The starting intensity of a mode: high for games, moderate otherwise.
pub fn default_intensity_for_sync_mode(mode: SyncMode) -> (r: IntensityLevel)
    ensures
        r == (if screen_mode(mode) == SyncMode::Game {
            IntensityLevel::High
        } else {
            IntensityLevel::Moderate
        }),
{
    match screen_sync_mode(mode) {
        SyncMode::Game => IntensityLevel::High,
        _ => IntensityLevel::Moderate,
    }
}

/// Whether a saved flag is on (`1`, `true`, `TRUE`, `yes` or `YES`).
pub fn saved_flag(saved: &EnvValues, key: &str) -> (r: bool)
    ensures
        r == flag_on(saved_value(saved@, key@)),
{
    match saved.get(key) {
        Some(v) => crate::dtls::identity_env_flag(Some(v.as_str())),
        None => false,
    }
}

/// A duration in milliseconds read as an `i32` that is not negative: an optional `+` and
/// decimal digits up to `i32::MAX`; anything else, a minus sign included, gives none.
pub open spec fn duration_value(v: Seq<char>) -> Option<int> {
    if v.len() > 0 && v[0] == '-' {
        None
    } else {
        match parse_u64(v) {
            Some(n) if n <= i32::MAX => Some(n as int),
            _ => None,
        }
    }
}

/// The starting sync duration: `LUMAWAY_GUI_DURATION_MS` from the environment (its value is
/// given), else the saved `LUMAWAY_DURATION_MS`; 0 (no limit) unless the chosen value is a
/// non-negative `i32`.
pub fn initial_duration_ms(env_value: Option<&str>, saved: &EnvValues) -> (r: i32)
    ensures
        r == match (match env_value {
            Some(v) => Some(v@),
            None => saved_value(saved@, "LUMAWAY_DURATION_MS"@),
        }) {
            Some(v) => match duration_value(v) {
                Some(n) => n,
                None => 0,
            },
            None => 0,
        },
{
    let chosen: Option<Vec<char>> = match env_value {
        Some(v) => Some(chars_of(v)),
        None => match saved.get("LUMAWAY_DURATION_MS") {
            Some(s) => Some(chars_of(s.as_str())),
            None => None,
        },
    };
    match chosen {
        None => 0,
        Some(c) => {
            if c.len() > 0 && c[0] == '-' {
                0
            } else {
                match parse_u64_exec(&c) {
                    Some(n) => if n <= 2147483647 {
                        n as i32
                    } else {
                        0
                    },
                    None => 0,
                }
            }
        },
    }
}

/// A profile name that is safe to save: trimmed, and empty when it could name a path.
pub open spec fn safe_profile_name(v: Seq<char>) -> Seq<char> {
    if crate::profile_env::valid_profile_name(v) {
        trim(v)
    } else {
        Seq::empty()
    }
}

/// Trims a profile name and blanks one that could name a path.
pub fn sanitize_profile_name(value: &str) -> (r: String)
    ensures
        r@ == safe_profile_name(value@),
{
    let v = trim_str(value);
    if v.len() == 0 || contains_str(&v, "/") || contains_str(&v, "\\") || eq_str(&v, ".") || eq_str(&v, "..") {
        String::new()
    } else {
        string_of(&v)
    }
}

/// The color profiles the window offers, in order.
pub open spec fn color_profiles() -> Seq<Seq<char>> {
    seq!["soft"@, "vivid"@, "game"@, "boosted"@, "cinema"@, "desktop"@]
}

/// A saved color profile if it is one of the offered ones (trimmed), else `vivid`.
pub open spec fn safe_color_profile(v: Seq<char>) -> Seq<char> {
    if color_profiles().contains(trim(v)) {
        trim(v)
    } else {
        "vivid"@
    }
}

/// A saved color profile, or `vivid` when it is unknown.
pub fn sanitize_color_profile(value: &str) -> (r: String)
    ensures
        r@ == safe_color_profile(value@),
{
    let v = trim_str(value);
    let ghost p = color_profiles();
    if eq_str(&v, "soft") || eq_str(&v, "vivid") || eq_str(&v, "game") || eq_str(&v, "boosted")
        || eq_str(&v, "cinema") || eq_str(&v, "desktop") {
        proof {
            if v@ == "soft"@ {
                assert(p[0] == v@);
            } else if v@ == "vivid"@ {
                assert(p[1] == v@);
            } else if v@ == "game"@ {
                assert(p[2] == v@);
            } else if v@ == "boosted"@ {
                assert(p[3] == v@);
            } else if v@ == "cinema"@ {
                assert(p[4] == v@);
            } else {
                assert(p[5] == v@);
            }
        }
        string_of(&v)
    } else {
        proof {
            if p.contains(v@) {
                let i = choose|i: int| 0 <= i < p.len() && p[i] == v@;
                assert(0 <= i < 6);
            }
        }
        "vivid".to_string()
    }
}

/// The position of a color profile in the offered list, ignoring ASCII case (trimmed); the
/// second entry (`vivid`) when it is not offered.
pub open spec fn color_profile_position(active: Seq<char>) -> int {
    let a = lower(trim(active));
    if a == "soft"@ {
        0
    } else if a == "vivid"@ {
        1
    } else if a == "game"@ {
        2
    } else if a == "boosted"@ {
        3
    } else if a == "cinema"@ {
        4
    } else if a == "desktop"@ {
        5
    } else {
        1
    }
}

/// The position of a color profile in the offered list.
pub fn color_profile_index(active: &str) -> (r: usize)
    ensures
        r == color_profile_position(active@),
{
    let t = trim_str(active);
    let a = lower_chars(&t);
    if eq_str(&a, "soft") {
        0
    } else if eq_str(&a, "vivid") {
        1
    } else if eq_str(&a, "game") {
        2
    } else if eq_str(&a, "boosted") {
        3
    } else if eq_str(&a, "cinema") {
        4
    } else if eq_str(&a, "desktop") {
        5
    } else {
        1
    }
}

/// The title of the bridge: its name with its identifier in parentheses, or whichever of
/// the two is not blank.
pub open spec fn bridge_title(name: Seq<char>, id: Seq<char>) -> Seq<char> {
    let n = trim(name);
    let i = trim(id);
    if n.len() == 0 {
        i
    } else if i.len() == 0 {
        n
    } else {
        n + " ("@ + i + ")"@
    }
}

/// The title of the bridge.
pub fn format_bridge_title(name: &str, bridge_id: &str) -> (r: String)
    ensures
        r@ == bridge_title(name@, bridge_id@),
{
    let n = trim_str(name);
    let i = trim_str(bridge_id);
    if n.len() == 0 {
        return string_of(&i);
    }
    if i.len() == 0 {
        return string_of(&n);
    }
    let mut t = String::new();
    push_chars(&mut t, &n);
    push_str_chars(&mut t, " (");
    push_chars(&mut t, &i);
    push_str_chars(&mut t, ")");
    t
}

/// The placeholder shown for a bridge identifier not known yet.
pub open spec fn bridge_id_placeholder() -> Seq<char> {
    "— (load zones after pairing)"@
}

/// The bridge identifier as shown in the settings: trimmed, or the translated placeholder
/// when it is blank.
pub fn bridge_id_display_text(bridge_id: &str, catalog: &Catalog) -> (r: String)
    ensures
        trim(bridge_id@).len() > 0 ==> r@ == trim(bridge_id@),
        trim(bridge_id@).len() == 0 ==> r@ == translated(catalog@, bridge_id_placeholder()),
{
    let i = trim_str(bridge_id);
    if i.len() == 0 {
        tr(catalog, "— (load zones after pairing)")
    } else {
        string_of(&i)
    }
}

/// Areas can be loaded once a bridge address and an application key are filled in.
pub fn ui_can_load_areas(bridge: &str, app_key: &str) -> (r: bool)
    ensures
        r == (trim(bridge@).len() > 0 && trim(app_key@).len() > 0),
{
    let b = trim_str(bridge);
    let k = trim_str(app_key);
    b.len() > 0 && k.len() > 0
}

/// An entertainment area offered in the window.
#[derive(Debug, Clone)]
pub struct AreaOption {
    pub id: String,
    pub name: String,
    /// Light count of the area, when known.
    pub lights: Option<usize>,
}

/// A bridge offered in the window.
#[derive(Debug, Clone)]
pub struct BridgeOption {
    pub ip: String,
    pub id: String,
}

/// The identifiers and names of areas.
pub open spec fn area_keys(areas: Seq<AreaOption>) -> Seq<(Seq<char>, Seq<char>)> {
    areas.map_values(|a: AreaOption| (a.id@, a.name@))
}

/// The first area whose identifier or name is `previous`, from index `i` on.
pub open spec fn area_position(keys: Seq<(Seq<char>, Seq<char>)>, previous: Seq<char>, i: int) -> Option<int>
    decreases keys.len() - i,
{
    if i < 0 || i >= keys.len() {
        None
    } else if keys[i].0 == previous || keys[i].1 == previous {
        Some(i)
    } else {
        area_position(keys, previous, i + 1)
    }
}

/// The area to select after loading areas: the previously chosen one (by identifier or
/// name) when it is still there, else the first; none when there is no area.
pub open spec fn area_selection(keys: Seq<(Seq<char>, Seq<char>)>, previous: Seq<char>) -> Option<int> {
    if keys.len() == 0 {
        None
    } else if previous.len() == 0 {
        Some(0)
    } else {
        match area_position(keys, previous, 0) {
            Some(i) => Some(i),
            None => Some(0),
        }
    }
}

/// The area to select after loading areas.
pub fn selected_area_index(areas: &[AreaOption], previous_area: &str) -> (r: Option<usize>)
    ensures
        match area_selection(area_keys(areas@), previous_area@) {
            Some(i) => r == Some(i as usize),
            None => r is None,
        },
{
    let ghost keys = area_keys(areas@);
    if areas.len() == 0 {
        return None;
    }
    let p = chars_of(previous_area);
    if p.len() == 0 {
        return Some(0);
    }
    let mut i: usize = 0;
    while i < areas.len()
        invariant
            i <= areas.len(),
            keys == area_keys(areas@),
            areas.len() > 0,
            p@ == previous_area@,
            previous_area@.len() > 0,
            keys.len() == areas@.len(),
            area_position(keys, previous_area@, 0) == area_position(keys, previous_area@, i as int),
        decreases areas.len() - i,
    {
        let id = chars_of(areas[i].id.as_str());
        let name = chars_of(areas[i].name.as_str());
        assert(keys[i as int] == (areas@[i as int].id@, areas@[i as int].name@));
        if eq_chars(&id, &p) || eq_chars(&name, &p) {
            return Some(i);
        }
        i = i + 1;
    }
    Some(0)
}

/// A line of the engine's log that may explain a failed sync: a known error, or a line that
/// begins with `error` or mentions ` error`, `failed` or `timed out` (ignoring case).
pub open spec fn failure_candidate(line: Seq<char>) -> bool {
    let t = trim(line);
    let l = text_lowercase(t);
    t.len() > 0 && (classify_lowered_text(text_lowercase(trim(t))) != UserMessageCode::Unknown
        || starts_with(l, "error"@) || contains(l, " error"@) || contains(l, "failed"@) || contains(
        l,
        "timed out"@,
    ))
}

/// `str::to_lowercase` on a line of the log (see `text_lowercase`).
fn lowered(s: &str) -> (r: Vec<char>)
    ensures
        r@ == text_lowercase(s@),
{
    let l = crate::user_messages::lowercase_text(s);
    chars_of(l.as_str())
}

/// Whether a line of the engine's log may explain a failed sync.
pub fn is_sync_failure_candidate(line: &str) -> (r: bool)
    ensures
        r == failure_candidate(line@),
{
    let t = trim_str(line);
    if t.len() == 0 {
        return false;
    }
    let ts = string_of(&t);
    let l = lowered(ts.as_str());
    classify_error(ts.as_str()) != UserMessageCode::Unknown || starts_with_str(&l, "error")
        || contains_str(&l, " error") || contains_str(&l, "failed") || contains_str(&l, "timed out")
}

/// The capture status a line of the engine's log announces: the display was selected, or
/// the GL or CPU capture path is in use.
pub open spec fn capture_status(line: Seq<char>) -> Option<Seq<char>> {
    if contains(line, "selected portal stream"@) {
        Some("Capture: display selected"@)
    } else if contains(line, "effective_capture_backend=Gl"@) || contains(line, "capture_backend=gl"@)
        || contains(line, "capture_backend=Gl"@) {
        Some("Capture: GL"@)
    } else if contains(line, "effective_capture_backend=Cpu"@) || contains(line, "capture_backend=cpu"@)
        || contains(line, "capture_backend=Cpu"@) {
        Some("Capture: CPU"@)
    } else {
        None
    }
}

/// The capture status shown for a line of the engine's log, if the line announces one.
pub fn capture_status_from_log(line: &str) -> (r: Option<String>)
    ensures
        match capture_status(line@) {
            Some(s) => r matches Some(t) && t@ == s,
            None => r is None,
        },
{
    let l = chars_of(line);
    if contains_str(&l, "selected portal stream") {
        Some("Capture: display selected".to_string())
    } else if contains_str(&l, "effective_capture_backend=Gl") || contains_str(&l, "capture_backend=gl")
        || contains_str(&l, "capture_backend=Gl") {
        Some("Capture: GL".to_string())
    } else if contains_str(&l, "effective_capture_backend=Cpu") || contains_str(&l, "capture_backend=cpu")
        || contains_str(&l, "capture_backend=Cpu") {
        Some("Capture: CPU".to_string())
    } else {
        None
    }
}

/// The profile name a line of `list-profiles` output names: its first word that starts with
/// `name=`, without that prefix.
pub open spec fn listed_name(ws: Seq<Seq<char>>) -> Option<Seq<char>>
    decreases ws.len(),
{
    if ws.len() == 0 {
        None
    } else if starts_with(ws[0], "name="@) {
        Some(ws[0].subrange(5, ws[0].len() as int))
    } else {
        listed_name(ws.drop_first())
    }
}

/// The profile names of the lines, in order.
pub open spec fn listed_names(ls: Seq<Seq<char>>) -> Seq<Seq<char>>
    decreases ls.len(),
{
    if ls.len() == 0 {
        Seq::empty()
    } else {
        let prev = listed_names(ls.drop_last());
        match listed_name(words(ls.last())) {
            Some(n) => prev.push(n),
            None => prev,
        }
    }
}

/// The views of a list of strings.
pub open spec fn string_views(v: Seq<String>) -> Seq<Seq<char>> {
    v.map_values(|s: String| s@)
}

/// The profile name on one line, if any.
fn listed_name_exec(line: &[char]) -> (r: Option<Vec<char>>)
    ensures
        match listed_name(words(line@)) {
            Some(n) => r matches Some(v) && v@ == n,
            None => r is None,
        },
{
    let ws = words_exec(line);
    let ghost wv = views(ws@);
    let mut i: usize = 0;
    assert(wv.subrange(0, wv.len() as int) =~= wv);
    while i < ws.len()
        invariant
            i <= ws.len(),
            wv == views(ws@),
            wv == words(line@),
            listed_name(wv) == listed_name(wv.subrange(i as int, wv.len() as int)),
        decreases ws.len() - i,
    {
        let ghost rest = wv.subrange(i as int, wv.len() as int);
        assert(rest[0] == ws@[i as int]@);
        assert(rest.drop_first() =~= wv.subrange(i + 1, wv.len() as int));
        if starts_with_str(&ws[i], "name=") {
            proof {
                reveal_strlit("name=");
            }
            return Some(slice_chars(&ws[i], 5, ws[i].len()));
        }
        i = i + 1;
    }
    None
}

/// The profile names listed by `list-profiles`, in order.
pub fn parse_profile_list_output(text: &str) -> (r: Vec<String>)
    ensures
        string_views(r@) == listed_names(lines(text@)),
{
    let chars = chars_of(text);
    let ls = lines_exec(&chars);
    let ghost lv = views(ls@);
    let mut out: Vec<String> = Vec::new();
    for i in 0..ls.len()
        invariant
            lv == views(ls@),
            lv == lines(text@),
            string_views(out@) == listed_names(lv.take(i as int)),
    {
        assert(lv.take(i + 1).drop_last() =~= lv.take(i as int));
        assert(lv.take(i + 1).last() == ls@[i as int]@);
        match listed_name_exec(&ls[i]) {
            Some(n) => {
                let ghost before = string_views(out@);
                out.push(string_of(&n));
                assert(string_views(out@) =~= before.push(n@));
            },
            None => {},
        }
    }
    assert(lv.take(ls.len() as int) =~= lv);
    out
}

/// The `key=value` words of a line: each word split at its first `=`; words without `=`
/// are skipped.
pub open spec fn word_entries(ws: Seq<Seq<char>>) -> Seq<(Seq<char>, Seq<char>)>
    decreases ws.len(),
{
    if ws.len() == 0 {
        Seq::empty()
    } else {
        let prev = word_entries(ws.drop_last());
        match split_once(ws.last(), '=') {
            Some(e) => prev.push(e),
            None => prev,
        }
    }
}

/// The `key=value` words of a line as a map; a later word replaces an earlier one.
pub fn parse_key_value_words(line: &str) -> (r: EnvValues)
    ensures
        r@ == entries_map(word_entries(words(line@))),
{
    let chars = chars_of(line);
    let ws = words_exec(&chars);
    let ghost wv = views(ws@);
    let mut values = EnvValues::new();
    for i in 0..ws.len()
        invariant
            wv == views(ws@),
            wv == words(line@),
            values@ == entries_map(word_entries(wv.take(i as int))),
    {
        assert(wv.take(i + 1).drop_last() =~= wv.take(i as int));
        assert(wv.take(i + 1).last() == ws@[i as int]@);
        match split_once_exec(&ws[i], '=') {
            Some((k, v)) => {
                let ghost prev = word_entries(wv.take(i as int));
                values.insert(string_of(&k), string_of(&v));
                assert(prev.push((k@, v@)).drop_last() =~= prev);
            },
            None => {},
        }
    }
    assert(wv.take(ws.len() as int) =~= wv);
    values
}

/// The action shown for a capture-quality recommendation.
pub open spec fn recommendation_label(r: Seq<char>) -> Seq<char> {
    if r == "single_channel_area"@ {
        "choose a multi-light entertainment area"@
    } else if r == "capture_too_dark"@ {
        "rerun backend probe or check Portal/backend brightness"@
    } else if r == "low_temporal_variation"@ {
        "test with changing window colors"@
    } else if r == "low_spatial_separation"@ {
        "adjust sampling regions or Hue channel mapping"@
    } else if r == "low_saturation"@ {
        "try the boosted color profile"@
    } else if r == "usable"@ {
        "capture looks usable"@
    } else {
        "inspect sample-debug output"@
    }
}

/// The action shown for a capture-quality hint; unknown hints are read as recommendations.
pub open spec fn hint_label(h: Seq<char>) -> Seq<char> {
    if h == "choose_multi_channel_area_for_correlation_test"@ {
        "choose TV or another multi-light entertainment area to test light correlation"@
    } else if h == "rerun_backend_probe_or_raise_brightness"@ {
        "run backend probe again, then raise brightness only if capture is not dark"@
    } else if h == "test_with_moving_or_contrasting_windows"@ {
        "move contrasting windows while measuring; static content cannot prove responsiveness"@
    } else if h == "use_region_sampling_or_adjust_channel_regions"@ {
        "use region sampling and adjust channel regions/profile mapping"@
    } else if h == "try_boosted_color_profile"@ {
        "try the boosted color profile, then rerun Quality"@
    } else if h == "try_vivid_or_game_color_profile"@ {
        "try the vivid, game, or boosted color profile, then rerun Quality"@
    } else if h == "capture_is_usable_tune_color_profile_if_needed"@ {
        "capture is usable; tune color profile if the visual result is still weak"@
    } else {
        recommendation_label(h)
    }
}

/// The action shown for a capture-quality recommendation.
pub fn capture_quality_recommendation_label(recommendation: &str) -> (r: &'static str)
    ensures
        r@ == recommendation_label(recommendation@),
{
    let c = chars_of(recommendation);
    if eq_str(&c, "single_channel_area") {
        "choose a multi-light entertainment area"
    } else if eq_str(&c, "capture_too_dark") {
        "rerun backend probe or check Portal/backend brightness"
    } else if eq_str(&c, "low_temporal_variation") {
        "test with changing window colors"
    } else if eq_str(&c, "low_spatial_separation") {
        "adjust sampling regions or Hue channel mapping"
    } else if eq_str(&c, "low_saturation") {
        "try the boosted color profile"
    } else if eq_str(&c, "usable") {
        "capture looks usable"
    } else {
        "inspect sample-debug output"
    }
}

/// The action shown for a capture-quality hint.
pub fn capture_quality_hint_label(hint: &str) -> (r: &'static str)
    ensures
        r@ == hint_label(hint@),
{
    let c = chars_of(hint);
    if eq_str(&c, "choose_multi_channel_area_for_correlation_test") {
        "choose TV or another multi-light entertainment area to test light correlation"
    } else if eq_str(&c, "rerun_backend_probe_or_raise_brightness") {
        "run backend probe again, then raise brightness only if capture is not dark"
    } else if eq_str(&c, "test_with_moving_or_contrasting_windows") {
        "move contrasting windows while measuring; static content cannot prove responsiveness"
    } else if eq_str(&c, "use_region_sampling_or_adjust_channel_regions") {
        "use region sampling and adjust channel regions/profile mapping"
    } else if eq_str(&c, "try_boosted_color_profile") {
        "try the boosted color profile, then rerun Quality"
    } else if eq_str(&c, "try_vivid_or_game_color_profile") {
        "try the vivid, game, or boosted color profile, then rerun Quality"
    } else if eq_str(&c, "capture_is_usable_tune_color_profile_if_needed") {
        "capture is usable; tune color profile if the visual result is still weak"
    } else {
        capture_quality_recommendation_label(hint)
    }
}

/// The first line that, after leading white space, starts with `capture_quality `.
pub open spec fn quality_line(ls: Seq<Seq<char>>) -> Option<Seq<char>>
    decreases ls.len(),
{
    if ls.len() == 0 {
        None
    } else if starts_with(trim_start(ls[0]), "capture_quality "@) {
        Some(ls[0])
    } else {
        quality_line(ls.drop_first())
    }
}

/// The value of `key` in `m`, or `default`.
pub open spec fn field_or(m: Map<Seq<char>, Seq<char>>, key: Seq<char>, default: Seq<char>) -> Seq<char> {
    if m.dom().contains(key) {
        m[key]
    } else {
        default
    }
}

/// The summary of a `capture-quality` run: none without a `capture_quality` line carrying a
/// recommendation; missing values show as `?` (warnings as `none`).
pub open spec fn quality_summary(output: Seq<char>) -> Option<Seq<char>> {
    match quality_line(lines(output)) {
        None => None,
        Some(line) => {
            let f = entries_map(word_entries(words(line)));
            if !f.dom().contains("recommendation"@) {
                None
            } else {
                let rec = f["recommendation"@];
                let action = if f.dom().contains("hint"@) {
                    hint_label(f["hint"@])
                } else {
                    recommendation_label(rec)
                };
                Some(
                    "Capture quality: "@ + rec + "\n- area: "@ + field_or(f, "area_name"@, "?"@)
                        + ", action: "@ + action + "\n- backend: "@ + field_or(
                        f,
                        "capture_backend"@,
                        "?"@,
                    ) + ", frames: "@ + field_or(f, "frames"@, "?"@) + ", channels: "@ + field_or(
                        f,
                        "channels"@,
                        "?"@,
                    ) + "\n- luma: "@ + field_or(f, "avg_luma"@, "?"@) + ", saturation: "@
                        + field_or(f, "avg_saturation"@, "?"@) + "\n- frame delta: "@ + field_or(
                        f,
                        "avg_frame_delta"@,
                        "?"@,
                    ) + ", channel separation: "@ + field_or(f, "avg_channel_separation"@, "?"@)
                        + ", dark frames: "@ + field_or(f, "dark_frames"@, "?"@)
                        + "\n- warnings: "@ + field_or(f, "warnings"@, "none"@) + "\n"@,
                )
            }
        },
    }
}

/// Appends the value of `key`, or `default`.
fn push_field(out: &mut String, fields: &EnvValues, key: &str, default: &str)
    ensures
        final(out)@ == old(out)@ + field_or(fields@, key@, default@),
{
    match fields.get(key) {
        Some(v) => push_str_chars(out, v.as_str()),
        None => push_str_chars(out, default),
    }
}

/// The summary of a `capture-quality` run, as the window shows it.
pub fn format_capture_quality_summary(output: &str) -> (r: Option<String>)
    ensures
        match quality_summary(output@) {
            Some(t) => r matches Some(s) && s@ == t,
            None => r is None,
        },
{
    let chars = chars_of(output);
    let ls = lines_exec(&chars);
    let ghost lv = views(ls@);
    let mut found: Option<usize> = None;
    let mut i: usize = 0;
    assert(lv.subrange(0, lv.len() as int) =~= lv);
    while i < ls.len()
        invariant_except_break
            found is None,
        invariant
            i <= ls.len(),
            lv == views(ls@),
            lv == lines(output@),
            quality_line(lv) == quality_line(lv.subrange(i as int, lv.len() as int)),
        ensures
            match found {
                Some(k) => k < ls.len() && quality_line(lv) == Some(lv[k as int]),
                None => quality_line(lv) is None,
            },
        decreases ls.len() - i,
    {
        let ghost rest = lv.subrange(i as int, lv.len() as int);
        assert(rest[0] == ls@[i as int]@);
        assert(rest.drop_first() =~= lv.subrange(i + 1, lv.len() as int));
        let t = crate::text::trim_start_chars(&ls[i]);
        if starts_with_str(&t, "capture_quality ") {
            found = Some(i);
            break;
        }
        i = i + 1;
    }
    let k = match found {
        Some(k) => k,
        None => {
            return None;
        },
    };
    let line = string_of(&ls[k]);
    let fields = parse_key_value_words(line.as_str());
    let rec = match fields.get("recommendation") {
        Some(v) => v,
        None => {
            return None;
        },
    };
    let action: &str = match fields.get("hint") {
        Some(h) => capture_quality_hint_label(h.as_str()),
        None => capture_quality_recommendation_label(rec.as_str()),
    };
    let mut out = String::new();
    push_str_chars(&mut out, "Capture quality: ");
    push_str_chars(&mut out, rec.as_str());
    push_str_chars(&mut out, "\n- area: ");
    push_field(&mut out, &fields, "area_name", "?");
    push_str_chars(&mut out, ", action: ");
    push_str_chars(&mut out, action);
    push_str_chars(&mut out, "\n- backend: ");
    push_field(&mut out, &fields, "capture_backend", "?");
    push_str_chars(&mut out, ", frames: ");
    push_field(&mut out, &fields, "frames", "?");
    push_str_chars(&mut out, ", channels: ");
    push_field(&mut out, &fields, "channels", "?");
    push_str_chars(&mut out, "\n- luma: ");
    push_field(&mut out, &fields, "avg_luma", "?");
    push_str_chars(&mut out, ", saturation: ");
    push_field(&mut out, &fields, "avg_saturation", "?");
    push_str_chars(&mut out, "\n- frame delta: ");
    push_field(&mut out, &fields, "avg_frame_delta", "?");
    push_str_chars(&mut out, ", channel separation: ");
    push_field(&mut out, &fields, "avg_channel_separation", "?");
    push_str_chars(&mut out, ", dark frames: ");
    push_field(&mut out, &fields, "dark_frames", "?");
    push_str_chars(&mut out, "\n- warnings: ");
    push_field(&mut out, &fields, "warnings", "none");
    push_str_chars(&mut out, "\n");
    Some(out)
}

} // verus!
