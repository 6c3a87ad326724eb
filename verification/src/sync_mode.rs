//! The four sync modes, their names in env files, and the version-1 configuration
//! migration that fills them in.
use vstd::prelude::*;
use crate::env_file::EnvValues;
use crate::text::{eq_str, is_ws, lower, lower_chars, push_chars, push_str_chars, replace_char, replace_char_exec, trim, trim_str};

verus! {

broadcast use vstd::string::group_string_axioms;

/// Env key that records the configuration format version.
pub const CONFIG_VERSION_KEY: &'static str = "LUMAWAY_CONFIG_VERSION";
/// The configuration format version written by this library.
pub const CURRENT_CONFIG_VERSION: &'static str = "1";
/// Env key of the sync mode.
pub const SYNC_MODE_KEY: &'static str = "LUMAWAY_SYNC_MODE";
/// Env key of the preset that older configurations used in place of a mode.
pub const LEGACY_PRESET_KEY: &'static str = "LUMAWAY_PRESET";

/// What the lights follow: video, games, the desktop or music.
#[derive(Debug, Clone, Copy, PartialEq, Eq, Structural)]
pub enum SyncMode {
    Video,
    Game,
    Desktop,
    Music,
}

/// The name of a mode in env files and on the command line.
pub open spec fn mode_name(m: SyncMode) -> Seq<char> {
    match m {
        SyncMode::Video => "video"@,
        SyncMode::Game => "game"@,
        SyncMode::Desktop => "desktop"@,
        SyncMode::Music => "music"@,
    }
}

/// The capture preset a mode starts from, if any.
pub open spec fn mode_preset(m: SyncMode) -> Option<Seq<char>> {
    match m {
        SyncMode::Video => Some("video-wayland"@),
        SyncMode::Game => Some("game-wayland"@),
        SyncMode::Desktop => Some("desktop-wayland"@),
        SyncMode::Music => None,
    }
}

/// The color profile a mode starts from.
pub open spec fn mode_color_profile(m: SyncMode) -> Seq<char> {
    match m {
        SyncMode::Video => "vivid"@,
        SyncMode::Game => "game"@,
        SyncMode::Desktop => "desktop"@,
        SyncMode::Music => "music"@,
    }
}

/// A user-typed name made comparable: trimmed, ASCII lower case, `_` read as `-`.
pub open spec fn normalized(s: Seq<char>) -> Seq<char> {
    replace_char(lower(trim(s)), '_', '-')
}

/// The mode that a legacy preset name stands for.
pub open spec fn preset_alias(s: Seq<char>) -> Option<SyncMode> {
    let n = normalized(s);
    if n == "tv-wayland"@ || n == "video-wayland"@ {
        Some(SyncMode::Video)
    } else if n == "game-wayland"@ {
        Some(SyncMode::Game)
    } else if n == "desktop-wayland"@ {
        Some(SyncMode::Desktop)
    } else {
        None
    }
}

/// The message for a name that is no mode; `other` is the normalized name.
pub open spec fn unsupported_mode_message(other: Seq<char>) -> Seq<char> {
    "unsupported sync mode `"@ + other + "`; expected video, game, desktop, or music"@
}

/// The mode a name denotes, or the error message for it.
pub open spec fn parsed_mode(s: Seq<char>) -> Result<SyncMode, Seq<char>> {
    let n = normalized(s);
    if n == "video"@ {
        Ok(SyncMode::Video)
    } else if n == "game"@ {
        Ok(SyncMode::Game)
    } else if n == "desktop"@ {
        Ok(SyncMode::Desktop)
    } else if n == "music"@ {
        Ok(SyncMode::Music)
    } else {
        Err(unsupported_mode_message(n))
    }
}

/// The mode chosen from an explicit mode name and a legacy preset name: a valid mode name
/// wins, then a known preset, then `Video`.
pub open spec fn resolved_mode(sync_mode: Option<Seq<char>>, legacy: Option<Seq<char>>) -> SyncMode {
    match sync_mode {
        Some(s) if parsed_mode(s) is Ok => parsed_mode(s)->Ok_0,
        _ => match legacy {
            Some(p) if preset_alias(p) is Some => preset_alias(p)->Some_0,
            _ => SyncMode::Video,
        },
    }
}

/// The view of an optional string.
pub open spec fn opt_view(s: Option<&str>) -> Option<Seq<char>> {
    match s {
        Some(t) => Some(t@),
        None => None,
    }
}

/// `normalized` on a string.
fn normalized_exec(value: &str) -> (r: Vec<char>)
    ensures
        r@ == normalized(value@),
{
    let t = trim_str(value);
    let l = lower_chars(&t);
    replace_char_exec(&l, '_', '-')
}

impl SyncMode {
    /// The mode's name in env files.
    pub fn as_env_value(self) -> (r: &'static str)
        ensures
            r@ == mode_name(self),
    {
        match self {
            SyncMode::Video => "video",
            SyncMode::Game => "game",
            SyncMode::Desktop => "desktop",
            SyncMode::Music => "music",
        }
    }

    /// The capture preset the mode starts from; music has none.
    pub fn default_preset(self) -> (r: Option<&'static str>)
        ensures
            opt_view(r) == mode_preset(self),
    {
        match self {
            SyncMode::Video => Some("video-wayland"),
            SyncMode::Game => Some("game-wayland"),
            SyncMode::Desktop => Some("desktop-wayland"),
            SyncMode::Music => None,
        }
    }

    /// The color profile the mode starts from.
    pub fn default_color_profile(self) -> (r: &'static str)
        ensures
            r@ == mode_color_profile(self),
    {
        match self {
            SyncMode::Video => "vivid",
            SyncMode::Game => "game",
            SyncMode::Desktop => "desktop",
            SyncMode::Music => "music",
        }
    }

    /// The mode of a legacy preset name (`tv-wayland`, `video-wayland`, `game-wayland`,
    /// `desktop-wayland`, in any case, with `_` for `-`).
    pub fn from_preset_alias(value: &str) -> (r: Option<SyncMode>)
        ensures
            r == preset_alias(value@),
    {
        let n = normalized_exec(value);
        if eq_str(&n, "tv-wayland") || eq_str(&n, "video-wayland") {
            Some(SyncMode::Video)
        } else if eq_str(&n, "game-wayland") {
            Some(SyncMode::Game)
        } else if eq_str(&n, "desktop-wayland") {
            Some(SyncMode::Desktop)
        } else {
            None
        }
    }

    /// Parses a mode name (trimmed, any ASCII case); the error names what was given.
    pub fn parse(value: &str) -> (r: Result<SyncMode, String>)
        ensures
            match (r, parsed_mode(value@)) {
                (Ok(m), Ok(n)) => m == n,
                (Err(e), Err(msg)) => e@ == msg,
                _ => false,
            },
    {
        let n = normalized_exec(value);
        if eq_str(&n, "video") {
            Ok(SyncMode::Video)
        } else if eq_str(&n, "game") {
            Ok(SyncMode::Game)
        } else if eq_str(&n, "desktop") {
            Ok(SyncMode::Desktop)
        } else if eq_str(&n, "music") {
            Ok(SyncMode::Music)
        } else {
            let mut msg = String::new();
            push_str_chars(&mut msg, "unsupported sync mode `");
            push_chars(&mut msg, &n);
            push_str_chars(&mut msg, "`; expected video, game, desktop, or music");
            Err(msg)
        }
    }
}

impl core::str::FromStr for SyncMode {
    type Err = String;

    fn from_str(value: &str) -> (r: Result<SyncMode, String>)
        ensures
            match (r, parsed_mode(value@)) {
                (Ok(m), Ok(n)) => m == n,
                (Err(e), Err(msg)) => e@ == msg,
                _ => false,
            },
    {
        SyncMode::parse(value)
    }
}

/// The mode to run: the explicit mode if it parses, else the legacy preset's mode, else video.
pub fn resolve_sync_mode(sync_mode: Option<&str>, legacy_preset: Option<&str>) -> (r: SyncMode)
    ensures
        r == resolved_mode(opt_view(sync_mode), opt_view(legacy_preset)),
{
    if let Some(value) = sync_mode {
        if let Ok(m) = SyncMode::parse(value) {
            return m;
        }
    }
    if let Some(p) = legacy_preset {
        if let Some(m) = SyncMode::from_preset_alias(p) {
            return m;
        }
    }
    SyncMode::Video
}

/// Whether the configuration already records the current format version.
pub open spec fn has_current_version(values: Map<Seq<char>, Seq<char>>) -> bool {
    values.dom().contains(CONFIG_VERSION_KEY@) && trim(values[CONFIG_VERSION_KEY@])
        == CURRENT_CONFIG_VERSION@
}

/// The updates that bring a configuration to version 1: the version key unless it already
/// holds `1`, and a sync mode derived from the legacy preset unless a mode is set.
pub open spec fn v1_updates(values: Map<Seq<char>, Seq<char>>) -> Seq<(Seq<char>, Seq<char>)> {
    let version: Seq<(Seq<char>, Seq<char>)> = if has_current_version(values) {
        Seq::empty()
    } else {
        seq![(CONFIG_VERSION_KEY@, CURRENT_CONFIG_VERSION@)]
    };
    let legacy = if values.dom().contains(LEGACY_PRESET_KEY@) {
        Some(values[LEGACY_PRESET_KEY@])
    } else {
        None
    };
    let mode: Seq<(Seq<char>, Seq<char>)> = if values.dom().contains(SYNC_MODE_KEY@) {
        Seq::empty()
    } else {
        seq![(SYNC_MODE_KEY@, mode_name(resolved_mode(None, legacy)))]
    };
    version + mode
}

/// The values with each update written in order.
pub open spec fn with_updates(values: Map<Seq<char>, Seq<char>>, u: Seq<(Seq<char>, Seq<char>)>) -> Map<Seq<char>, Seq<char>>
    decreases u.len(),
{
    if u.len() == 0 {
        values
    } else {
        with_updates(values, u.drop_last()).insert(u.last().0, u.last().1)
    }
}

/// The version-1 migration over values: it never overwrites a sync mode that is set, it asks
/// for nothing on values it already migrated, and once its updates are written it asks for
/// nothing more.
pub proof fn law_migration_over_values(values: Map<Seq<char>, Seq<char>>)
    ensures
        values.dom().contains(SYNC_MODE_KEY@) ==> forall|i: int|
            0 <= i < v1_updates(values).len() ==> (#[trigger] v1_updates(values)[i]).0 != SYNC_MODE_KEY@,
        has_current_version(values) && values.dom().contains(SYNC_MODE_KEY@) ==> v1_updates(values).len() == 0,
        v1_updates(with_updates(values, v1_updates(values))).len() == 0,
{
    reveal_strlit("LUMAWAY_CONFIG_VERSION");
    reveal_strlit("LUMAWAY_SYNC_MODE");
    reveal_strlit("1");
    let cv = CONFIG_VERSION_KEY@;
    let sm = SYNC_MODE_KEY@;
    assert(cv != sm) by {
        assert(cv.len() != sm.len());
    }
    let u = v1_updates(values);
    let m2 = with_updates(values, u);
    assert(trim(CURRENT_CONFIG_VERSION@) == CURRENT_CONFIG_VERSION@) by {
        assert(!is_ws('1'));
        assert(CURRENT_CONFIG_VERSION@.drop_first().len() == 0);
        assert(CURRENT_CONFIG_VERSION@.drop_last().len() == 0);
    }
    let hv = has_current_version(values);
    let hs = values.dom().contains(sm);
    let legacy = if values.dom().contains(LEGACY_PRESET_KEY@) {
        Some(values[LEGACY_PRESET_KEY@])
    } else {
        None
    };
    let mode = mode_name(resolved_mode(None, legacy));
    let e = Seq::<(Seq<char>, Seq<char>)>::empty();
    assert(with_updates(values, e) == values);
    if hv && hs {
        assert(u =~= e);
        assert(m2 == values);
    } else if !hv && hs {
        assert(u =~= seq![(cv, CURRENT_CONFIG_VERSION@)]);
        assert(u.drop_last() =~= e);
        assert(u.last() == (cv, CURRENT_CONFIG_VERSION@));
        assert(m2 == with_updates(values, u.drop_last()).insert(u.last().0, u.last().1));
        assert(m2 == values.insert(cv, CURRENT_CONFIG_VERSION@));
    } else if hv && !hs {
        assert(u =~= seq![(sm, mode)]);
        assert(u.drop_last() =~= e);
        assert(u.last() == (sm, mode));
        assert(m2 == with_updates(values, u.drop_last()).insert(u.last().0, u.last().1));
        assert(m2 == values.insert(sm, mode));
    } else {
        assert(u =~= seq![(cv, CURRENT_CONFIG_VERSION@), (sm, mode)]);
        assert(u.drop_last() =~= seq![(cv, CURRENT_CONFIG_VERSION@)]);
        assert(u.drop_last().drop_last() =~= e);
        let u1 = u.drop_last();
        assert(u1.last() == (cv, CURRENT_CONFIG_VERSION@));
        assert(with_updates(values, u1) == with_updates(values, u1.drop_last()).insert(u1.last().0, u1.last().1));
        assert(u.last() == (sm, mode));
        assert(m2 == with_updates(values, u1).insert(u.last().0, u.last().1));
        assert(m2 == values.insert(cv, CURRENT_CONFIG_VERSION@).insert(sm, mode));
    }
    assert(m2.dom().contains(sm));
    assert(has_current_version(m2));
}

/// The views of a list of updates with static keys.
pub open spec fn static_update_views(u: Seq<(&'static str, String)>) -> Seq<(Seq<char>, Seq<char>)> {
    u.map_values(|e: (&'static str, String)| (e.0@, e.1@))
}

/// The updates of the version-1 migration for the given configuration.
pub fn config_v1_updates(values: &EnvValues) -> (r: Vec<(&'static str, String)>)
    ensures
        static_update_views(r@) == v1_updates(values@),
{
    let mut updates: Vec<(&'static str, String)> = Vec::new();
    let current = match values.get(CONFIG_VERSION_KEY) {
        Some(v) => {
            let t = trim_str(v.as_str());
            eq_str(&t, CURRENT_CONFIG_VERSION)
        },
        None => false,
    };
    if !current {
        updates.push((CONFIG_VERSION_KEY, CURRENT_CONFIG_VERSION.to_string()));
    }
    let ghost first = updates@;
    if !values.contains_key(SYNC_MODE_KEY) {
        let legacy = values.get(LEGACY_PRESET_KEY);
        let mode = match &legacy {
            Some(p) => resolve_sync_mode(None, Some(p.as_str())),
            None => resolve_sync_mode(None, None),
        };
        updates.push((SYNC_MODE_KEY, mode.as_env_value().to_string()));
    }
    assert(static_update_views(updates@) =~= v1_updates(values@));
    updates
}

/// Every mode's env name parses back to that mode, and every screen mode's preset is an
/// alias of that mode.
pub proof fn law_mode_names_round_trip(m: SyncMode)
    ensures
        parsed_mode(mode_name(m)) == Ok::<SyncMode, Seq<char>>(m),
        resolved_mode(Some(mode_name(m)), None) == m,
        mode_preset(m) matches Some(p) ==> preset_alias(p) == Some(m),
{
    reveal_strlit("video");
    reveal_strlit("game");
    reveal_strlit("desktop");
    reveal_strlit("music");
    reveal_strlit("video-wayland");
    reveal_strlit("game-wayland");
    reveal_strlit("desktop-wayland");
    reveal_strlit("tv-wayland");
    let n = mode_name(m);
    assert(trim(n) == n);
    match mode_preset(m) {
        Some(p) => {
            assert(trim(p) == p);
            assert(lower(trim(p)) =~= p);
            assert(normalized(p) =~= p);
        },
        None => {},
    }
    assert(lower(trim(n)) =~= n);
    assert(normalized(n) =~= n);
}

} // verus!
