//! The configuration file the desktop window writes (`lumaway.env`), and the promise that
//! the window and the commands read back what it wrote.
use vstd::prelude::*;
use crate::env_file::{
    entries_map, key_value_line, last_value, lemma_key_value_line_entry, lemma_last_value,
    lemma_last_value_concat, lemma_parse_render, line_entries, parsed_env, plain_key,
    render_lines, saved_value, single_line,
};
use crate::gui_state::{
    safe_color_profile, safe_profile_name, sanitize_color_profile, sanitize_profile_name,
    screen_mode,
};
use crate::sync_mode::{
    law_mode_names_round_trip, mode_name, resolved_mode, SyncMode, LEGACY_PRESET_KEY, SYNC_MODE_KEY,
};
use crate::text::{
    i64_decimal, int_decimal, is_ws, nat_decimal, push_str_chars, string_of, trim, trim_end,
    trim_start, trim_str,
};

verus! {

broadcast use vstd::string::group_string_axioms;

/// What the window saves: the settings as shown, with the brightness and reactivity
/// already written as two-decimal fractions.
#[derive(Debug)]
pub struct WindowSettings {
    pub sync_mode: SyncMode,
    pub bridge: String,
    pub bridge_id: String,
    pub area: String,
    pub app_key: String,
    pub client_key: String,
    pub duration_ms: i32,
    pub brightness: String,
    pub reactivity: String,
    pub profile: String,
    pub color_profile: String,
    pub autostart: bool,
}

/// The entries of the saved file, in order: the configuration version, the mode, the
/// bridge, its identifier (trimmed; only when not blank), the area, both keys, the profile
/// (blank when it could name a path), the duration, brightness and reactivity, the color
/// profile (`vivid` when unknown), autostart, and the log filter.
pub open spec fn settings_entries(s: WindowSettings) -> Seq<(Seq<char>, Seq<char>)> {
    let id_entry: Seq<(Seq<char>, Seq<char>)> = if trim(s.bridge_id@).len() == 0 {
        Seq::empty()
    } else {
        seq![("LUMAWAY_BRIDGE_ID"@, trim(s.bridge_id@))]
    };
    seq![
        ("LUMAWAY_CONFIG_VERSION"@, "1"@),
        ("LUMAWAY_SYNC_MODE"@, mode_name(s.sync_mode)),
        ("LUMAWAY_BRIDGE"@, s.bridge@),
    ] + id_entry + seq![
        ("LUMAWAY_AREA"@, s.area@),
        ("LUMAWAY_APP_KEY"@, s.app_key@),
        ("LUMAWAY_CLIENT_KEY"@, s.client_key@),
        ("LUMAWAY_PROFILE"@, safe_profile_name(s.profile@)),
        ("LUMAWAY_DURATION_MS"@, int_decimal(s.duration_ms as int)),
        ("LUMAWAY_BRIGHTNESS"@, s.brightness@),
        ("LUMAWAY_REACTIVITY"@, s.reactivity@),
        ("LUMAWAY_COLOR_PROFILE"@, safe_color_profile(s.color_profile@)),
        ("LUMAWAY_AUTOSTART_SYNC"@, if s.autostart {
            "true"@
        } else {
            "false"@
        }),
        ("RUST_LOG"@, "lumaway=info"@),
    ]
}

/// The `key=value` lines of entries.
pub open spec fn kv_lines(es: Seq<(Seq<char>, Seq<char>)>) -> Seq<Seq<char>> {
    es.map_values(|e: (Seq<char>, Seq<char>)| key_value_line(e.0, e.1))
}

/// The text of the saved file: one `key=value` line per entry.
pub open spec fn settings_text(s: WindowSettings) -> Seq<char> {
    render_lines(kv_lines(settings_entries(s)))
}

/// The views of pairs of strings.
pub open spec fn entry_views(v: Seq<(String, String)>) -> Seq<(Seq<char>, Seq<char>)> {
    v.map_values(|p: (String, String)| (p.0@, p.1@))
}

/// Entries written one `key=value` line each.
fn render_entries(es: &Vec<(String, String)>) -> (r: String)
    ensures
        r@ == render_lines(kv_lines(entry_views(es@))),
{
    let ghost ev = entry_views(es@);
    let mut t = String::new();
    let mut i: usize = 0;
    while i < es.len()
        invariant
            i <= es.len(),
            ev == entry_views(es@),
            t@ == render_lines(kv_lines(ev.take(i as int))),
        decreases es.len() - i,
    {
        let ghost before = t@;
        assert(kv_lines(ev.take(i + 1)).drop_last() =~= kv_lines(ev.take(i as int)));
        push_str_chars(&mut t, es[i].0.as_str());
        push_str_chars(&mut t, "=");
        push_str_chars(&mut t, es[i].1.as_str());
        push_str_chars(&mut t, "\n");
        proof {
            reveal_strlit("=");
            reveal_strlit("\n");
            let line = key_value_line(ev[i as int].0, ev[i as int].1);
            assert(kv_lines(ev.take(i + 1)).last() == line);
            assert(t@ =~= before + line + seq!['\n']);
        }
        i = i + 1;
    }
    assert(ev.take(es.len() as int) =~= ev);
    t
}

/// The text the window saves for its settings.
pub fn settings_file_text(s: &WindowSettings) -> (r: String)
    ensures
        r@ == settings_text(*s),
{
    let mut es: Vec<(String, String)> = Vec::new();
    es.push(("LUMAWAY_CONFIG_VERSION".to_string(), "1".to_string()));
    es.push(("LUMAWAY_SYNC_MODE".to_string(), s.sync_mode.as_env_value().to_string()));
    es.push(("LUMAWAY_BRIDGE".to_string(), s.bridge.clone()));
    let id = trim_str(s.bridge_id.as_str());
    if id.len() > 0 {
        es.push(("LUMAWAY_BRIDGE_ID".to_string(), string_of(&id)));
    }
    es.push(("LUMAWAY_AREA".to_string(), s.area.clone()));
    es.push(("LUMAWAY_APP_KEY".to_string(), s.app_key.clone()));
    es.push(("LUMAWAY_CLIENT_KEY".to_string(), s.client_key.clone()));
    es.push(("LUMAWAY_PROFILE".to_string(), sanitize_profile_name(s.profile.as_str())));
    let d = i64_decimal(s.duration_ms as i64);
    es.push(("LUMAWAY_DURATION_MS".to_string(), string_of(&d)));
    es.push(("LUMAWAY_BRIGHTNESS".to_string(), s.brightness.clone()));
    es.push(("LUMAWAY_REACTIVITY".to_string(), s.reactivity.clone()));
    es.push(("LUMAWAY_COLOR_PROFILE".to_string(), sanitize_color_profile(s.color_profile.as_str())));
    let autostart = if s.autostart {
        "true"
    } else {
        "false"
    };
    es.push(("LUMAWAY_AUTOSTART_SYNC".to_string(), autostart.to_string()));
    es.push(("RUST_LOG".to_string(), "lumaway=info".to_string()));
    assert(entry_views(es@) =~= settings_entries(*s));
    render_entries(&es)
}

/// Entries with their values trimmed, as reading gives them back.
pub open spec fn trimmed_entries(es: Seq<(Seq<char>, Seq<char>)>) -> Seq<(Seq<char>, Seq<char>)> {
    es.map_values(|e: (Seq<char>, Seq<char>)| (e.0, trim(e.1)))
}

/// The `key=value` lines of entries with plain keys read back as the entries with trimmed
/// values.
pub proof fn lemma_kv_line_entries(es: Seq<(Seq<char>, Seq<char>)>)
    requires
        forall|i: int| 0 <= i < es.len() ==> plain_key(#[trigger] es[i].0),
    ensures
        line_entries(kv_lines(es)) == trimmed_entries(es),
    decreases es.len(),
{
    if es.len() > 0 {
        let init = es.drop_last();
        assert(kv_lines(es).drop_last() =~= kv_lines(init));
        assert forall|i: int| 0 <= i < init.len() implies plain_key(#[trigger] init[i].0) by {
            assert(init[i] == es[i]);
        }
        lemma_kv_line_entries(init);
        lemma_key_value_line_entry(es.last().0, es.last().1);
        assert(trimmed_entries(es) =~= trimmed_entries(init).push((es.last().0, trim(es.last().1))));
    }
}

/// In a list of entries, an entry whose key comes back in no later entry gives the value
/// of that key.
pub proof fn lemma_entries_map_last(es: Seq<(Seq<char>, Seq<char>)>, i: int)
    requires
        0 <= i < es.len(),
        forall|j: int| i < j < es.len() ==> #[trigger] es[j].0 != es[i].0,
    ensures
        entries_map(es).dom().contains(es[i].0),
        entries_map(es)[es[i].0] == es[i].1,
    decreases es.len(),
{
    if i < es.len() - 1 {
        let init = es.drop_last();
        assert forall|j: int| i < j < init.len() implies #[trigger] init[j].0 != init[i].0 by {
            assert(init[j] == es[j]);
        }
        lemma_entries_map_last(init, i);
        assert(es[es.len() - 1].0 != es[i].0);
    }
}

/// A key that no entry carries has no value.
pub proof fn lemma_entries_map_absent(es: Seq<(Seq<char>, Seq<char>)>, k: Seq<char>)
    requires
        forall|j: int| 0 <= j < es.len() ==> #[trigger] es[j].0 != k,
    ensures
        !entries_map(es).dom().contains(k),
    decreases es.len(),
{
    if es.len() > 0 {
        let init = es.drop_last();
        assert forall|j: int| 0 <= j < init.len() implies #[trigger] init[j].0 != k by {
            assert(init[j] == es[j]);
        }
        lemma_entries_map_absent(init, k);
        assert(es[es.len() - 1].0 != k);
    }
}

/// Trimming twice trims once.
pub proof fn lemma_trim_idem(s: Seq<char>)
    ensures
        trim(trim(s)) == trim(s),
{
    crate::text::lemma_trim_ends(s);
    let t = trim(s);
    if t.len() > 0 {
        assert(trim_start(t) == t);
        assert(trim_end(t) == t);
    }
}

/// `trim_start` keeps a suffix.
proof fn lemma_trim_start_suffix(s: Seq<char>)
    ensures
        trim_start(s) =~= s.subrange(s.len() - trim_start(s).len(), s.len() as int),
        trim_start(s).len() <= s.len(),
    decreases s.len(),
{
    if s.len() > 0 && is_ws(s[0]) {
        lemma_trim_start_suffix(s.drop_first());
    }
}

/// `trim_end` keeps a prefix.
proof fn lemma_trim_end_prefix(s: Seq<char>)
    ensures
        trim_end(s) =~= s.subrange(0, trim_end(s).len() as int),
        trim_end(s).len() <= s.len(),
    decreases s.len(),
{
    if s.len() > 0 && is_ws(s.last()) {
        lemma_trim_end_prefix(s.drop_last());
    }
}

/// Trimming a text without line breaks leaves none.
pub proof fn lemma_trim_single_line(s: Seq<char>)
    requires
        single_line(s),
    ensures
        single_line(trim(s)),
{
    lemma_trim_start_suffix(s);
    let a = trim_start(s);
    lemma_trim_end_prefix(a);
    let off = s.len() - a.len();
    assert forall|i: int| 0 <= i < trim(s).len() implies trim(s)[i] != '\n' by {
        assert(trim(s)[i] == a[i]);
        assert(a[i] == s[i + off]);
    }
}

/// Decimal digits hold no line break.
pub proof fn lemma_decimal_single_line(i: int)
    ensures
        single_line(int_decimal(i)),
{
    if i < 0 {
        lemma_nat_decimal_digits((-i) as nat);
        let d = nat_decimal((-i) as nat);
        assert forall|j: int| 0 <= j < int_decimal(i).len() implies int_decimal(i)[j] != '\n' by {
            if j > 0 {
                assert(int_decimal(i)[j] == d[j - 1]);
            }
        }
    } else {
        lemma_nat_decimal_digits(i as nat);
    }
}

/// The decimal digits of a number are digits.
proof fn lemma_nat_decimal_digits(n: nat)
    ensures
        forall|j: int| 0 <= j < nat_decimal(n).len() ==> '0' <= #[trigger] nat_decimal(n)[j] <= '9',
    decreases n,
{
    if n >= 10 {
        lemma_nat_decimal_digits(n / 10);
        let d = (((n % 10) + 48) as u8) as char;
        assert(nat_decimal(n) == nat_decimal(n / 10).push(d));
        assert forall|j: int| 0 <= j < nat_decimal(n).len() implies '0' <= #[trigger] nat_decimal(n)[j] <= '9' by {
            if j < nat_decimal(n / 10).len() {
                assert(nat_decimal(n)[j] == nat_decimal(n / 10)[j]);
            }
        }
    }
}

/// The keys of the saved file read back from their lines.
proof fn lemma_settings_keys_plain()
    ensures
        plain_key("LUMAWAY_CONFIG_VERSION"@),
        plain_key("LUMAWAY_SYNC_MODE"@),
        plain_key("LUMAWAY_BRIDGE"@),
        plain_key("LUMAWAY_BRIDGE_ID"@),
        plain_key("LUMAWAY_AREA"@),
        plain_key("LUMAWAY_APP_KEY"@),
        plain_key("LUMAWAY_CLIENT_KEY"@),
        plain_key("LUMAWAY_PROFILE"@),
        plain_key("LUMAWAY_DURATION_MS"@),
        plain_key("LUMAWAY_BRIGHTNESS"@),
        plain_key("LUMAWAY_REACTIVITY"@),
        plain_key("LUMAWAY_COLOR_PROFILE"@),
        plain_key("LUMAWAY_AUTOSTART_SYNC"@),
        plain_key("RUST_LOG"@),
{
    reveal_strlit("LUMAWAY_CONFIG_VERSION");
    reveal_strlit("LUMAWAY_SYNC_MODE");
    reveal_strlit("LUMAWAY_BRIDGE");
    reveal_strlit("LUMAWAY_BRIDGE_ID");
    reveal_strlit("LUMAWAY_AREA");
    reveal_strlit("LUMAWAY_APP_KEY");
    reveal_strlit("LUMAWAY_CLIENT_KEY");
    reveal_strlit("LUMAWAY_PROFILE");
    reveal_strlit("LUMAWAY_DURATION_MS");
    reveal_strlit("LUMAWAY_BRIGHTNESS");
    reveal_strlit("LUMAWAY_REACTIVITY");
    reveal_strlit("LUMAWAY_COLOR_PROFILE");
    reveal_strlit("LUMAWAY_AUTOSTART_SYNC");
    reveal_strlit("RUST_LOG");
}

/// The keys of the saved file are all different.
proof fn lemma_settings_keys_distinct()
    ensures
        "LUMAWAY_CONFIG_VERSION"@ != "LUMAWAY_SYNC_MODE"@,
        "LUMAWAY_CONFIG_VERSION"@ != "LUMAWAY_BRIDGE"@,
        "LUMAWAY_CONFIG_VERSION"@ != "LUMAWAY_BRIDGE_ID"@,
        "LUMAWAY_CONFIG_VERSION"@ != "LUMAWAY_AREA"@,
        "LUMAWAY_CONFIG_VERSION"@ != "LUMAWAY_APP_KEY"@,
        "LUMAWAY_CONFIG_VERSION"@ != "LUMAWAY_CLIENT_KEY"@,
        "LUMAWAY_CONFIG_VERSION"@ != "LUMAWAY_PROFILE"@,
        "LUMAWAY_CONFIG_VERSION"@ != "LUMAWAY_DURATION_MS"@,
        "LUMAWAY_CONFIG_VERSION"@ != "LUMAWAY_BRIGHTNESS"@,
        "LUMAWAY_CONFIG_VERSION"@ != "LUMAWAY_REACTIVITY"@,
        "LUMAWAY_CONFIG_VERSION"@ != "LUMAWAY_COLOR_PROFILE"@,
        "LUMAWAY_CONFIG_VERSION"@ != "LUMAWAY_AUTOSTART_SYNC"@,
        "LUMAWAY_CONFIG_VERSION"@ != "RUST_LOG"@,
        "LUMAWAY_CONFIG_VERSION"@ != "LUMAWAY_PRESET"@,
        "LUMAWAY_SYNC_MODE"@ != "LUMAWAY_BRIDGE"@,
        "LUMAWAY_SYNC_MODE"@ != "LUMAWAY_BRIDGE_ID"@,
        "LUMAWAY_SYNC_MODE"@ != "LUMAWAY_AREA"@,
        "LUMAWAY_SYNC_MODE"@ != "LUMAWAY_APP_KEY"@,
        "LUMAWAY_SYNC_MODE"@ != "LUMAWAY_CLIENT_KEY"@,
        "LUMAWAY_SYNC_MODE"@ != "LUMAWAY_PROFILE"@,
        "LUMAWAY_SYNC_MODE"@ != "LUMAWAY_DURATION_MS"@,
        "LUMAWAY_SYNC_MODE"@ != "LUMAWAY_BRIGHTNESS"@,
        "LUMAWAY_SYNC_MODE"@ != "LUMAWAY_REACTIVITY"@,
        "LUMAWAY_SYNC_MODE"@ != "LUMAWAY_COLOR_PROFILE"@,
        "LUMAWAY_SYNC_MODE"@ != "LUMAWAY_AUTOSTART_SYNC"@,
        "LUMAWAY_SYNC_MODE"@ != "RUST_LOG"@,
        "LUMAWAY_SYNC_MODE"@ != "LUMAWAY_PRESET"@,
        "LUMAWAY_BRIDGE"@ != "LUMAWAY_BRIDGE_ID"@,
        "LUMAWAY_BRIDGE"@ != "LUMAWAY_AREA"@,
        "LUMAWAY_BRIDGE"@ != "LUMAWAY_APP_KEY"@,
        "LUMAWAY_BRIDGE"@ != "LUMAWAY_CLIENT_KEY"@,
        "LUMAWAY_BRIDGE"@ != "LUMAWAY_PROFILE"@,
        "LUMAWAY_BRIDGE"@ != "LUMAWAY_DURATION_MS"@,
        "LUMAWAY_BRIDGE"@ != "LUMAWAY_BRIGHTNESS"@,
        "LUMAWAY_BRIDGE"@ != "LUMAWAY_REACTIVITY"@,
        "LUMAWAY_BRIDGE"@ != "LUMAWAY_COLOR_PROFILE"@,
        "LUMAWAY_BRIDGE"@ != "LUMAWAY_AUTOSTART_SYNC"@,
        "LUMAWAY_BRIDGE"@ != "RUST_LOG"@,
        "LUMAWAY_BRIDGE"@ != "LUMAWAY_PRESET"@,
        "LUMAWAY_BRIDGE_ID"@ != "LUMAWAY_AREA"@,
        "LUMAWAY_BRIDGE_ID"@ != "LUMAWAY_APP_KEY"@,
        "LUMAWAY_BRIDGE_ID"@ != "LUMAWAY_CLIENT_KEY"@,
        "LUMAWAY_BRIDGE_ID"@ != "LUMAWAY_PROFILE"@,
        "LUMAWAY_BRIDGE_ID"@ != "LUMAWAY_DURATION_MS"@,
        "LUMAWAY_BRIDGE_ID"@ != "LUMAWAY_BRIGHTNESS"@,
        "LUMAWAY_BRIDGE_ID"@ != "LUMAWAY_REACTIVITY"@,
        "LUMAWAY_BRIDGE_ID"@ != "LUMAWAY_COLOR_PROFILE"@,
        "LUMAWAY_BRIDGE_ID"@ != "LUMAWAY_AUTOSTART_SYNC"@,
        "LUMAWAY_BRIDGE_ID"@ != "RUST_LOG"@,
        "LUMAWAY_BRIDGE_ID"@ != "LUMAWAY_PRESET"@,
        "LUMAWAY_AREA"@ != "LUMAWAY_APP_KEY"@,
        "LUMAWAY_AREA"@ != "LUMAWAY_CLIENT_KEY"@,
        "LUMAWAY_AREA"@ != "LUMAWAY_PROFILE"@,
        "LUMAWAY_AREA"@ != "LUMAWAY_DURATION_MS"@,
        "LUMAWAY_AREA"@ != "LUMAWAY_BRIGHTNESS"@,
        "LUMAWAY_AREA"@ != "LUMAWAY_REACTIVITY"@,
        "LUMAWAY_AREA"@ != "LUMAWAY_COLOR_PROFILE"@,
        "LUMAWAY_AREA"@ != "LUMAWAY_AUTOSTART_SYNC"@,
        "LUMAWAY_AREA"@ != "RUST_LOG"@,
        "LUMAWAY_AREA"@ != "LUMAWAY_PRESET"@,
        "LUMAWAY_APP_KEY"@ != "LUMAWAY_CLIENT_KEY"@,
        "LUMAWAY_APP_KEY"@ != "LUMAWAY_PROFILE"@,
        "LUMAWAY_APP_KEY"@ != "LUMAWAY_DURATION_MS"@,
        "LUMAWAY_APP_KEY"@ != "LUMAWAY_BRIGHTNESS"@,
        "LUMAWAY_APP_KEY"@ != "LUMAWAY_REACTIVITY"@,
        "LUMAWAY_APP_KEY"@ != "LUMAWAY_COLOR_PROFILE"@,
        "LUMAWAY_APP_KEY"@ != "LUMAWAY_AUTOSTART_SYNC"@,
        "LUMAWAY_APP_KEY"@ != "RUST_LOG"@,
        "LUMAWAY_APP_KEY"@ != "LUMAWAY_PRESET"@,
        "LUMAWAY_CLIENT_KEY"@ != "LUMAWAY_PROFILE"@,
        "LUMAWAY_CLIENT_KEY"@ != "LUMAWAY_DURATION_MS"@,
        "LUMAWAY_CLIENT_KEY"@ != "LUMAWAY_BRIGHTNESS"@,
        "LUMAWAY_CLIENT_KEY"@ != "LUMAWAY_REACTIVITY"@,
        "LUMAWAY_CLIENT_KEY"@ != "LUMAWAY_COLOR_PROFILE"@,
        "LUMAWAY_CLIENT_KEY"@ != "LUMAWAY_AUTOSTART_SYNC"@,
        "LUMAWAY_CLIENT_KEY"@ != "RUST_LOG"@,
        "LUMAWAY_CLIENT_KEY"@ != "LUMAWAY_PRESET"@,
        "LUMAWAY_PROFILE"@ != "LUMAWAY_DURATION_MS"@,
        "LUMAWAY_PROFILE"@ != "LUMAWAY_BRIGHTNESS"@,
        "LUMAWAY_PROFILE"@ != "LUMAWAY_REACTIVITY"@,
        "LUMAWAY_PROFILE"@ != "LUMAWAY_COLOR_PROFILE"@,
        "LUMAWAY_PROFILE"@ != "LUMAWAY_AUTOSTART_SYNC"@,
        "LUMAWAY_PROFILE"@ != "RUST_LOG"@,
        "LUMAWAY_PROFILE"@ != "LUMAWAY_PRESET"@,
        "LUMAWAY_DURATION_MS"@ != "LUMAWAY_BRIGHTNESS"@,
        "LUMAWAY_DURATION_MS"@ != "LUMAWAY_REACTIVITY"@,
        "LUMAWAY_DURATION_MS"@ != "LUMAWAY_COLOR_PROFILE"@,
        "LUMAWAY_DURATION_MS"@ != "LUMAWAY_AUTOSTART_SYNC"@,
        "LUMAWAY_DURATION_MS"@ != "RUST_LOG"@,
        "LUMAWAY_DURATION_MS"@ != "LUMAWAY_PRESET"@,
        "LUMAWAY_BRIGHTNESS"@ != "LUMAWAY_REACTIVITY"@,
        "LUMAWAY_BRIGHTNESS"@ != "LUMAWAY_COLOR_PROFILE"@,
        "LUMAWAY_BRIGHTNESS"@ != "LUMAWAY_AUTOSTART_SYNC"@,
        "LUMAWAY_BRIGHTNESS"@ != "RUST_LOG"@,
        "LUMAWAY_BRIGHTNESS"@ != "LUMAWAY_PRESET"@,
        "LUMAWAY_REACTIVITY"@ != "LUMAWAY_COLOR_PROFILE"@,
        "LUMAWAY_REACTIVITY"@ != "LUMAWAY_AUTOSTART_SYNC"@,
        "LUMAWAY_REACTIVITY"@ != "RUST_LOG"@,
        "LUMAWAY_REACTIVITY"@ != "LUMAWAY_PRESET"@,
        "LUMAWAY_COLOR_PROFILE"@ != "LUMAWAY_AUTOSTART_SYNC"@,
        "LUMAWAY_COLOR_PROFILE"@ != "RUST_LOG"@,
        "LUMAWAY_COLOR_PROFILE"@ != "LUMAWAY_PRESET"@,
        "LUMAWAY_AUTOSTART_SYNC"@ != "RUST_LOG"@,
        "LUMAWAY_AUTOSTART_SYNC"@ != "LUMAWAY_PRESET"@,
        "RUST_LOG"@ != "LUMAWAY_PRESET"@,
{
    reveal_strlit("LUMAWAY_CONFIG_VERSION");
    reveal_strlit("LUMAWAY_SYNC_MODE");
    reveal_strlit("LUMAWAY_BRIDGE");
    reveal_strlit("LUMAWAY_BRIDGE_ID");
    reveal_strlit("LUMAWAY_AREA");
    reveal_strlit("LUMAWAY_APP_KEY");
    reveal_strlit("LUMAWAY_CLIENT_KEY");
    reveal_strlit("LUMAWAY_PROFILE");
    reveal_strlit("LUMAWAY_DURATION_MS");
    reveal_strlit("LUMAWAY_BRIGHTNESS");
    reveal_strlit("LUMAWAY_REACTIVITY");
    reveal_strlit("LUMAWAY_COLOR_PROFILE");
    reveal_strlit("LUMAWAY_AUTOSTART_SYNC");
    reveal_strlit("RUST_LOG");
    reveal_strlit("LUMAWAY_PRESET");
    assert("LUMAWAY_CONFIG_VERSION"@.len() == 22);
    assert("LUMAWAY_SYNC_MODE"@.len() == 17);
    assert("LUMAWAY_BRIDGE"@.len() == 14);
    assert("LUMAWAY_BRIDGE_ID"@.len() == 17);
    assert("LUMAWAY_AREA"@.len() == 12);
    assert("LUMAWAY_APP_KEY"@.len() == 15);
    assert("LUMAWAY_CLIENT_KEY"@.len() == 18);
    assert("LUMAWAY_PROFILE"@.len() == 15);
    assert("LUMAWAY_DURATION_MS"@.len() == 19);
    assert("LUMAWAY_BRIGHTNESS"@.len() == 18);
    assert("LUMAWAY_REACTIVITY"@.len() == 18);
    assert("LUMAWAY_COLOR_PROFILE"@.len() == 21);
    assert("LUMAWAY_AUTOSTART_SYNC"@.len() == 22);
    assert("RUST_LOG"@.len() == 8);
    assert("LUMAWAY_PRESET"@.len() == 14);
    assert("LUMAWAY_CONFIG_VERSION"@[8] != "LUMAWAY_AUTOSTART_SYNC"@[8]);
    assert("LUMAWAY_SYNC_MODE"@[8] != "LUMAWAY_BRIDGE_ID"@[8]);
    assert("LUMAWAY_BRIDGE"@[8] != "LUMAWAY_PRESET"@[8]);
    assert("LUMAWAY_APP_KEY"@[8] != "LUMAWAY_PROFILE"@[8]);
    assert("LUMAWAY_CLIENT_KEY"@[8] != "LUMAWAY_BRIGHTNESS"@[8]);
    assert("LUMAWAY_CLIENT_KEY"@[8] != "LUMAWAY_REACTIVITY"@[8]);
    assert("LUMAWAY_BRIGHTNESS"@[8] != "LUMAWAY_REACTIVITY"@[8]);
}

/// Every entry has a plain key and a value without line breaks.
pub open spec fn all_plain(es: Seq<(Seq<char>, Seq<char>)>) -> bool
    decreases es.len(),
{
    es.len() == 0 || (all_plain(es.drop_last()) && plain_key(es.last().0) && single_line(es.last().1))
}

/// What `all_plain` says of each entry.
proof fn lemma_all_plain(es: Seq<(Seq<char>, Seq<char>)>)
    requires
        all_plain(es),
    ensures
        forall|i: int| 0 <= i < es.len() ==> plain_key(#[trigger] es[i].0) && single_line(es[i].1),
    decreases es.len(),
{
    if es.len() > 0 {
        let init = es.drop_last();
        lemma_all_plain(init);
        assert forall|i: int| 0 <= i < es.len() implies plain_key(#[trigger] es[i].0) && single_line(es[i].1) by {
            if i < init.len() {
                assert(es[i] == init[i]);
            }
        }
    }
}

/// A `key=value` line with a plain key and a single-line value is one line.
proof fn lemma_kv_single_line(k: Seq<char>, v: Seq<char>)
    requires
        plain_key(k),
        single_line(v),
    ensures
        single_line(key_value_line(k, v)),
{
    let l = key_value_line(k, v);
    assert forall|i: int| 0 <= i < l.len() implies l[i] != '\n' by {
        if i < k.len() {
            assert(l[i] == k[i]);
        } else if i > k.len() {
            assert(l[i] == v[i - k.len() - 1]);
        }
    }
}

/// Reading the rendered lines of plain entries gives the entries with trimmed values.
pub proof fn lemma_read_plain_entries(es: Seq<(Seq<char>, Seq<char>)>)
    requires
        all_plain(es),
    ensures
        parsed_env(render_lines(kv_lines(es))) == entries_map(trimmed_entries(es)),
{
    lemma_all_plain(es);
    let ls = kv_lines(es);
    assert forall|i: int| 0 <= i < ls.len() implies single_line(#[trigger] ls[i]) by {
        lemma_kv_single_line(es[i].0, es[i].1);
    }
    lemma_parse_render(ls);
    lemma_kv_line_entries(es);
}

/// A decimal number has no white space at either end.
proof fn lemma_decimal_trimmed(i: int)
    ensures
        trim(int_decimal(i)) == int_decimal(i),
{
    let d = int_decimal(i);
    if i < 0 {
        lemma_nat_decimal_digits((-i) as nat);
        assert(d.last() == nat_decimal((-i) as nat).last());
    } else {
        lemma_nat_decimal_digits(i as nat);
    }
    lemma_nat_decimal_digits(if i < 0 { (-i) as nat } else { i as nat });
    assert(d.len() > 0);
    assert(!is_ws(d[0]));
    assert(!is_ws(d.last()));
    assert(trim_start(d) == d);
    assert(trim_end(d) == d);
}

/// The first entries of the saved file as they read back.
pub open spec fn read_head(s: WindowSettings) -> Seq<(Seq<char>, Seq<char>)> {
    seq![
        ("LUMAWAY_CONFIG_VERSION"@, "1"@),
        ("LUMAWAY_SYNC_MODE"@, mode_name(s.sync_mode)),
        ("LUMAWAY_BRIDGE"@, trim(s.bridge@)),
    ]
}

/// The bridge identifier entry as it reads back, when there is one.
pub open spec fn read_id(s: WindowSettings) -> Seq<(Seq<char>, Seq<char>)> {
    if trim(s.bridge_id@).len() == 0 {
        Seq::empty()
    } else {
        seq![("LUMAWAY_BRIDGE_ID"@, trim(s.bridge_id@))]
    }
}

/// The remaining entries of the saved file as they read back.
pub open spec fn read_tail(s: WindowSettings) -> Seq<(Seq<char>, Seq<char>)> {
    seq![
        ("LUMAWAY_AREA"@, trim(s.area@)),
        ("LUMAWAY_APP_KEY"@, trim(s.app_key@)),
        ("LUMAWAY_CLIENT_KEY"@, trim(s.client_key@)),
        ("LUMAWAY_PROFILE"@, safe_profile_name(s.profile@)),
        ("LUMAWAY_DURATION_MS"@, int_decimal(s.duration_ms as int)),
        ("LUMAWAY_BRIGHTNESS"@, trim(s.brightness@)),
        ("LUMAWAY_REACTIVITY"@, trim(s.reactivity@)),
        ("LUMAWAY_COLOR_PROFILE"@, safe_color_profile(s.color_profile@)),
        ("LUMAWAY_AUTOSTART_SYNC"@, if s.autostart {
            "true"@
        } else {
            "false"@
        }),
        ("RUST_LOG"@, "lumaway=info"@),
    ]
}

/// The values the settings need for their lines to read back.
pub open spec fn saveable(s: WindowSettings) -> bool {
    &&& single_line(s.bridge@)
    &&& single_line(s.bridge_id@)
    &&& single_line(s.area@)
    &&& single_line(s.app_key@)
    &&& single_line(s.client_key@)
    &&& single_line(s.profile@)
    &&& single_line(s.brightness@)
    &&& single_line(s.reactivity@)
}

/// The values of the saved file that are not given as they are: no line breaks, no white
/// space at either end.
proof fn lemma_settings_values(s: WindowSettings)
    requires
        saveable(s),
    ensures
        single_line(safe_profile_name(s.profile@)),
        trim(safe_profile_name(s.profile@)) == safe_profile_name(s.profile@),
        single_line(trim(s.bridge_id@)),
        trim(trim(s.bridge_id@)) == trim(s.bridge_id@),
        single_line(safe_color_profile(s.color_profile@)),
        trim(safe_color_profile(s.color_profile@)) == safe_color_profile(s.color_profile@),
        single_line(int_decimal(s.duration_ms as int)),
        trim(int_decimal(s.duration_ms as int)) == int_decimal(s.duration_ms as int),
        single_line(mode_name(s.sync_mode)),
        trim(mode_name(s.sync_mode)) == mode_name(s.sync_mode),
        single_line("1"@) && trim("1"@) == "1"@,
        single_line("true"@) && trim("true"@) == "true"@,
        single_line("false"@) && trim("false"@) == "false"@,
        single_line("lumaway=info"@) && trim("lumaway=info"@) == "lumaway=info"@,
{
    reveal_strlit("1");
    reveal_strlit("true");
    reveal_strlit("false");
    reveal_strlit("lumaway=info");
    reveal_strlit("vivid");
    reveal_strlit("video");
    reveal_strlit("game");
    reveal_strlit("desktop");
    reveal_strlit("music");
    reveal_strlit("soft");
    reveal_strlit("boosted");
    reveal_strlit("cinema");
    lemma_trim_single_line(s.profile@);
    lemma_trim_single_line(s.bridge_id@);
    lemma_trim_idem(s.profile@);
    lemma_trim_idem(s.bridge_id@);
    lemma_trim_idem(s.color_profile@);
    lemma_decimal_single_line(s.duration_ms as int);
    lemma_decimal_trimmed(s.duration_ms as int);
}

/// Every entry of the saved file has a plain key and a one-line value.
proof fn lemma_settings_plain(s: WindowSettings)
    requires
        saveable(s),
    ensures
        all_plain(settings_entries(s)),
{
    lemma_settings_keys_plain();
    lemma_settings_values(s);
    reveal_with_fuel(all_plain, 16);
}

/// The saved file reads back as its entries with the text values trimmed.
proof fn lemma_settings_read(s: WindowSettings)
    requires
        saveable(s),
    ensures
        parsed_env(settings_text(s)) == entries_map(read_head(s) + read_id(s) + read_tail(s)),
{
    let es = settings_entries(s);
    lemma_settings_plain(s);
    lemma_settings_values(s);
    lemma_read_plain_entries(es);
    assert(trimmed_entries(es) =~= read_head(s) + read_id(s) + read_tail(s));
}

/// The keys looked up in the saved file, in the last entries that carry them.
proof fn lemma_tail_values(s: WindowSettings)
    ensures
        last_value(read_tail(s), "LUMAWAY_AREA"@) == Some(trim(s.area@)),
        last_value(read_tail(s), "LUMAWAY_APP_KEY"@) == Some(trim(s.app_key@)),
        last_value(read_tail(s), "LUMAWAY_CLIENT_KEY"@) == Some(trim(s.client_key@)),
        last_value(read_tail(s), "LUMAWAY_PROFILE"@) == Some(safe_profile_name(s.profile@)),
        last_value(read_tail(s), "LUMAWAY_DURATION_MS"@) == Some(int_decimal(s.duration_ms as int)),
        last_value(read_tail(s), "LUMAWAY_BRIGHTNESS"@) == Some(trim(s.brightness@)),
        last_value(read_tail(s), "LUMAWAY_REACTIVITY"@) == Some(trim(s.reactivity@)),
        last_value(read_tail(s), "LUMAWAY_COLOR_PROFILE"@) == Some(safe_color_profile(s.color_profile@)),
        last_value(read_tail(s), "LUMAWAY_AUTOSTART_SYNC"@) == Some(
            if s.autostart {
                "true"@
            } else {
                "false"@
            },
        ),
        last_value(read_tail(s), "LUMAWAY_SYNC_MODE"@) is None,
        last_value(read_tail(s), "LUMAWAY_BRIDGE"@) is None,
        last_value(read_tail(s), "LUMAWAY_BRIDGE_ID"@) is None,
        last_value(read_tail(s), "LUMAWAY_PRESET"@) is None,
{
    lemma_settings_keys_distinct();
    reveal_with_fuel(last_value, 11);
}

/// The keys looked up in the first entries of the saved file.
proof fn lemma_head_values(s: WindowSettings)
    ensures
        last_value(read_head(s) + read_id(s), "LUMAWAY_SYNC_MODE"@) == Some(mode_name(s.sync_mode)),
        last_value(read_head(s) + read_id(s), "LUMAWAY_BRIDGE"@) == Some(trim(s.bridge@)),
        last_value(read_head(s) + read_id(s), "LUMAWAY_BRIDGE_ID"@) == if trim(s.bridge_id@).len() == 0 {
            None::<Seq<char>>
        } else {
            Some(trim(s.bridge_id@))
        },
        last_value(read_head(s) + read_id(s), "LUMAWAY_PRESET"@) is None,
{
    lemma_settings_keys_distinct();
    reveal_with_fuel(last_value, 5);
    if trim(s.bridge_id@).len() == 0 {
        assert(read_head(s) + read_id(s) =~= read_head(s));
    } else {
        assert(read_head(s) + read_id(s) =~= read_head(s).push(("LUMAWAY_BRIDGE_ID"@, trim(s.bridge_id@))));
    }
}

/// What the window saves reads back, by the window and by the commands that load the same
/// file: each setting under its key, the text settings trimmed, the bridge identifier only
/// when one is known, and no legacy preset.
pub proof fn law_saved_settings_read_back(s: WindowSettings)
    requires
        saveable(s),
    ensures
        ({
            let saved = parsed_env(settings_text(s));
            &&& saved_value(saved, "LUMAWAY_SYNC_MODE"@) == Some(mode_name(s.sync_mode))
            &&& saved_value(saved, "LUMAWAY_BRIDGE"@) == Some(trim(s.bridge@))
            &&& saved_value(saved, "LUMAWAY_BRIDGE_ID"@) == if trim(s.bridge_id@).len() == 0 {
                None::<Seq<char>>
            } else {
                Some(trim(s.bridge_id@))
            }
            &&& saved_value(saved, "LUMAWAY_AREA"@) == Some(trim(s.area@))
            &&& saved_value(saved, "LUMAWAY_APP_KEY"@) == Some(trim(s.app_key@))
            &&& saved_value(saved, "LUMAWAY_CLIENT_KEY"@) == Some(trim(s.client_key@))
            &&& saved_value(saved, "LUMAWAY_PROFILE"@) == Some(safe_profile_name(s.profile@))
            &&& saved_value(saved, "LUMAWAY_DURATION_MS"@) == Some(int_decimal(s.duration_ms as int))
            &&& saved_value(saved, "LUMAWAY_BRIGHTNESS"@) == Some(trim(s.brightness@))
            &&& saved_value(saved, "LUMAWAY_REACTIVITY"@) == Some(trim(s.reactivity@))
            &&& saved_value(saved, "LUMAWAY_COLOR_PROFILE"@) == Some(safe_color_profile(s.color_profile@))
            &&& saved_value(saved, "LUMAWAY_AUTOSTART_SYNC"@) == Some(
                if s.autostart {
                    "true"@
                } else {
                    "false"@
                },
            )
            &&& saved_value(saved, "LUMAWAY_PRESET"@) is None
        }),
{
    lemma_settings_read(s);
    let a = read_head(s) + read_id(s);
    let b = read_tail(s);
    assert(read_head(s) + read_id(s) + read_tail(s) == a + b);
    lemma_tail_values(s);
    lemma_head_values(s);
    let ks = seq![
        "LUMAWAY_SYNC_MODE"@,
        "LUMAWAY_BRIDGE"@,
        "LUMAWAY_BRIDGE_ID"@,
        "LUMAWAY_AREA"@,
        "LUMAWAY_APP_KEY"@,
        "LUMAWAY_CLIENT_KEY"@,
        "LUMAWAY_PROFILE"@,
        "LUMAWAY_DURATION_MS"@,
        "LUMAWAY_BRIGHTNESS"@,
        "LUMAWAY_REACTIVITY"@,
        "LUMAWAY_COLOR_PROFILE"@,
        "LUMAWAY_AUTOSTART_SYNC"@,
        "LUMAWAY_PRESET"@,
    ];
    assert forall|i: int| 0 <= i < ks.len() implies saved_value(entries_map(a + b), #[trigger] ks[i])
        == match last_value(b, ks[i]) {
        Some(v) => Some(v),
        None => last_value(a, ks[i]),
    } by {
        lemma_last_value(a + b, ks[i]);
        lemma_last_value_concat(a, b, ks[i]);
    }
    assert(ks[0] == "LUMAWAY_SYNC_MODE"@);
    assert(ks[1] == "LUMAWAY_BRIDGE"@);
    assert(ks[2] == "LUMAWAY_BRIDGE_ID"@);
    assert(ks[3] == "LUMAWAY_AREA"@);
    assert(ks[4] == "LUMAWAY_APP_KEY"@);
    assert(ks[5] == "LUMAWAY_CLIENT_KEY"@);
    assert(ks[6] == "LUMAWAY_PROFILE"@);
    assert(ks[7] == "LUMAWAY_DURATION_MS"@);
    assert(ks[8] == "LUMAWAY_BRIGHTNESS"@);
    assert(ks[9] == "LUMAWAY_REACTIVITY"@);
    assert(ks[10] == "LUMAWAY_COLOR_PROFILE"@);
    assert(ks[11] == "LUMAWAY_AUTOSTART_SYNC"@);
    assert(ks[12] == "LUMAWAY_PRESET"@);
}

/// The window starts in the screen mode it saved: reading the saved file back gives the
/// same mode.
pub proof fn law_saved_mode_restored(s: WindowSettings)
    requires
        saveable(s),
    ensures
        ({
            let saved = parsed_env(settings_text(s));
            screen_mode(resolved_mode(saved_value(saved, SYNC_MODE_KEY@), saved_value(saved, LEGACY_PRESET_KEY@)))
                == screen_mode(s.sync_mode)
        }),
{
    law_saved_settings_read_back(s);
    law_mode_names_round_trip(s.sync_mode);
    assert(SYNC_MODE_KEY@ == "LUMAWAY_SYNC_MODE"@);
    assert(LEGACY_PRESET_KEY@ == "LUMAWAY_PRESET"@);
}

} // verus!
