//! The findings of `lumaway doctor`: each check turns what was observed (environment values,
//! command outcomes, bridge replies) into a status, an identifier and a message.
use vstd::prelude::*;
use crate::dtls::{validate_dtls_bridge_ip, BridgeAddress};
use crate::error::{hue_error_message, HueError};
use crate::hue_tls_pin::{
    bridge_id_from_env, bridge_tls_pin_kind, bridge_tls_pinning_enabled, non_empty, pin_kind_of_mode,
    truthy, BridgeTlsPinKind,
};
use crate::profile_env::{is_profile_key, profile_file, profile_key, profile_path};
use crate::text::{chars_of, lines, lines_exec, push_chars, push_str_chars, trim, trim_str, u64_decimal, nat_decimal};

verus! {

broadcast use vstd::string::group_string_axioms;

/// The verdict of one check.
#[derive(Debug, Clone, Copy, PartialEq, Eq, Structural)]
pub enum CheckStatus {
    /// The check found nothing wrong (printed `ok`).
    Pass,
    Warning,
    Error,
}

/// The word a verdict is printed with.
pub open spec fn status_label(s: CheckStatus) -> Seq<char> {
    match s {
        CheckStatus::Pass => "ok"@,
        CheckStatus::Warning => "warning"@,
        CheckStatus::Error => "error"@,
    }
}

impl CheckStatus {
    /// `ok`, `warning` or `error`.
    pub fn label(self) -> (r: &'static str)
        ensures
            r@ == status_label(self),
    {
        match self {
            CheckStatus::Pass => "ok",
            CheckStatus::Warning => "warning",
            CheckStatus::Error => "error",
        }
    }
}

/// One finding of the doctor.
#[derive(Debug)]
pub struct CheckLine {
    pub status: CheckStatus,
    pub id: String,
    pub message: String,
}

/// A finding as plain values.
pub open spec fn finding(c: CheckLine) -> (CheckStatus, Seq<char>, Seq<char>) {
    (c.status, c.id@, c.message@)
}

/// The printed form of a finding: `[status] id: message`.
pub open spec fn rendered(status: CheckStatus, id: Seq<char>, message: Seq<char>) -> Seq<char> {
    "["@ + status_label(status) + "] "@ + id + ": "@ + message
}

impl CheckLine {
    /// The line the doctor prints for this finding.
    pub fn render(&self) -> (r: String)
        ensures
            r@ == rendered(self.status, self.id@, self.message@),
    {
        let mut t = String::new();
        push_str_chars(&mut t, "[");
        push_str_chars(&mut t, self.status.label());
        push_str_chars(&mut t, "] ");
        push_str_chars(&mut t, self.id.as_str());
        push_str_chars(&mut t, ": ");
        push_str_chars(&mut t, self.message.as_str());
        t
    }
}

/// A finding whose message is given.
fn check(status: CheckStatus, id: &str, message: &str) -> (r: CheckLine)
    ensures
        finding(r) == (status, id@, message@),
{
    CheckLine { status, id: id.to_string(), message: message.to_string() }
}

/// A finding whose message is `a` followed by `b`.
fn check2(status: CheckStatus, id: &str, a: &str, b: &str) -> (r: CheckLine)
    ensures
        finding(r) == (status, id@, a@ + b@),
{
    let mut m = String::new();
    push_str_chars(&mut m, a);
    push_str_chars(&mut m, b);
    CheckLine { status, id: id.to_string(), message: m }
}

/// A finding whose message is `a`, then `b`, then `c`.
fn check3(status: CheckStatus, id: &str, a: &str, b: &str, c: &str) -> (r: CheckLine)
    ensures
        finding(r) == (status, id@, a@ + b@ + c@),
{
    let mut m = String::new();
    push_str_chars(&mut m, a);
    push_str_chars(&mut m, b);
    push_str_chars(&mut m, c);
    CheckLine { status, id: id.to_string(), message: m }
}

/// A value from the environment, trimmed, when it is not blank.
pub fn non_empty_env(value: Option<&str>) -> (r: Option<String>)
    ensures
        match non_empty(
            match value {
                Some(v) => Some(v@),
                None => None,
            },
        ) {
            Some(t) => r matches Some(s) && s@ == t,
            None => r is None,
        },
{
    match value {
        Some(v) => {
            let t = trim_str(v);
            if t.len() == 0 {
                None
            } else {
                let mut s = String::new();
                push_chars(&mut s, &t);
                Some(s)
            }
        },
        None => None,
    }
}

/// The streaming key: present with at least 32 bytes (UTF-8), present but shorter, or
/// missing.
pub open spec fn client_key_finding(key: Option<&str>) -> (CheckStatus, Seq<char>, Seq<char>) {
    match key {
        Some(k) => if k.len() >= 32 {
            (CheckStatus::Pass, "hue.dtls.client_key"@, "LUMAWAY_CLIENT_KEY is set (hex streaming secret)"@)
        } else {
            (CheckStatus::Warning, "hue.dtls.client_key"@, "LUMAWAY_CLIENT_KEY looks short; pairing may be incomplete"@)
        },
        None => (
            CheckStatus::Warning,
            "hue.dtls.client_key"@,
            "LUMAWAY_CLIENT_KEY unset; sync and test-color need it for DTLS"@,
        ),
    }
}

/// Whether the streaming key is set and long enough.
pub fn client_key_check(client_key: Option<&str>) -> (r: CheckLine)
    ensures
        finding(r) == client_key_finding(client_key),
{
    match client_key {
        Some(key) => if key.len() >= 32 {
            check(CheckStatus::Pass, "hue.dtls.client_key", "LUMAWAY_CLIENT_KEY is set (hex streaming secret)")
        } else {
            check(CheckStatus::Warning, "hue.dtls.client_key", "LUMAWAY_CLIENT_KEY looks short; pairing may be incomplete")
        },
        None => check(
            CheckStatus::Warning,
            "hue.dtls.client_key",
            "LUMAWAY_CLIENT_KEY unset; sync and test-color need it for DTLS",
        ),
    }
}

/// Whether the bridge address is a target the DTLS stream may use (see
/// `validate_dtls_bridge_ip`): `parsed` is its parse, `allow_remote` the override.
pub fn dtls_target_check(bridge_ip: Option<&str>, parsed: Option<BridgeAddress>, allow_remote: bool) -> (r: CheckLine)
    ensures
        r.id@ == "hue.dtls.bridge_ip"@,
        match bridge_ip {
            None => r.status == CheckStatus::Pass && r.message@ == "no bridge IP; skipping DTLS target check"@,
            Some(ip) => {
                let t = trim(ip@);
                if t.len() == 0 {
                    r.status == CheckStatus::Warning && r.message@ == crate::dtls::missing_ip_message()
                } else {
                    match parsed {
                        None => r.status == CheckStatus::Warning && r.message@
                            == crate::dtls::invalid_ip_message(t),
                        Some(a) => if allow_remote || crate::dtls::is_lan_target(a) {
                            r.status == CheckStatus::Pass && r.message@ == ip@
                                + " is acceptable for entertainment UDP (private/link-local)"@
                        } else {
                            r.status == CheckStatus::Warning && r.message@
                                == crate::dtls::non_lan_message(t)
                        },
                    }
                }
            },
        },
{
    match bridge_ip {
        None => check(CheckStatus::Pass, "hue.dtls.bridge_ip", "no bridge IP; skipping DTLS target check"),
        Some(ip) => match validate_dtls_bridge_ip(ip, parsed, allow_remote) {
            Ok(()) => check2(
                CheckStatus::Pass,
                "hue.dtls.bridge_ip",
                ip,
                " is acceptable for entertainment UDP (private/link-local)",
            ),
            Err(HueError::Dtls(message)) => check(CheckStatus::Warning, "hue.dtls.bridge_ip", message.as_str()),
            Err(error) => {
                let m = error.message();
                check(CheckStatus::Warning, "hue.dtls.bridge_ip", m.as_str())
            },
        },
    }
}

/// How the pin setting is shown: its raw value, or `unset` when blank.
pub open spec fn pin_setting_display(pin_certs: Option<Seq<char>>) -> Seq<char> {
    match pin_certs {
        Some(v) if trim(v).len() > 0 => v,
        _ => "unset"@,
    }
}

/// The pin mode as the doctor names it.
pub open spec fn pin_mode_name(kind: BridgeTlsPinKind) -> Seq<char> {
    match kind {
        BridgeTlsPinKind::Spki => "spki (default)"@,
        BridgeTlsPinKind::LeafCertDer => "leaf-cert DER (legacy)"@,
    }
}

/// Certificate pinning of the bridge's HTTPS: on (with its mode) or off, with the raw
/// setting.
pub fn tls_pinning_check(pin_certs: Option<&str>, pin_mode: Option<&str>) -> (r: CheckLine)
    ensures
        ({
            let certs = match pin_certs {
                Some(v) => Some(v@),
                None => None,
            };
            let mode = match pin_mode {
                Some(v) => Some(v@),
                None => None,
            };
            finding(r) == if truthy(certs) {
                (
                    CheckStatus::Pass,
                    "hue.tls_pinning"@,
                    "LUMAWAY_HUE_PIN_CERTS enabled ("@ + pin_setting_display(certs) + "); pin mode: "@
                        + pin_mode_name(pin_kind_of_mode(mode)),
                )
            } else {
                (
                    CheckStatus::Pass,
                    "hue.tls_pinning"@,
                    "LUMAWAY_HUE_PIN_CERTS disabled ("@ + pin_setting_display(certs)
                        + "); relaxed TLS for Hue bridge"@,
                )
            }
        }),
{
    let display: &str = match pin_certs {
        Some(v) => if trim_str(v).len() > 0 {
            v
        } else {
            "unset"
        },
        None => "unset",
    };
    if bridge_tls_pinning_enabled(pin_certs) {
        let kind = match bridge_tls_pin_kind(pin_mode) {
            BridgeTlsPinKind::Spki => "spki (default)",
            BridgeTlsPinKind::LeafCertDer => "leaf-cert DER (legacy)",
        };
        let mut m = String::new();
        push_str_chars(&mut m, "LUMAWAY_HUE_PIN_CERTS enabled (");
        push_str_chars(&mut m, display);
        push_str_chars(&mut m, "); pin mode: ");
        push_str_chars(&mut m, kind);
        CheckLine { status: CheckStatus::Pass, id: "hue.tls_pinning".to_string(), message: m }
    } else {
        check3(
            CheckStatus::Pass,
            "hue.tls_pinning",
            "LUMAWAY_HUE_PIN_CERTS disabled (",
            display,
            "); relaxed TLS for Hue bridge",
        )
    }
}

/// A finding about the pin directory override, when it is set and not blank.
pub fn pin_dir_check(pin_dir: Option<&str>) -> (r: Option<CheckLine>)
    ensures
        match pin_dir {
            Some(d) if trim(d@).len() > 0 => r matches Some(c) && finding(c) == (
                CheckStatus::Pass,
                "hue.tls_pin.config_root"@,
                "LUMAWAY_HUE_PIN_DIR overrides Lumaway config root: "@ + d@,
            ),
            _ => r is None,
        },
{
    match pin_dir {
        Some(d) => if trim_str(d).len() > 0 {
            Some(check2(CheckStatus::Pass, "hue.tls_pin.config_root", "LUMAWAY_HUE_PIN_DIR overrides Lumaway config root: ", d))
        } else {
            None
        },
        None => None,
    }
}

/// A finding about the saved bridge identifier, when it is set (trimmed, not blank).
pub fn bridge_id_check(bridge_id_env: Option<&str>) -> (r: Option<CheckLine>)
    ensures
        match non_empty(
            match bridge_id_env {
                Some(v) => Some(v@),
                None => None,
            },
        ) {
            Some(id) => r matches Some(c) && finding(c) == (
                CheckStatus::Pass,
                "hue.tls_pin.bridge_id"@,
                "LUMAWAY_BRIDGE_ID set: "@ + id,
            ),
            None => r is None,
        },
{
    match bridge_id_from_env(bridge_id_env) {
        Some(id) => Some(check2(CheckStatus::Pass, "hue.tls_pin.bridge_id", "LUMAWAY_BRIDGE_ID set: ", id.as_str())),
        None => None,
    }
}

/// The pin file: nothing to check without a bridge address or with pinning off; else the
/// first candidate file found (`found`), or the file expected (`primary`).
pub open spec fn pin_file_finding(has_ip: bool, pinning: bool, found: Option<Seq<char>>, primary: Seq<char>) -> (CheckStatus, Seq<char>, Seq<char>) {
    if !has_ip {
        (CheckStatus::Pass, "hue.tls_pin.file"@, "no bridge IP; pin file path depends on LUMAWAY_BRIDGE / --bridge"@)
    } else if !pinning {
        (CheckStatus::Pass, "hue.tls_pin.file"@, "pinning disabled; no pin file is used"@)
    } else {
        match found {
            Some(p) => (CheckStatus::Pass, "hue.tls_pin.file"@, "pin file present: "@ + p),
            None => (
                CheckStatus::Warning,
                "hue.tls_pin.file"@,
                "no pin file yet (created on first successful HTTPS); expected e.g. "@ + primary,
            ),
        }
    }
}

/// The finding about the bridge's pin file.
pub fn pin_file_check(has_ip: bool, pinning: bool, found: Option<&str>, primary: &str) -> (r: CheckLine)
    ensures
        finding(r) == pin_file_finding(
            has_ip,
            pinning,
            match found {
                Some(p) => Some(p@),
                None => None,
            },
            primary@,
        ),
{
    if !has_ip {
        check(CheckStatus::Pass, "hue.tls_pin.file", "no bridge IP; pin file path depends on LUMAWAY_BRIDGE / --bridge")
    } else if !pinning {
        check(CheckStatus::Pass, "hue.tls_pin.file", "pinning disabled; no pin file is used")
    } else {
        match found {
            Some(p) => check2(CheckStatus::Pass, "hue.tls_pin.file", "pin file present: ", p),
            None => check2(
                CheckStatus::Warning,
                "hue.tls_pin.file",
                "no pin file yet (created on first successful HTTPS); expected e.g. ",
                primary,
            ),
        }
    }
}

/// A bridge request's failure as a finding: a rejected key and pinning or request failures
/// are errors with advice, a missing key a warning, anything else an error with its message.
pub open spec fn hue_error_finding(error: HueError) -> (CheckStatus, Seq<char>) {
    match error {
        HueError::Authentication => (
            CheckStatus::Error,
            "saved Hue application key was rejected; open Settings, press Pair on the bridge, then press Pair in LumaWay to refresh LUMAWAY_APP_KEY and LUMAWAY_CLIENT_KEY"@,
        ),
        HueError::MissingAppKey => (CheckStatus::Warning, "no Hue application key is configured; use Settings > Pair"@),
        HueError::TlsPin(m) => (CheckStatus::Error, "Hue TLS certificate pinning: "@ + m@),
        HueError::Request(m) => (CheckStatus::Error, "Hue bridge request failed: "@ + m@),
        _ => (CheckStatus::Error, hue_error_message(error)),
    }
}

/// The finding `id` for a failed bridge request.
pub fn hue_error_check(id: &str, error: &HueError) -> (r: CheckLine)
    ensures
        r.id@ == id@,
        (r.status, r.message@) == hue_error_finding(*error),
{
    match error {
        HueError::Authentication => check(
            CheckStatus::Error,
            id,
            "saved Hue application key was rejected; open Settings, press Pair on the bridge, then press Pair in LumaWay to refresh LUMAWAY_APP_KEY and LUMAWAY_CLIENT_KEY",
        ),
        HueError::MissingAppKey => check(CheckStatus::Warning, id, "no Hue application key is configured; use Settings > Pair"),
        HueError::TlsPin(m) => check2(CheckStatus::Error, id, "Hue TLS certificate pinning: ", m.as_str()),
        HueError::Request(m) => check2(CheckStatus::Error, id, "Hue bridge request failed: ", m.as_str()),
        _ => {
            let m = error.message();
            check(CheckStatus::Error, id, m.as_str())
        },
    }
}

/// What is missing before the bridge can be asked anything, if something is.
pub fn hue_credentials_check(bridge: Option<&str>, app_key: Option<&str>) -> (r: Option<CheckLine>)
    ensures
        match (bridge, app_key) {
            (Some(_), Some(_)) => r is None,
            (Some(_), None) => r matches Some(c) && finding(c) == (
                CheckStatus::Warning,
                "hue.credentials"@,
                "bridge was provided but no app key was provided"@,
            ),
            (None, _) => r matches Some(c) && finding(c) == (
                CheckStatus::Warning,
                "hue.bridge"@,
                "no bridge provided; skipping Hue checks"@,
            ),
        },
{
    match (bridge, app_key) {
        (Some(_), Some(_)) => None,
        (Some(_), None) => Some(check(CheckStatus::Warning, "hue.credentials", "bridge was provided but no app key was provided")),
        (None, _) => Some(check(CheckStatus::Warning, "hue.bridge", "no bridge provided; skipping Hue checks")),
    }
}

/// The entertainment areas the bridge listed, or why it could not.
pub fn areas_check(bridge: &str, areas: Result<usize, HueError>) -> (r: CheckLine)
    ensures
        r.id@ == "hue.entertainment_areas"@,
        match areas {
            Ok(n) => r.status == CheckStatus::Pass && r.message@ == nat_decimal(n as nat) + " area(s) found on "@ + bridge@,
            Err(e) => (r.status, r.message@) == hue_error_finding(e),
        },
{
    match areas {
        Ok(n) => {
            let mut m = String::new();
            let d = u64_decimal(n as u64);
            push_chars(&mut m, &d);
            push_str_chars(&mut m, " area(s) found on ");
            push_str_chars(&mut m, bridge);
            CheckLine { status: CheckStatus::Pass, id: "hue.entertainment_areas".to_string(), message: m }
        },
        Err(e) => hue_error_check("hue.entertainment_areas", &e),
    }
}

/// Whether the bridge told its application id.
pub fn application_id_check(result: Result<(), HueError>) -> (r: CheckLine)
    ensures
        r.id@ == "hue.application_id"@,
        match result {
            Ok(_) => r.status == CheckStatus::Pass && r.message@ == "hue-application-id header is available"@,
            Err(e) => (r.status, r.message@) == hue_error_finding(e),
        },
{
    match result {
        Ok(()) => check(CheckStatus::Pass, "hue.application_id", "hue-application-id header is available"),
        Err(e) => hue_error_check("hue.application_id", &e),
    }
}

/// The bridge's identity as it replied.
pub fn bridge_info_check(result: Result<crate::client::BridgeInfo, HueError>) -> (r: CheckLine)
    ensures
        r.id@ == "hue.bridge_info"@,
        match result {
            Ok(info) => r.status == CheckStatus::Pass && r.message@ == "bridge id "@ + info.id@ + " ("@
                + info.name@ + ")"@,
            Err(e) => (r.status, r.message@) == hue_error_finding(e),
        },
{
    match result {
        Ok(info) => {
            let mut m = String::new();
            push_str_chars(&mut m, "bridge id ");
            push_str_chars(&mut m, info.id.as_str());
            push_str_chars(&mut m, " (");
            push_str_chars(&mut m, info.name.as_str());
            push_str_chars(&mut m, ")");
            CheckLine { status: CheckStatus::Pass, id: "hue.bridge_info".to_string(), message: m }
        },
        Err(e) => hue_error_check("hue.bridge_info", &e),
    }
}

/// Whether the bridge identifier could be saved.
pub fn bridge_id_saved_check(bridge_id: &str, saved: Result<(), String>) -> (r: CheckLine)
    ensures
        finding(r) == match saved {
            Ok(_) => (CheckStatus::Pass, "hue.bridge_id"@, "LUMAWAY_BRIDGE_ID saved to lumaway.env ("@ + bridge_id@ + ")"@),
            Err(e) => (CheckStatus::Warning, "hue.bridge_id"@, "could not save LUMAWAY_BRIDGE_ID: "@ + e@),
        },
{
    match saved {
        Ok(()) => check3(CheckStatus::Pass, "hue.bridge_id", "LUMAWAY_BRIDGE_ID saved to lumaway.env (", bridge_id, ")"),
        Err(e) => check2(CheckStatus::Warning, "hue.bridge_id", "could not save LUMAWAY_BRIDGE_ID: ", e.as_str()),
    }
}

/// The configuration file in use, or that it is missing.
pub fn config_file_check(env_path: &str, present: bool) -> (r: CheckLine)
    ensures
        finding(r) == if present {
            (CheckStatus::Pass, "config.file"@, "using "@ + env_path@)
        } else {
            (CheckStatus::Warning, "config.file"@, "missing "@ + env_path@ + "; GUI-saved settings will not be loaded"@)
        },
{
    if present {
        check2(CheckStatus::Pass, "config.file", "using ", env_path)
    } else {
        check3(CheckStatus::Warning, "config.file", "missing ", env_path, "; GUI-saved settings will not be loaded")
    }
}

/// The selected capture profile before its file is read: a failed load, no profile, or a
/// name that names no profile file end the profile checks with a finding; else the file
/// (relative to the configuration home) to look at.
pub open spec fn profile_selection(config_home: Seq<char>, load_error: Option<Seq<char>>, profile: Option<Seq<char>>) -> Result<Seq<char>, (CheckStatus, Seq<char>, Seq<char>)> {
    match load_error {
        Some(e) => Err((CheckStatus::Error, "profile.load"@, e)),
        None => match non_empty(profile) {
            None => Err((CheckStatus::Warning, "profile.selected"@, "LUMAWAY_PROFILE is not set; using CLI/env defaults"@)),
            Some(name) => match profile_file(name) {
                Ok(p) => Ok(crate::hue_tls_pin::join_path(config_home, p)),
                Err(m) => Err((CheckStatus::Error, "profile.name"@, m)),
            },
        },
    }
}

/// The profile file to check, or the finding that ends the profile checks.
pub fn profile_selection_check(config_home: &str, load_error: Option<&str>, profile: Option<&str>) -> (r: Result<String, CheckLine>)
    ensures
        match profile_selection(
            config_home@,
            match load_error {
                Some(e) => Some(e@),
                None => None,
            },
            match profile {
                Some(p) => Some(p@),
                None => None,
            },
        ) {
            Ok(p) => r matches Ok(s) && s@ == p,
            Err(f) => r matches Err(c) && finding(c) == f,
        },
{
    match load_error {
        Some(e) => Err(check(CheckStatus::Error, "profile.load", e)),
        None => match non_empty_env(profile) {
            None => Err(check(CheckStatus::Warning, "profile.selected", "LUMAWAY_PROFILE is not set; using CLI/env defaults")),
            Some(name) => match profile_path(config_home, name.as_str()) {
                Ok(p) => Ok(p),
                Err(m) => Err(check(CheckStatus::Error, "profile.name", m.as_str())),
            },
        },
    }
}

/// The profile file named in the settings does not exist.
pub fn profile_missing_check(path: &str) -> (r: CheckLine)
    ensures
        finding(r) == (CheckStatus::Error, "profile.file"@, "profile file does not exist: "@ + path@),
{
    check2(CheckStatus::Error, "profile.file", "profile file does not exist: ", path)
}

/// The keys among `keys` that a profile does not support, in order.
pub open spec fn unsupported_keys(keys: Seq<Seq<char>>) -> Seq<Seq<char>>
    decreases keys.len(),
{
    if keys.len() == 0 {
        Seq::empty()
    } else {
        let prev = unsupported_keys(keys.drop_last());
        if profile_key(keys.last()) {
            prev
        } else {
            prev.push(keys.last())
        }
    }
}

/// `parts` separated by `sep`.
pub open spec fn joined(parts: Seq<Seq<char>>, sep: Seq<char>) -> Seq<char>
    decreases parts.len(),
{
    if parts.len() == 0 {
        Seq::empty()
    } else if parts.len() == 1 {
        parts[0]
    } else {
        joined(parts.drop_last(), sep) + sep + parts.last()
    }
}

/// The views of strings.
pub open spec fn string_views(v: Seq<String>) -> Seq<Seq<char>> {
    v.map_values(|s: String| s@)
}

/// A profile file that was read: the keys it holds, in the order given, must all be
/// supported; `path` is how the file is shown.
pub fn profile_keys_check(path: &str, keys: &[String]) -> (r: CheckLine)
    ensures
        ({
            let bad = unsupported_keys(string_views(keys@));
            finding(r) == if bad.len() == 0 {
                (
                    CheckStatus::Pass,
                    "profile.file"@,
                    path@ + " loaded with "@ + nat_decimal(keys@.len()) + " supported setting(s)"@,
                )
            } else {
                (CheckStatus::Warning, "profile.ignored_keys"@, "ignored unsupported key(s): "@ + joined(bad, ", "@))
            }
        }),
{
    let ghost kv = string_views(keys@);
    let mut bad_text = String::new();
    let mut bad_count: usize = 0;
    let mut i: usize = 0;
    while i < keys.len()
        invariant
            i <= keys.len(),
            kv == string_views(keys@),
            bad_count == unsupported_keys(kv.take(i as int)).len(),
            bad_count <= i,
            bad_text@ == joined(unsupported_keys(kv.take(i as int)), ", "@),
        decreases keys.len() - i,
    {
        assert(kv.take(i + 1).drop_last() =~= kv.take(i as int));
        assert(kv.take(i + 1).last() == keys@[i as int]@);
        if !is_profile_key(keys[i].as_str()) {
            let ghost prev = unsupported_keys(kv.take(i as int));
            if bad_count > 0 {
                push_str_chars(&mut bad_text, ", ");
            }
            push_str_chars(&mut bad_text, keys[i].as_str());
            bad_count = bad_count + 1;
            proof {
                let next = prev.push(keys@[i as int]@);
                assert(next.drop_last() =~= prev);
                if prev.len() == 0 {
                    assert(next.len() == 1);
                }
            }
        }
        i = i + 1;
    }
    assert(kv.take(keys.len() as int) =~= kv);
    if bad_count == 0 {
        let mut m = String::new();
        push_str_chars(&mut m, path);
        push_str_chars(&mut m, " loaded with ");
        let d = u64_decimal(keys.len() as u64);
        push_chars(&mut m, &d);
        push_str_chars(&mut m, " supported setting(s)");
        CheckLine { status: CheckStatus::Pass, id: "profile.file".to_string(), message: m }
    } else {
        check2(CheckStatus::Warning, "profile.ignored_keys", "ignored unsupported key(s): ", bad_text.as_str())
    }
}

/// The findings about the graphical session: the runtime directory and the session bus
/// must be set, and a Wayland display is expected.
pub fn portal_environment_checks(runtime_dir_set: bool, session_bus_set: bool, wayland_set: bool, display_set: bool) -> (r: Vec<CheckLine>)
    ensures
        r@.len() == 3,
        finding(r@[0]) == if runtime_dir_set {
            (CheckStatus::Pass, "env.XDG_RUNTIME_DIR"@, "set"@)
        } else {
            (CheckStatus::Warning, "env.XDG_RUNTIME_DIR"@, "missing; Portal calls must run inside the graphical user session"@)
        },
        finding(r@[1]) == if session_bus_set {
            (CheckStatus::Pass, "env.DBUS_SESSION_BUS_ADDRESS"@, "set"@)
        } else {
            (
                CheckStatus::Warning,
                "env.DBUS_SESSION_BUS_ADDRESS"@,
                "missing; Portal calls must run inside the graphical user session"@,
            )
        },
        finding(r@[2]) == if wayland_set {
            (CheckStatus::Pass, "env.WAYLAND_DISPLAY"@, "set"@)
        } else if display_set {
            (
                CheckStatus::Warning,
                "env.WAYLAND_DISPLAY"@,
                "missing, but DISPLAY is set; LumaWay is intended for Wayland Portal capture"@,
            )
        } else {
            (CheckStatus::Warning, "env.WAYLAND_DISPLAY"@, "missing; no graphical Wayland session detected"@)
        },
{
    let mut out: Vec<CheckLine> = Vec::new();
    if runtime_dir_set {
        out.push(check(CheckStatus::Pass, "env.XDG_RUNTIME_DIR", "set"));
    } else {
        out.push(check(CheckStatus::Warning, "env.XDG_RUNTIME_DIR", "missing; Portal calls must run inside the graphical user session"));
    }
    if session_bus_set {
        out.push(check(CheckStatus::Pass, "env.DBUS_SESSION_BUS_ADDRESS", "set"));
    } else {
        out.push(
            check(CheckStatus::Warning, "env.DBUS_SESSION_BUS_ADDRESS", "missing; Portal calls must run inside the graphical user session"),
        );
    }
    if wayland_set {
        out.push(check(CheckStatus::Pass, "env.WAYLAND_DISPLAY", "set"));
    } else if display_set {
        out.push(
            check(CheckStatus::Warning, "env.WAYLAND_DISPLAY", "missing, but DISPLAY is set; LumaWay is intended for Wayland Portal capture"),
        );
    } else {
        out.push(check(CheckStatus::Warning, "env.WAYLAND_DISPLAY", "missing; no graphical Wayland session detected"));
    }
    out
}

/// How running an external command went.
#[derive(Debug)]
pub enum CommandOutcome {
    /// It ran and exited successfully; what it printed.
    Succeeded { stdout: String },
    /// It ran and exited with a failure; what it printed on its error output.
    Failed { stderr: String },
    /// It could not be run; the system's description.
    NotRun(String),
}

/// The first line of a text, if it has one.
pub open spec fn first_line(text: Seq<char>) -> Option<Seq<char>> {
    if lines(text).len() > 0 {
        Some(lines(text)[0])
    } else {
        None
    }
}

/// The first line of a text, or `fallback`.
fn first_line_or(text: &str, fallback: &str) -> (r: String)
    ensures
        r@ == match first_line(text@) {
            Some(l) => l,
            None => fallback@,
        },
{
    let c = chars_of(text);
    let ls = lines_exec(&c);
    if ls.len() > 0 {
        let mut s = String::new();
        push_chars(&mut s, &ls[0]);
        s
    } else {
        fallback.to_string()
    }
}

/// A tool asked for its version: available, present but failing, or not found.
pub fn command_check(id: &str, command: &str, outcome: &CommandOutcome) -> (r: CheckLine)
    ensures
        r.id@ == id@,
        match *outcome {
            CommandOutcome::Succeeded { .. } => r.status == CheckStatus::Pass && r.message@ == command@
                + " is available"@,
            CommandOutcome::Failed { .. } => r.status == CheckStatus::Warning && r.message@ == command@
                + " is present but returned a non-zero status"@,
            CommandOutcome::NotRun(e) => r.status == CheckStatus::Warning && r.message@ == command@
                + " not found: "@ + e@,
        },
{
    match outcome {
        CommandOutcome::Succeeded { .. } => check2(CheckStatus::Pass, id, command, " is available"),
        CommandOutcome::Failed { .. } => check2(CheckStatus::Warning, id, command, " is present but returned a non-zero status"),
        CommandOutcome::NotRun(e) => check3(CheckStatus::Warning, id, command, " not found: ", e.as_str()),
    }
}

/// A service query of the user session: its first output line (or `available`) when it
/// succeeds, its first error line (or `command returned non-zero`) when it fails.
pub fn user_command_check(id: &str, command: &str, outcome: &CommandOutcome) -> (r: CheckLine)
    ensures
        r.id@ == id@,
        match *outcome {
            CommandOutcome::Succeeded { stdout } => r.status == CheckStatus::Pass && r.message@ == match first_line(stdout@) {
                Some(l) => l,
                None => "available"@,
            },
            CommandOutcome::Failed { stderr } => r.status == CheckStatus::Warning && r.message@ == match first_line(stderr@) {
                Some(l) => l,
                None => "command returned non-zero"@,
            },
            CommandOutcome::NotRun(e) => r.status == CheckStatus::Warning && r.message@ == command@
                + " failed: "@ + e@,
        },
{
    match outcome {
        CommandOutcome::Succeeded { stdout } => {
            let m = first_line_or(stdout.as_str(), "available");
            CheckLine { status: CheckStatus::Pass, id: id.to_string(), message: m }
        },
        CommandOutcome::Failed { stderr } => {
            let m = first_line_or(stderr.as_str(), "command returned non-zero");
            CheckLine { status: CheckStatus::Warning, id: id.to_string(), message: m }
        },
        CommandOutcome::NotRun(e) => check3(CheckStatus::Warning, id, command, " failed: ", e.as_str()),
    }
}

/// A GStreamer element: a missing required element is an error, a missing optional one a
/// warning.
pub fn gstreamer_element_check(id: &str, element: &str, required: bool, outcome: &CommandOutcome) -> (r: CheckLine)
    ensures
        r.id@ == id@,
        match *outcome {
            CommandOutcome::Succeeded { .. } => r.status == CheckStatus::Pass && r.message@ == element@
                + " is available"@,
            CommandOutcome::Failed { .. } => if required {
                r.status == CheckStatus::Error && r.message@ == element@
                    + " is missing; capture cannot run without it"@
            } else {
                r.status == CheckStatus::Warning && r.message@ == element@
                    + " is missing; optional acceleration path unavailable"@
            },
            CommandOutcome::NotRun(e) => r.status == (if required {
                CheckStatus::Error
            } else {
                CheckStatus::Warning
            }) && r.message@ == "gst-inspect-1.0 failed for "@ + element@ + ": "@ + e@,
        },
{
    match outcome {
        CommandOutcome::Succeeded { .. } => check2(CheckStatus::Pass, id, element, " is available"),
        CommandOutcome::Failed { .. } => if required {
            check2(CheckStatus::Error, id, element, " is missing; capture cannot run without it")
        } else {
            check2(CheckStatus::Warning, id, element, " is missing; optional acceleration path unavailable")
        },
        CommandOutcome::NotRun(e) => {
            let status = if required {
                CheckStatus::Error
            } else {
                CheckStatus::Warning
            };
            let mut m = String::new();
            push_str_chars(&mut m, "gst-inspect-1.0 failed for ");
            push_str_chars(&mut m, element);
            push_str_chars(&mut m, ": ");
            push_str_chars(&mut m, e.as_str());
            CheckLine { status, id: id.to_string(), message: m }
        },
    }
}

/// The views of string slices.
pub open spec fn str_views(v: Seq<&str>) -> Seq<Seq<char>> {
    v.map_values(|s: &str| s@)
}

/// `parts` separated by `, `.
fn join_comma(parts: &[&str]) -> (r: String)
    ensures
        r@ == joined(str_views(parts@), ", "@),
{
    let ghost pv = str_views(parts@);
    let mut t = String::new();
    let mut i: usize = 0;
    while i < parts.len()
        invariant
            i <= parts.len(),
            pv == str_views(parts@),
            t@ == joined(pv.take(i as int), ", "@),
        decreases parts.len() - i,
    {
        assert(pv.take(i + 1).drop_last() =~= pv.take(i as int));
        if i > 0 {
            push_str_chars(&mut t, ", ");
        }
        push_str_chars(&mut t, parts[i]);
        i = i + 1;
    }
    assert(pv.take(parts.len() as int) =~= pv);
    t
}

/// The development packages the capture needs, as `pkg-config --exists` found them.
pub fn pkg_config_check(id: &str, packages: &[&str], outcome: &CommandOutcome) -> (r: CheckLine)
    ensures
        r.id@ == id@,
        match *outcome {
            CommandOutcome::Succeeded { .. } => r.status == CheckStatus::Pass && r.message@ == "found "@
                + joined(str_views(packages@), ", "@),
            CommandOutcome::Failed { .. } => r.status == CheckStatus::Warning && r.message@ == "missing "@
                + joined(str_views(packages@), ", "@)
                + "; install development packages before the capture spike"@,
            CommandOutcome::NotRun(e) => r.status == CheckStatus::Warning && r.message@
                == "pkg-config failed: "@ + e@,
        },
{
    match outcome {
        CommandOutcome::Succeeded { .. } => {
            let j = join_comma(packages);
            check2(CheckStatus::Pass, id, "found ", j.as_str())
        },
        CommandOutcome::Failed { .. } => {
            let j = join_comma(packages);
            check3(CheckStatus::Warning, id, "missing ", j.as_str(), "; install development packages before the capture spike")
        },
        CommandOutcome::NotRun(e) => check2(CheckStatus::Warning, id, "pkg-config failed: ", e.as_str()),
    }
}

} // verus!
