//! The decisions of the desktop window around the sync engine it runs: what the connection
//! header says, when sync may start, which saved settings reach the engine, and what
//! happens when the engine process ends.
use vstd::prelude::*;
use crate::env_file::{saved_value, EnvValues};
use crate::gui_state::{
    color_profile_for_sync_mode, failure_candidate, is_sync_failure_candidate, preset_for_sync_mode,
    screen_mode, screen_sync_mode,
};
use crate::sync_mode::{mode_color_profile, mode_name, mode_preset, SyncMode};
use crate::text::{
    chars_of, i64_decimal, int_decimal, starts_with, starts_with_str, string_of, trim, trim_str,
};
use crate::user_messages::{
    bridge_failure, capture_failure, classify_error, classify_lowered_text, text_lowercase,
    UserMessageCode,
};

verus! {

broadcast use vstd::string::group_string_axioms;

/// The code of an error text (see `classify_error`).
pub open spec fn error_code(e: Seq<char>) -> UserMessageCode {
    classify_lowered_text(text_lowercase(trim(e)))
}

/// The style of the connection header.
#[derive(Debug, Clone, Copy, PartialEq, Eq, Structural)]
pub enum HeaderTone {
    Connected,
    Warning,
}

/// The states the connection header shows when something needs attention.
#[derive(Debug, Clone, Copy, PartialEq, Eq, Structural)]
pub enum HeaderKind {
    /// The bridge rejected the saved application key.
    PairingRequired,
    /// The screen capture ended.
    CaptureStopped,
    /// The bridge cannot be reached.
    BridgeNotConnected,
    /// Sync ended for another reason.
    SyncStopped,
    /// No bridge address is set.
    BridgeNotConfigured,
    /// A bridge address is set but no application key.
    BridgeNeedsPairing,
    /// Address and key are set; the bridge is being checked.
    BridgeConfigured,
}

/// The header's status line, subtitle (both untranslated) and style.
pub open spec fn header_texts(k: HeaderKind) -> (Seq<char>, Seq<char>, HeaderTone) {
    match k {
        HeaderKind::PairingRequired => ("Pairing required"@, "Press Pair in Settings"@, HeaderTone::Warning),
        HeaderKind::CaptureStopped => ("Screen capture stopped"@, "Press Start to try again"@, HeaderTone::Warning),
        HeaderKind::BridgeNotConnected => ("Bridge not connected"@, "Check Settings"@, HeaderTone::Warning),
        HeaderKind::SyncStopped => ("Sync stopped"@, "Press Start to try again"@, HeaderTone::Warning),
        HeaderKind::BridgeNotConfigured => ("Bridge not configured"@, "Open Settings"@, HeaderTone::Warning),
        HeaderKind::BridgeNeedsPairing => ("Bridge found"@, "Pairing required"@, HeaderTone::Warning),
        HeaderKind::BridgeConfigured => ("Bridge configured"@, "Checking…"@, HeaderTone::Warning),
    }
}

impl HeaderKind {
    /// The status line, the subtitle and the style of this header, before translation.
    pub fn texts(self) -> (r: (&'static str, &'static str, HeaderTone))
        ensures
            (r.0@, r.1@, r.2) == header_texts(self),
    {
        proof {
            reveal_strlit("Pairing required");
            reveal_strlit("Press Pair in Settings");
            reveal_strlit("Screen capture stopped");
            reveal_strlit("Press Start to try again");
            reveal_strlit("Bridge not connected");
            reveal_strlit("Check Settings");
            reveal_strlit("Sync stopped");
            reveal_strlit("Bridge not configured");
            reveal_strlit("Open Settings");
            reveal_strlit("Bridge found");
            reveal_strlit("Bridge configured");
            reveal_strlit("Checking…");
        }
        match self {
            HeaderKind::PairingRequired => ("Pairing required", "Press Pair in Settings", HeaderTone::Warning),
            HeaderKind::CaptureStopped => ("Screen capture stopped", "Press Start to try again", HeaderTone::Warning),
            HeaderKind::BridgeNotConnected => ("Bridge not connected", "Check Settings", HeaderTone::Warning),
            HeaderKind::SyncStopped => ("Sync stopped", "Press Start to try again", HeaderTone::Warning),
            HeaderKind::BridgeNotConfigured => ("Bridge not configured", "Open Settings", HeaderTone::Warning),
            HeaderKind::BridgeNeedsPairing => ("Bridge found", "Pairing required", HeaderTone::Warning),
            HeaderKind::BridgeConfigured => ("Bridge configured", "Checking…", HeaderTone::Warning),
        }
    }
}

/// The header that tells how far the bridge setup is: no address, no key, or both set.
pub open spec fn health_kind(bridge: Seq<char>, app_key: Seq<char>) -> HeaderKind {
    if trim(bridge).len() == 0 {
        HeaderKind::BridgeNotConfigured
    } else if trim(app_key).len() == 0 {
        HeaderKind::BridgeNeedsPairing
    } else {
        HeaderKind::BridgeConfigured
    }
}

/// The header that tells how far the bridge setup is.
pub fn health_header(bridge: &str, app_key: &str) -> (r: HeaderKind)
    ensures
        r == health_kind(bridge@, app_key@),
{
    if trim_str(bridge).len() == 0 {
        HeaderKind::BridgeNotConfigured
    } else if trim_str(app_key).len() == 0 {
        HeaderKind::BridgeNeedsPairing
    } else {
        HeaderKind::BridgeConfigured
    }
}

/// What the window shows for an error reported by a background task.
#[derive(Debug, Clone, Copy, PartialEq, Eq, Structural)]
pub enum ErrorResponse {
    /// Show this header.
    Header(HeaderKind),
    /// Show the setup health header.
    CheckHealth,
}

/// An error's header: pairing for a rejected key, capture for portal and capture failures,
/// the bridge for bridge failures or whenever the bridge could be asked; else the setup
/// health.
pub open spec fn error_kind(code: UserMessageCode, can_load_areas: bool) -> ErrorResponse {
    if code == UserMessageCode::HueAuthRejected {
        ErrorResponse::Header(HeaderKind::PairingRequired)
    } else if capture_failure(code) {
        ErrorResponse::Header(HeaderKind::CaptureStopped)
    } else if bridge_failure(code) || can_load_areas {
        ErrorResponse::Header(HeaderKind::BridgeNotConnected)
    } else {
        ErrorResponse::CheckHealth
    }
}

/// What the window shows for an error of a background task; `can_load_areas` tells whether
/// a bridge address and an application key are filled in.
pub fn error_response(error: &str, can_load_areas: bool) -> (r: ErrorResponse)
    ensures
        r == error_kind(error_code(trim(error@)), can_load_areas),
{
    let t = string_of(&trim_str(error));
    let code = classify_error(t.as_str());
    if code == UserMessageCode::HueAuthRejected {
        ErrorResponse::Header(HeaderKind::PairingRequired)
    } else if code.is_portal_or_capture_error() {
        ErrorResponse::Header(HeaderKind::CaptureStopped)
    } else if code.is_bridge_error() || can_load_areas {
        ErrorResponse::Header(HeaderKind::BridgeNotConnected)
    } else {
        ErrorResponse::CheckHealth
    }
}

/// The header after the engine stopped on its own: chosen from the log line that explains
/// the failure, if any.
pub open spec fn stop_kind(code: UserMessageCode) -> HeaderKind {
    if code == UserMessageCode::HueAuthRejected {
        HeaderKind::PairingRequired
    } else if capture_failure(code) {
        HeaderKind::CaptureStopped
    } else if bridge_failure(code) {
        HeaderKind::BridgeNotConnected
    } else {
        HeaderKind::SyncStopped
    }
}

/// The header after the engine stopped on its own, from the line that explains it.
pub fn unexpected_stop_header(failure: Option<&str>) -> (r: HeaderKind)
    ensures
        r == stop_kind(
            match failure {
                Some(f) => error_code(f@),
                None => UserMessageCode::Unknown,
            },
        ),
{
    let code = match failure {
        Some(f) => classify_error(f),
        None => UserMessageCode::Unknown,
    };
    if code == UserMessageCode::HueAuthRejected {
        HeaderKind::PairingRequired
    } else if code.is_portal_or_capture_error() {
        HeaderKind::CaptureStopped
    } else if code.is_bridge_error() {
        HeaderKind::BridgeNotConnected
    } else {
        HeaderKind::SyncStopped
    }
}

/// Which zone controls can be used.
#[derive(Debug, Clone, Copy, PartialEq, Eq, Structural)]
pub struct ZoneControls {
    /// The brightness slider.
    pub intensity: bool,
    /// The start/stop button.
    pub start: bool,
}

/// The zone controls: brightness needs a zone; the button stops a running sync, and starts
/// one once a zone is chosen and switched on.
pub fn zone_controls(running: bool, area: &str, area_enabled: bool) -> (r: ZoneControls)
    ensures
        r.intensity == (trim(area@).len() > 0),
        r.start == (running || (trim(area@).len() > 0 && area_enabled)),
{
    let has_zone = trim_str(area).len() > 0;
    ZoneControls { intensity: has_zone, start: running || (has_zone && area_enabled) }
}

/// The complaint that stops sync from starting, if any: the zone is off, or the bridge
/// address (trimmed), the zone or a key is empty.
pub open spec fn start_problem(area_enabled: bool, bridge: Seq<char>, area: Seq<char>, app_key: Seq<char>, client_key: Seq<char>) -> Option<Seq<char>> {
    if !area_enabled {
        Some("zone is off"@)
    } else if trim(bridge).len() == 0 || area.len() == 0 || app_key.len() == 0 || client_key.len() == 0 {
        Some("bridge address, zone, and keys are required"@)
    } else {
        None
    }
}

/// Checks that sync can start with these settings.
pub fn check_sync_start(area_enabled: bool, bridge: &str, area: &str, app_key: &str, client_key: &str) -> (r: Result<(), String>)
    ensures
        match start_problem(area_enabled, bridge@, area@, app_key@, client_key@) {
            Some(m) => r matches Err(e) && e@ == m,
            None => r is Ok,
        },
{
    if !area_enabled {
        return Err("zone is off".to_string());
    }
    if trim_str(bridge).len() == 0 || chars_of(area).len() == 0 || chars_of(app_key).len() == 0
        || chars_of(client_key).len() == 0 {
        return Err("bridge address, zone, and keys are required".to_string());
    }
    Ok(())
}

/// The saved settings the engine receives from the window's configuration file.
pub open spec fn forwarded_keys() -> Seq<Seq<char>> {
    seq![
        "LUMAWAY_BRIDGE_ID"@,
        "LUMAWAY_HUE_PIN_CERTS"@,
        "LUMAWAY_HUE_PIN_MODE"@,
        "LUMAWAY_DTLS_IDENTITY"@,
        "LUMAWAY_DTLS_USE_APP_KEY"@,
        "LUMAWAY_DTLS_USE_APPLICATION_ID"@,
    ]
}

/// The forwarded settings among `keys` that are saved with a value that is not blank, in
/// order, each value trimmed.
pub open spec fn forwarded(saved: Map<Seq<char>, Seq<char>>, keys: Seq<Seq<char>>) -> Seq<(Seq<char>, Seq<char>)>
    decreases keys.len(),
{
    if keys.len() == 0 {
        Seq::empty()
    } else {
        let prev = forwarded(saved, keys.drop_last());
        match saved_value(saved, keys.last()) {
            Some(v) if trim(v).len() > 0 => prev.push((keys.last(), trim(v))),
            _ => prev,
        }
    }
}

/// The views of name and value pairs.
pub open spec fn pair_views(v: Seq<(String, String)>) -> Seq<(Seq<char>, Seq<char>)> {
    v.map_values(|p: (String, String)| (p.0@, p.1@))
}

/// The saved settings to hand on to the engine's environment.
pub fn forwarded_saved_env(saved: &EnvValues) -> (r: Vec<(String, String)>)
    ensures
        pair_views(r@) == forwarded(saved@, forwarded_keys()),
{
    let keys: [&str; 6] = [
        "LUMAWAY_BRIDGE_ID",
        "LUMAWAY_HUE_PIN_CERTS",
        "LUMAWAY_HUE_PIN_MODE",
        "LUMAWAY_DTLS_IDENTITY",
        "LUMAWAY_DTLS_USE_APP_KEY",
        "LUMAWAY_DTLS_USE_APPLICATION_ID",
    ];
    let ghost ks = forwarded_keys();
    proof {
        reveal_strlit("LUMAWAY_BRIDGE_ID");
        reveal_strlit("LUMAWAY_HUE_PIN_CERTS");
        reveal_strlit("LUMAWAY_HUE_PIN_MODE");
        reveal_strlit("LUMAWAY_DTLS_IDENTITY");
        reveal_strlit("LUMAWAY_DTLS_USE_APP_KEY");
        reveal_strlit("LUMAWAY_DTLS_USE_APPLICATION_ID");
        assert(keys@.map_values(|k: &str| k@) =~= ks);
    }
    let mut out: Vec<(String, String)> = Vec::new();
    let mut i: usize = 0;
    while i < 6
        invariant
            i <= 6,
            keys@.len() == 6,
            keys@.map_values(|k: &str| k@) == ks,
            ks == forwarded_keys(),
            pair_views(out@) == forwarded(saved@, ks.take(i as int)),
        decreases 6 - i,
    {
        let key = keys[i];
        assert(ks.take(i + 1).drop_last() =~= ks.take(i as int));
        assert(ks.take(i + 1).last() == key@);
        match saved.get(key) {
            Some(v) => {
                let t = trim_str(v.as_str());
                if t.len() > 0 {
                    let ghost before = out@;
                    out.push((key.to_string(), string_of(&t)));
                    assert(pair_views(out@) =~= pair_views(before).push((key@, trim(v@))));
                }
            },
            None => {},
        }
        i = i + 1;
    }
    assert(ks.take(6) =~= ks);
    out
}

/// How the engine process ended.
#[derive(Debug, Clone, Copy, PartialEq, Eq, Structural)]
pub enum EngineExit {
    /// Waiting for the process failed.
    WaitFailed,
    /// The process exited, successfully or not.
    Exited { success: bool },
}

/// What the window does once the engine process ended.
#[derive(Debug, Clone, Copy, PartialEq, Eq, Structural)]
pub enum AfterExit {
    /// Start the engine again (a restart was asked for).
    Restart,
    /// Report that waiting for the engine failed.
    ReportWaitFailure,
    /// Report an unexpected stop, with the remembered failure line if any.
    ReportFailure,
    /// Close the window (it was opened to run one sync).
    CloseWindow,
    /// Nothing more.
    Idle,
}

/// What the window remembers about the engine process.
pub struct SupervisorView {
    /// An engine process runs.
    pub running: bool,
    /// The engine is to be started again when it ends.
    pub pending_restart: bool,
    /// The user asked the engine to stop.
    pub stop_requested: bool,
    /// The last log line that may explain a failure.
    pub last_failure: Option<Seq<char>>,
}

/// The engine process as the window follows it.
pub struct SyncSupervisor {
    running: bool,
    pending_restart: bool,
    stop_requested: bool,
    last_failure: Option<String>,
}

impl View for SyncSupervisor {
    type V = SupervisorView;

    closed spec fn view(&self) -> SupervisorView {
        SupervisorView {
            running: self.running,
            pending_restart: self.pending_restart,
            stop_requested: self.stop_requested,
            last_failure: match self.last_failure {
                Some(s) => Some(s@),
                None => None,
            },
        }
    }
}

/// The state once an engine process was started.
pub open spec fn started() -> SupervisorView {
    SupervisorView { running: true, pending_restart: false, stop_requested: false, last_failure: None }
}

/// The state after the user asked to stop; a stop is only recorded while an engine runs.
pub open spec fn after_stop_request(v: SupervisorView) -> SupervisorView {
    SupervisorView { stop_requested: v.stop_requested || v.running, ..v }
}

/// The state after a restart was asked for (new settings to apply); nothing changes when
/// no engine runs.
pub open spec fn after_restart_request(v: SupervisorView) -> SupervisorView {
    if v.running {
        SupervisorView { pending_restart: true, stop_requested: true, ..v }
    } else {
        v
    }
}

/// The state after a log line: a line that may explain a failure is remembered.
pub open spec fn after_log_line(v: SupervisorView, line: Seq<char>) -> SupervisorView {
    if failure_candidate(line) {
        SupervisorView { last_failure: Some(line), ..v }
    } else {
        v
    }
}

/// What follows the end of the engine: a pending restart when the zone is on; else a report
/// of a failed wait, or of a failed exit that nobody asked for; else closing the window if
/// it ran one sync only.
pub open spec fn exit_decision(v: SupervisorView, exit: EngineExit, area_enabled: bool, auto_quit: bool) -> AfterExit {
    if v.pending_restart && area_enabled {
        AfterExit::Restart
    } else if exit == EngineExit::WaitFailed {
        AfterExit::ReportWaitFailure
    } else if !v.stop_requested && exit == (EngineExit::Exited { success: false }) {
        AfterExit::ReportFailure
    } else if auto_quit {
        AfterExit::CloseWindow
    } else {
        AfterExit::Idle
    }
}

/// The state once the engine ended: nothing runs, the stop request and the remembered
/// failure are cleared, a pending restart stays pending.
pub open spec fn after_exit(v: SupervisorView) -> SupervisorView {
    SupervisorView { running: false, stop_requested: false, last_failure: None, ..v }
}

impl SyncSupervisor {
    /// No engine runs yet.
    pub fn new() -> (r: SyncSupervisor)
        ensures
            r@ == (SupervisorView {
                running: false,
                pending_restart: false,
                stop_requested: false,
                last_failure: None,
            }),
    {
        SyncSupervisor { running: false, pending_restart: false, stop_requested: false, last_failure: None }
    }

    /// Whether an engine process runs.
    pub fn is_running(&self) -> (r: bool)
        ensures
            r == self@.running,
    {
        self.running
    }

    /// Records that an engine process was started.
    pub fn on_started(&mut self)
        ensures
            final(self)@ == started(),
    {
        self.running = true;
        self.pending_restart = false;
        self.stop_requested = false;
        self.last_failure = None;
    }

    /// Records a stop request; tells whether the engine must be signalled (it runs).
    pub fn request_stop(&mut self) -> (r: bool)
        ensures
            final(self)@ == after_stop_request(old(self)@),
            r == old(self)@.running,
    {
        if self.running {
            self.stop_requested = true;
        }
        self.running
    }

    /// Records a restart request; tells whether the engine must be stopped now (it runs and
    /// no restart was pending yet).
    pub fn request_restart(&mut self) -> (r: bool)
        ensures
            final(self)@ == after_restart_request(old(self)@),
            r == (old(self)@.running && !old(self)@.pending_restart),
    {
        if self.running {
            let should_stop = !self.pending_restart;
            self.pending_restart = true;
            self.stop_requested = true;
            should_stop
        } else {
            false
        }
    }

    /// Records a line of the engine's log.
    pub fn on_log_line(&mut self, line: &str)
        ensures
            final(self)@ == after_log_line(old(self)@, line@),
    {
        if is_sync_failure_candidate(line) {
            self.last_failure = Some(line.to_string());
        }
    }

    /// Records the end of the engine process and decides what follows; hands back the
    /// remembered failure line.
    pub fn on_exit(&mut self, exit: EngineExit, area_enabled: bool, auto_quit: bool) -> (r: (AfterExit, Option<String>))
        ensures
            final(self)@ == after_exit(old(self)@),
            r.0 == exit_decision(old(self)@, exit, area_enabled, auto_quit),
            match r.1 {
                Some(s) => old(self)@.last_failure == Some(s@),
                None => old(self)@.last_failure is None,
            },
    {
        let decision = if self.pending_restart && area_enabled {
            AfterExit::Restart
        } else if exit == EngineExit::WaitFailed {
            AfterExit::ReportWaitFailure
        } else if !self.stop_requested && exit == (EngineExit::Exited { success: false }) {
            AfterExit::ReportFailure
        } else if auto_quit {
            AfterExit::CloseWindow
        } else {
            AfterExit::Idle
        };
        let failure = self.last_failure.take();
        self.running = false;
        self.stop_requested = false;
        (decision, failure)
    }

    /// Records that the restart could not start the engine: no restart stays pending.
    pub fn on_restart_failed(&mut self)
        ensures
            final(self)@ == (SupervisorView { pending_restart: false, ..old(self)@ }),
    {
        self.pending_restart = false;
    }
}

/// The views of a list of strings.
pub open spec fn arg_views(v: Seq<String>) -> Seq<Seq<char>> {
    v.map_values(|a: String| a@)
}

/// The preset the window runs a mode with.
pub open spec fn window_preset(mode: SyncMode) -> Seq<char> {
    match mode_preset(screen_mode(mode)) {
        Some(p) => p,
        None => "video-wayland"@,
    }
}

/// The engine's arguments for a sync started from the window: the screen mode, its preset
/// and color profile, the duration, and the brightness and smoothing fractions as written.
pub open spec fn sync_args(mode: SyncMode, duration_ms: int, brightness: Seq<char>, smoothing: Seq<char>) -> Seq<Seq<char>> {
    seq![
        "sync"@,
        "--sync-mode"@,
        mode_name(screen_mode(mode)),
        "--preset"@,
        window_preset(mode),
        "--duration-ms"@,
        int_decimal(duration_ms),
        "--brightness"@,
        brightness,
        "--smoothing"@,
        smoothing,
        "--color-profile"@,
        mode_color_profile(screen_mode(mode)),
    ]
}

/// The engine's arguments for a sync started from the window.
pub fn sync_command_args(mode: SyncMode, duration_ms: i32, brightness: &str, smoothing: &str) -> (r: Vec<String>)
    ensures
        arg_views(r@) == sync_args(mode, duration_ms as int, brightness@, smoothing@),
{
    let screen = screen_sync_mode(mode);
    let d = i64_decimal(duration_ms as i64);
    let mut args: Vec<String> = Vec::new();
    args.push("sync".to_string());
    args.push("--sync-mode".to_string());
    args.push(screen.as_env_value().to_string());
    args.push("--preset".to_string());
    args.push(preset_for_sync_mode(mode).to_string());
    args.push("--duration-ms".to_string());
    args.push(string_of(&d));
    args.push("--brightness".to_string());
    args.push(brightness.to_string());
    args.push("--smoothing".to_string());
    args.push(smoothing.to_string());
    args.push("--color-profile".to_string());
    args.push(color_profile_for_sync_mode(mode).to_string());
    assert(arg_views(args@) =~= sync_args(mode, duration_ms as int, brightness@, smoothing@));
    args
}

/// The engine's arguments to switch an area on (with a brightness in percent, as written)
/// or off.
pub open spec fn area_args(active: bool, bridge: Seq<char>, app_key: Seq<char>, area: Seq<char>, brightness: Option<Seq<char>>) -> Seq<Seq<char>> {
    let base = seq![
        if active {
            "activate-area"@
        } else {
            "deactivate-area"@
        },
        "--bridge"@,
        bridge,
        "--app-key"@,
        app_key,
        "--area"@,
        area,
    ];
    match brightness {
        Some(b) => base + seq!["--brightness"@, b],
        None => base,
    }
}

/// The engine's arguments to switch an area on or off.
pub fn area_command_args(active: bool, bridge: &str, app_key: &str, area: &str, brightness: Option<&str>) -> (r: Vec<String>)
    ensures
        arg_views(r@) == area_args(
            active,
            bridge@,
            app_key@,
            area@,
            match brightness {
                Some(b) => Some(b@),
                None => None,
            },
        ),
{
    let mut args: Vec<String> = Vec::new();
    args.push(
        if active {
            "activate-area"
        } else {
            "deactivate-area"
        }.to_string(),
    );
    args.push("--bridge".to_string());
    args.push(bridge.to_string());
    args.push("--app-key".to_string());
    args.push(app_key.to_string());
    args.push("--area".to_string());
    args.push(area.to_string());
    match brightness {
        Some(b) => {
            args.push("--brightness".to_string());
            args.push(b.to_string());
        },
        None => {},
    }
    assert(arg_views(args@) =~= area_args(
        active,
        bridge@,
        app_key@,
        area@,
        match brightness {
            Some(b) => Some(b@),
            None => None,
        },
    ));
    args
}

/// What the file system tells of a file: whether it is a regular file, and its permission
/// bits.
#[derive(Debug, Clone, Copy, PartialEq, Eq, Structural)]
pub struct FileFacts {
    pub is_file: bool,
    pub mode: u32,
}

/// Why an engine binary named by `LUMAWAY_BIN` is refused, if it is: it must be an absolute
/// path (starting with `/`) to a readable regular file that others cannot write to.
pub open spec fn bin_rejection(path: Seq<char>, facts: Option<FileFacts>) -> Option<Seq<char>> {
    if !starts_with(path, "/"@) {
        Some("LUMAWAY_BIN must be an absolute path"@)
    } else {
        match facts {
            None => Some("LUMAWAY_BIN path is not readable"@),
            Some(f) => if !f.is_file {
                Some("LUMAWAY_BIN must be a regular file"@)
            } else if f.mode & 2 != 0 {
                Some("LUMAWAY_BIN must not be world-writable"@)
            } else {
                None
            },
        }
    }
}

/// Why the engine binary named by `LUMAWAY_BIN` is refused, if it is; `facts` is what the
/// file system said of it (none when it could not be read).
pub fn bin_override_rejection(path: &str, facts: Option<FileFacts>) -> (r: Option<&'static str>)
    ensures
        match bin_rejection(path@, facts) {
            Some(m) => r matches Some(t) && t@ == m,
            None => r is None,
        },
{
    let p = chars_of(path);
    if !starts_with_str(&p, "/") {
        return Some("LUMAWAY_BIN must be an absolute path");
    }
    match facts {
        None => Some("LUMAWAY_BIN path is not readable"),
        Some(f) => if !f.is_file {
            Some("LUMAWAY_BIN must be a regular file")
        } else if f.mode & 2 != 0 {
            Some("LUMAWAY_BIN must not be world-writable")
        } else {
            None
        },
    }
}

/// A stop the user asked for while the engine ran is not reported as a failure when the
/// engine then exits unsuccessfully.
pub proof fn law_requested_stop_is_not_a_failure(v: SupervisorView, area_enabled: bool, auto_quit: bool)
    requires
        v.running,
    ensures
        exit_decision(after_stop_request(v), EngineExit::Exited { success: false }, area_enabled, auto_quit)
            != AfterExit::ReportFailure,
{
}

/// A restart asked for while the engine ran starts it again once it ends, however it ends,
/// as long as the zone is on.
pub proof fn law_requested_restart_restarts(v: SupervisorView, exit: EngineExit, auto_quit: bool)
    requires
        v.running,
    ensures
        exit_decision(after_restart_request(v), exit, true, auto_quit) == AfterExit::Restart,
{
}

/// An engine that exits unsuccessfully without a stop or restart request is reported, and
/// the report carries the last log line that may explain it.
pub proof fn law_unexpected_exit_reports_last_failure(v: SupervisorView, line: Seq<char>, area_enabled: bool, auto_quit: bool)
    requires
        v.running,
        !v.stop_requested,
        !v.pending_restart,
        failure_candidate(line),
    ensures
        exit_decision(after_log_line(v, line), EngineExit::Exited { success: false }, area_enabled, auto_quit)
            == AfterExit::ReportFailure,
        after_log_line(v, line).last_failure == Some(line),
{
}

} // verus!
