//! Sync presets (`video-wayland`, `game-wayland`, `desktop-wayland`), the capture settings
//! they stand for, and the timing rules shared by the sync loops.
//!
//! Durations are whole numbers: frame delays in microseconds, timeouts and instants in
//! nanoseconds on one clock.
use vstd::prelude::*;
use crate::sync_mode::SyncMode;

verus! {

/// A named set of capture and stream settings.
#[derive(Debug, Clone, Copy, PartialEq, Eq, Structural)]
pub enum SyncPreset {
    VideoWayland,
    GameWayland,
    DesktopWayland,
    TvWayland,
}

/// Where frames are scaled down: chosen automatically, on the CPU, or on the GPU.
#[derive(Debug, Clone, Copy, PartialEq, Eq, Structural)]
pub enum CaptureBackend {
    Auto,
    Cpu,
    Gl,
}

/// How a light's color is sampled from the frame: at a point or over a region.
#[derive(Debug, Clone, Copy, PartialEq, Eq, Structural)]
pub enum SamplingMode {
    Point,
    Region,
}

/// The color grading applied to captured colors.
#[derive(Debug, Clone, Copy, PartialEq, Eq, Structural)]
pub enum ColorProfile {
    Soft,
    Vivid,
    Game,
    Boosted,
    Cinema,
    Desktop,
}

/// Whether a wait ran to its deadline or was cut short by a signal.
#[derive(Debug, Clone, Copy, PartialEq, Eq, Structural)]
pub enum SleepOutcome {
    Completed,
    Interrupted,
}

/// The capture and stream settings of a preset.
#[derive(Debug, Clone, Copy, PartialEq, Eq, Structural)]
pub struct SyncPresetConfig {
    pub capture_fps: u8,
    pub stream_fps: u8,
    pub pipewire_fps: i32,
    pub capture_backend: CaptureBackend,
    pub capture_poll_ms: u64,
    pub sampling: SamplingMode,
    pub auto_crop: bool,
    pub max_step: Option<u8>,
}

/// The preset of a screen mode; music has none.
pub open spec fn preset_of_mode(mode: SyncMode) -> Option<SyncPreset> {
    match mode {
        SyncMode::Video => Some(SyncPreset::VideoWayland),
        SyncMode::Game => Some(SyncPreset::GameWayland),
        SyncMode::Desktop => Some(SyncPreset::DesktopWayland),
        SyncMode::Music => None,
    }
}

/// The mode a preset belongs to; `tv-wayland` is the old name of `video-wayland`.
pub open spec fn mode_of_preset(preset: SyncPreset) -> SyncMode {
    match preset {
        SyncPreset::VideoWayland | SyncPreset::TvWayland => SyncMode::Video,
        SyncPreset::GameWayland => SyncMode::Game,
        SyncPreset::DesktopWayland => SyncMode::Desktop,
    }
}

/// The settings of a preset: they differ only in the capture frame rate (8 for video,
/// 12 for games, 6 for the desktop).
pub open spec fn preset_config(preset: SyncPreset) -> SyncPresetConfig {
    let capture_fps: u8 = match preset {
        SyncPreset::VideoWayland | SyncPreset::TvWayland => 8,
        SyncPreset::GameWayland => 12,
        SyncPreset::DesktopWayland => 6,
    };
    SyncPresetConfig {
        capture_fps,
        stream_fps: 25,
        pipewire_fps: 25,
        capture_backend: CaptureBackend::Cpu,
        capture_poll_ms: 5,
        sampling: SamplingMode::Region,
        auto_crop: false,
        max_step: None,
    }
}

impl SyncPreset {
    /// The preset of a screen mode; music has none.
    pub fn from_sync_mode(mode: SyncMode) -> (r: Option<SyncPreset>)
        ensures
            r == preset_of_mode(mode),
    {
        match mode {
            SyncMode::Video => Some(SyncPreset::VideoWayland),
            SyncMode::Game => Some(SyncPreset::GameWayland),
            SyncMode::Desktop => Some(SyncPreset::DesktopWayland),
            SyncMode::Music => None,
        }
    }

    /// The mode the preset belongs to.
    pub fn sync_mode(self) -> (r: SyncMode)
        ensures
            r == mode_of_preset(self),
    {
        match self {
            SyncPreset::VideoWayland | SyncPreset::TvWayland => SyncMode::Video,
            SyncPreset::GameWayland => SyncMode::Game,
            SyncPreset::DesktopWayland => SyncMode::Desktop,
        }
    }
}

impl From<SyncPreset> for SyncPresetConfig {
    fn from(preset: SyncPreset) -> (r: SyncPresetConfig) {
        let capture_fps: u8 = match preset {
            SyncPreset::VideoWayland | SyncPreset::TvWayland => 8,
            SyncPreset::GameWayland => 12,
            SyncPreset::DesktopWayland => 6,
        };
        SyncPresetConfig {
            capture_fps,
            stream_fps: 25,
            pipewire_fps: 25,
            capture_backend: CaptureBackend::Cpu,
            capture_poll_ms: 5,
            sampling: SamplingMode::Region,
            auto_crop: false,
            max_step: None,
        }
    }
}

impl vstd::std_specs::convert::FromSpecImpl<SyncPreset> for SyncPresetConfig {
    open spec fn obeys_from_spec() -> bool {
        true
    }

    open spec fn from_spec(v: SyncPreset) -> SyncPresetConfig {
        preset_config(v)
    }
}

/// The preset to run: the mode's preset if a screen mode is given, else the explicit preset.
pub fn resolve_preset_for_mode(sync_mode: Option<SyncMode>, preset: Option<SyncPreset>) -> (r:
    Option<SyncPreset>)
    ensures
        r == match sync_mode {
            Some(m) if preset_of_mode(m) is Some => preset_of_mode(m),
            _ => preset,
        },
{
    match sync_mode {
        Some(m) => match SyncPreset::from_sync_mode(m) {
            Some(p) => Some(p),
            None => preset,
        },
        None => preset,
    }
}

/// The PipeWire frame rate: the explicit one, or the higher of the capture and stream rates;
/// it must be positive.
pub fn effective_pipewire_fps(pipewire_fps: Option<i32>, capture_fps: u8, stream_fps: u8) -> (r:
    Result<i32, String>)
    ensures
        ({
            let fps: int = match pipewire_fps {
                Some(f) => f as int,
                None => if capture_fps >= stream_fps {
                    capture_fps as int
                } else {
                    stream_fps as int
                },
            };
            &&& fps > 0 ==> r == Ok::<i32, String>(fps as i32)
            &&& fps <= 0 ==> (r matches Err(e) && e@ == "pipewire-fps must be greater than zero"@)
        }),
{
    let fps: i32 = match pipewire_fps {
        Some(f) => f,
        None => if capture_fps >= stream_fps {
            capture_fps as i32
        } else {
            stream_fps as i32
        },
    };
    if fps <= 0 {
        return Err("pipewire-fps must be greater than zero".to_string());
    }
    Ok(fps)
}

/// The delay between frames at `fps` frames per second, in whole microseconds.
pub fn frame_delay_for_fps(fps: u8) -> (r: u64)
    requires
        fps > 0,
    ensures
        r == 1_000_000int / (fps as int),
{
    1_000_000 / (fps as u64)
}

/// Whole frames in `duration_ms` milliseconds at `fps`; the product saturates at `u64::MAX`.
pub fn expected_frames(duration_ms: u64, fps: u8) -> (r: u64)
    ensures
        r == (if duration_ms * fps <= u64::MAX {
            duration_ms * fps
        } else {
            u64::MAX as int
        }) / 1000,
{
    let product: u64 = match duration_ms.checked_mul(fps as u64) {
        Some(p) => p,
        None => u64::MAX,
    };
    product / 1000
}

/// Whether a deadline is set and `now` (on the deadline's clock) has reached it.
pub fn deadline_reached(deadline: Option<u128>, now: u128) -> (r: bool)
    ensures
        r == (deadline matches Some(d) && now >= d),
{
    match deadline {
        Some(d) => now >= d,
        None => false,
    }
}

/// The capture poll timeout: the configured one, but at least half the stream delay
/// (both in nanoseconds).
pub fn effective_capture_poll_timeout(configured: u128, stream_delay: u128) -> (r: u128)
    ensures
        r == if configured >= stream_delay / 2 {
            configured
        } else {
            stream_delay / 2
        },
{
    let half = stream_delay / 2;
    if configured >= half {
        configured
    } else {
        half
    }
}

/// The message that refuses the music mode in screen commands.
pub open spec fn music_mode_message() -> Seq<char> {
    "LUMAWAY_SYNC_MODE=music requires the future audio-sync command"@
}

/// Screen commands refuse the music mode.
pub fn ensure_screen_mode(sync_mode: Option<SyncMode>) -> (r: Result<(), String>)
    ensures
        sync_mode == Some(SyncMode::Music) ==> (r matches Err(e) && e@ == music_mode_message()),
        sync_mode != Some(SyncMode::Music) ==> r is Ok,
{
    match sync_mode {
        Some(SyncMode::Music) => Err(
            "LUMAWAY_SYNC_MODE=music requires the future audio-sync command".to_string(),
        ),
        _ => Ok(()),
    }
}

/// The color profile to use: a mode decides it (video and music: vivid, game: game,
/// desktop: desktop); without a mode the explicit profile, else vivid.
pub fn resolve_color_profile(sync_mode: Option<SyncMode>, color_profile: Option<ColorProfile>) -> (r:
    ColorProfile)
    ensures
        r == match sync_mode {
            Some(SyncMode::Video) | Some(SyncMode::Music) => ColorProfile::Vivid,
            Some(SyncMode::Game) => ColorProfile::Game,
            Some(SyncMode::Desktop) => ColorProfile::Desktop,
            None => match color_profile {
                Some(p) => p,
                None => ColorProfile::Vivid,
            },
        },
{
    match sync_mode {
        Some(SyncMode::Video) | Some(SyncMode::Music) => ColorProfile::Vivid,
        Some(SyncMode::Game) => ColorProfile::Game,
        Some(SyncMode::Desktop) => ColorProfile::Desktop,
        None => match color_profile {
            Some(p) => p,
            None => ColorProfile::Vivid,
        },
    }
}

/// The name of a capture backend on the command line and in logs.
pub open spec fn backend_label(b: CaptureBackend) -> Seq<char> {
    match b {
        CaptureBackend::Auto => "auto"@,
        CaptureBackend::Cpu => "cpu"@,
        CaptureBackend::Gl => "gl"@,
    }
}

impl CaptureBackend {
    /// The backend's name.
    pub fn label(self) -> (r: &'static str)
        ensures
            r@ == backend_label(self),
    {
        match self {
            CaptureBackend::Auto => "auto",
            CaptureBackend::Cpu => "cpu",
            CaptureBackend::Gl => "gl",
        }
    }
}

/// The preset of a screen mode belongs to that mode, and a given screen mode decides the
/// preset whatever preset is also given.
pub proof fn law_mode_presets_round_trip(mode: SyncMode, preset: Option<SyncPreset>)
    ensures
        preset_of_mode(mode) matches Some(p) ==> mode_of_preset(p) == mode,
        mode != SyncMode::Music ==> preset_of_mode(mode) is Some,
{
}

} // verus!
