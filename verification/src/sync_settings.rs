//! The settings of a `sync` run: explicit options first, then the preset, then the
//! defaults, checked in the order the command checks them.
use vstd::prelude::*;
use crate::presets::{
    effective_pipewire_fps, preset_config, CaptureBackend, SamplingMode, SyncPreset,
    SyncPresetConfig,
};
use crate::color::{parsed_color, HueColor};
use crate::text::push_str_chars;
use crate::validation::{poll_value_error, validate_capture_poll_ms, validate_fps, zero_fps_message};

verus! {

broadcast use vstd::string::group_string_axioms;

/// The cadence and capture options given on the command line; `None` where an option was
/// not given.
#[derive(Debug, Clone, Copy, PartialEq, Eq, Structural)]
pub struct SyncRequest {
    pub fps: u8,
    pub capture_fps: Option<u8>,
    pub stream_fps: Option<u8>,
    pub pipewire_fps: Option<i32>,
    pub capture_backend: Option<CaptureBackend>,
    pub capture_poll_ms: u64,
    pub sampling: Option<SamplingMode>,
    pub auto_crop: bool,
    pub max_step: Option<u8>,
}

/// The settings a `sync` run uses.
#[derive(Debug, Clone, Copy, PartialEq, Eq, Structural)]
pub struct SyncSettings {
    pub capture_fps: u8,
    pub stream_fps: u8,
    pub pipewire_fps: i32,
    pub capture_backend: CaptureBackend,
    pub capture_poll_ms: u64,
    pub sampling: SamplingMode,
    pub auto_crop: bool,
    pub max_step: Option<u8>,
}

/// The first value that is there, else `fallback`.
pub open spec fn first_of<T>(given: Option<T>, preset: Option<T>, fallback: T) -> T {
    match given {
        Some(v) => v,
        None => match preset {
            Some(v) => v,
            None => fallback,
        },
    }
}

/// A preset's value, when there is a preset.
pub open spec fn preset_value<T>(preset: Option<SyncPreset>, field: spec_fn(SyncPresetConfig) -> T) -> Option<T> {
    match preset {
        Some(p) => Some(field(preset_config(p))),
        None => None,
    }
}

/// The message for a PipeWire rate that is not positive.
pub open spec fn pipewire_fps_message() -> Seq<char> {
    "pipewire-fps must be greater than zero"@
}

/// The settings of a run, or the first complaint: an explicit option wins over the preset,
/// the preset over the default (the base frame rate for both cadences, the CPU backend,
/// point sampling); the preset's capture poll interval replaces the option's; auto-crop is
/// on if either asks for it. Then the base, capture and stream rates must be positive, the
/// PipeWire rate (explicit, else the higher cadence) too, and the poll interval must lie in
/// `1..=100` ms.
pub open spec fn resolved_settings(preset: Option<SyncPreset>, req: SyncRequest) -> Result<SyncSettings, Seq<char>> {
    let capture_fps = first_of(req.capture_fps, preset_value(preset, |c: SyncPresetConfig| c.capture_fps), req.fps);
    let stream_fps = first_of(req.stream_fps, preset_value(preset, |c: SyncPresetConfig| c.stream_fps), req.fps);
    let pipewire_fps: int = match req.pipewire_fps {
        Some(f) => f as int,
        None => match preset {
            Some(p) => preset_config(p).pipewire_fps as int,
            None => if capture_fps >= stream_fps {
                capture_fps as int
            } else {
                stream_fps as int
            },
        },
    };
    let poll = match preset {
        Some(p) => preset_config(p).capture_poll_ms,
        None => req.capture_poll_ms,
    };
    if req.fps == 0 {
        Err(zero_fps_message("fps"@))
    } else if capture_fps == 0 {
        Err(zero_fps_message("capture-fps"@))
    } else if stream_fps == 0 {
        Err(zero_fps_message("stream-fps"@))
    } else if pipewire_fps <= 0 {
        Err(pipewire_fps_message())
    } else {
        match poll_value_error(poll) {
            Some(m) => Err(m),
            None => Ok(
                SyncSettings {
                    capture_fps,
                    stream_fps,
                    pipewire_fps: pipewire_fps as i32,
                    capture_backend: first_of(
                        req.capture_backend,
                        preset_value(preset, |c: SyncPresetConfig| c.capture_backend),
                        CaptureBackend::Cpu,
                    ),
                    capture_poll_ms: poll,
                    sampling: first_of(
                        req.sampling,
                        preset_value(preset, |c: SyncPresetConfig| c.sampling),
                        SamplingMode::Point,
                    ),
                    auto_crop: req.auto_crop || (preset matches Some(p) && preset_config(p).auto_crop),
                    max_step: match req.max_step {
                        Some(m) => Some(m),
                        None => match preset {
                            Some(p) => preset_config(p).max_step,
                            None => None,
                        },
                    },
                },
            ),
        }
    }
}

/// Every option given on the command line is used as given.
pub open spec fn explicit_options_kept(req: SyncRequest, s: SyncSettings) -> bool {
    &&& (req.capture_fps matches Some(f) ==> s.capture_fps == f)
    &&& (req.stream_fps matches Some(f) ==> s.stream_fps == f)
    &&& (req.pipewire_fps matches Some(f) ==> s.pipewire_fps == f)
    &&& (req.capture_backend matches Some(b) ==> s.capture_backend == b)
    &&& (req.sampling matches Some(m) ==> s.sampling == m)
    &&& (req.max_step matches Some(m) ==> s.max_step == Some(m))
    &&& (req.auto_crop ==> s.auto_crop)
}

/// An option given on the command line wins over the preset and the defaults: a run's
/// settings keep every explicit rate, backend, sampling mode and step limit as given, and
/// auto-crop stays on when asked for.
pub proof fn law_explicit_options_win(preset: Option<SyncPreset>, req: SyncRequest)
    ensures
        resolved_settings(preset, req) matches Ok(s) ==> explicit_options_kept(req, s),
{
}

/// With a preset, what no option gives comes from the preset, and the preset's poll
/// interval is used; without one, both cadences default to the base rate, the PipeWire rate
/// to the higher cadence, the backend to the CPU, sampling to points, and the poll interval,
/// auto-crop and step limit are the options' own.
pub proof fn law_preset_then_defaults(preset: Option<SyncPreset>, req: SyncRequest)
    ensures
        resolved_settings(preset, req) matches Ok(s) ==> match preset {
            Some(p) => {
                &&& req.capture_fps is None ==> s.capture_fps == preset_config(p).capture_fps
                &&& req.stream_fps is None ==> s.stream_fps == preset_config(p).stream_fps
                &&& req.pipewire_fps is None ==> s.pipewire_fps == preset_config(p).pipewire_fps
                &&& req.capture_backend is None ==> s.capture_backend == preset_config(p).capture_backend
                &&& req.sampling is None ==> s.sampling == preset_config(p).sampling
                &&& req.max_step is None ==> s.max_step == preset_config(p).max_step
                &&& s.capture_poll_ms == preset_config(p).capture_poll_ms
                &&& s.auto_crop == (req.auto_crop || preset_config(p).auto_crop)
            },
            None => {
                &&& req.capture_fps is None ==> s.capture_fps == req.fps
                &&& req.stream_fps is None ==> s.stream_fps == req.fps
                &&& req.pipewire_fps is None ==> s.pipewire_fps == (if s.capture_fps >= s.stream_fps {
                    s.capture_fps as i32
                } else {
                    s.stream_fps as i32
                })
                &&& req.capture_backend is None ==> s.capture_backend == CaptureBackend::Cpu
                &&& req.sampling is None ==> s.sampling == SamplingMode::Point
                &&& s.max_step == req.max_step
                &&& s.capture_poll_ms == req.capture_poll_ms
                &&& s.auto_crop == req.auto_crop
            },
        },
{
}

/// A run whose base rate and explicit rates are positive, and whose poll interval lies in
/// `1..=100` ms when no preset replaces it, is accepted.
pub proof fn law_valid_request_is_accepted(preset: Option<SyncPreset>, req: SyncRequest)
    ensures
        (req.fps > 0 && (req.capture_fps matches Some(f) ==> f > 0)
            && (req.stream_fps matches Some(f) ==> f > 0)
            && (req.pipewire_fps matches Some(f) ==> f > 0)
            && (preset is Some || 1 <= req.capture_poll_ms <= 100)) ==> resolved_settings(preset, req) is Ok,
{
}

/// Fills in a run's settings from the options and the preset and checks them.
pub fn resolve_sync_settings(preset: Option<SyncPreset>, req: SyncRequest) -> (r: Result<SyncSettings, String>)
    ensures
        match resolved_settings(preset, req) {
            Ok(s) => r == Ok::<SyncSettings, String>(s),
            Err(m) => r matches Err(e) && e@ == m,
        },
        r matches Ok(s) ==> explicit_options_kept(req, s),
{
    proof {
        law_explicit_options_win(preset, req);
    }
    let config: Option<SyncPresetConfig> = match preset {
        Some(p) => Some(SyncPresetConfig::from(p)),
        None => None,
    };
    let capture_fps = match req.capture_fps {
        Some(f) => f,
        None => match config {
            Some(c) => c.capture_fps,
            None => req.fps,
        },
    };
    let stream_fps = match req.stream_fps {
        Some(f) => f,
        None => match config {
            Some(c) => c.stream_fps,
            None => req.fps,
        },
    };
    let pipewire_fps = match req.pipewire_fps {
        Some(f) => Some(f),
        None => match config {
            Some(c) => Some(c.pipewire_fps),
            None => None,
        },
    };
    let capture_backend = match req.capture_backend {
        Some(b) => b,
        None => match config {
            Some(c) => c.capture_backend,
            None => CaptureBackend::Cpu,
        },
    };
    let capture_poll_ms = match config {
        Some(c) => c.capture_poll_ms,
        None => req.capture_poll_ms,
    };
    let sampling = match req.sampling {
        Some(s) => s,
        None => match config {
            Some(c) => c.sampling,
            None => SamplingMode::Point,
        },
    };
    let auto_crop = req.auto_crop || match config {
        Some(c) => c.auto_crop,
        None => false,
    };
    let max_step = match req.max_step {
        Some(m) => Some(m),
        None => match config {
            Some(c) => c.max_step,
            None => None,
        },
    };
    validate_fps("fps", req.fps)?;
    validate_fps("capture-fps", capture_fps)?;
    validate_fps("stream-fps", stream_fps)?;
    let pipewire_fps = effective_pipewire_fps(pipewire_fps, capture_fps, stream_fps)?;
    validate_capture_poll_ms(capture_poll_ms)?;
    Ok(
        SyncSettings {
            capture_fps,
            stream_fps,
            pipewire_fps,
            capture_backend,
            capture_poll_ms,
            sampling,
            auto_crop,
            max_step,
        },
    )
}

/// The message when auto-crop is on without frames to detect it from.
pub open spec fn auto_crop_frames_message() -> Seq<char> {
    "auto-crop-frames must be greater than zero when auto-crop is enabled"@
}

/// Auto-crop needs at least one frame to detect the crop from.
pub fn validate_auto_crop_frames(auto_crop: bool, auto_crop_frames: u32) -> (r: Result<(), String>)
    ensures
        auto_crop && auto_crop_frames == 0 ==> (r matches Err(e) && e@ == auto_crop_frames_message()),
        !(auto_crop && auto_crop_frames == 0) ==> r is Ok,
{
    if auto_crop && auto_crop_frames == 0 {
        return Err("auto-crop-frames must be greater than zero when auto-crop is enabled".to_string());
    }
    Ok(())
}

/// The settings of a `capture-quality` run.
#[derive(Debug, Clone, Copy, PartialEq, Eq, Structural)]
pub struct QualitySettings {
    pub capture_fps: u8,
    pub pipewire_fps: i32,
    pub capture_backend: CaptureBackend,
    pub sampling: SamplingMode,
}

/// The message when the sample edge margin is outside `0.0..0.5`.
pub open spec fn edge_margin_message() -> Seq<char> {
    "sample-edge-margin must be greater than or equal to 0.0 and lower than 0.5"@
}

/// The settings of a capture-quality run, or the first complaint, in the command's order:
/// at least one frame, a positive base rate, an edge margin in range (`margin_ok`), a
/// positive capture rate (explicit, else the preset's, else the base rate), a positive
/// PipeWire rate (explicit, else the preset's, else the capture rate); the backend and the
/// sampling come from the options, else the preset, else the CPU and region sampling.
pub open spec fn resolved_quality_settings(
    preset: Option<SyncPreset>,
    frames: u32,
    fps: u8,
    margin_ok: bool,
    capture_fps: Option<u8>,
    pipewire_fps: Option<i32>,
    capture_backend: Option<CaptureBackend>,
    sampling: Option<SamplingMode>,
) -> Result<QualitySettings, Seq<char>> {
    let capture = first_of(capture_fps, preset_value(preset, |c: SyncPresetConfig| c.capture_fps), fps);
    let pipewire: int = match pipewire_fps {
        Some(f) => f as int,
        None => match preset {
            Some(p) => preset_config(p).pipewire_fps as int,
            None => capture as int,
        },
    };
    if frames == 0 {
        Err("frames must be greater than zero"@)
    } else if fps == 0 {
        Err(zero_fps_message("fps"@))
    } else if !margin_ok {
        Err(edge_margin_message())
    } else if capture == 0 {
        Err(zero_fps_message("capture-fps"@))
    } else if pipewire <= 0 {
        Err(pipewire_fps_message())
    } else {
        Ok(
            QualitySettings {
                capture_fps: capture,
                pipewire_fps: pipewire as i32,
                capture_backend: first_of(
                    capture_backend,
                    preset_value(preset, |c: SyncPresetConfig| c.capture_backend),
                    CaptureBackend::Cpu,
                ),
                sampling: first_of(
                    sampling,
                    preset_value(preset, |c: SyncPresetConfig| c.sampling),
                    SamplingMode::Region,
                ),
            },
        )
    }
}

/// In a capture-quality run too, explicit options win: a given capture rate, PipeWire rate,
/// backend or sampling mode is used as given; what none gives comes from the preset, else
/// from the base rate, the capture rate, the CPU backend and region sampling.
pub proof fn law_quality_options_win(
    preset: Option<SyncPreset>,
    frames: u32,
    fps: u8,
    margin_ok: bool,
    capture_fps: Option<u8>,
    pipewire_fps: Option<i32>,
    capture_backend: Option<CaptureBackend>,
    sampling: Option<SamplingMode>,
)
    ensures
        resolved_quality_settings(preset, frames, fps, margin_ok, capture_fps, pipewire_fps, capture_backend, sampling)
            matches Ok(s) ==> {
            &&& (capture_fps matches Some(f) ==> s.capture_fps == f)
            &&& (pipewire_fps matches Some(f) ==> s.pipewire_fps == f)
            &&& (capture_backend matches Some(b) ==> s.capture_backend == b)
            &&& (sampling matches Some(m) ==> s.sampling == m)
            &&& match preset {
                Some(p) => {
                    &&& capture_fps is None ==> s.capture_fps == preset_config(p).capture_fps
                    &&& pipewire_fps is None ==> s.pipewire_fps == preset_config(p).pipewire_fps
                    &&& capture_backend is None ==> s.capture_backend == preset_config(p).capture_backend
                    &&& sampling is None ==> s.sampling == preset_config(p).sampling
                },
                None => {
                    &&& capture_fps is None ==> s.capture_fps == fps
                    &&& pipewire_fps is None ==> s.pipewire_fps == s.capture_fps as i32
                    &&& capture_backend is None ==> s.capture_backend == CaptureBackend::Cpu
                    &&& sampling is None ==> s.sampling == SamplingMode::Region
                },
            }
        },
{
}

/// Fills in and checks the settings of a capture-quality run; `margin_ok` tells whether
/// the sample edge margin lies in `0.0..0.5`.
pub fn resolve_quality_settings(
    preset: Option<SyncPreset>,
    frames: u32,
    fps: u8,
    margin_ok: bool,
    capture_fps: Option<u8>,
    pipewire_fps: Option<i32>,
    capture_backend: Option<CaptureBackend>,
    sampling: Option<SamplingMode>,
) -> (r: Result<QualitySettings, String>)
    ensures
        match resolved_quality_settings(
            preset,
            frames,
            fps,
            margin_ok,
            capture_fps,
            pipewire_fps,
            capture_backend,
            sampling,
        ) {
            Ok(s) => r == Ok::<QualitySettings, String>(s),
            Err(m) => r matches Err(e) && e@ == m,
        },
{
    if frames == 0 {
        return Err("frames must be greater than zero".to_string());
    }
    validate_fps("fps", fps)?;
    if !margin_ok {
        return Err("sample-edge-margin must be greater than or equal to 0.0 and lower than 0.5".to_string());
    }
    let config: Option<SyncPresetConfig> = match preset {
        Some(p) => Some(SyncPresetConfig::from(p)),
        None => None,
    };
    let capture = match capture_fps {
        Some(f) => f,
        None => match config {
            Some(c) => c.capture_fps,
            None => fps,
        },
    };
    validate_fps("capture-fps", capture)?;
    let pipewire = match pipewire_fps {
        Some(f) => Some(f),
        None => match config {
            Some(c) => Some(c.pipewire_fps),
            None => None,
        },
    };
    let pipewire = effective_pipewire_fps(pipewire, capture, capture)?;
    let backend = match capture_backend {
        Some(b) => b,
        None => match config {
            Some(c) => c.capture_backend,
            None => CaptureBackend::Cpu,
        },
    };
    let sampling = match sampling {
        Some(s) => s,
        None => match config {
            Some(c) => c.sampling,
            None => SamplingMode::Region,
        },
    };
    Ok(QualitySettings { capture_fps: capture, pipewire_fps: pipewire, capture_backend: backend, sampling })
}

/// The color and cadence of a `test-color` run: the color must parse (named or hex), then
/// the frame rate must be positive.
pub open spec fn test_color_check(color: Seq<char>, fps: u8) -> Result<HueColor, Seq<char>> {
    match parsed_color(color) {
        None => Err("unsupported color: "@ + color),
        Some(c) => if fps == 0 {
            Err("fps must be greater than zero"@)
        } else {
            Ok(c)
        },
    }
}

/// Checks the color and frame rate of a `test-color` run.
pub fn check_test_color(color: &str, fps: u8) -> (r: Result<HueColor, String>)
    ensures
        match test_color_check(color@, fps) {
            Ok(c) => r == Ok::<HueColor, String>(c),
            Err(m) => r matches Err(e) && e@ == m,
        },
{
    match HueColor::parse(color) {
        None => {
            let mut m = String::new();
            push_str_chars(&mut m, "unsupported color: ");
            push_str_chars(&mut m, color);
            Err(m)
        },
        Some(c) => if fps == 0 {
            Err("fps must be greater than zero".to_string())
        } else {
            Ok(c)
        },
    }
}

/// The message for an entertainment area without channels.
pub open spec fn no_channels_message(name: Seq<char>, id: Seq<char>) -> Seq<char> {
    "entertainment area \""@ + name + "\" ("@ + id
        + ") has no channels — add lights to this entertainment zone in the Hue app, or pick another zone"@
}

/// A sync needs an entertainment area with at least one channel.
pub fn check_area_channels(name: &str, id: &str, channel_count: usize) -> (r: Result<(), String>)
    ensures
        channel_count > 0 ==> r is Ok,
        channel_count == 0 ==> (r matches Err(m) && m@ == no_channels_message(name@, id@)),
{
    if channel_count > 0 {
        return Ok(());
    }
    let mut m = String::new();
    push_str_chars(&mut m, "entertainment area \"");
    push_str_chars(&mut m, name);
    push_str_chars(&mut m, "\" (");
    push_str_chars(&mut m, id);
    push_str_chars(&mut m, ") has no channels — add lights to this entertainment zone in the Hue app, or pick another zone");
    Err(m)
}

} // verus!
