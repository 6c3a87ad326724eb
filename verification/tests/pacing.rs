use lumaway::outcome::{cleanup_failure_note, run_then_cleanup};
use lumaway::presets::{CaptureBackend, SamplingMode, SyncPreset};
use lumaway::sync_loop::{
    deadline_for, next_slot, CaptureOutcome, LoopStep, SyncSchedule, FIRST_CAPTURE_TIMEOUT_NANOS,
};
use lumaway::sync_settings::{
    check_test_color, resolve_quality_settings, resolve_sync_settings, validate_auto_crop_frames,
    QualitySettings, SyncRequest, SyncSettings,
};
use lumaway::sync_stats::{QualitySignals, StageStats};

const MS: u128 = 1_000_000;

fn request(fps: u8) -> SyncRequest {
    SyncRequest {
        fps,
        capture_fps: None,
        stream_fps: None,
        pipewire_fps: None,
        capture_backend: None,
        capture_poll_ms: 20,
        sampling: None,
        auto_crop: false,
        max_step: None,
    }
}

#[test]
fn stage_stats_tracks_average_and_max_milliseconds() {
    let mut stats = StageStats::default();
    stats.record(2 * MS);
    stats.record(6 * MS);

    let average_ms = stats.total_nanos() as f64 / 1_000_000.0 / stats.samples() as f64;
    let max_ms = stats.max_nanos() as f64 / 1_000_000.0;
    assert_eq!(average_ms, 4.0);
    assert_eq!(max_ms, 6.0);
}

#[test]
fn next_slot_skips_the_slots_already_past() {
    assert_eq!(next_slot(0, 40, 0), 40);
    assert_eq!(next_slot(0, 40, 39), 40);
    assert_eq!(next_slot(0, 40, 40), 80);
    assert_eq!(next_slot(40, 40, 130), 160);
    assert_eq!(next_slot(200, 40, 10), 240);
}

#[test]
fn schedule_alternates_captures_and_frames() {
    // Capture at 8 fps, stream at 25 fps: capture slots every 40 ms (the faster rate).
    let mut schedule = SyncSchedule::start(8, 25, 3 * MS, MS);
    assert_eq!(schedule.next_step(), LoopStep::Stream { at: 0 });
    assert_eq!(schedule.capture_timeout(5 * MS), FIRST_CAPTURE_TIMEOUT_NANOS);
    assert_eq!(schedule.sequence(), 0);

    assert!(schedule.room_for_frame(MS, MS, 1 * MS));
    schedule.record_frame_sent(MS, MS, 1 * MS);
    assert_eq!(schedule.sequence(), 1);
    assert_eq!(schedule.stats().frames, 1);
    assert_eq!(schedule.stats().repeated_frames, 0);
    assert_eq!(schedule.next_step(), LoopStep::Capture { at: 40 * MS });
    // Half the 40 ms stream delay is the floor of the poll timeout once frames flow.
    assert_eq!(schedule.capture_timeout(5 * MS), 20 * MS);
    assert_eq!(schedule.capture_timeout(30 * MS), 30 * MS);

    let timed_out = CaptureOutcome::TimedOut { capture_nanos: 20 * MS };
    assert!(schedule.room_for_capture(timed_out, 61 * MS));
    schedule.record_capture(timed_out, 61 * MS);
    assert_eq!(schedule.stats().empty_capture_polls, 1);
    assert_eq!(schedule.next_step(), LoopStep::Stream { at: 40 * MS });

    schedule.record_frame_sent(MS, MS, 62 * MS);
    assert_eq!(schedule.stats().repeated_frames, 1);
    assert_eq!(schedule.next_step(), LoopStep::Capture { at: 80 * MS });

    schedule.record_capture(
        CaptureOutcome::Fresh { capture_nanos: 2 * MS, color_nanos: MS },
        82 * MS,
    );
    assert_eq!(schedule.stats().capture_frames, 2);
    schedule.record_frame_sent(MS, MS, 83 * MS);
    assert_eq!(schedule.stats().repeated_frames, 1);
    assert_eq!(schedule.stats().frames, 3);

    schedule.mark_interrupted();
    let stats = schedule.finish(1000, 8);
    assert!(stats.interrupted);
    assert_eq!(stats.missed_capture_frames, 6);
    assert_eq!(stats.capture.samples(), 3);
    assert_eq!(stats.color.samples(), 2);
    assert_eq!(stats.encode.samples(), 3);
}

#[test]
fn sequence_wraps_after_255_frames() {
    let mut schedule = SyncSchedule::start(25, 25, 0, 0);
    let mut now: u128 = 0;
    for _ in 0..256 {
        schedule.record_frame_sent(0, 0, now);
        now += 40 * MS;
    }
    assert_eq!(schedule.sequence(), 0);
    assert_eq!(schedule.stats().frames, 256);
    assert_eq!(schedule.stats().repeated_frames, 255);
}

#[test]
fn deadline_is_none_for_unlimited_runs() {
    assert_eq!(deadline_for(0), None);
    assert_eq!(deadline_for(1500), Some(1_500_000_000));
}

#[test]
fn sync_settings_prefer_options_then_preset() {
    let settings = resolve_sync_settings(Some(SyncPreset::GameWayland), request(30)).unwrap();
    assert_eq!(
        settings,
        SyncSettings {
            capture_fps: 12,
            stream_fps: 25,
            pipewire_fps: 25,
            capture_backend: CaptureBackend::Cpu,
            capture_poll_ms: 5,
            sampling: SamplingMode::Region,
            auto_crop: false,
            max_step: None,
        }
    );

    let mut explicit = request(30);
    explicit.capture_fps = Some(10);
    explicit.capture_backend = Some(CaptureBackend::Gl);
    explicit.max_step = Some(12);
    let settings = resolve_sync_settings(Some(SyncPreset::VideoWayland), explicit).unwrap();
    assert_eq!(settings.capture_fps, 10);
    assert_eq!(settings.capture_backend, CaptureBackend::Gl);
    assert_eq!(settings.max_step, Some(12));
    assert_eq!(settings.capture_poll_ms, 5);

    let settings = resolve_sync_settings(None, request(30)).unwrap();
    assert_eq!(settings.capture_fps, 30);
    assert_eq!(settings.stream_fps, 30);
    assert_eq!(settings.pipewire_fps, 30);
    assert_eq!(settings.sampling, SamplingMode::Point);
    assert_eq!(settings.capture_poll_ms, 20);
}

#[test]
fn sync_settings_report_the_first_problem() {
    assert_eq!(
        resolve_sync_settings(None, request(0)).unwrap_err(),
        "fps must be greater than zero"
    );
    let mut zero_stream = request(30);
    zero_stream.stream_fps = Some(0);
    assert_eq!(
        resolve_sync_settings(None, zero_stream).unwrap_err(),
        "stream-fps must be greater than zero"
    );
    let mut bad_pipewire = request(30);
    bad_pipewire.pipewire_fps = Some(-1);
    assert_eq!(
        resolve_sync_settings(None, bad_pipewire).unwrap_err(),
        "pipewire-fps must be greater than zero"
    );
    let mut slow_poll = request(30);
    slow_poll.capture_poll_ms = 101;
    assert_eq!(
        resolve_sync_settings(None, slow_poll).unwrap_err(),
        "capture-poll-ms must be lower than or equal to 100"
    );
    assert_eq!(
        validate_auto_crop_frames(true, 0).unwrap_err(),
        "auto-crop-frames must be greater than zero when auto-crop is enabled"
    );
    assert!(validate_auto_crop_frames(false, 0).is_ok());
}

#[test]
fn quality_settings_default_to_region_sampling() {
    assert_eq!(
        resolve_quality_settings(None, 30, 10, true, None, None, None, None).unwrap(),
        QualitySettings {
            capture_fps: 10,
            pipewire_fps: 10,
            capture_backend: CaptureBackend::Cpu,
            sampling: SamplingMode::Region,
        }
    );
    assert_eq!(
        resolve_quality_settings(None, 0, 10, true, None, None, None, None).unwrap_err(),
        "frames must be greater than zero"
    );
    assert_eq!(
        resolve_quality_settings(None, 30, 10, false, None, None, None, None).unwrap_err(),
        "sample-edge-margin must be greater than or equal to 0.0 and lower than 0.5"
    );
    let game = resolve_quality_settings(Some(SyncPreset::GameWayland), 30, 10, true, None, None, None, None)
        .unwrap();
    assert_eq!(game.capture_fps, 12);
    assert_eq!(game.pipewire_fps, 25);
}

#[test]
fn test_color_needs_a_known_color_and_rate() {
    let red = check_test_color("red", 25).unwrap();
    assert_eq!((red.red, red.green, red.blue), (255, 0, 0));
    assert_eq!(check_test_color("chartreuse-ish", 25).unwrap_err(), "unsupported color: chartreuse-ish");
    assert_eq!(check_test_color("red", 0).unwrap_err(), "fps must be greater than zero");
}

#[test]
fn cleanup_failures_are_noted_in_order() {
    assert_eq!(cleanup_failure_note(None, None), None);
    assert_eq!(
        cleanup_failure_note(Some("pipeline busy"), None).unwrap(),
        "also failed to stop capture: pipeline busy"
    );
    assert_eq!(
        cleanup_failure_note(None, Some("timeout")).unwrap(),
        "also failed to deactivate: timeout"
    );
    assert_eq!(
        cleanup_failure_note(Some("pipeline busy"), Some("timeout")).unwrap(),
        "also failed to stop capture: pipeline busy; also failed to deactivate: timeout"
    );
}

#[test]
fn run_errors_come_before_cleanup_errors() {
    let ok: Result<u32, &str> = run_then_cleanup(Ok(3), Ok(()), Ok(()));
    assert_eq!(ok, Ok(3));
    assert_eq!(run_then_cleanup::<u32, &str>(Err("run"), Err("stop"), Err("off")), Err("run"));
    assert_eq!(run_then_cleanup::<u32, &str>(Ok(3), Err("stop"), Err("off")), Err("stop"));
    assert_eq!(run_then_cleanup::<u32, &str>(Ok(3), Ok(()), Err("off")), Err("off"));
}

#[test]
fn quality_recommendation_follows_the_first_problem() {
    let base = QualitySignals {
        channels: 2,
        frames: 2,
        dark_frames: 0,
        low_luma: false,
        low_saturation: false,
        low_temporal_variation: false,
        low_spatial_separation: false,
    };
    assert_eq!(base.recommendation(), "usable");
    assert_eq!(base.warnings(), "none");

    let single = QualitySignals { channels: 1, ..base };
    assert_eq!(single.recommendation(), "single_channel_area");

    let dark = QualitySignals { dark_frames: 2, low_luma: true, ..base };
    assert_eq!(dark.recommendation(), "capture_too_dark");
    assert_eq!(dark.warnings(), "low_luma");

    let flat = QualitySignals {
        low_luma: true,
        low_saturation: true,
        low_temporal_variation: true,
        ..base
    };
    assert_eq!(flat.recommendation(), "low_temporal_variation");
    assert_eq!(flat.warnings(), "low_luma,low_saturation,low_temporal_variation");

    let mixed = QualitySignals { low_spatial_separation: true, low_saturation: true, ..base };
    assert_eq!(mixed.recommendation(), "low_spatial_separation");
    assert_eq!(mixed.warnings(), "low_saturation,low_spatial_separation");
}
