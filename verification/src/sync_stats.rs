//! Timing statistics of the sync loop stages and the hints that follow a capture-quality
//! recommendation.
use vstd::prelude::*;
use crate::presets::CaptureBackend;
use crate::text::{eq_str, push_str_chars};

verus! {

broadcast use vstd::string::group_string_axioms;

/// The largest duration in nanoseconds (`Duration::MAX`).
pub const MAX_DURATION_NANOS: u128 = 18446744073709551615999999999;

/// Count, total and maximum of the durations (in nanoseconds) of one stage.
#[derive(Debug, Clone, Copy)]
pub struct StageStats {
    samples: u64,
    total: u128,
    max: u128,
}

impl StageStats {
    /// Number of recorded durations.
    pub closed spec fn spec_samples(&self) -> nat {
        self.samples as nat
    }

    /// Sum of the recorded durations.
    pub closed spec fn spec_total(&self) -> nat {
        self.total as nat
    }

    /// Longest recorded duration, 0 before the first.
    pub closed spec fn spec_max(&self) -> nat {
        self.max as nat
    }

    /// No duration recorded yet.
    pub fn new() -> (r: StageStats)
        ensures
            r.spec_samples() == 0,
            r.spec_total() == 0,
            r.spec_max() == 0,
    {
        StageStats { samples: 0, total: 0, max: 0 }
    }

    /// Adds one duration of `nanos` nanoseconds; the total stays within `Duration::MAX`.
    pub fn record(&mut self, nanos: u128)
        requires
            old(self).spec_samples() < u64::MAX,
            old(self).spec_total() + nanos <= MAX_DURATION_NANOS,
        ensures
            final(self).spec_samples() == old(self).spec_samples() + 1,
            final(self).spec_total() == old(self).spec_total() + nanos,
            final(self).spec_max() == if nanos > old(self).spec_max() {
                nanos as nat
            } else {
                old(self).spec_max()
            },
            old(self).spec_max() <= old(self).spec_total() ==> final(self).spec_max()
                <= final(self).spec_total(),
    {
        self.samples = self.samples + 1;
        self.total = self.total + nanos;
        if nanos > self.max {
            self.max = nanos;
        }
    }

    /// Number of recorded durations.
    pub fn samples(&self) -> (r: u64)
        ensures
            r == self.spec_samples(),
    {
        self.samples
    }

    /// Sum of the recorded durations in nanoseconds.
    pub fn total_nanos(&self) -> (r: u128)
        ensures
            r == self.spec_total(),
    {
        self.total
    }

    /// Longest recorded duration in nanoseconds.
    pub fn max_nanos(&self) -> (r: u128)
        ensures
            r == self.spec_max(),
    {
        self.max
    }
}

impl Default for StageStats {
    fn default() -> (r: StageStats)
        ensures
            r.spec_samples() == 0,
            r.spec_total() == 0,
            r.spec_max() == 0,
    {
        StageStats::new()
    }
}

/// What one sync run measured: the frames sent, the captures made, and the time spent in
/// each stage (capture, color grading, encoding, sending).
#[derive(Debug, Clone, Copy)]
pub struct SyncStats {
    /// The capture backend that ran, once known.
    pub capture_backend: Option<CaptureBackend>,
    /// The run was stopped by a signal.
    pub interrupted: bool,
    /// Frames sent to the bridge.
    pub frames: u64,
    /// Captures that delivered colors.
    pub capture_frames: u64,
    /// Frames sent without a capture since the previous frame.
    pub repeated_frames: u64,
    /// Captures the capture rate called for that did not happen.
    pub missed_capture_frames: u64,
    /// Capture polls that timed out without a frame.
    pub empty_capture_polls: u64,
    pub capture: StageStats,
    pub color: StageStats,
    pub encode: StageStats,
    pub send: StageStats,
}

impl SyncStats {
    /// Nothing measured yet.
    pub fn new() -> (r: SyncStats)
        ensures
            r.capture_backend is None,
            !r.interrupted,
            r.frames == 0,
            r.capture_frames == 0,
            r.repeated_frames == 0,
            r.missed_capture_frames == 0,
            r.empty_capture_polls == 0,
            r.capture.spec_samples() == 0 && r.capture.spec_total() == 0 && r.capture.spec_max() == 0,
            r.color.spec_samples() == 0 && r.color.spec_total() == 0 && r.color.spec_max() == 0,
            r.encode.spec_samples() == 0 && r.encode.spec_total() == 0 && r.encode.spec_max() == 0,
            r.send.spec_samples() == 0 && r.send.spec_total() == 0 && r.send.spec_max() == 0,
    {
        SyncStats {
            capture_backend: None,
            interrupted: false,
            frames: 0,
            capture_frames: 0,
            repeated_frames: 0,
            missed_capture_frames: 0,
            empty_capture_polls: 0,
            capture: StageStats::new(),
            color: StageStats::new(),
            encode: StageStats::new(),
            send: StageStats::new(),
        }
    }
}

/// What a capture-quality run found: the area's channel count, the frames measured and
/// how many were dark, and which averages fell under their thresholds (luma under 50,
/// saturation under 0.08, frame-to-frame change under 2, channel separation under 4).
#[derive(Debug, Clone, Copy, PartialEq, Eq, Structural)]
pub struct QualitySignals {
    pub channels: usize,
    pub frames: u32,
    pub dark_frames: u32,
    pub low_luma: bool,
    pub low_saturation: bool,
    pub low_temporal_variation: bool,
    pub low_spatial_separation: bool,
}

/// The recommendation for what was measured: the first problem in the order single
/// channel, all frames dark, little change over time, little difference between channels,
/// washed-out colors; `usable` when none.
pub open spec fn quality_recommendation(q: QualitySignals) -> Seq<char> {
    if q.channels < 2 {
        "single_channel_area"@
    } else if q.frames > 0 && q.dark_frames == q.frames {
        "capture_too_dark"@
    } else if q.low_temporal_variation {
        "low_temporal_variation"@
    } else if q.low_spatial_separation && q.channels > 1 {
        "low_spatial_separation"@
    } else if q.low_saturation {
        "low_saturation"@
    } else {
        "usable"@
    }
}

/// The warnings for what was measured, comma-separated in the order luma, saturation,
/// channel separation (only with several channels), temporal variation; `none` when there
/// is none.
pub open spec fn quality_warnings(q: QualitySignals) -> Seq<char> {
    let parts = (if q.low_luma { seq!["low_luma"@] } else { Seq::<Seq<char>>::empty() })
        + (if q.low_saturation { seq!["low_saturation"@] } else { Seq::<Seq<char>>::empty() })
        + (if q.channels > 1 && q.low_spatial_separation {
        seq!["low_spatial_separation"@]
    } else {
        Seq::<Seq<char>>::empty()
    }) + (if q.low_temporal_variation { seq!["low_temporal_variation"@] } else { Seq::<Seq<char>>::empty() });
    if parts.len() == 0 {
        "none"@
    } else {
        comma_joined(parts)
    }
}

/// `parts` separated by commas.
pub open spec fn comma_joined(parts: Seq<Seq<char>>) -> Seq<char>
    decreases parts.len(),
{
    if parts.len() == 0 {
        Seq::empty()
    } else if parts.len() == 1 {
        parts[0]
    } else {
        comma_joined(parts.drop_last()) + ","@ + parts.last()
    }
}

impl QualitySignals {
    /// The recommendation for what was measured.
    pub fn recommendation(&self) -> (r: &'static str)
        ensures
            r@ == quality_recommendation(*self),
    {
        if self.channels < 2 {
            "single_channel_area"
        } else if self.frames > 0 && self.dark_frames == self.frames {
            "capture_too_dark"
        } else if self.low_temporal_variation {
            "low_temporal_variation"
        } else if self.low_spatial_separation && self.channels > 1 {
            "low_spatial_separation"
        } else if self.low_saturation {
            "low_saturation"
        } else {
            "usable"
        }
    }

    /// The warnings for what was measured.
    pub fn warnings(&self) -> (r: String)
        ensures
            r@ == quality_warnings(*self),
    {
        let ghost mut parts: Seq<Seq<char>> = Seq::empty();
        let mut out = String::new();
        let mut count: usize = 0;
        if self.low_luma {
            push_warning(&mut out, "low_luma", count, Ghost(parts));
            count = count + 1;
            proof {
                parts = parts.push("low_luma"@);
            }
        }
        if self.low_saturation {
            push_warning(&mut out, "low_saturation", count, Ghost(parts));
            count = count + 1;
            proof {
                parts = parts.push("low_saturation"@);
            }
        }
        if self.channels > 1 && self.low_spatial_separation {
            push_warning(&mut out, "low_spatial_separation", count, Ghost(parts));
            count = count + 1;
            proof {
                parts = parts.push("low_spatial_separation"@);
            }
        }
        if self.low_temporal_variation {
            push_warning(&mut out, "low_temporal_variation", count, Ghost(parts));
            count = count + 1;
            proof {
                parts = parts.push("low_temporal_variation"@);
            }
        }
        let ghost expected = (if self.low_luma { seq!["low_luma"@] } else { Seq::<Seq<char>>::empty() })
            + (if self.low_saturation { seq!["low_saturation"@] } else { Seq::<Seq<char>>::empty() })
            + (if self.channels > 1 && self.low_spatial_separation {
            seq!["low_spatial_separation"@]
        } else {
            Seq::<Seq<char>>::empty()
        }) + (if self.low_temporal_variation {
            seq!["low_temporal_variation"@]
        } else {
            Seq::<Seq<char>>::empty()
        });
        assert(parts =~= expected);
        if count == 0 {
            return "none".to_string();
        }
        out
    }
}

/// Appends one warning to the comma-separated list built from `parts` so far.
fn push_warning(out: &mut String, warning: &str, count: usize, Ghost(parts): Ghost<Seq<Seq<char>>>)
    requires
        old(out)@ == comma_joined(parts),
        count == parts.len(),
    ensures
        final(out)@ == comma_joined(parts.push(warning@)),
{
    assert(parts.push(warning@).drop_last() =~= parts);
    if count > 0 {
        push_str_chars(out, ",");
    }
    push_str_chars(out, warning);
}

/// The next step suggested for a capture-quality recommendation.
pub open spec fn quality_hint(recommendation: Seq<char>) -> Seq<char> {
    if recommendation == "single_channel_area"@ {
        "choose_multi_channel_area_for_correlation_test"@
    } else if recommendation == "capture_too_dark"@ {
        "rerun_backend_probe_or_raise_brightness"@
    } else if recommendation == "low_temporal_variation"@ {
        "test_with_moving_or_contrasting_windows"@
    } else if recommendation == "low_spatial_separation"@ {
        "use_region_sampling_or_adjust_channel_regions"@
    } else if recommendation == "low_saturation"@ {
        "try_boosted_color_profile"@
    } else if recommendation == "usable"@ {
        "capture_is_usable_tune_color_profile_if_needed"@
    } else {
        "inspect_sample_debug"@
    }
}

/// The next step suggested for a capture-quality recommendation.
pub fn capture_quality_hint(recommendation: &str) -> (r: &'static str)
    ensures
        r@ == quality_hint(recommendation@),
{
    let rv = crate::text::chars_of(recommendation);
    if eq_str(&rv, "single_channel_area") {
        "choose_multi_channel_area_for_correlation_test"
    } else if eq_str(&rv, "capture_too_dark") {
        "rerun_backend_probe_or_raise_brightness"
    } else if eq_str(&rv, "low_temporal_variation") {
        "test_with_moving_or_contrasting_windows"
    } else if eq_str(&rv, "low_spatial_separation") {
        "use_region_sampling_or_adjust_channel_regions"
    } else if eq_str(&rv, "low_saturation") {
        "try_boosted_color_profile"
    } else if eq_str(&rv, "usable") {
        "capture_is_usable_tune_color_profile_if_needed"
    } else {
        "inspect_sample_debug"
    }
}

} // verus!
