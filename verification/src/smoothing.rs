//! Temporal smoothing of the channel colors from one frame to the next: a change no larger
//! than the noise threshold keeps the previous color, a larger one moves to the blended
//! color, at most `max_step` per channel and frame. The blend itself (the current frame's
//! weight) is computed by the caller.
use vstd::prelude::*;
use crate::capture::RgbAverage;

verus! {

/// `|a - b|`.
pub open spec fn channel_distance(a: u8, b: u8) -> int {
    if a >= b {
        a - b
    } else {
        b - a
    }
}

/// The largest per-channel change between two colors.
pub open spec fn color_distance(p: RgbAverage, c: RgbAverage) -> int {
    let r = channel_distance(p.red, c.red);
    let g = channel_distance(p.green, c.green);
    let b = channel_distance(p.blue, c.blue);
    if r >= g && r >= b {
        r
    } else if g >= b {
        g
    } else {
        b
    }
}

/// A channel moving from `previous` towards `current` by at most `max_step`.
pub open spec fn limited_channel(previous: u8, current: u8, max_step: u8) -> u8 {
    if current > previous {
        if current - previous > max_step {
            (previous + max_step) as u8
        } else {
            current
        }
    } else {
        if previous - current > max_step {
            (previous - max_step) as u8
        } else {
            current
        }
    }
}

/// A color moving from `previous` towards `current`, limited per channel when a step is set.
pub open spec fn limited_color(previous: RgbAverage, current: RgbAverage, max_step: Option<u8>) -> RgbAverage {
    match max_step {
        None => current,
        Some(m) => RgbAverage {
            red: limited_channel(previous.red, current.red, m),
            green: limited_channel(previous.green, current.green, m),
            blue: limited_channel(previous.blue, current.blue, m),
        },
    }
}

/// The color shown for one channel: the previous color when the change from it to `current`
/// is within the noise threshold, else the blended color, limited by the step.
pub open spec fn next_color(
    previous: RgbAverage,
    current: RgbAverage,
    blended: RgbAverage,
    noise_threshold: u8,
    max_step: Option<u8>,
) -> RgbAverage {
    if color_distance(previous, current) <= noise_threshold {
        previous
    } else {
        limited_color(previous, blended, max_step)
    }
}

/// `|a - b|` of two channel values.
fn channel_delta(a: u8, b: u8) -> (r: u8)
    ensures
        r == channel_distance(a, b),
{
    if a >= b {
        a - b
    } else {
        b - a
    }
}

/// The largest per-channel change between two colors.
pub fn color_delta(previous: RgbAverage, current: RgbAverage) -> (r: u8)
    ensures
        r == color_distance(previous, current),
        r >= previous.red - current.red && r >= current.red - previous.red,
        r >= previous.green - current.green && r >= current.green - previous.green,
        r >= previous.blue - current.blue && r >= current.blue - previous.blue,
        r == previous.red - current.red || r == current.red - previous.red
            || r == previous.green - current.green || r == current.green - previous.green
            || r == previous.blue - current.blue || r == current.blue - previous.blue,
{
    let r = channel_delta(previous.red, current.red);
    let g = channel_delta(previous.green, current.green);
    let b = channel_delta(previous.blue, current.blue);
    if r >= g && r >= b {
        r
    } else if g >= b {
        g
    } else {
        b
    }
}

/// A channel moving from `previous` towards `current` by at most `max_step`, saturating at
/// the ends of the range.
pub fn limit_channel_step(previous: u8, current: u8, max_step: u8) -> (r: u8)
    ensures
        r == limited_channel(previous, current, max_step),
        channel_distance(previous, r) <= max_step,
        channel_distance(previous, r) <= channel_distance(previous, current),
{
    if current > previous {
        let cap = previous.saturating_add(max_step);
        if current < cap {
            current
        } else {
            cap
        }
    } else {
        let floor = previous.saturating_sub(max_step);
        if current > floor {
            current
        } else {
            floor
        }
    }
}

/// A color moving from `previous` towards `current`, limited per channel when a step is set.
pub fn limit_color_step(previous: RgbAverage, current: RgbAverage, max_step: Option<u8>) -> (r: RgbAverage)
    ensures
        r == limited_color(previous, current, max_step),
{
    match max_step {
        None => current,
        Some(m) => RgbAverage {
            red: limit_channel_step(previous.red, current.red, m),
            green: limit_channel_step(previous.green, current.green, m),
            blue: limit_channel_step(previous.blue, current.blue, m),
        },
    }
}

/// Smoothing state: the thresholds and the colors last shown, one per channel.
#[derive(Debug, Clone)]
pub struct ColorSmoother {
    noise_threshold: u8,
    max_step: Option<u8>,
    previous: Vec<RgbAverage>,
}

impl ColorSmoother {
    /// The noise threshold.
    pub closed spec fn threshold(&self) -> u8 {
        self.noise_threshold
    }

    /// The step limit, if any.
    pub closed spec fn step(&self) -> Option<u8> {
        self.max_step
    }

    /// The colors last shown.
    pub closed spec fn shown(&self) -> Seq<RgbAverage> {
        self.previous@
    }

    /// A smoother that has shown nothing yet.
    pub fn with_config(noise_threshold: u8, max_step: Option<u8>) -> (r: ColorSmoother)
        ensures
            r.threshold() == noise_threshold,
            r.step() == max_step,
            r.shown() == Seq::<RgbAverage>::empty(),
    {
        ColorSmoother { noise_threshold, max_step, previous: Vec::new() }
    }

    /// A smoother without noise threshold or step limit.
    pub fn new() -> (r: ColorSmoother)
        ensures
            r.threshold() == 0,
            r.step() is None,
            r.shown() == Seq::<RgbAverage>::empty(),
    {
        Self::with_config(0, None)
    }

    /// A smoother with a noise threshold and no step limit.
    pub fn with_noise_threshold(noise_threshold: u8) -> (r: ColorSmoother)
        ensures
            r.threshold() == noise_threshold,
            r.step() is None,
            r.shown() == Seq::<RgbAverage>::empty(),
    {
        Self::with_config(noise_threshold, None)
    }

    /// The colors last shown, against which the next frame is blended.
    pub fn previous(&self) -> (r: &[RgbAverage])
        ensures
            r@ == self.shown(),
    {
        self.previous.as_slice()
    }

    /// The colors to show for a new frame. When the number of channels changed (the first
    /// frame too), the frame is shown as it is; else each channel follows `next_color`, with
    /// `blended[i]` the blend of the previous and the current color of channel `i`.
    pub fn smooth(&mut self, colors: Vec<RgbAverage>, blended: &[RgbAverage]) -> (r: Vec<RgbAverage>)
        requires
            colors.len() == old(self).shown().len() ==> blended.len() == colors.len(),
        ensures
            final(self).threshold() == old(self).threshold(),
            final(self).step() == old(self).step(),
            final(self).shown() == r@,
            r@.len() == colors@.len(),
            old(self).shown().len() != colors@.len() ==> r@ == colors@,
            old(self).shown().len() == colors@.len() ==> forall|i: int|
                0 <= i < r@.len() ==> #[trigger] r@[i] == next_color(
                    old(self).shown()[i],
                    colors@[i],
                    blended@[i],
                    old(self).threshold(),
                    old(self).step(),
                ),
    {
        if self.previous.len() != colors.len() {
            self.previous = colors.clone();
            return colors;
        }
        let mut out: Vec<RgbAverage> = Vec::new();
        let n = colors.len();
        for i in 0..n
            invariant
                n == colors@.len(),
                n == self.previous@.len(),
                n == blended@.len(),
                out@.len() == i,
                forall|k: int|
                    0 <= k < i ==> #[trigger] out@[k] == next_color(
                        self.previous@[k],
                        colors@[k],
                        blended@[k],
                        self.noise_threshold,
                        self.max_step,
                    ),
        {
            let previous = self.previous[i];
            let current = colors[i];
            let next = if color_delta(previous, current) <= self.noise_threshold {
                previous
            } else {
                limit_color_step(previous, blended[i], self.max_step)
            };
            out.push(next);
        }
        self.previous = out.clone();
        out
    }
}

/// With a step limit, no channel moves by more than the limit from one frame to the next.
pub proof fn law_step_limit_bounds_each_change(
    previous: RgbAverage,
    current: RgbAverage,
    blended: RgbAverage,
    noise_threshold: u8,
    max_step: u8,
)
    ensures
        ({
            let n = next_color(previous, current, blended, noise_threshold, Some(max_step));
            &&& channel_distance(previous.red, n.red) <= max_step
            &&& channel_distance(previous.green, n.green) <= max_step
            &&& channel_distance(previous.blue, n.blue) <= max_step
        }),
{
}

/// `x` lies between `a` and `b` (inclusive).
pub open spec fn channel_between(a: u8, b: u8, x: u8) -> bool {
    (a <= x && x <= b) || (b <= x && x <= a)
}

/// Every channel of `x` lies between those of `a` and `b`.
pub open spec fn color_between(a: RgbAverage, b: RgbAverage, x: RgbAverage) -> bool {
    &&& channel_between(a.red, b.red, x.red)
    &&& channel_between(a.green, b.green, x.green)
    &&& channel_between(a.blue, b.blue, x.blue)
}

/// When the blend lies between the previous and the current color (as a weighted blend with
/// a weight from 0 to 1 does), the color shown lies between them too; and with the current
/// color as the blend (weight 1) and no step limit, a change beyond the noise threshold
/// shows the current color.
pub proof fn law_smoothing_stays_between(
    previous: RgbAverage,
    current: RgbAverage,
    blended: RgbAverage,
    noise_threshold: u8,
    max_step: Option<u8>,
)
    ensures
        color_between(previous, current, blended) ==> color_between(
            previous,
            current,
            next_color(previous, current, blended, noise_threshold, max_step),
        ),
        color_distance(previous, current) > noise_threshold ==> next_color(
            previous,
            current,
            current,
            noise_threshold,
            None,
        ) == current,
{
}

/// The change between two colors is the largest change of any of the three channels: it is
/// at least the change of red, of green and of blue, and equal to one of them.
pub proof fn law_color_distance_is_largest_channel_change(p: RgbAverage, c: RgbAverage)
    ensures
        color_distance(p, c) >= p.red - c.red && color_distance(p, c) >= c.red - p.red,
        color_distance(p, c) >= p.green - c.green && color_distance(p, c) >= c.green - p.green,
        color_distance(p, c) >= p.blue - c.blue && color_distance(p, c) >= c.blue - p.blue,
        color_distance(p, c) == p.red - c.red || color_distance(p, c) == c.red - p.red
            || color_distance(p, c) == p.green - c.green || color_distance(p, c) == c.green - p.green
            || color_distance(p, c) == p.blue - c.blue || color_distance(p, c) == c.blue - p.blue,
{
}

/// A channel whose value moves by more than the noise threshold is never ignored: the color
/// shown is then the (limited) blend, and with the current color as the blend and no step
/// limit it is the current color. When no channel moves by more than the threshold, the
/// previous color stays.
pub proof fn law_noise_threshold_applies_to_every_channel(
    previous: RgbAverage,
    current: RgbAverage,
    blended: RgbAverage,
    noise_threshold: u8,
    max_step: Option<u8>,
)
    ensures
        (previous.red - current.red > noise_threshold || current.red - previous.red > noise_threshold
            || previous.green - current.green > noise_threshold
            || current.green - previous.green > noise_threshold
            || previous.blue - current.blue > noise_threshold
            || current.blue - previous.blue > noise_threshold) ==> {
            &&& next_color(previous, current, blended, noise_threshold, max_step)
                == limited_color(previous, blended, max_step)
            &&& next_color(previous, current, current, noise_threshold, None) == current
        },
        (previous.red - current.red <= noise_threshold && current.red - previous.red <= noise_threshold
            && previous.green - current.green <= noise_threshold
            && current.green - previous.green <= noise_threshold
            && previous.blue - current.blue <= noise_threshold
            && current.blue - previous.blue <= noise_threshold) ==> next_color(
            previous,
            current,
            blended,
            noise_threshold,
            max_step,
        ) == previous,
{
}

/// A limited channel moves towards its target, by the whole way when that is within the
/// step and by exactly the step otherwise.
pub proof fn law_step_moves_as_far_as_allowed(previous: u8, target: u8, max_step: u8)
    ensures
        ({
            let n = limited_channel(previous, target, max_step);
            &&& channel_between(previous, target, n)
            &&& channel_distance(previous, n) == (if channel_distance(previous, target) <= max_step {
                channel_distance(previous, target)
            } else {
                max_step as int
            })
        }),
{
}

} // verus!
