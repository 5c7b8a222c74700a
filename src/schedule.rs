use vstd::prelude::*;

verus! {

/// One full unit of brightness: brightness values are millionths of it.
pub const BRIGHTNESS_SCALE: u32 = 1_000_000;

/// Desired brightness of the day bucket, hours `[5, 21)`.
pub const DAY_BRIGHTNESS: u32 = 700_000;

/// Desired brightness of the evening bucket, hours `[20, 21)`.
pub const EVENING_BRIGHTNESS: u32 = 200_000;

/// Desired brightness of the night bucket, hours `[21, 22)`.
pub const NIGHT_BRIGHTNESS: u32 = 100_000;

/// Desired brightness of the deep night bucket, hours `[22, 24)` and `[0, 6)`.
pub const DEEP_NIGHT_BRIGHTNESS: u32 = 50_000;

/// The schedule, with its buckets tried in order: day, evening, night, deep
/// night. The evening bucket lies inside the day bucket and is never reached.
pub open spec fn desired_brightness(hour: int) -> int {
    if 5 <= hour < 21 {
        DAY_BRIGHTNESS as int
    } else if 20 <= hour < 21 {
        EVENING_BRIGHTNESS as int
    } else if 21 <= hour < 22 {
        NIGHT_BRIGHTNESS as int
    } else {
        DEEP_NIGHT_BRIGHTNESS as int
    }
}

/// The brightness the schedule asks for at `hour`; the minute does not matter.
pub fn time_to_desired_brightness(hour: u32, minute: u32) -> (r: u32)
    requires
        hour < 24,
    ensures
        r as int == desired_brightness(hour as int),
{
    if 5 <= hour && hour < 21 {
        DAY_BRIGHTNESS
    } else if 20 <= hour && hour < 21 {
        EVENING_BRIGHTNESS
    } else if 21 <= hour && hour < 22 {
        NIGHT_BRIGHTNESS
    } else {
        DEEP_NIGHT_BRIGHTNESS
    }
}

/// The schedule is total on the hours of a day: each hour lands in exactly one
/// bucket, whose brightness is one of the four bucket values, and an hour that
/// the day and evening buckets share belongs to the day bucket.
pub proof fn lemma_schedule_total(hour: int)
    requires
        0 <= hour < 24,
    ensures
        desired_brightness(hour) == DAY_BRIGHTNESS || desired_brightness(hour)
            == EVENING_BRIGHTNESS || desired_brightness(hour) == NIGHT_BRIGHTNESS
            || desired_brightness(hour) == DEEP_NIGHT_BRIGHTNESS,
        20 <= hour < 21 ==> desired_brightness(hour) == DAY_BRIGHTNESS,
        0 < desired_brightness(hour) <= BRIGHTNESS_SCALE,
{
}

/// The mean and spread of the gaussian draw around `desired`: the spread is
/// half the desired brightness.
pub fn gauss_parameters(desired: u32) -> (r: (u32, u32))
    ensures
        r.0 == desired,
        r.1 == desired / 2,
{
    (desired, desired / 2)
}

/// What the rejection sampler does with one gaussian draw.
#[derive(Clone, Copy, Debug, PartialEq, Eq, Structural)]
pub enum SampleStep {
    /// The draw lies in `[0, BRIGHTNESS_SCALE]` and becomes the target.
    Accept(u32),
    /// The draw lies outside the brightness range: draw again.
    Redraw,
}

/// One step of the rejection sampler: a draw (in millionths, possibly out of
/// range) is kept exactly when it lies in `[0, BRIGHTNESS_SCALE]`.
pub fn accept_candidate(candidate: i64) -> (r: SampleStep)
    ensures
        0 <= candidate <= BRIGHTNESS_SCALE ==> r == SampleStep::Accept(candidate as u32),
        !(0 <= candidate <= BRIGHTNESS_SCALE) ==> r == SampleStep::Redraw,
        r matches SampleStep::Accept(v) ==> v <= BRIGHTNESS_SCALE,
{
    if 0 <= candidate && candidate <= BRIGHTNESS_SCALE as i64 {
        SampleStep::Accept(candidate as u32)
    } else {
        SampleStep::Redraw
    }
}

/// Relies on `chrono::Local::now` for the local wall-clock time, and on
/// `chrono::Timelike::hour` (0 to 23) and `Timelike::minute` (0 to 59).
#[verifier::external_body]
fn local_hour_minute() -> (r: (u32, u32))
    ensures
        r.0 < 24,
        r.1 < 60,
{
    let now = chrono::Local::now().time();
    (chrono::Timelike::hour(&now), chrono::Timelike::minute(&now))
}

/// The brightness that the schedule asks for now, in local time.
pub fn current_desired_brightness() -> (r: u32)
    ensures
        exists|h: int| 0 <= h < 24 && r as int == desired_brightness(h),
{
    let (hour, minute) = local_hour_minute();
    time_to_desired_brightness(hour, minute)
}

} // verus!
