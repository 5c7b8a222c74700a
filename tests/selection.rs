use moody_wallpaper::{
    accept_candidate, current_desired_brightness, closest_wallpaper, gauss_parameters, time_to_desired_brightness, SampleStep,
    Wallpaper, BRIGHTNESS_SCALE,
};
use rand::Rng;

fn wallpapers(levels: &[u32]) -> Vec<Wallpaper> {
    levels
        .iter()
        .enumerate()
        .map(|(i, b)| Wallpaper { path_str: format!("/w/{i}.png"), brightness: *b })
        .collect()
}

/// One gaussian draw around `mu` with spread `sigma`, both in millionths,
/// rounded to millionths.
fn gauss_draw(rng: &mut impl Rng, mu: u32, sigma: u32) -> i64 {
    let x: f32 = rng.gen_range(0.0..1.0);
    let y: f32 = rng.gen_range(0.0..1.0);
    let t: f32 = (std::f32::consts::TAU * x).cos() * (-2.0 * (1.0 - y).ln()).sqrt();
    let value = mu as f32 / 1e6 + t * (sigma as f32 / 1e6);
    (value as f64 * 1e6).round() as i64
}

fn sample_target(rng: &mut impl Rng, mu: u32, sigma: u32) -> u32 {
    loop {
        if let SampleStep::Accept(v) = accept_candidate(gauss_draw(rng, mu, sigma)) {
            return v;
        }
    }
}

#[test]
fn schedule_named_hours() {
    assert_eq!(time_to_desired_brightness(3, 0), 50_000);
    assert_eq!(time_to_desired_brightness(12, 30), 700_000);
    assert_eq!(time_to_desired_brightness(20, 59), 700_000);
    assert_eq!(time_to_desired_brightness(21, 0), 100_000);
    assert_eq!(time_to_desired_brightness(23, 15), 50_000);
}

#[test]
fn schedule_every_hour_in_a_bucket() {
    for hour in 0..24 {
        let b = time_to_desired_brightness(hour, 0);
        assert!([700_000, 200_000, 100_000, 50_000].contains(&b), "hour {hour}");
    }
    assert_eq!(time_to_desired_brightness(4, 0), 50_000);
    assert_eq!(time_to_desired_brightness(5, 0), 700_000);
    assert_eq!(time_to_desired_brightness(22, 0), 50_000);
}

#[test]
fn gauss_spread_is_half_the_mean() {
    assert_eq!(gauss_parameters(700_000), (700_000, 350_000));
    assert_eq!(gauss_parameters(50_000), (50_000, 25_000));
}

#[test]
fn candidate_acceptance_bounds() {
    assert_eq!(accept_candidate(0), SampleStep::Accept(0));
    assert_eq!(accept_candidate(1_000_000), SampleStep::Accept(1_000_000));
    assert_eq!(accept_candidate(123_456), SampleStep::Accept(123_456));
    assert_eq!(accept_candidate(-1), SampleStep::Redraw);
    assert_eq!(accept_candidate(1_000_001), SampleStep::Redraw);
    assert_eq!(accept_candidate(i64::MIN), SampleStep::Redraw);
    assert_eq!(accept_candidate(i64::MAX), SampleStep::Redraw);
}

#[test]
fn sampler_never_leaves_range() {
    let mut rng = rand::thread_rng();
    for _ in 0..10_000 {
        let v = sample_target(&mut rng, 700_000, 350_000);
        assert!(v <= BRIGHTNESS_SCALE);
    }
}

#[test]
fn selector_exact_match() {
    let ws = wallpapers(&[100_000, 500_000, 900_000]);
    assert_eq!(closest_wallpaper(&ws, 500_000), 1);
}

#[test]
fn selector_nearer_entry() {
    let ws = wallpapers(&[100_000, 500_000, 900_000]);
    assert_eq!(closest_wallpaper(&ws, 550_000), 1);
    assert_eq!(closest_wallpaper(&ws, 0), 0);
    assert_eq!(closest_wallpaper(&ws, 1_000_000), 2);
}

#[test]
fn selector_tie_keeps_first() {
    let ws = wallpapers(&[400_000, 600_000]);
    assert_eq!(closest_wallpaper(&ws, 500_000), 0);
    let ws = wallpapers(&[700_000, 300_000, 700_000]);
    assert_eq!(closest_wallpaper(&ws, 700_000), 0);
}

#[test]
fn selector_single_entry() {
    let ws = wallpapers(&[900_000]);
    assert_eq!(closest_wallpaper(&ws, 0), 0);
}

#[test]
fn late_night_prefers_dark_images() {
    let ws = wallpapers(&[50_000, 500_000, 950_000]);
    let desired = time_to_desired_brightness(23, 0);
    assert_eq!(desired, 50_000);
    let (mu, sigma) = gauss_parameters(desired);
    let mut rng = rand::thread_rng();
    let mut counts = [0usize; 3];
    for _ in 0..1000 {
        let target = sample_target(&mut rng, mu, sigma);
        counts[closest_wallpaper(&ws, target)] += 1;
    }
    assert!(counts[0] > counts[2], "{counts:?}");
}

#[test]
fn desired_brightness_now_is_a_bucket() {
    let b = current_desired_brightness();
    assert!([700_000, 100_000, 50_000].contains(&b), "{b}");
}
