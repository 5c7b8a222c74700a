use moody_wallpaper::{
    calc_image_brightness, react_to_apply, rgba_brightness, Config, ConfigError, Dewm, Error,
    Event, Reaction,
};
use std::io::Cursor;

/// A PNG of `width` by `height` pixels, all of the colour `rgba`.
fn png(width: u32, height: u32, rgba: [u8; 4]) -> Vec<u8> {
    let mut raw = Vec::new();
    for _ in 0..width * height {
        raw.extend_from_slice(&rgba);
    }
    let img = image::RgbaImage::from_raw(width, height, raw).unwrap();
    let mut out = Cursor::new(Vec::new());
    img.write_to(&mut out, image::ImageOutputFormat::Png).unwrap();
    out.into_inner()
}

#[test]
fn rgba_brightness_white_and_black() {
    assert_eq!(rgba_brightness(1, 1, &vec![255, 255, 255, 0]), Some(1_000_000));
    assert_eq!(rgba_brightness(1, 1, &vec![0, 0, 0, 255]), Some(0));
}

#[test]
fn rgba_brightness_ignores_alpha() {
    assert_eq!(rgba_brightness(1, 1, &vec![255, 0, 0, 255]), Some(333_333));
    assert_eq!(rgba_brightness(1, 1, &vec![255, 0, 0, 0]), Some(333_333));
}

#[test]
fn rgba_brightness_mean_over_pixels() {
    // 2x1 image: one white pixel and one black pixel.
    let px = vec![255, 255, 255, 255, 0, 0, 0, 255];
    assert_eq!(rgba_brightness(2, 1, &px), Some(500_000));
    // (10 + 20 + 30 + 40 + 50 + 60) / (6 * 255)
    let px = vec![10, 20, 30, 7, 40, 50, 60, 9];
    assert_eq!(rgba_brightness(1, 2, &px), Some(137_254));
}

#[test]
fn rgba_brightness_empty_image() {
    assert_eq!(rgba_brightness(0, 5, &vec![]), None);
    assert_eq!(rgba_brightness(0, 0, &vec![]), None);
}

#[test]
fn decoded_png_brightness() {
    assert_eq!(calc_image_brightness(&png(3, 2, [255, 255, 255, 255])), Ok(1_000_000));
    assert_eq!(calc_image_brightness(&png(2, 2, [51, 102, 153, 10])), Ok(400_000));
}

#[test]
fn brightness_reproducible() {
    let bytes = png(4, 3, [12, 200, 77, 255]);
    let a = calc_image_brightness(&bytes);
    let b = calc_image_brightness(&bytes);
    assert_eq!(a, b);
    assert!(a.unwrap() <= 1_000_000);
}

#[test]
fn undecodable_bytes() {
    assert_eq!(calc_image_brightness(b"not an image"), Err(Error::UnableToOpenFileAsImage));
    assert_eq!(calc_image_brightness(&[]), Err(Error::UnableToOpenFileAsImage));
}

#[test]
fn index_file_adds_decoded_and_skips_others() {
    let mut c = Config::new();
    assert_eq!(c.index_file("/w/white.png".to_string(), &png(1, 1, [255, 255, 255, 255])), Ok(1_000_000));
    assert_eq!(
        c.index_file("/w/notes.txt".to_string(), b"hello"),
        Err(Error::UnableToOpenFileAsImage)
    );
    assert_eq!(c.index_file("/w/black.png".to_string(), &png(2, 2, [0, 0, 0, 255])), Ok(0));
    let entries: Vec<(&str, u32)> =
        c.wallpapers.iter().map(|w| (w.path_str.as_str(), w.brightness)).collect();
    assert_eq!(entries, vec![("/w/white.png", 1_000_000), ("/w/black.png", 0)]);
}

#[test]
fn rebuild_twice_same_entries() {
    let files = vec![
        ("/w/a.png".to_string(), png(1, 1, [255, 255, 255, 255])),
        ("/w/b.txt".to_string(), b"text".to_vec()),
        ("/w/c.png".to_string(), png(2, 1, [51, 102, 153, 255])),
    ];
    let mut c = Config::new();
    let mut snapshots = Vec::new();
    for _ in 0..2 {
        c.begin_rescan();
        for (path, contents) in &files {
            let _ = c.index_file(path.clone(), contents);
        }
        let mut entries: Vec<(String, u32)> =
            c.wallpapers.iter().map(|w| (w.path_str.clone(), w.brightness)).collect();
        entries.sort();
        snapshots.push(entries);
    }
    assert_eq!(snapshots[0], snapshots[1]);
    assert_eq!(snapshots[0].len(), 2);
}

#[test]
fn rescan_empties_index_keeps_settings() {
    let mut c = Config::new();
    c.silent = true;
    c.delay = Some(60);
    let _ = c.index_file("/w/a.png".to_string(), &png(1, 1, [1, 2, 3, 4]));
    assert_eq!(c.wallpapers.len(), 1);
    c.begin_rescan();
    assert!(c.wallpapers.is_empty());
    assert!(c.silent);
    assert_eq!(c.delay, Some(60));
}

#[test]
fn choose_wallpaper_from_config() {
    let mut c = Config::new();
    let _ = c.index_file("/w/white.png".to_string(), &png(1, 1, [255, 255, 255, 255]));
    let _ = c.index_file("/w/black.png".to_string(), &png(1, 1, [0, 0, 0, 255]));
    assert_eq!(c.choose_wallpaper(100_000), 1);
    assert_eq!(c.choose_wallpaper(900_000), 0);
    assert_eq!(c.choose_wallpaper(500_000), 0);
}

#[test]
fn interrupt_then_wake_applies_once() {
    let mut c = Config::new();
    let mut applies = 0;
    assert!(!c.handle(Event::InterruptArrived));
    if c.handle(Event::InterruptHandled) {
        applies += 1;
    }
    if c.handle(Event::PeriodicWake) {
        applies += 1;
    }
    assert_eq!(applies, 1);
    assert!(!c.pending_interrupt);
}

#[test]
fn wake_then_interrupt_applies_once() {
    let mut c = Config::new();
    let mut applies = 0;
    c.handle(Event::InterruptArrived);
    if c.handle(Event::PeriodicWake) {
        applies += 1;
    }
    if c.handle(Event::InterruptHandled) {
        applies += 1;
    }
    assert_eq!(applies, 1);
    assert!(!c.pending_interrupt);
}

#[test]
fn quiet_wakes_always_apply() {
    let mut c = Config::new();
    assert!(c.handle(Event::PeriodicWake));
    assert!(c.handle(Event::PeriodicWake));
}

#[test]
fn apply_reactions() {
    assert_eq!(react_to_apply(Ok(())), Reaction::Continue);
    assert_eq!(react_to_apply(Err(Error::FileUnavaible)), Reaction::Rescan);
    assert_eq!(react_to_apply(Err(Error::CommandFailed)), Reaction::Fatal);
    assert_eq!(react_to_apply(Err(Error::UnsupportedDesktop)), Reaction::Fatal);
}

#[test]
fn startup_check_errors_in_order() {
    let mut c = Config::new();
    assert_eq!(c.startup_check(), Err(ConfigError::NoDesktop));
    c.dewm = Some(Dewm::Sway);
    assert_eq!(c.startup_check(), Err(ConfigError::UnsupportedDesktop(Dewm::Sway)));
    c.dewm = Some(Dewm::Gnome);
    assert_eq!(c.startup_check(), Err(ConfigError::NoDelay));
    c.delay = Some(300);
    assert_eq!(c.startup_check(), Err(ConfigError::NoPaths));
    c.paths_str.push("/w".to_string());
    assert_eq!(c.startup_check(), Err(ConfigError::EmptyLibrary));
    let _ = c.index_file("/w/a.png".to_string(), &png(1, 1, [9, 9, 9, 9]));
    assert_eq!(c.startup_check(), Ok((Dewm::Gnome, 300)));
}
