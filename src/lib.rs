//! Wallpaper selection engine: a brightness index over an image library, a
//! time-of-day brightness schedule with a rejection-sampled target, nearest
//! brightness matching, and the coordinator that serialises periodic and
//! interrupt-triggered selections.
//!
//! Brightness values are fixed-point integers in millionths: `0` is black,
//! `BRIGHTNESS_SCALE` is full white.

pub mod args;
pub mod brightness;
pub mod desktop;
pub mod engine;
pub mod error;
pub mod library;
pub mod schedule;
pub mod text;

pub use args::{expand_home, parse_arg, parse_delay, parse_u32, Arg, ArgError};
pub use brightness::{calc_image_brightness, rgba_brightness};
pub use desktop::{get_dewm, picture_uri, DesktopError, Dewm};
pub use engine::{react_to_apply, Config, ConfigError, Event, Reaction};
pub use error::Error;
pub use library::{closest_wallpaper, Wallpaper};
pub use schedule::{
    accept_candidate, current_desired_brightness, gauss_parameters, time_to_desired_brightness,
    SampleStep, BRIGHTNESS_SCALE,
};
pub use text::{ends_with, same_text, starts_with, ExtensionVecU8ToString};
