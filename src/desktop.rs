use vstd::prelude::*;

use crate::text::{ends_with, has_suffix};

verus! {

/// Desktop environments and window managers that the engine can tell apart.
#[derive(Clone, Copy, Debug, PartialEq, Eq, Structural)]
pub enum Dewm {
    Budgie,
    Cinnamon,
    Deepin,
    Gnome,
    Kde,
    Lxde,
    Lxqt,
    Mate,
    Xfce,
    Awesome,
    Bspwm,
    Dwm,
    I3,
    Qtile,
    Sway,
    Wayfire,
    Xmonad,
}

/// Why no desktop could be resolved for the applier.
#[derive(Clone, Copy, Debug, PartialEq, Eq, Structural)]
pub enum DesktopError {
    /// No desktop name was given (the environment does not say).
    Missing,
    /// The desktop is recognised, but no applier exists for it.
    Unsupported(Dewm),
    /// The desktop name is not recognised.
    Unknown,
}

/// The desktop that a name of the current desktop (as
/// `XDG_CURRENT_DESKTOP` gives it) resolves to, by its suffix.
pub open spec fn resolved_desktop(name: Option<Seq<char>>) -> Result<Dewm, DesktopError> {
    match name {
        None => Err(DesktopError::Missing),
        Some(n) => if has_suffix(n, "GNOME"@) {
            Ok(Dewm::Gnome)
        } else if has_suffix(n, "SWAY"@) {
            Err(DesktopError::Unsupported(Dewm::Sway))
        } else {
            Err(DesktopError::Unknown)
        },
    }
}

/// Resolves the current desktop from its name: a name ending in `GNOME` is
/// GNOME; one ending in `SWAY` is Sway, which has no applier; anything else,
/// or no name, is an error.
pub fn get_dewm(xdg_current_desktop: Option<&str>) -> (r: Result<Dewm, DesktopError>)
    ensures
        r == resolved_desktop(
            match xdg_current_desktop {
                Some(s) => Some(s@),
                None => None,
            },
        ),
{
    match xdg_current_desktop {
        None => Err(DesktopError::Missing),
        Some(name) => {
            if ends_with(name, "GNOME") {
                Ok(Dewm::Gnome)
            } else if ends_with(name, "SWAY") {
                Err(DesktopError::Unsupported(Dewm::Sway))
            } else {
                Err(DesktopError::Unknown)
            }
        },
    }
}

impl Dewm {
    /// Whether an applier exists for this desktop: only GNOME has one.
    pub fn has_applier(self) -> (r: bool)
        ensures
            r <==> self == Dewm::Gnome,
    {
        match self {
            Dewm::Gnome => true,
            _ => false,
        }
    }
}

/// The URI under which GNOME's settings name the file at `path_str`.
pub fn picture_uri(path_str: &str) -> (r: String)
    ensures
        r@ == "file://"@ + path_str@,
{
    let mut uri = String::from_str("file://");
    uri.append(path_str);
    uri
}

} // verus!
