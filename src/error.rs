use vstd::prelude::*;

verus! {

/// What can go wrong with one image: while indexing it, or while applying it.
#[derive(Clone, Copy, Debug, PartialEq, Eq, Structural)]
pub enum Error {
    /// The file vanished, or is no regular file any more.
    FileUnavaible,
    /// The bytes do not decode as an image, or the image has no pixels.
    UnableToOpenFileAsImage,
    /// The command that sets the wallpaper could not be run.
    CommandFailed,
    /// No applier exists for the desktop.
    UnsupportedDesktop,
}

} // verus!
