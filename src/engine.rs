use vstd::prelude::*;

use crate::args::Arg;
use crate::brightness::{calc_image_brightness, image_brightness};
use crate::desktop::Dewm;
use crate::error::Error;
use crate::library::{closest_wallpaper, index_step, index_view, is_closest, Wallpaper};
use crate::schedule::BRIGHTNESS_SCALE;

verus! {

/// Something that the coordinator learns of.
#[derive(Clone, Copy, Debug, PartialEq, Eq, Structural)]
pub enum Event {
    /// An interrupt was delivered: it marks itself pending before it contends
    /// for the lock.
    InterruptArrived,
    /// The interrupt's turn at the lock: it selects and applies at once.
    InterruptHandled,
    /// The periodic timer elapsed and the loop holds the lock.
    PeriodicWake,
}

/// What the coordinator does after an apply attempt.
#[derive(Clone, Copy, Debug, PartialEq, Eq, Structural)]
pub enum Reaction {
    /// The wallpaper was set: sleep until the next cycle.
    Continue,
    /// The chosen file vanished: rebuild the whole index, then sleep.
    Rescan,
    /// Applying cannot work: stop the process.
    Fatal,
}

/// Why the engine cannot start its loop.
#[derive(Clone, Copy, Debug, PartialEq, Eq, Structural)]
pub enum ConfigError {
    /// No desktop was resolved.
    NoDesktop,
    /// The desktop has no applier.
    UnsupportedDesktop(Dewm),
    /// No interval was given.
    NoDelay,
    /// No root directory was given.
    NoPaths,
    /// The directories hold no image that decodes.
    EmptyLibrary,
}

/// The shared record: settings, the library index and the pending-interrupt
/// flag. All access to it goes through one lock.
#[derive(Debug)]
pub struct Config {
    pub silent: bool,
    pub dewm: Option<Dewm>,
    pub delay: Option<u32>,
    pub paths_str: Vec<String>,
    pub wallpapers: Vec<Wallpaper>,
    pub pending_interrupt: bool,
}

/// The coordinator's transition on `event` from a state whose flag is
/// `pending`: the new flag, and whether a selection runs now.
pub open spec fn coordinator_step(pending: bool, event: Event) -> (bool, bool) {
    match event {
        Event::InterruptArrived => (true, false),
        Event::InterruptHandled => (pending, true),
        Event::PeriodicWake => (false, !pending),
    }
}

/// How many selections one step runs.
pub open spec fn selections(s: bool) -> int {
    if s {
        1
    } else {
        0
    }
}

/// An interrupt that has arrived by the time a periodic wake holds the lock
/// leads to exactly one selection for that cycle, whichever of the two the
/// lock admits first, and leaves no interrupt pending.
pub proof fn lemma_interrupt_and_wake_select_once(pending: bool)
    ensures
        ({
            let p0 = coordinator_step(pending, Event::InterruptArrived).0;
            let (p1, s1) = coordinator_step(p0, Event::InterruptHandled);
            let (p2, s2) = coordinator_step(p1, Event::PeriodicWake);
            selections(s1) + selections(s2) == 1 && !p2
        }),
        ({
            let p0 = coordinator_step(pending, Event::InterruptArrived).0;
            let (p1, s1) = coordinator_step(p0, Event::PeriodicWake);
            let (p2, s2) = coordinator_step(p1, Event::InterruptHandled);
            selections(s1) + selections(s2) == 1 && !p2
        }),
{
}

/// A periodic wake with no interrupt pending selects; a second wake after it
/// selects again: quiet cycles are never skipped.
pub proof fn lemma_quiet_wake_selects(pending: bool)
    requires
        !pending,
    ensures
        coordinator_step(pending, Event::PeriodicWake) == (false, true),
        coordinator_step(coordinator_step(pending, Event::PeriodicWake).0, Event::PeriodicWake)
            == (false, true),
{
}

/// What follows an apply attempt: a vanished file asks for a rebuild, any
/// other failure is fatal.
pub open spec fn reaction_to(res: Result<(), Error>) -> Reaction {
    match res {
        Ok(()) => Reaction::Continue,
        Err(Error::FileUnavaible) => Reaction::Rescan,
        Err(_) => Reaction::Fatal,
    }
}

/// The coordinator's reaction to the outcome of an apply attempt.
pub fn react_to_apply(res: Result<(), Error>) -> (r: Reaction)
    ensures
        r == reaction_to(res),
{
    match res {
        Ok(()) => Reaction::Continue,
        Err(Error::FileUnavaible) => Reaction::Rescan,
        Err(_) => Reaction::Fatal,
    }
}

/// Whether a configuration can enter the loop, and with which desktop and
/// interval.
pub open spec fn startup_status(c: Config) -> Result<(Dewm, u32), ConfigError> {
    match c.dewm {
        None => Err(ConfigError::NoDesktop),
        Some(d) => if d != Dewm::Gnome {
            Err(ConfigError::UnsupportedDesktop(d))
        } else {
            match c.delay {
                None => Err(ConfigError::NoDelay),
                Some(delay) => if c.paths_str@.len() == 0 {
                    Err(ConfigError::NoPaths)
                } else if c.wallpapers@.len() == 0 {
                    Err(ConfigError::EmptyLibrary)
                } else {
                    Ok((d, delay))
                },
            }
        },
    }
}

impl Config {
    /// Every indexed brightness lies in the brightness range.
    pub open spec fn wf(&self) -> bool {
        forall|i: int|
            0 <= i < self.wallpapers@.len() ==> #[trigger] self.wallpapers@[i].brightness
                <= BRIGHTNESS_SCALE
    }

    /// The settings and the flag are those of `other`.
    pub open spec fn same_settings(&self, other: Config) -> bool {
        &&& self.silent == other.silent
        &&& self.dewm == other.dewm
        &&& self.delay == other.delay
        &&& self.paths_str@ == other.paths_str@
        &&& self.pending_interrupt == other.pending_interrupt
    }

    /// An empty configuration: not quiet, no desktop, no interval, no
    /// directories, an empty index and no pending interrupt.
    pub fn new() -> (r: Self)
        ensures
            !r.silent,
            r.dewm is None,
            r.delay is None,
            r.paths_str@.len() == 0,
            r.wallpapers@.len() == 0,
            !r.pending_interrupt,
            r.wf(),
    {
        Config {
            silent: false,
            dewm: None,
            delay: None,
            paths_str: Vec::new(),
            wallpapers: Vec::new(),
            pending_interrupt: false,
        }
    }

    /// Records one parsed argument: the interval, one more root directory,
    /// or quiet mode.
    pub fn apply_arg(&mut self, arg: Arg)
        ensures
            final(self).wallpapers@ == old(self).wallpapers@,
            final(self).dewm == old(self).dewm,
            final(self).pending_interrupt == old(self).pending_interrupt,
            match arg {
                Arg::Delay(d) => final(self).delay == Some(d) && final(self).silent == old(
                    self,
                ).silent && final(self).paths_str@ == old(self).paths_str@,
                Arg::Path(p) => final(self).paths_str@ == old(self).paths_str@.push(p)
                    && final(self).silent == old(self).silent && final(self).delay == old(
                    self,
                ).delay,
                Arg::Silent => final(self).silent && final(self).delay == old(self).delay
                    && final(self).paths_str@ == old(self).paths_str@,
            },
    {
        match arg {
            Arg::Delay(d) => {
                self.delay = Some(d);
            },
            Arg::Path(p) => {
                self.paths_str.push(p);
            },
            Arg::Silent => {
                self.silent = true;
            },
        }
    }

    /// The coordinator's step: updates the pending-interrupt flag and says
    /// whether a selection runs now.
    pub fn handle(&mut self, event: Event) -> (select: bool)
        ensures
            (final(self).pending_interrupt, select) == coordinator_step(
                old(self).pending_interrupt,
                event,
            ),
            final(self).silent == old(self).silent,
            final(self).dewm == old(self).dewm,
            final(self).delay == old(self).delay,
            final(self).paths_str@ == old(self).paths_str@,
            final(self).wallpapers@ == old(self).wallpapers@,
    {
        match event {
            Event::InterruptArrived => {
                self.pending_interrupt = true;
                false
            },
            Event::InterruptHandled => true,
            Event::PeriodicWake => {
                let pending = self.pending_interrupt;
                self.pending_interrupt = false;
                !pending
            },
        }
    }

    /// Starts a full rebuild: the index is emptied, the rest kept.
    pub fn begin_rescan(&mut self)
        ensures
            final(self).wallpapers@.len() == 0,
            final(self).same_settings(*old(self)),
            final(self).wf(),
    {
        self.wallpapers = Vec::new();
    }

    /// Indexes one file of the library from its contents: it is added at the
    /// end when it decodes, and skipped otherwise.
    pub fn index_file(&mut self, path_str: String, contents: &[u8]) -> (r: Result<u32, Error>)
        ensures
            r == image_brightness(contents@),
            index_view(final(self).wallpapers@) == index_step(
                index_view(old(self).wallpapers@),
                (path_str@, contents@),
            ),
            r matches Ok(b) ==> final(self).wallpapers@ == old(self).wallpapers@.push(
                Wallpaper { path_str, brightness: b },
            ),
            r is Err ==> final(self).wallpapers@ == old(self).wallpapers@,
            final(self).same_settings(*old(self)),
            old(self).wf() ==> final(self).wf(),
    {
        let r = calc_image_brightness(contents);
        match r {
            Ok(b) => {
                let ghost before = self.wallpapers@;
                let ghost p = path_str@;
                self.wallpapers.push(Wallpaper { path_str, brightness: b });
                assert(index_view(self.wallpapers@) =~= index_view(before).push((p, b)));
            },
            Err(_) => {},
        }
        r
    }

    /// Selects the wallpaper for a sampled `target` brightness: the first
    /// entry nearest to it.
    pub fn choose_wallpaper(&self, target: u32) -> (r: usize)
        requires
            self.wallpapers@.len() > 0,
        ensures
            is_closest(self.wallpapers@, target as int, r as int),
    {
        closest_wallpaper(&self.wallpapers, target)
    }

    /// Checks, before the loop starts, that the configuration can run: a
    /// desktop with an applier, an interval, directories and a non-empty
    /// index.
    pub fn startup_check(&self) -> (r: Result<(Dewm, u32), ConfigError>)
        ensures
            r == startup_status(*self),
    {
        match self.dewm {
            None => Err(ConfigError::NoDesktop),
            Some(d) => {
                if !d.has_applier() {
                    Err(ConfigError::UnsupportedDesktop(d))
                } else {
                    match self.delay {
                        None => Err(ConfigError::NoDelay),
                        Some(delay) => {
                            if self.paths_str.len() == 0 {
                                Err(ConfigError::NoPaths)
                            } else if self.wallpapers.len() == 0 {
                                Err(ConfigError::EmptyLibrary)
                            } else {
                                Ok((d, delay))
                            }
                        },
                    }
                }
            },
        }
    }
}

} // verus!
