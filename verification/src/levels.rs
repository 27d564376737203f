//! Severity levels of log records and level filters for targets.

use vstd::prelude::*;

verus! {

/// Severity of a log record. `Error` is the most severe (least verbose)
/// level, `Trace` the least severe (most verbose).
#[derive(Clone, Copy, Debug, PartialEq, Eq, Structural, Hash)]
pub enum Level {
    Error,
    Warn,
    Info,
    Debug,
    Trace,
}

/// Verbosity threshold for a target. `Off` suppresses everything; the
/// remaining variants admit records whose level is at most as verbose.
#[derive(Clone, Copy, Debug, PartialEq, Eq, Structural, Hash)]
pub enum LevelFilter {
    Off,
    Error,
    Warn,
    Info,
    Debug,
    Trace,
}

/// Verbosity ordinal of a level: `Error` is 1 and `Trace` is 5.
pub open spec fn level_ord(l: Level) -> int {
    match l {
        Level::Error => 1,
        Level::Warn => 2,
        Level::Info => 3,
        Level::Debug => 4,
        Level::Trace => 5,
    }
}

/// Verbosity ordinal of a level filter: `Off` is 0, `Error` is 1 and
/// `Trace` is 5. A record passes a filter iff its level ordinal is at
/// most the filter ordinal.
pub open spec fn filter_ord(f: LevelFilter) -> int {
    match f {
        LevelFilter::Off => 0,
        LevelFilter::Error => 1,
        LevelFilter::Warn => 2,
        LevelFilter::Info => 3,
        LevelFilter::Debug => 4,
        LevelFilter::Trace => 5,
    }
}

/// Whether a record of level `l` passes the threshold `f`.
pub open spec fn level_passes(l: Level, f: LevelFilter) -> bool {
    level_ord(l) <= filter_ord(f)
}

impl Level {
    /// Verbosity ordinal, matching `level_ord`.
    pub fn ord(self) -> (r: u8)
        ensures
            r == level_ord(self),
    {
        match self {
            Level::Error => 1,
            Level::Warn => 2,
            Level::Info => 3,
            Level::Debug => 4,
            Level::Trace => 5,
        }
    }

    /// Whether a record of this level passes the threshold `f`.
    pub fn passes(self, f: LevelFilter) -> (r: bool)
        ensures
            r == level_passes(self, f),
    {
        self.ord() <= f.ord()
    }

    /// The level filter that admits exactly this level and the more
    /// severe ones.
    pub fn to_level_filter(self) -> (r: LevelFilter)
        ensures
            filter_ord(r) == level_ord(self),
    {
        match self {
            Level::Error => LevelFilter::Error,
            Level::Warn => LevelFilter::Warn,
            Level::Info => LevelFilter::Info,
            Level::Debug => LevelFilter::Debug,
            Level::Trace => LevelFilter::Trace,
        }
    }
}

impl LevelFilter {
    /// Verbosity ordinal, matching `filter_ord`.
    pub fn ord(self) -> (r: u8)
        ensures
            r == filter_ord(self),
    {
        match self {
            LevelFilter::Off => 0,
            LevelFilter::Error => 1,
            LevelFilter::Warn => 2,
            LevelFilter::Info => 3,
            LevelFilter::Debug => 4,
            LevelFilter::Trace => 5,
        }
    }

    /// Whether this filter is at most as verbose as `other`.
    pub fn le(self, other: LevelFilter) -> (r: bool)
        ensures
            r == (filter_ord(self) <= filter_ord(other)),
    {
        self.ord() <= other.ord()
    }

    /// The most verbose level this filter still admits, or `None` for
    /// `Off`.
    pub fn to_level(self) -> (r: Option<Level>)
        ensures
            match r {
                Some(l) => level_ord(l) == filter_ord(self),
                None => self == LevelFilter::Off,
            },
    {
        match self {
            LevelFilter::Off => None,
            LevelFilter::Error => Some(Level::Error),
            LevelFilter::Warn => Some(Level::Warn),
            LevelFilter::Info => Some(Level::Info),
            LevelFilter::Debug => Some(Level::Debug),
            LevelFilter::Trace => Some(Level::Trace),
        }
    }
}

} // verus!
