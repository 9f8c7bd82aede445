//! Instants, offsets and spans, all counted in whole milliseconds.

use vstd::prelude::*;

verus! {

/// The value of `secs` whole seconds plus `msecs` milliseconds, in milliseconds.
pub open spec fn components_msecs(secs: int, msecs: int) -> int {
    secs * 1000 + msecs
}

/// True if `v` can be held in an `i64`.
pub open spec fn fits_i64(v: int) -> bool {
    i64::MIN <= v <= i64::MAX
}

/// An instant on a timeline, in milliseconds from the timeline's zero.
///
/// An instant may lie before zero. This happens while a cue is being moved
/// into a window that starts after the cue does.
#[derive(Clone, Copy, Debug, PartialEq, Eq, Structural)]
pub struct TimePoint {
    pub msecs: i64,
}

/// A signed distance on a timeline, in milliseconds.
#[derive(Clone, Copy, Debug, PartialEq, Eq, Structural)]
pub struct TimeOffset {
    pub msecs: i64,
}

/// The interval during which a cue is shown.
///
/// A span read from a file may end before it starts. Such a span is carried
/// along as it is; see [`TimeSpan::well_formed`].
#[derive(Clone, Copy, Debug, PartialEq, Eq, Structural)]
pub struct TimeSpan {
    pub start: TimePoint,
    pub end: TimePoint,
}

impl View for TimePoint {
    type V = int;

    open spec fn view(&self) -> int {
        self.msecs as int
    }
}

impl View for TimeOffset {
    type V = int;

    open spec fn view(&self) -> int {
        self.msecs as int
    }
}

impl View for TimeSpan {
    type V = (int, int);

    open spec fn view(&self) -> (int, int) {
        (self.start@, self.end@)
    }
}

/// `secs * 1000 + msecs` where that fits in an `i64`.
fn checked_components(secs: i64, msecs: i64) -> (r: Option<i64>)
    ensures
        r is Some <==> fits_i64(components_msecs(secs as int, msecs as int)),
        r matches Some(v) ==> v == components_msecs(secs as int, msecs as int),
{
    let wide: i128 = (secs as i128) * 1000 + (msecs as i128);
    if wide < (i64::MIN as i128) || wide > (i64::MAX as i128) {
        None
    } else {
        Some(wide as i64)
    }
}

impl TimePoint {
    /// The zero of the timeline.
    pub fn zero() -> (t: TimePoint)
        ensures
            t@ == 0,
    {
        TimePoint { msecs: 0 }
    }

    /// The instant `msecs` milliseconds after zero.
    pub fn from_msecs(msecs: i64) -> (t: TimePoint)
        ensures
            t@ == msecs,
    {
        TimePoint { msecs }
    }

    /// The instant `secs` whole seconds and `msecs` milliseconds after zero.
    ///
    /// Either part may be negative, and `msecs` may exceed a second. The
    /// result is `None` exactly when the instant cannot be held in an `i64`
    /// count of milliseconds.
    pub fn from_components(secs: i64, msecs: i64) -> (r: Option<TimePoint>)
        ensures
            r is Some <==> fits_i64(components_msecs(secs as int, msecs as int)),
            r matches Some(t) ==> t@ == components_msecs(secs as int, msecs as int),
    {
        match checked_components(secs, msecs) {
            Some(v) => Some(TimePoint { msecs: v }),
            None => None,
        }
    }

    /// Milliseconds from zero.
    pub fn msecs(&self) -> (m: i64)
        ensures
            m == self@,
    {
        self.msecs
    }

    /// True if the instant lies before zero.
    pub fn is_negative(&self) -> (b: bool)
        ensures
            b == (self@ < 0),
    {
        self.msecs < 0
    }

    /// True if `self` is strictly earlier than `other`.
    pub fn is_before(&self, other: &TimePoint) -> (b: bool)
        ensures
            b == (self@ < other@),
    {
        self.msecs < other.msecs
    }

    /// Where the instant lies when time is counted from `origin` instead of
    /// from zero.
    ///
    /// The result is wide enough for every pair of arguments, so that an
    /// instant far before the new origin is still told apart from one just
    /// before it.
    pub fn rebased(&self, origin: &TimeOffset) -> (m: i128)
        ensures
            m == self@ - origin@,
    {
        (self.msecs as i128) - (origin.msecs as i128)
    }

    /// The instant `by` earlier than `self`.
    ///
    /// The result is `None` exactly when that instant cannot be held in an
    /// `i64` count of milliseconds.
    pub fn checked_sub(&self, by: &TimeOffset) -> (r: Option<TimePoint>)
        ensures
            r is Some <==> fits_i64(self@ - by@),
            r matches Some(t) ==> t@ == self@ - by@,
    {
        match self.msecs.checked_sub(by.msecs) {
            Some(v) => Some(TimePoint { msecs: v }),
            None => None,
        }
    }
}

impl TimeOffset {
    /// The distance of `msecs` milliseconds.
    pub fn from_msecs(msecs: i64) -> (d: TimeOffset)
        ensures
            d@ == msecs,
    {
        TimeOffset { msecs }
    }

    /// The distance of `secs` whole seconds and `msecs` milliseconds.
    ///
    /// The result is `None` exactly when the distance cannot be held in an
    /// `i64` count of milliseconds.
    pub fn from_components(secs: i64, msecs: i64) -> (r: Option<TimeOffset>)
        ensures
            r is Some <==> fits_i64(components_msecs(secs as int, msecs as int)),
            r matches Some(d) ==> d@ == components_msecs(secs as int, msecs as int),
    {
        match checked_components(secs, msecs) {
            Some(v) => Some(TimeOffset { msecs: v }),
            None => None,
        }
    }

    /// The distance in milliseconds.
    pub fn msecs(&self) -> (m: i64)
        ensures
            m == self@,
    {
        self.msecs
    }

    /// True if the distance points backwards.
    pub fn is_negative(&self) -> (b: bool)
        ensures
            b == (self@ < 0),
    {
        self.msecs < 0
    }
}

impl TimeSpan {
    /// The span from `start` to `end`. Nothing is checked: see
    /// [`TimeSpan::well_formed`].
    pub fn new(start: TimePoint, end: TimePoint) -> (s: TimeSpan)
        ensures
            s@ == (start@, end@),
    {
        TimeSpan { start, end }
    }

    /// A span is well formed if it does not end before it starts.
    pub open spec fn well_formed(&self) -> bool {
        self.start@ <= self.end@
    }

    /// Tells whether the span is well formed.
    pub fn is_well_formed(&self) -> (b: bool)
        ensures
            b == self.well_formed(),
    {
        self.start.msecs <= self.end.msecs
    }
}

} // verus!
