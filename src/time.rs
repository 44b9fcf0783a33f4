use vstd::prelude::*;

verus! {

pub const MSEC_PER_SEC: usize = 1000;

pub const USEC_PER_SEC: u64 = 1_000_000;

pub const NSEC_PER_SEC: u64 = 1_000_000_000;

/// Milliseconds elapsed after `ticks` ticks of a timer running at
/// `clock_freq` ticks per second, with the ticks per millisecond rounded
/// down.
pub fn get_time_ms(ticks: usize, clock_freq: usize) -> (r: u64)
    requires
        clock_freq >= MSEC_PER_SEC,
    ensures
        r == ticks / (clock_freq / MSEC_PER_SEC),
{
    (ticks / (clock_freq / MSEC_PER_SEC)) as u64
}

/// Milliseconds after `ticks` timer ticks at `clock_freq` per second.
pub fn read_time_ms(ticks: usize, clock_freq: usize) -> (r: u64)
    requires
        clock_freq >= MSEC_PER_SEC,
    ensures
        r == ticks / (clock_freq / MSEC_PER_SEC),
{
    get_time_ms(ticks, clock_freq)
}

/// Nanoseconds after `ticks` timer ticks at `clock_freq` per second.
pub fn read_time_ns(ticks: usize, clock_freq: usize) -> (r: u64)
    requires
        clock_freq > 0,
        ticks * NSEC_PER_SEC <= u64::MAX,
    ensures
        r == ticks * NSEC_PER_SEC / (clock_freq as int),
{
    (ticks as u64) * NSEC_PER_SEC / (clock_freq as u64)
}

/// Microseconds after `ticks` timer ticks at `clock_freq` per second.
pub fn read_time_us(ticks: usize, clock_freq: usize) -> (r: u64)
    requires
        clock_freq > 0,
        ticks * USEC_PER_SEC <= u64::MAX,
    ensures
        r == ticks * USEC_PER_SEC / (clock_freq as int),
{
    (ticks as u64) * USEC_PER_SEC / (clock_freq as u64)
}

/// A time as seconds and nanoseconds.
#[derive(Debug, Clone, Copy, PartialEq, Eq, Structural)]
pub struct TimeSpec {
    pub tv_sec: usize,
    pub tv_nsec: usize,
}

/// A time as seconds and microseconds.
#[derive(Debug, Clone, Copy, PartialEq, Eq, Structural)]
pub struct TimeVal {
    pub tv_sec: usize,
    pub tv_usec: usize,
}

/// Conversion of a time to timer ticks.
pub trait ToClock {
    /// The conversion at `clock_freq` ticks per second fits in a `usize`.
    spec fn clock_fits(&self, clock_freq: usize) -> bool;

    fn to_clock(&self, clock_freq: usize) -> usize
        requires
            self.clock_fits(clock_freq),
    ;
}

/// The time after a given number of timer ticks.
pub trait TimeNow: Sized {
    /// The conversion of `ticks` at `clock_freq` ticks per second fits in a
    /// `usize` at every step.
    spec fn now_fits(ticks: usize, clock_freq: usize) -> bool;

    fn now(ticks: usize, clock_freq: usize) -> Self
        requires
            Self::now_fits(ticks, clock_freq),
    ;
}

impl ToClock for TimeSpec {
    open spec fn clock_fits(&self, clock_freq: usize) -> bool {
        &&& self.tv_nsec * clock_freq <= usize::MAX
        &&& self.tv_sec * clock_freq + self.tv_nsec * clock_freq / (NSEC_PER_SEC as int)
            <= usize::MAX
    }

    fn to_clock(&self, clock_freq: usize) -> (r: usize)
        ensures
            r == self.tv_sec * clock_freq + self.tv_nsec * clock_freq / (NSEC_PER_SEC as int),
    {
        proof {
            assert(self.tv_nsec * clock_freq / (NSEC_PER_SEC as int) >= 0) by (nonlinear_arith)
                requires
                    self.tv_nsec * clock_freq >= 0,
            ;
            assert(self.tv_sec * clock_freq >= 0) by (nonlinear_arith);
        }
        self.tv_sec * clock_freq + self.tv_nsec * clock_freq / (NSEC_PER_SEC as usize)
    }
}

impl TimeNow for TimeSpec {
    open spec fn now_fits(ticks: usize, clock_freq: usize) -> bool {
        clock_freq > 0 && (ticks % clock_freq) * NSEC_PER_SEC <= usize::MAX
    }

    fn now(ticks: usize, clock_freq: usize) -> (r: Self)
        ensures
            r.tv_sec == ticks / clock_freq,
            r.tv_nsec == (ticks % clock_freq) * NSEC_PER_SEC / (clock_freq as int),
    {
        TimeSpec {
            tv_sec: ticks / clock_freq,
            tv_nsec: (ticks % clock_freq) * (NSEC_PER_SEC as usize) / clock_freq,
        }
    }
}

impl TimeNow for TimeVal {
    open spec fn now_fits(ticks: usize, clock_freq: usize) -> bool {
        clock_freq > 0 && (ticks % clock_freq) * USEC_PER_SEC <= usize::MAX
    }

    fn now(ticks: usize, clock_freq: usize) -> (r: Self)
        ensures
            r.tv_sec == ticks / clock_freq,
            r.tv_usec == (ticks % clock_freq) * USEC_PER_SEC / (clock_freq as int),
    {
        TimeVal {
            tv_sec: ticks / clock_freq,
            tv_usec: (ticks % clock_freq) * (USEC_PER_SEC as usize) / clock_freq,
        }
    }
}

} // verus!
