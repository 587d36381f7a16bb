//! Microsecond timestamps.

use vstd::prelude::*;

verus! {

/// A point in time, counted in microseconds.
///
/// The field is the microsecond count itself; `as_micros` hands it out.
#[derive(Copy, Clone, Debug, PartialEq, Eq, PartialOrd, Structural)]
pub struct Timestamp(pub u64);

/// `std::time::UNIX_EPOCH.elapsed()`: the time since the Unix epoch, handed
/// out as its whole seconds (`Duration::as_secs`) and the nanoseconds beyond
/// them (`Duration::subsec_nanos`), or `None` when the clock stands before the
/// epoch.  The reading depends on the clock, so the contract claims only what
/// the documentation of `subsec_nanos` says of every duration: the nanoseconds
/// are fewer than one second.
#[verifier::external_body]
fn realtime_clock() -> (r: Option<(u64, u32)>)
    ensures
        r matches Some((_secs, nanos)) ==> nanos < 1_000_000_000,
{
    match std::time::UNIX_EPOCH.elapsed() {
        Ok(d) => Some((d.as_secs(), d.subsec_nanos())),
        Err(_) => None,
    }
}

/// The microsecond count of a clock reading of `secs` seconds and `nanos`
/// nanoseconds, the nanoseconds cut down to whole microseconds, kept to its
/// low 64 bits.
pub open spec fn clock_micros(secs: u64, nanos: u32) -> u64 {
    (secs * 1_000_000 + nanos / 1_000) as u64
}

/// The duration that `core::time::Duration::from_micros` makes of `micros`.
pub uninterp spec fn duration_of_micros(micros: u64) -> core::time::Duration;

/// `core::time::Duration::from_micros`: the contract names its result
/// `duration_of_micros`, a function of the argument alone.  vstd has no model
/// of `Duration`, so what the duration holds is left unsaid beyond the name.
#[verifier::external_body]
fn duration_from_micros(micros: u64) -> (d: core::time::Duration)
    ensures
        d == duration_of_micros(micros),
{
    core::time::Duration::from_micros(micros)
}

impl Timestamp {
    /// The timestamp of a clock reading of `secs` seconds and `nanos`
    /// nanoseconds.
    pub fn from_clock(secs: u64, nanos: u32) -> (t: Self)
        ensures
            t.0 == clock_micros(secs, nanos),
    {
        let total: u128 = secs as u128 * 1_000_000 + (nanos / 1_000) as u128;
        Timestamp(total as u64)
    }

    /// The current wall-clock time: the clock's reading since the Unix epoch,
    /// or zero when the clock stands before the epoch.
    pub fn now_realtime() -> (t: Self)
        ensures
            t.0 == 0 || exists|secs: u64, nanos: u32|
                nanos < 1_000_000_000 && t.0 == #[trigger] clock_micros(secs, nanos),
    {
        match realtime_clock() {
            Some((secs, nanos)) => {
                let t = Timestamp::from_clock(secs, nanos);
                assert(nanos < 1_000_000_000 && t.0 == clock_micros(secs, nanos));
                t
            },
            None => Timestamp(0),
        }
    }

    /// The number of whole microseconds.
    pub fn as_micros(&self) -> (r: u64)
        ensures
            r == self.0,
    {
        self.0
    }

    /// The number of whole milliseconds.
    pub fn as_millis(&self) -> (r: u64)
        ensures
            r == self.0 / 1_000,
    {
        self.0 / 1_000
    }

    /// The number of nanoseconds.
    pub fn as_nanos(&self) -> (r: u128)
        ensures
            r == self.0 * 1_000,
    {
        self.0 as u128 * 1_000
    }

    /// The number of whole seconds.
    pub fn as_secs(&self) -> (r: u64)
        ensures
            r == self.0 / 1_000_000,
    {
        self.0 / 1_000_000
    }

    /// The microseconds from `earlier` to `self`, zero when `earlier` is later.
    pub fn micros_since(&self, earlier: &Timestamp) -> (r: u64)
        ensures
            r == (if self.0 >= earlier.0 { self.0 - earlier.0 } else { 0 }),
    {
        self.0.saturating_sub(earlier.0)
    }
}

impl From<u64> for Timestamp {
    fn from(val: u64) -> (r: Self) {
        Timestamp(val)
    }
}

impl vstd::std_specs::convert::FromSpecImpl<u64> for Timestamp {
    open spec fn obeys_from_spec() -> bool {
        true
    }

    open spec fn from_spec(val: u64) -> Self {
        Timestamp(val)
    }
}

impl From<Timestamp> for u64 {
    fn from(val: Timestamp) -> (r: Self) {
        val.0
    }
}

impl vstd::std_specs::convert::FromSpecImpl<Timestamp> for u64 {
    open spec fn obeys_from_spec() -> bool {
        true
    }

    open spec fn from_spec(val: Timestamp) -> Self {
        val.0
    }
}

impl core::ops::Sub for Timestamp {
    type Output = core::time::Duration;

    /// The time from `other` to `self`, zero when `other` is later; it is
    /// `micros_since` microseconds long.
    fn sub(self, other: Self) -> (d: core::time::Duration)
        ensures
            d == duration_of_micros(
                (if self.0 >= other.0 {
                    self.0 - other.0
                } else {
                    0
                }) as u64,
            ),
    {
        duration_from_micros(self.micros_since(&other))
    }
}

impl vstd::std_specs::ops::SubSpecImpl for Timestamp {
    open spec fn obeys_sub_spec() -> bool {
        true
    }

    open spec fn sub_req(self, other: Self) -> bool {
        true
    }

    open spec fn sub_spec(self, other: Self) -> core::time::Duration {
        duration_of_micros(
            (if self.0 >= other.0 {
                self.0 - other.0
            } else {
                0
            }) as u64,
        )
    }
}

} // verus!
