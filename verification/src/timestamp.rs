//! Millisecond unix timestamps.

use vstd::prelude::*;

verus! {

#[verifier::external_type_specification]
#[verifier::external_body]
pub struct ExSystemTime(std::time::SystemTime);

/// `SystemTime::now`: the clock's reading. Nothing is claimed of it.
#[verifier::external_body]
fn system_now() -> (r: std::time::SystemTime) {
    std::time::SystemTime::now()
}

/// `SystemTime::duration_since(UNIX_EPOCH)`: the time since the unix epoch,
/// or `None` for a reading before it. Nothing is claimed of the value.
#[verifier::external_body]
fn since_unix_epoch(t: &std::time::SystemTime) -> (r: Option<core::time::Duration>) {
    t.duration_since(std::time::UNIX_EPOCH).ok()
}

/// `Duration::as_millis`: the whole milliseconds of a duration. Nothing is
/// claimed of the value (a duration is opaque here).
#[verifier::external_body]
fn duration_millis(d: &core::time::Duration) -> (r: u128) {
    d.as_millis()
}

/// The current time, in milliseconds since the unix epoch (cast to `i64`);
/// 0 when the clock reads before the epoch.
pub fn now_ms() -> (r: i64) {
    let t = system_now();
    match since_unix_epoch(&t) {
        Some(d) => {
            let ms = duration_millis(&d);
            #[verifier::truncate]
            (ms as i64)
        },
        None => 0,
    }
}

/// A millisecond unix timestamp.
#[derive(Debug, Clone, Copy, PartialEq, Eq, Structural, PartialOrd, Ord)]
pub struct Timestamp(pub i64);

impl Timestamp {
    /// The current time.
    pub fn now() -> (r: Timestamp) {
        Timestamp(now_ms())
    }

    /// The number of milliseconds.
    pub fn as_i64(self) -> (r: i64)
        ensures
            r == self.0,
    {
        self.0
    }
}

impl Default for Timestamp {
    /// The epoch.
    fn default() -> (r: Timestamp)
        ensures
            r.0 == 0,
    {
        Timestamp(0)
    }
}

impl From<i64> for Timestamp {
    fn from(v: i64) -> (r: Timestamp) {
        Timestamp(v)
    }
}

impl vstd::std_specs::convert::FromSpecImpl<i64> for Timestamp {
    open spec fn obeys_from_spec() -> bool {
        true
    }

    open spec fn from_spec(v: i64) -> Timestamp {
        Timestamp(v)
    }
}

impl From<Timestamp> for i64 {
    fn from(t: Timestamp) -> (r: i64) {
        t.0
    }
}

impl vstd::std_specs::convert::FromSpecImpl<Timestamp> for i64 {
    open spec fn obeys_from_spec() -> bool {
        true
    }

    open spec fn from_spec(t: Timestamp) -> i64 {
        t.0
    }
}

/// Converting a number of milliseconds to a timestamp and back gives the number.
pub proof fn law_timestamp_round_trip(v: i64)
    ensures
        <i64 as vstd::std_specs::convert::FromSpec<Timestamp>>::from_spec(
            <Timestamp as vstd::std_specs::convert::FromSpec<i64>>::from_spec(v),
        ) == v,
{
}

} // verus!
