//! What the library says of `std::time::Duration`.

use std::time::Duration;

use vstd::prelude::*;

verus! {

/// The length of the longest duration, in nanoseconds.
pub open spec fn max_nanos() -> nat {
    (u64::MAX * 1_000_000_000 + 999_999_999) as nat
}

/// The length of a duration in nanoseconds, which is what
/// `Duration::as_nanos` returns.
pub uninterp spec fn nanos(duration: Duration) -> nat;

/// The text that the `Debug` of a duration of so many nanoseconds writes.
pub uninterp spec fn duration_text(nanos: nat) -> Seq<char>;

/// `Duration::as_nanos`: the length in nanoseconds, which no duration has more
/// of than the longest.
pub assume_specification[ Duration::as_nanos ](duration: &Duration) -> (r: u128)
    ensures
        r == nanos(*duration),
        r <= max_nanos(),
;

/// `Duration::from_secs`: so many seconds.
pub assume_specification[ Duration::from_secs ](secs: u64) -> (r: Duration)
    ensures
        nanos(r) == secs * 1_000_000_000,
;

/// `Duration::from_millis`: so many thousandths of a second.
pub assume_specification[ Duration::from_millis ](millis: u64) -> (r: Duration)
    ensures
        nanos(r) == millis * 1_000_000,
;

/// `Duration::new`, which panics where the seconds that the nanoseconds hold do
/// not fit: so many seconds and nanoseconds.
pub assume_specification[ Duration::new ](secs: u64, subsec: u32) -> (r: Duration)
    requires
        subsec < 1_000_000_000,
    ensures
        nanos(r) == secs * 1_000_000_000 + subsec,
;

/// `Duration::saturating_mul`: so many times the length, or the longest
/// duration where that is longer.
pub assume_specification[ Duration::saturating_mul ](duration: Duration, rhs: u32) -> (r: Duration)
    ensures
        nanos(r) == (if nanos(duration) * rhs <= max_nanos() {
            nanos(duration) * rhs as nat
        } else {
            max_nanos()
        }),
;

/// `format!("{:?}", ..)` on a duration. Nothing is said of the text but that
/// the length alone decides it.
#[verifier::external_body]
pub(crate) fn debug_duration(duration: Duration) -> (r: String)
    ensures
        r@ == duration_text(nanos(duration)),
{
    format!("{:?}", duration)
}

/// The whole milliseconds of a duration.
pub fn whole_millis(duration: Duration) -> (r: u128)
    ensures
        r == nanos(duration) / 1_000_000,
{
    duration.as_nanos() / 1_000_000
}

/// A duration without what is below a millisecond.
pub fn in_whole_millis(duration: Duration) -> (r: Duration)
    ensures
        nanos(r) == nanos(duration) / 1_000_000 * 1_000_000,
{
    let millis: u128 = whole_millis(duration);
    let length: u128 = duration.as_nanos();
    let secs: u128 = millis / 1_000;
    assert(secs <= u64::MAX) by {
        assert(length <= max_nanos());
    }
    Duration::new(secs as u64, (millis % 1_000 * 1_000_000) as u32)
}

/// Whether `a` is no longer than `b`.
pub fn no_longer(a: Duration, b: Duration) -> (r: bool)
    ensures
        r == (nanos(a) <= nanos(b)),
        nanos(a) <= max_nanos(),
        nanos(b) <= max_nanos(),
{
    a.as_nanos() <= b.as_nanos()
}

} // verus!
