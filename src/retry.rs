use vstd::prelude::*;

verus! {

/// Number of retries after a busy database in the bounded discipline; one
/// more attempt follows, whose result is kept whatever it is.
pub const MAX_BUSY_RETRIES: u32 = 100;

/// How long to keep retrying an operation that found the database busy.
#[derive(PartialEq, Eq, Structural, Debug, Clone, Copy)]
pub enum RetryDiscipline {
    /// Retry for as long as the database is busy.
    Indefinitely,
    /// Retry at most `MAX_BUSY_RETRIES` times.
    Bounded,
}

/// Whether to sleep and try again after the `busy_errors`-th busy error in a row.
pub fn retry_after_busy(discipline: RetryDiscipline, busy_errors: u32) -> (r: bool)
    ensures
        r == (discipline == RetryDiscipline::Indefinitely || busy_errors <= MAX_BUSY_RETRIES),
{
    match discipline {
        RetryDiscipline::Indefinitely => true,
        RetryDiscipline::Bounded => busy_errors <= MAX_BUSY_RETRIES,
    }
}

/// Relies on `fastrand::u64` over a half-open range: a value within it.
#[verifier::external_body]
fn random_below(lo: u64, hi: u64) -> (r: u64)
    requires
        lo < hi,
    ensures
        lo <= r < hi,
{
    fastrand::u64(lo..hi)
}

/// A random pause before retrying a busy operation: 1 to 49 milliseconds.
pub fn busy_backoff_millis() -> (r: u64)
    ensures
        1 <= r < 50,
{
    random_below(1, 50)
}

} // verus!
