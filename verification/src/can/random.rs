use vstd::prelude::*;

verus! {

/// Relies on rand::random_range: a uniformly distributed index below
/// the bound, drawn from the thread-local generator. Nothing beyond
/// the bound is promised of a random result.
#[verifier::external_body]
pub(crate) fn random_below(n: usize) -> (r: usize)
    requires
        n > 0,
    ensures
        r < n,
{
    rand::random_range(0..n)
}

/// Relies on rand::fill: a buffer of the requested length filled with
/// bytes from the thread-local generator. Only the length is promised
/// of a random result.
#[verifier::external_body]
pub(crate) fn random_bytes(len: usize) -> (r: Vec<u8>)
    ensures
        r@.len() == len as int,
{
    let mut v = vec![0u8; len];
    rand::fill(&mut v[..]);
    v
}

/// Relies on chrono::Local::now: the current wall-clock time in
/// milliseconds since the Unix epoch. Nothing is promised of the
/// clock's reading.
#[verifier::external_body]
pub(crate) fn wall_clock_ms() -> (r: i64) {
    chrono::Local::now().timestamp_millis()
}

} // verus!
