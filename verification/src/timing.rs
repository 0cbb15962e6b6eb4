use vstd::prelude::*;

verus! {

/// Relies on std::time::SystemTime::now: reads the machine's clock as
/// milliseconds since the Unix epoch. The reading depends on the clock
/// alone, so nothing is promised of the value; the call panics only if the
/// clock reads before the epoch.
#[verifier::external_body]
pub fn get_current_time() -> u128 {
    std::time::SystemTime::now().duration_since(std::time::UNIX_EPOCH).expect(
        "Time went backwards",
    ).as_millis()
}

/// Elapsed milliseconds between two clock readings, narrowed to the width
/// the executor interface reports.
pub fn compute_time_diff_ms(start_time: u128, end_time: u128) -> (r: i32)
    requires
        start_time <= end_time,
    ensures
        r == (end_time - start_time) as i32,
{
    #[verifier::truncate] ((end_time - start_time) as i32)
}

} // verus!
