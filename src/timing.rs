use vstd::prelude::*;

use crate::models::ExecutionError;

verus! {

/// A jittered pause: the draw clamped at zero, once the standard deviation
/// has been found well formed.
pub open spec fn jittered(stdev_ms: int, draw_ms: int) -> Result<u64, ExecutionError> {
    if stdev_ms < 0 {
        Err(ExecutionError::InvalidDistributionParameters)
    } else if draw_ms < 0 {
        Ok(0)
    } else {
        Ok(draw_ms as u64)
    }
}

/// The pause to take for one draw `draw_ms` of a normal distribution with
/// standard deviation `stdev_ms`: never negative, and refused when the
/// deviation is negative.
pub fn jittered_wait(stdev_ms: i64, draw_ms: i64) -> (r: Result<u64, ExecutionError>)
    ensures
        r == jittered(stdev_ms as int, draw_ms as int),
        stdev_ms >= 0 ==> r is Ok && (draw_ms >= 0 ==> r->Ok_0 == draw_ms) && (draw_ms < 0
            ==> r->Ok_0 == 0),
        stdev_ms < 0 ==> r == Err::<u64, ExecutionError>(ExecutionError::InvalidDistributionParameters),
{
    if stdev_ms < 0 {
        Err(ExecutionError::InvalidDistributionParameters)
    } else if draw_ms < 0 {
        Ok(0)
    } else {
        Ok(draw_ms as u64)
    }
}

} // verus!
