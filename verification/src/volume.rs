//! Volume arithmetic: one step up or down, clamped to the appliance's range.

use vstd::prelude::*;

verus! {

/// The appliance accepts volume levels from 0 to 100 inclusive.
pub open spec fn clamp_volume(v: int) -> int {
    if v < 0 {
        0
    } else if v > 100 {
        100
    } else {
        v
    }
}

/// The level to request after one volume step from `current`.
///
/// The reported level is taken as a raw integer; the result is the clamped
/// neighbour, so a step down from 0 stays at 0 and a step up from 100 stays
/// at 100.
pub fn step_target(current: i64, up: bool) -> (nv: i8)
    ensures
        nv as int == clamp_volume(current + (if up { 1int } else { -1int })),
        0 <= nv <= 100,
{
    if up {
        if current >= 100 {
            100
        } else if current < 0 {
            0
        } else {
            (current + 1) as i8
        }
    } else {
        if current > 101 {
            100
        } else if current <= 0 {
            0
        } else {
            (current - 1) as i8
        }
    }
}

} // verus!
