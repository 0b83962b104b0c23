//! Critical values of the standard normal distribution for two-sided
//! intervals, from a short table, in thousandths.

use vstd::prelude::*;

verus! {

/// The critical value used for a level that the table does not hold: that of
/// 95 percent.
pub const DEFAULT_Z_MILLI: u32 = 1960;

/// The table: a confidence level in whole percent, and its critical value in
/// thousandths.
pub open spec fn z_table(percent: int) -> Option<int> {
    if percent == 80 {
        Some(1282)
    } else if percent == 90 {
        Some(1645)
    } else if percent == 95 {
        Some(1960)
    } else if percent == 98 {
        Some(2326)
    } else if percent == 99 {
        Some(2576)
    } else {
        None
    }
}

/// Looks a level up in the table.
pub fn z_from(percent: i32) -> (z: Option<u32>)
    ensures
        z is Some <==> z_table(percent as int) is Some,
        z is Some ==> z->0 as int == z_table(percent as int)->0,
{
    match percent {
        80 => Some(1282),
        90 => Some(1645),
        95 => Some(1960),
        98 => Some(2326),
        99 => Some(2576),
        _ => None,
    }
}

/// The critical value for a level: the table's, or the default where the
/// table has none.
pub fn critical_value(percent: i32) -> (z: u32)
    ensures
        z as int == match z_table(percent as int) {
            Some(v) => v,
            None => DEFAULT_Z_MILLI as int,
        },
{
    match z_from(percent) {
        Some(v) => v,
        None => DEFAULT_Z_MILLI,
    }
}

} // verus!
