//! The offset between an exchange's clock and the local one, kept once per
//! process: `i64::MAX` marks an offset not yet measured.
use vstd::prelude::*;

verus! {

/// Marks a stored offset that was not measured yet.
pub const UNSET_OFFSET: i64 = 0x7fff_ffff_ffff_ffff;

/// The stored offset, unless it is the unset mark.
pub fn cached_offset(stored: i64) -> (r: Option<i64>)
    ensures
        stored == i64::MAX ==> r is None,
        stored != i64::MAX ==> r == Some(stored),
{
    if stored == UNSET_OFFSET {
        None
    } else {
        Some(stored)
    }
}

/// The server's time minus the local time, in milliseconds; `None` where the
/// difference does not fit an `i64`.
pub fn time_offset(server_ms: i64, local_ms: i64) -> (r: Option<i64>)
    ensures
        i64::MIN <= server_ms - local_ms <= i64::MAX ==> r == Some((server_ms - local_ms) as i64),
        !(i64::MIN <= server_ms - local_ms <= i64::MAX) ==> r is None,
{
    server_ms.checked_sub(local_ms)
}

/// The server's time: the local time plus the offset; `None` where the sum
/// does not fit an `i64`.
pub fn server_now(local_ms: i64, offset_ms: i64) -> (r: Option<i64>)
    ensures
        i64::MIN <= local_ms + offset_ms <= i64::MAX ==> r == Some((local_ms + offset_ms) as i64),
        !(i64::MIN <= local_ms + offset_ms <= i64::MAX) ==> r is None,
{
    local_ms.checked_add(offset_ms)
}

} // verus!
