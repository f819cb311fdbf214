//! Local time, and its offset from the exchange's clock.

use vstd::prelude::*;

verus! {

/// Milliseconds since the epoch, from [`std::time::SystemTime::now`]; `None` before the epoch.
/// Nothing is promised of the time.
#[verifier::external_body]
fn epoch_millis() -> (r: Option<u128>) {
    std::time::SystemTime::now()
        .duration_since(std::time::UNIX_EPOCH)
        .ok()
        .map(|d| d.as_millis())
}

/// A reading of the clock as a timestamp: zero before the epoch.
pub open spec fn timestamp(millis: Option<u128>) -> i64 {
    match millis {
        Some(m) => m as i64,
        None => 0,
    }
}

/// A reading of the clock as a timestamp: zero before the epoch.
pub fn timestamp_of(millis: Option<u128>) -> (r: i64)
    ensures
        r == timestamp(millis),
{
    match millis {
        Some(m) => {
            #[verifier::truncate]
            (m as i64)
        },
        None => 0,
    }
}

/// The clock was read, and this is what it gave.
pub closed spec fn is_clock_reading(millis: Option<u128>) -> bool {
    call_ensures(epoch_millis, (), millis)
}

/// Current time in epoch milliseconds.
pub fn now_ms() -> (r: i64)
    ensures
        exists|millis: Option<u128>| #[trigger]
            is_clock_reading(millis) && r == timestamp(millis),
{
    let millis = epoch_millis();
    assert(is_clock_reading(millis));
    timestamp_of(millis)
}

/// Half of a difference, rounded toward zero.
pub open spec fn half(d: int) -> int {
    if d < 0 {
        -((-d) / 2)
    } else {
        d / 2
    }
}

/// How far the local clock is ahead of the server's, taking the middle of the request.
pub open spec fn offset(before: i64, after: i64, server: i64) -> int {
    before + half(after - before) - server
}

/// How far the local clock is ahead of the server's; `None` where that is not a timestamp.
pub fn clock_offset(before: i64, after: i64, server: i64) -> (r: Option<i64>)
    ensures
        r == if i64::MIN <= offset(before, after, server) <= i64::MAX {
            Some(offset(before, after, server) as i64)
        } else {
            None
        },
{
    let d: i128 = after as i128 - before as i128;
    let h: i128 = if d < 0 {
        -((-d) / 2)
    } else {
        d / 2
    };
    let o: i128 = before as i128 + h - server as i128;
    if -0x8000_0000_0000_0000 <= o && o <= 0x7fff_ffff_ffff_ffff {
        Some(o as i64)
    } else {
        None
    }
}

/// A local time in the time base of the exchange; `None` where that is not a timestamp.
pub fn exchange_time(now: i64, offset_ms: i64) -> (r: Option<i64>)
    ensures
        r == if i64::MIN <= now - offset_ms <= i64::MAX {
            Some((now - offset_ms) as i64)
        } else {
            None
        },
{
    now.checked_sub(offset_ms)
}

/// How often the first synchronisation is tried.
pub const INITIAL_RETRIES: u32 = 5;

/// The pause between its tries.
pub const INITIAL_DELAY_MS: u64 = 2000;

/// The pause after the failed try number `attempt`, counted from one; `None` after the last.
pub fn initial_retry(attempt: u32) -> (r: Option<u64>)
    ensures
        r == if attempt < INITIAL_RETRIES {
            Some(INITIAL_DELAY_MS)
        } else {
            None
        },
{
    if attempt < INITIAL_RETRIES {
        Some(INITIAL_DELAY_MS)
    } else {
        None
    }
}

/// With the same one-way delay both ways, an event that the server stamps with its own clock
/// reads as zero latency: local time brought to the exchange's time base gives back the server
/// time of the middle of the request.
pub proof fn law_offset_cancels(before: i64, delay: int, server: i64)
    requires
        0 <= delay,
        before + 2 * delay <= i64::MAX,
    ensures
        before + delay - offset(before, (before + 2 * delay) as i64, server) == server,
{
}

} // verus!
