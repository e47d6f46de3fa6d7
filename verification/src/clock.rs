//! Times and waits.

use vstd::prelude::*;

verus! {

/// A second, in the nanoseconds in which moments are counted.
pub const SECOND: u64 = 1_000_000_000;

/// A millisecond.
pub const MILLISECOND: u64 = 1_000_000;

/// Whether more than `limit` has gone by since `since`.
pub open spec fn longer_than(since: u64, now: u64, limit: u64) -> bool {
    now - since > limit
}

/// Whether more than `limit` has gone by since `since`.
pub fn passed(since: u64, now: u64, limit: u64) -> (r: bool)
    ensures
        r == longer_than(since, now, limit),
{
    now >= since && now - since > limit
}

/// The first wait before something is tried again, in seconds.
pub const FIRST_DELAY: u64 = 1;

/// The longest wait before something is tried again, in seconds.
pub const LONGEST_DELAY: u64 = 60;

/// The wait that follows a wait: twice as long, up to the longest.
pub open spec fn delay_after(delay: int) -> int {
    if delay * 2 < LONGEST_DELAY {
        delay * 2
    } else {
        LONGEST_DELAY as int
    }
}

/// The wait before attempt number `n`, counted from zero.
pub open spec fn delay_of(n: nat) -> int
    decreases n,
{
    if n == 0 {
        FIRST_DELAY as int
    } else {
        delay_after(delay_of((n - 1) as nat))
    }
}

/// The wait that follows a wait.
pub fn next_delay(delay: u64) -> (r: u64)
    ensures
        r == delay_after(delay as int),
{
    if delay < LONGEST_DELAY / 2 {
        delay * 2
    } else {
        LONGEST_DELAY
    }
}

/// The waits double from one second on, until they reach a minute and stay
/// there.
pub proof fn delays_double_up_to_a_minute(n: nat)
    ensures
        1 <= delay_of(n) <= 60,
        n < 6 ==> delay_of(n + 1) == if n < 5 {
            2 * delay_of(n)
        } else {
            60
        },
        n >= 6 ==> delay_of(n) == 60,
    decreases n,
{
    reveal_with_fuel(delay_of, 8);
    if n > 6 {
        delays_double_up_to_a_minute((n - 1) as nat);
    }
}

/// A wait is over once more than its limit has gone by, and not before.
pub proof fn waits_last_for_their_limit(since: u64, now: u64, limit: u64)
    ensures
        longer_than(since, now, limit) <==> since + limit < now,
{
}

/// A wait is followed by one twice as long, or by one of a minute where that would
/// be longer.
pub proof fn waits_double(delay: int)
    ensures
        delay < 30 ==> delay_after(delay) == 2 * delay,
        delay >= 30 ==> delay_after(delay) == 60,
        delay_of(0) == 1,
{
}

/// Time has passed once more than the limit has gone by, and not where the clock was
/// set back; and waits double up to a minute.
pub proof fn time_passes(since: u64, now: u64, limit: u64, yes: bool, delay: u64, next: u64)
    ensures
        call_ensures(passed, (since, now, limit), yes) ==> (yes <==> since + limit < now),
        call_ensures(next_delay, (delay,), next) && delay <= 30 ==> next == 2 * delay,
        call_ensures(next_delay, (delay,), next) && delay > 30 ==> next == 60,
{
}

}
