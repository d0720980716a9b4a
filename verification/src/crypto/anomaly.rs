//! The integer checks of the behavioural profile that flags a session unlike
//! the user's earlier ones (an unusual hour, an overlong session), and the
//! running average of session durations.

use vstd::prelude::*;

verus! {

/// Sessions needed before the hour of use is judged.
pub const HOUR_CHECK_MIN_SESSIONS: u32 = 10;
/// Sessions needed before the length of a session is judged.
pub const DURATION_CHECK_MIN_SESSIONS: u32 = 5;

/// The sum of some counts.
pub open spec fn total(counts: Seq<u32>) -> int
    decreases counts.len(),
{
    if counts.len() == 0 { 0 } else { total(counts.drop_last()) + counts.last() }
}

proof fn lemma_total_prefix(counts: Seq<u32>, i: int)
    requires
        0 <= i <= counts.len(),
    ensures
        0 <= total(counts.take(i)) <= total(counts),
    decreases counts.len() - i,
{
    if i < counts.len() {
        lemma_total_prefix(counts, i + 1);
        assert(counts.take(i + 1).drop_last() =~= counts.take(i));
    } else {
        assert(counts.take(i) =~= counts);
    }
    lemma_total_nonneg(counts.take(i));
}

proof fn lemma_total_nonneg(counts: Seq<u32>)
    ensures
        total(counts) >= 0,
    decreases counts.len(),
{
    if counts.len() > 0 {
        lemma_total_nonneg(counts.drop_last());
    }
}

/// Whether the current hour is one the user has never been active in, while
/// on average every hour has seen more than two sessions (judged after ten
/// sessions). `active_hours` counts the sessions started in each hour.
pub fn unusual_active_hour(active_hours: &[u32; 24], hour: usize, sessions_counted: u32) -> (b: bool)
    requires
        total(active_hours@) <= u32::MAX,
    ensures
        b == (hour < 24 && sessions_counted >= HOUR_CHECK_MIN_SESSIONS && active_hours@[hour as int] == 0
            && total(active_hours@) / 24 > 2),
{
    if hour >= 24 || sessions_counted < HOUR_CHECK_MIN_SESSIONS {
        return false;
    }
    let mut sum: u32 = 0;
    let mut i: usize = 0;
    while i < 24
        invariant
            i <= 24,
            active_hours@.len() == 24,
            sum == total(active_hours@.take(i as int)),
            total(active_hours@) <= u32::MAX,
        decreases 24 - i,
    {
        proof {
            lemma_total_prefix(active_hours@, i + 1);
            assert(active_hours@.take(i + 1).drop_last() =~= active_hours@.take(i as int));
        }
        sum = sum + active_hours[i];
        i = i + 1;
    }
    assert(active_hours@.take(24) =~= active_hours@);
    active_hours[hour] == 0 && sum / 24 > 2
}

/// Whether a session has run more than three times the average length
/// (judged after five sessions).
pub fn extended_session(duration_secs: u64, avg_secs: u64, sessions_counted: u32) -> (b: bool)
    requires
        sessions_counted >= DURATION_CHECK_MIN_SESSIONS ==> avg_secs * 3 <= u64::MAX,
    ensures
        b == (sessions_counted >= DURATION_CHECK_MIN_SESSIONS && duration_secs > avg_secs * 3),
{
    sessions_counted >= DURATION_CHECK_MIN_SESSIONS && duration_secs > avg_secs * 3
}

/// The average session length after a session of `duration_secs` ends,
/// when `sessions_counted` sessions averaged `avg_secs`.
pub fn averaged_duration(avg_secs: u64, sessions_counted: u32, duration_secs: u64) -> (r: u64)
    requires
        sessions_counted < u32::MAX,
        avg_secs * sessions_counted + duration_secs <= u64::MAX,
    ensures
        sessions_counted == 0 ==> r == duration_secs,
        sessions_counted > 0 ==> r == (avg_secs * sessions_counted + duration_secs) / (sessions_counted + 1),
{
    if sessions_counted == 0 {
        return duration_secs;
    }
    assert(avg_secs * (sessions_counted as u64) <= u64::MAX) by (nonlinear_arith)
        requires avg_secs * sessions_counted + duration_secs <= u64::MAX, duration_secs >= 0;
    let total_duration = avg_secs * sessions_counted as u64;
    (total_duration + duration_secs) / (sessions_counted as u64 + 1)
}

} // verus!
