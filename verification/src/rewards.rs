//! The daily reward: who may collect it, what it pays, and how long a
//! member who collected it must wait.

use vstd::prelude::*;

verus! {

/// Seconds a member waits between two collections.
pub const DAILY_COOLDOWN_SECS: i64 = 86400;

/// Coins one collection pays.
pub const DAILY_REWARD: i64 = 100;

/// The outcome of asking for the daily reward.
#[derive(Debug, Clone, Copy, PartialEq, Eq)]
pub enum DailyClaim {
    /// Paid: `reward` coins, bringing the balance to `new_balance`; the
    /// collection time to store is `claimed_at`.
    Granted { reward: i64, new_balance: i64, claimed_at: i64 },
    /// Refused: the wait left, in whole hours and the whole minutes beyond them.
    TooSoon { hours: i64, minutes: i64 },
}

/// Whether a member last paid at `last_daily` may collect at `now`.
pub open spec fn claim_allowed(now: int, last_daily: Option<i64>) -> bool {
    match last_daily {
        None => true,
        Some(last) => now - last >= DAILY_COOLDOWN_SECS,
    }
}

/// Seconds left to wait at `now` after a collection at `last`.
pub open spec fn wait_left(now: int, last: int) -> int {
    DAILY_COOLDOWN_SECS - (now - last)
}

/// What the arithmetic of a claim at `now` needs to stay within `i64`.
pub open spec fn claim_in_range(now: i64, last_daily: Option<i64>, points: i64) -> bool {
    &&& last_daily matches Some(last) ==> {
        &&& i64::MIN <= now - last <= i64::MAX
        &&& wait_left(now as int, last as int) <= i64::MAX
    }
    &&& claim_allowed(now as int, last_daily) ==> points + DAILY_REWARD <= i64::MAX
}

/// Whether the arithmetic of a claim at `now` stays within `i64`: the
/// elapsed time, the wait left, and the new balance.
pub fn claim_fits(now: i64, last_daily: Option<i64>, points: i64) -> (r: bool)
    ensures
        r == claim_in_range(now, last_daily, points),
{
    let (elapsed_fits, allowed) = match last_daily {
        Some(last) => {
            let elapsed: i128 = now as i128 - last as i128;
            let fits = i64::MIN as i128 <= elapsed && elapsed <= i64::MAX as i128 && 86400
                - elapsed <= i64::MAX as i128;
            (fits, elapsed >= 86400)
        },
        None => (true, true),
    };
    elapsed_fits && (!allowed || points <= i64::MAX - DAILY_REWARD)
}

/// The latest last collection that still lets a claim at `now` be paid:
/// a stored guard that an update can test in the same statement as it pays,
/// so that two claims racing each other cannot both be paid.
pub fn claim_cutoff(now: i64) -> (cutoff: i64)
    requires
        now >= i64::MIN + DAILY_COOLDOWN_SECS,
    ensures
        cutoff == now - DAILY_COOLDOWN_SECS,
        forall|last: i64| claim_allowed(now as int, Some(last)) <==> last <= cutoff,
{
    now - DAILY_COOLDOWN_SECS
}

/// Decides a claim at `now` (seconds since the epoch) by a member holding
/// `points` coins who last collected at `last_daily`.
pub fn daily_claim(now: i64, last_daily: Option<i64>, points: i64) -> (c: DailyClaim)
    requires
        claim_in_range(now, last_daily, points),
    ensures
        claim_allowed(now as int, last_daily) <==> c is Granted,
        c matches DailyClaim::Granted { reward, new_balance, claimed_at } ==> {
            &&& reward == DAILY_REWARD
            &&& new_balance == points + DAILY_REWARD
            &&& claimed_at == now
        },
        c matches DailyClaim::TooSoon { hours, minutes } ==> {
            let left: int = wait_left(now as int, last_daily->0 as int);
            &&& hours == left / 3600
            &&& minutes == (left % 3600) / 60
        },
{
    if let Some(last) = last_daily {
        let elapsed: i64 = now - last;
        if elapsed < DAILY_COOLDOWN_SECS {
            let remaining: i64 = DAILY_COOLDOWN_SECS - elapsed;
            let hours: i64 = remaining / 3600;
            let minutes: i64 = (remaining % 3600) / 60;
            return DailyClaim::TooSoon { hours, minutes };
        }
    }
    DailyClaim::Granted { reward: DAILY_REWARD, new_balance: points + DAILY_REWARD, claimed_at: now }
}

/// A collection at `t` locks the reward for exactly one cooldown: a claim
/// at any later `u` is refused while `u - t` is under a day and allowed from
/// then on.
pub proof fn lemma_one_claim_per_day(t: i64, u: int)
    requires
        t <= u,
    ensures
        claim_allowed(u, Some(t)) <==> u >= t + DAILY_COOLDOWN_SECS,
{
}

/// The wait shown on a refusal is the true wait rounded down to the minute:
/// under an hour of minutes, and within a minute below the seconds left. When
/// the clock has not gone back since the last collection, it is at most a day.
pub proof fn lemma_refusal_shows_wait(now: i64, last: i64, hours: int, minutes: int)
    requires
        !claim_allowed(now as int, Some(last)),
        hours == wait_left(now as int, last as int) / 3600,
        minutes == (wait_left(now as int, last as int) % 3600) / 60,
    ensures
        0 <= minutes < 60,
        0 <= hours,
        hours * 3600 + minutes * 60 <= wait_left(now as int, last as int) < hours * 3600
            + minutes * 60 + 60,
        now >= last ==> hours * 3600 + minutes * 60 <= DAILY_COOLDOWN_SECS,
{
    let left: int = wait_left(now as int, last as int);
    assert(left > 0);
    assert(left == (left / 3600) * 3600 + left % 3600) by (nonlinear_arith)
        requires left > 0;
    let r: int = left % 3600;
    assert(r == (r / 60) * 60 + r % 60) by (nonlinear_arith)
        requires r >= 0;
    assert(0 <= r % 60 < 60);
    assert(0 <= r < 3600);
}

/// What to do once the store answered a paying update: `Some(claim)` to
/// answer the member with, or `None` when a granted claim paid no row
/// because another claim was paid since the row was read, so the row must
/// be read and the claim decided again.
pub fn settle_payment(claim: DailyClaim, rows_paid: u64) -> (r: Option<DailyClaim>)
    ensures
        r is None <==> (claim is Granted && rows_paid == 0),
        r matches Some(c) ==> c == claim,
{
    match claim {
        DailyClaim::Granted { .. } => if rows_paid == 0 {
            None
        } else {
            Some(claim)
        },
        DailyClaim::TooSoon { .. } => Some(claim),
    }
}

/// The stored last collection after claims made at the times in `nows`,
/// taken by the store one at a time in that order, from `start`: each claim
/// whose guard admits it (`claim_allowed`, the test `claim_cutoff` stands
/// for) is paid and stores its time; a refused one changes nothing.
pub open spec fn stored_after(start: Option<i64>, nows: Seq<i64>) -> Option<i64>
    decreases nows.len(),
{
    if nows.len() == 0 {
        start
    } else {
        let before = stored_after(start, nows.drop_last());
        if claim_allowed(nows.last() as int, before) {
            Some(nows.last())
        } else {
            before
        }
    }
}

/// Whether the claim at position `i` of `nows` was paid when its turn came.
pub open spec fn paid_in_turn(start: Option<i64>, nows: Seq<i64>, i: int) -> bool {
    claim_allowed(nows[i] as int, stored_after(start, nows.take(i)))
}

/// Once the claim at `i` was paid, every later state of the store holds a
/// collection time no earlier than it.
proof fn lemma_stored_keeps_up(start: Option<i64>, nows: Seq<i64>, i: int, k: int)
    requires
        0 <= i < k <= nows.len(),
        paid_in_turn(start, nows, i),
    ensures
        stored_after(start, nows.take(k)) matches Some(l) && l >= nows[i],
    decreases k - i,
{
    if k == i + 1 {
        assert(nows.take(k).drop_last() =~= nows.take(i));
    } else {
        lemma_stored_keeps_up(start, nows, i, k - 1);
        assert(nows.take(k).drop_last() =~= nows.take(k - 1));
    }
}

/// Claims taken one at a time by the store, each paid only where its guard
/// admits it, are paid at most once a day: of two paid claims, the later
/// one's time is a full cooldown after the earlier one's.
pub proof fn lemma_paid_claims_a_day_apart(start: Option<i64>, nows: Seq<i64>, i: int, j: int)
    requires
        0 <= i < j < nows.len(),
        paid_in_turn(start, nows, i),
        paid_in_turn(start, nows, j),
    ensures
        nows[j] >= nows[i] + DAILY_COOLDOWN_SECS,
{
    lemma_stored_keeps_up(start, nows, i, j);
}

} // verus!
