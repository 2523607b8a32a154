//! The statistics engine: the historical daily-Pomodoro median over a
//! trailing window, used to suggest how many focus intervals to plan.
//!
//! A day contributes the number of its focus intervals whose time of day is
//! at or past the query's own time of day — "how many had I completed by
//! this time of day, historically" — and days without any such interval are
//! absent from the counts, not zero. The median of an even number of counts
//! is the average of the two middle counts, truncated toward zero; the
//! median of no counts at all is zero, by definition rather than error.

use vstd::prelude::*;

use vstd::relations::{sorted_by, total_ordering};
use vstd::seq_lib::{lemma_multiset_commutative, lemma_sorted_unique};

use crate::store::{Store, StoreModel, TimerModel};

verus! {

/// The order the counts are sorted in: plain numeric order.
pub open spec fn count_order() -> spec_fn(u64, u64) -> bool {
    |x: u64, y: u64| x <= y
}

proof fn lemma_count_order_total()
    ensures
        total_ordering(count_order()),
{
    let r = count_order();
    assert forall|x: u64| #[trigger] r(x, x) by {}
    assert forall|x: u64, y: u64| #[trigger] r(x, y) && #[trigger] r(y, x) implies x == y by {}
    assert forall|x: u64, y: u64, z: u64| #[trigger] r(x, y) && #[trigger] r(y, z) implies r(
        x,
        z,
    ) by {}
    assert forall|x: u64, y: u64| #[trigger] r(x, y) || #[trigger] r(y, x) by {}
}

/// The counts in ascending order.
pub open spec fn sorted_counts(s: Seq<u64>) -> Seq<u64> {
    s.sort_by(count_order())
}

/// The median of a bag of counts: the middle count of the sorted order for
/// an odd number of counts, the truncated mean of the two middle counts for
/// an even number, and zero for none at all.
pub open spec fn spec_median(s: Seq<u64>) -> u64 {
    if s.len() == 0 {
        0u64
    } else {
        let t = sorted_counts(s);
        let mid = s.len() as int / 2;
        if s.len() % 2 == 1 {
            t[mid]
        } else {
            ((t[mid - 1] + t[mid]) / 2) as u64
        }
    }
}

/// Inserting an element anywhere in a sequence adds exactly that element to
/// its bag of values.
proof fn lemma_insert_multiset(s: Seq<u64>, i: int, a: u64)
    requires
        0 <= i <= s.len(),
    ensures
        s.insert(i, a).to_multiset() == s.to_multiset().insert(a),
{
    broadcast use vstd::seq_lib::group_to_multiset_ensures;
    broadcast use vstd::multiset::group_multiset_axioms;

    let s0 = s.subrange(0, i);
    let s1 = s.subrange(i, s.len() as int);
    assert(s =~= s0 + s1);
    assert(s.insert(i, a) =~= s0.push(a) + s1);
    lemma_multiset_commutative(s0, s1);
    lemma_multiset_commutative(s0.push(a), s1);
    assert(s0.push(a).to_multiset() =~= s0.to_multiset().insert(a));
    assert(s.insert(i, a).to_multiset() =~= s.to_multiset().insert(a));
}

/// Sort the counts ascending, in place, by insertion into a fresh vector.
fn sort_counts(v: &mut Vec<u64>)
    ensures
        final(v)@.to_multiset() == old(v)@.to_multiset(),
        sorted_by(final(v)@, count_order()),
{
    let mut out: Vec<u64> = Vec::new();
    let n = v.len();
    proof {
        assert(out@ =~= v@.take(0));
    }
    let mut i: usize = 0;
    while i < n
        invariant
            n == v.len(),
            i <= n,
            *v == *old(v),
            out@.to_multiset() == v@.take(i as int).to_multiset(),
            sorted_by(out@, count_order()),
        decreases n - i,
    {
        let x = v[i];
        let mut j: usize = 0;
        while j < out.len() && out[j] <= x
            invariant
                j <= out.len(),
                forall|k: int| 0 <= k < j ==> out@[k] <= x,
            decreases out.len() - j,
        {
            j = j + 1;
        }
        let ghost before = out@;
        out.insert(j, x);
        proof {
            lemma_insert_multiset(before, j as int, x);
            assert(v@.take(i + 1) =~= v@.take(i as int).push(x));
            broadcast use vstd::seq_lib::group_to_multiset_ensures;

            before.insert_ensures(j as int, x);
            let ord = count_order();
            assert forall|p: int, q: int| 0 <= p < q < out@.len() implies #[trigger] ord(
                out@[p],
                out@[q],
            ) by {
                if q < j {
                    assert(ord(before[p], before[q]));
                } else if p < j && q == j {
                    assert(out@[q] == x);
                } else if p < j && q > j {
                    if p < q - 1 {
                        assert(ord(before[p], before[q - 1]));
                    }
                } else if p == j {
                    // x sits below the first element the scan stopped at.
                    assert(out@[p] == x);
                    assert(before[j as int] > x);
                    if j < q - 1 {
                        assert(ord(before[j as int], before[q - 1]));
                    }
                } else {
                    assert(ord(before[p - 1], before[q - 1]));
                }
            }
        }
        i = i + 1;
    }
    proof {
        assert(v@.take(n as int) =~= v@);
    }
    *v = out;
}

/// Sort the counts ascending and return their median: the middle count, or
/// the truncated mean of the two middle counts, or zero when there are no
/// counts at all.
pub fn median(numbers: &mut Vec<u64>) -> (r: u64)
    ensures
        final(numbers)@.to_multiset() == old(numbers)@.to_multiset(),
        sorted_by(final(numbers)@, count_order()),
        r == spec_median(old(numbers)@),
{
    sort_counts(numbers);
    proof {
        broadcast use vstd::seq_lib::group_to_multiset_ensures;

        lemma_count_order_total();
        old(numbers)@.lemma_sort_by_ensures(count_order());
        lemma_sorted_unique(numbers@, sorted_counts(old(numbers)@), count_order());
        assert(numbers@ == sorted_counts(old(numbers)@));
        assert(numbers@.to_multiset().len() == old(numbers)@.to_multiset().len());
        assert(numbers@.len() == old(numbers)@.len());
    }
    let len = numbers.len();
    if len == 0 {
        return 0;
    }
    let mid = len / 2;
    if len % 2 == 0 {
        let a = numbers[mid - 1];
        let b = numbers[mid];
        proof {
            let ord = count_order();
            assert(ord(numbers@[mid as int - 1], numbers@[mid as int]));
            assert(a as int + (b as int - a as int) / 2 == (a as int + b as int) / 2);
        }
        a + (b - a) / 2
    } else {
        numbers[mid]
    }
}

/// Seconds in one day of the engine's timeline.
pub const SECONDS_PER_DAY: u64 = 86400;

/// The trailing window the daily median is drawn from.
pub const ESTIMATE_WINDOW_DAYS: u64 = 30;

/// Whether a timer row counts toward the bucket of day `day`: a focus
/// interval started on that day whose time of day is at or past the
/// query's time-of-day cutoff.
pub open spec fn counted_on_day(t: TimerModel, day: int, now_tod: int) -> bool {
    &&& t.is_pomodoro
    &&& t.start as int / (SECONDS_PER_DAY as int) == day
    &&& t.start as int % (SECONDS_PER_DAY as int) >= now_tod
}

/// How many timer rows count toward the bucket of day `day`.
pub open spec fn count_on_day(timers: Seq<TimerModel>, day: int, now_tod: int) -> nat
    decreases timers.len(),
{
    if timers.len() == 0 {
        0nat
    } else {
        count_on_day(timers.drop_last(), day, now_tod) + (if counted_on_day(
            timers.last(),
            day,
            now_tod,
        ) {
            1nat
        } else {
            0nat
        })
    }
}

/// The per-day counts of the days `lo .. hi`, in day order, keeping only
/// the days some row counts toward.
pub open spec fn counts_upto(timers: Seq<TimerModel>, lo: int, hi: int, now_tod: int) -> Seq<u64>
    decreases hi - lo,
{
    if hi <= lo {
        Seq::<u64>::empty()
    } else {
        let c = count_on_day(timers, hi - 1, now_tod);
        counts_upto(timers, lo, hi - 1, now_tod) + (if c > 0 {
            seq![c as u64]
        } else {
            Seq::<u64>::empty()
        })
    }
}

/// The counts the daily median is computed over: one per day of the
/// trailing window before today — today itself excluded — counting the
/// focus intervals at or past the query's own time of day, with empty days
/// absent.
pub open spec fn spec_daily_counts(s: StoreModel, now: u64, window_days: u64) -> Seq<u64> {
    let now_day = now as int / (SECONDS_PER_DAY as int);
    let lo = if now_day > window_days as int {
        now_day - window_days as int
    } else {
        0
    };
    counts_upto(s.timers, lo, now_day, now as int % (SECONDS_PER_DAY as int))
}

/// Count the focus intervals of one day bucket at the given time-of-day
/// cutoff.
fn count_pomodoros_on_day(store: &Store, day: u64, now_tod: u64) -> (c: u64)
    ensures
        c as nat == count_on_day(store@.timers, day as int, now_tod as int),
{
    let n = store.timers.len();
    let mut c: u64 = 0;
    let mut i: usize = 0;
    proof {
        assert(store@.timers.take(0) =~= Seq::<TimerModel>::empty());
    }
    while i < n
        invariant
            n == store.timers.len(),
            i <= n,
            c <= i as u64,
            c as nat == count_on_day(store@.timers.take(i as int), day as int, now_tod as int),
        decreases n - i,
    {
        let t = &store.timers[i];
        proof {
            assert(store@.timers.take(i + 1).drop_last() =~= store@.timers.take(i as int));
            assert(store@.timers.take(i + 1).last() == store@.timers[i as int]);
        }
        if t.is_pomodoro && t.start / SECONDS_PER_DAY == day && t.start % SECONDS_PER_DAY
            >= now_tod {
            c = c + 1;
        }
        i = i + 1;
    }
    proof {
        assert(store@.timers.take(n as int) =~= store@.timers);
    }
    c
}

/// The day-by-day focus-interval counts over the trailing window before
/// today, in day order, with empty days absent.
pub fn daily_pomodoro_counts(store: &Store, now: u64, window_days: u64) -> (r: Vec<u64>)
    ensures
        r@ == spec_daily_counts(store@, now, window_days),
{
    let now_day: u64 = now / SECONDS_PER_DAY;
    let now_tod: u64 = now % SECONDS_PER_DAY;
    let lo: u64 = if now_day > window_days {
        now_day - window_days
    } else {
        0
    };
    let mut r: Vec<u64> = Vec::new();
    proof {
        assert(r@ =~= counts_upto(store@.timers, lo as int, lo as int, now_tod as int));
    }
    let mut d: u64 = lo;
    while d < now_day
        invariant
            lo <= d <= now_day,
            now_tod == now % SECONDS_PER_DAY,
            r@ == counts_upto(store@.timers, lo as int, d as int, now_tod as int),
        decreases now_day - d,
    {
        let c = count_pomodoros_on_day(store, d, now_tod);
        let ghost prev = r@;
        if c > 0 {
            r.push(c);
            proof {
                assert(r@ =~= prev + seq![c]);
            }
        } else {
            proof {
                assert(r@ =~= prev + Seq::<u64>::empty());
            }
        }
        d = d + 1;
    }
    proof {
        assert(now_day as int == now as int / (SECONDS_PER_DAY as int));
        assert(now_tod as int == now as int % (SECONDS_PER_DAY as int));
    }
    r
}

/// The advisory focus target: the median of the trailing window's daily
/// counts, zero when the window holds none.
pub fn get_pomodoros_median(store: &Store, now: u64) -> (r: u64)
    ensures
        r == spec_median(spec_daily_counts(store@, now, ESTIMATE_WINDOW_DAYS)),
{
    let mut counts = daily_pomodoro_counts(store, now, ESTIMATE_WINDOW_DAYS);
    if counts.len() == 0 {
        0
    } else {
        median(&mut counts)
    }
}

} // verus!
