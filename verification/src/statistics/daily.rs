//! Counts by day, with the days on which nothing happened.
use super::dto::DayCount;
use crate::calendar::{days_are_in_the_order_of_their_numbers, lemma_next, Date};
use vstd::prelude::*;

verus! {

/// The day so many days later.
pub open spec fn nth_day(d: Date, n: nat) -> Date
    decreases n,
{
    if n == 0 {
        d
    } else {
        nth_day(d, (n - 1) as nat).next()
    }
}

/// The count of a day; of two rows the later counts, and none is nothing.
pub open spec fn count_on(rows: Seq<(Date, i64)>, d: Date) -> i64
    decreases rows.len(),
{
    if rows.len() == 0 {
        0
    } else if rows.last().0 == d {
        rows.last().1
    } else {
        count_on(rows.drop_last(), d)
    }
}

/// The days from one to another, each with its count.
pub open spec fn daily_counts(from: Date, to: Date, rows: Seq<(Date, i64)>) -> Seq<DayCount> {
    Seq::new(
        (to.number() - from.number() + 1) as nat,
        |i: int| DayCount { date: nth_day(from, i as nat), count: count_on(rows, nth_day(from, i as nat)) },
    )
}

fn find_count(rows: &Vec<(Date, i64)>, d: Date) -> (r: i64)
    ensures
        r == count_on(rows@, d),
{
    let mut k: usize = rows.len();
    assert(rows@.take(k as int) =~= rows@);
    while k > 0
        invariant
            k <= rows@.len(),
            count_on(rows@.take(k as int), d) == count_on(rows@, d),
        decreases k,
    {
        assert(rows@.take(k as int).last() == rows@[k - 1]);
        assert(rows@.take(k as int).drop_last() =~= rows@.take(k - 1));
        if rows[k - 1].0 == d {
            return rows[k - 1].1;
        }
        k = k - 1;
    }
    0
}

/// The days from one to another, each with its count: nothing where no row says
/// otherwise.
pub fn fill_zero_daily_counts(from: Date, to: Date, rows: &Vec<(Date, i64)>) -> (r: Vec<DayCount>)
    requires
        from.wf(),
        to.wf(),
        !from.is_after(to),
    ensures
        r@ == daily_counts(from, to, rows@),
{
    proof {
        days_are_in_the_order_of_their_numbers(from, to);
    }
    let ghost all = daily_counts(from, to, rows@);
    let mut out: Vec<DayCount> = Vec::new();
    let mut day: Date = from;
    while day != to
        invariant
            from.wf(),
            to.wf(),
            day.wf(),
            all == daily_counts(from, to, rows@),
            all.len() == to.number() - from.number() + 1,
            out@.len() < all.len(),
            day == nth_day(from, out@.len()),
            day.number() == from.number() + out@.len(),
            out@ == all.take(out@.len() as int),
        decreases to.number() - day.number(),
    {
        proof {
            days_are_in_the_order_of_their_numbers(to, day);
        }
        out.push(DayCount { date: day, count: find_count(rows, day) });
        assert(out@ =~= all.take(out@.len() as int));
        day = day.succ();
    }
    out.push(DayCount { date: day, count: find_count(rows, day) });
    assert(out@ =~= all);
    out
}

// ---------------------------------------------------------------------------
// Laws
// ---------------------------------------------------------------------------

/// Every day from one to another is there once, in order, and exists.
pub proof fn every_day_is_counted_once(from: Date, to: Date, rows: Seq<(Date, i64)>, i: int)
    requires
        from.wf(),
        to.wf(),
        !from.is_after(to),
        0 <= i < daily_counts(from, to, rows).len(),
    ensures
        daily_counts(from, to, rows)[i].date.wf(),
        daily_counts(from, to, rows)[i].date.number() == from.number() + i,
        daily_counts(from, to, rows)[0].date == from,
        daily_counts(from, to, rows).last().date == to,
        daily_counts(from, to, rows)[i].count == count_on(
            rows,
            daily_counts(from, to, rows)[i].date,
        ),
{
    days_are_in_the_order_of_their_numbers(from, to);
    let n = (to.number() - from.number()) as nat;
    lemma_nth_day(from, to, i as nat);
    lemma_nth_day(from, to, n);
    days_are_in_the_order_of_their_numbers(nth_day(from, n), to);
}

proof fn lemma_nth_day(from: Date, to: Date, n: nat)
    requires
        from.wf(),
        to.wf(),
        from.number() + n <= to.number(),
    ensures
        nth_day(from, n).wf(),
        nth_day(from, n).number() == from.number() + n,
    decreases n,
{
    if n > 0 {
        let before = nth_day(from, (n - 1) as nat);
        lemma_nth_day(from, to, (n - 1) as nat);
        days_are_in_the_order_of_their_numbers(to, before);
        lemma_next(before);
    }
}

} // verus!
