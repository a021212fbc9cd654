//! What the statistics tell, told by what was read.
use super::daily::{count_on, daily_counts, every_day_is_counted_once};
use super::dto::{
    DayCount, OverviewOut, PickupSkipDetailOut, PickupSkipDetailQuery, PickupSkipSummaryOut,
    WorkerDetailOut, WorkerStatsListOut,
};
use super::handler::page_of;
use super::repo::{PickupSkipSummaryRow, WorkerPartRow, WorkerPickupRow};
use super::service::{
    gives_detail, gives_overview, gives_skip_detail, gives_skip_summary, gives_worker_stats,
    lemma_distinct, pickup_of, share_of, OverviewFacts, SkipDetailFacts, StatAsk,
    WorkerDetailFacts, WorkerStatsFacts,
};
use crate::calendar::{date_text, days_are_in_the_order_of_their_numbers, Date};
use crate::error::ErrorCode;
use crate::flow::{absent, present, Next};
use crate::text::parsed_i64;
use crate::worker::laws::{names_are_of_the_own_type, types_are_those_of_the_workers};
use vstd::prelude::*;

verus! {

// ---------------------------------------------------------------------------
// Counts by day
// ---------------------------------------------------------------------------

/// A row's date has that row's count; of several rows of a date the last counts.
pub proof fn day_has_the_count_of_its_row(rows: Seq<(Date, i64)>, k: int)
    requires
        0 <= k < rows.len(),
        forall|j: int| k < j < rows.len() ==> (#[trigger] rows[j]).0 != rows[k].0,
    ensures
        count_on(rows, rows[k].0) == rows[k].1,
    decreases rows.len(),
{
    let last = rows.len() - 1;
    if k < last {
        assert(rows[last].0 != rows[k].0);
        day_has_the_count_of_its_row(rows.drop_last(), k);
    }
}

/// A day that is the date of no row has the count 0.
pub proof fn day_without_a_row_has_no_count(rows: Seq<(Date, i64)>, d: Date)
    requires
        forall|j: int| 0 <= j < rows.len() ==> (#[trigger] rows[j]).0 != d,
    ensures
        count_on(rows, d) == 0,
    decreases rows.len(),
{
    if rows.len() > 0 {
        assert(rows[rows.len() - 1].0 != d);
        day_without_a_row_has_no_count(rows.drop_last(), d);
    }
}

/// These are the counts of the days from one to another, as the rows have them:
/// each day is there once and in order; its count is that of its row, and 0 where
/// it has none.
pub open spec fn counts_by_day(
    from: Date,
    to: Date,
    rows: Seq<(Date, i64)>,
    out: Seq<DayCount>,
) -> bool {
    &&& forall|i: int, j: int|
        0 <= i < j < out.len() ==> (#[trigger] out[j]).date.is_after((#[trigger] out[i]).date)
    &&& forall|d: Date|
        (d.wf() && !from.is_after(d) && !d.is_after(to)) <==> (exists|i: int|
            0 <= i < out.len() && (#[trigger] out[i]).date == d)
    &&& forall|i: int, k: int|
        0 <= i < out.len() && 0 <= k < rows.len() && (#[trigger] rows[k]).0 == (
        #[trigger] out[i]).date && (forall|j: int|
            k < j < rows.len() ==> (#[trigger] rows[j]).0 != rows[k].0) ==> out[i].count
            == rows[k].1
    &&& forall|i: int|
        0 <= i < out.len() && (forall|k: int|
            0 <= k < rows.len() ==> (#[trigger] rows[k]).0 != out[i].date) ==> (
        #[trigger] out[i]).count == 0
}

/// Every day from one to another is counted once, in order, with the count of its
/// own row; a day without a row has the count 0.
pub proof fn days_have_the_counts_of_their_rows(from: Date, to: Date, rows: Seq<(Date, i64)>)
    requires
        from.wf(),
        to.wf(),
        !from.is_after(to),
    ensures
        counts_by_day(from, to, rows, daily_counts(from, to, rows)),
{
    let out = daily_counts(from, to, rows);
    days_are_in_the_order_of_their_numbers(from, to);
    assert forall|i: int| 0 <= i < out.len() implies (#[trigger] out[i]).date.wf()
        && out[i].date.number() == from.number() + i && out[i].count == count_on(
        rows,
        out[i].date,
    ) by {
        every_day_is_counted_once(from, to, rows, i);
    }
    assert forall|i: int, j: int| 0 <= i < j < out.len() implies (
    #[trigger] out[j]).date.is_after((#[trigger] out[i]).date) by {
        days_are_in_the_order_of_their_numbers(out[j].date, out[i].date);
    }
    assert forall|d: Date|
        (d.wf() && !from.is_after(d) && !d.is_after(to)) <==> (exists|i: int|
            0 <= i < out.len() && (#[trigger] out[i]).date == d) by {
        if d.wf() && !from.is_after(d) && !d.is_after(to) {
            days_are_in_the_order_of_their_numbers(from, d);
            days_are_in_the_order_of_their_numbers(d, to);
            let i = d.number() - from.number();
            days_are_in_the_order_of_their_numbers(out[i].date, d);
            assert(out[i].date == d);
        }
        if exists|i: int| 0 <= i < out.len() && (#[trigger] out[i]).date == d {
            let i = choose|i: int| 0 <= i < out.len() && (#[trigger] out[i]).date == d;
            days_are_in_the_order_of_their_numbers(from, d);
            days_are_in_the_order_of_their_numbers(d, to);
        }
    }
    assert forall|i: int, k: int|
        0 <= i < out.len() && 0 <= k < rows.len() && (#[trigger] rows[k]).0 == (
        #[trigger] out[i]).date && (forall|j: int|
            k < j < rows.len() ==> (#[trigger] rows[j]).0 != rows[k].0) implies out[i].count
        == rows[k].1 by {
        day_has_the_count_of_its_row(rows, k);
    }
    assert forall|i: int|
        0 <= i < out.len() && (forall|k: int|
            0 <= k < rows.len() ==> (#[trigger] rows[k]).0 != out[i].date) implies (
    #[trigger] out[i]).count == 0 by {
        day_without_a_row_has_no_count(rows, out[i].date);
    }
}

// ---------------------------------------------------------------------------
// The overview
// ---------------------------------------------------------------------------

/// The overview asks for every number over exactly the days of the request, and
/// for what is in process at their end and overdue today. It tells each number as
/// it was read; what was delivered and is not late was on time.
pub proof fn overview_tells_what_was_read(
    from: Date,
    to: Date,
    f: OverviewFacts,
    n: Next<StatAsk, OverviewOut>,
)
    requires
        gives_overview(from, to, f, n),
        from.wf(),
        to.wf(),
    ensures
        n.is_refused(ErrorCode::BizInvalidValue) <==> from.is_after(to),
        n matches Next::Done(Err(e)) ==> e.code is BizInvalidValue,
        n matches Next::Ask(a) ==> match a {
            StatAsk::Today => f.today is None,
            StatAsk::CountCreated { from: x, to: y } => x == from && y == to && f.created is None,
            StatAsk::CountCompleted { from: x, to: y } => x == from && y == to
                && f.completed is None,
            StatAsk::CountInProcessAt { day } => day == to && f.in_process is None,
            StatAsk::Delivered { from: x, to: y } => x == from && y == to && f.delivered is None,
            StatAsk::CountOverdue { today } => f.today == Some(today) && f.overdue is None,
            StatAsk::CountRepairs { from: x, to: y } => x == from && y == to && f.repairs is None,
            StatAsk::DailyCreated { from: x, to: y } => x == from && y == to
                && f.daily_created is None,
            StatAsk::DailyCompleted { from: x, to: y } => x == from && y == to
                && f.daily_completed is None,
            StatAsk::StatusDistribution => f.statuses is None,
            _ => false,
        },
        n matches Next::Done(Ok(out)) ==> {
            let d = f.delivered->0;
            &&& out.date_from == from && out.date_to == to
            &&& f.today is Some && f.daily_created is Some && f.daily_completed is Some
                && f.statuses is Some
            &&& f.created == Some(out.created_count) && f.completed == Some(out.completed_count)
            &&& f.in_process == Some(out.in_process_count) && f.overdue == Some(
                out.overdue_undelivered_count,
            ) && f.repairs == Some(out.repair_part_count)
            &&& f.delivered is Some && out.delivered_count == d.count && out.delivered_value
                == d.value && out.late_orange_count == d.orange && out.late_red_count == d.red
            &&& out.delivery_performance.orange == d.orange && out.delivery_performance.red == d.red
            &&& out.delivery_performance.on_time >= 0
            &&& d.orange + d.red <= d.count ==> out.delivery_performance.on_time + d.orange + d.red
                == d.count
            &&& d.orange + d.red > d.count ==> out.delivery_performance.on_time == 0
            &&& out.status_distribution@ == f.statuses->0@
            &&& counts_by_day(from, to, f.daily_created->0@, out.daily_created@)
            &&& counts_by_day(from, to, f.daily_completed->0@, out.daily_completed@)
        },
{
    if n.is_ok() {
        days_have_the_counts_of_their_rows(from, to, f.daily_created->0@);
        days_have_the_counts_of_their_rows(from, to, f.daily_completed->0@);
    }
}

// ---------------------------------------------------------------------------
// All workers
// ---------------------------------------------------------------------------

/// What a worker picked up is what the worker's own row says; of several rows the
/// last counts. A worker without a row picked up nothing.
pub proof fn pickups_are_of_the_own_row(rows: Seq<WorkerPickupRow>, worker_id: i64)
    ensures
        forall|k: int|
            0 <= k < rows.len() && (#[trigger] rows[k]).worker_id == worker_id && (forall|j: int|
                k < j < rows.len() ==> (#[trigger] rows[j]).worker_id != worker_id) ==> pickup_of(
                rows,
                worker_id,
            ) == Some(rows[k]),
        (forall|k: int| 0 <= k < rows.len() ==> (#[trigger] rows[k]).worker_id != worker_id)
            ==> pickup_of(rows, worker_id) is None,
    decreases rows.len(),
{
    if rows.len() > 0 {
        let front = rows.drop_last();
        let last = rows.len() - 1;
        pickups_are_of_the_own_row(front, worker_id);
        assert forall|k: int|
            0 <= k < rows.len() && (#[trigger] rows[k]).worker_id == worker_id && (forall|j: int|
                k < j < rows.len() ==> (#[trigger] rows[j]).worker_id
                    != worker_id) implies pickup_of(rows, worker_id) == Some(rows[k]) by {
            if k < last {
                assert(rows[last].worker_id != worker_id);
                assert(front[k] == rows[k]);
                assert forall|j: int| k < j < front.len() implies (
                #[trigger] front[j]).worker_id != worker_id by {
                    assert(front[j] == rows[j]);
                }
            }
        }
        if forall|k: int| 0 <= k < rows.len() ==> (#[trigger] rows[k]).worker_id != worker_id {
            assert(rows[last].worker_id != worker_id);
            assert forall|k: int| 0 <= k < front.len() implies (#[trigger] front[k]).worker_id
                != worker_id by {
                assert(front[k] == rows[k]);
            }
        }
    }
}

/// A worker's share is the one under the worker's own id; of several the last
/// counts. A worker who is not named has none.
pub proof fn shares_are_under_the_own_id<C>(shares: Seq<(i64, Option<C>)>, worker_id: i64)
    ensures
        forall|k: int|
            0 <= k < shares.len() && (#[trigger] shares[k]).0 == worker_id && (forall|j: int|
                k < j < shares.len() ==> (#[trigger] shares[j]).0 != worker_id) ==> share_of(
                shares,
                worker_id,
            ) == shares[k].1,
        (forall|k: int| 0 <= k < shares.len() ==> (#[trigger] shares[k]).0 != worker_id)
            ==> share_of(shares, worker_id) is None,
    decreases shares.len(),
{
    if shares.len() > 0 {
        let front = shares.drop_last();
        let last = shares.len() - 1;
        shares_are_under_the_own_id(front, worker_id);
        assert forall|k: int|
            0 <= k < shares.len() && (#[trigger] shares[k]).0 == worker_id && (forall|j: int|
                k < j < shares.len() ==> (#[trigger] shares[j]).0 != worker_id) implies share_of(
            shares,
            worker_id,
        ) == shares[k].1 by {
            if k < last {
                assert(shares[last].0 != worker_id);
                assert(front[k] == shares[k]);
                assert forall|j: int| k < j < front.len() implies (#[trigger] front[j]).0
                    != worker_id by {
                    assert(front[j] == shares[j]);
                }
            }
        }
        if forall|k: int| 0 <= k < shares.len() ==> (#[trigger] shares[k]).0 != worker_id {
            assert(shares[last].0 != worker_id);
            assert forall|k: int| 0 <= k < front.len() implies (#[trigger] front[k]).0
                != worker_id by {
                assert(front[k] == shares[k]);
            }
        }
    }
}

/// The statistics of all workers: one line for each worker who was read, in
/// order, with the worker's own data, the name of the own work type, the numbers
/// of the own row and the share under the own id. Work types are asked for once
/// each, and only those of these workers; pickups over the days of the request.
pub proof fn worker_stats_are_of_the_worker<C>(
    from: Date,
    to: Date,
    f: WorkerStatsFacts<C>,
    n: Next<StatAsk, WorkerStatsListOut<C>>,
)
    requires
        gives_worker_stats(from, to, f, n),
    ensures
        n.is_refused(ErrorCode::BizInvalidValue) <==> from.is_after(to),
        n matches Next::Done(Err(e)) ==> e.code is BizInvalidValue,
        n matches Next::Ask(a) ==> match a {
            StatAsk::Workers { limit, offset } => f.workers is None && limit == 1000 && offset == 0,
            StatAsk::WorkTypesByIds { ids } => {
                &&& ids@.no_duplicates()
                &&& forall|id: i64| #[trigger]
                    ids@.contains(id) <==> exists|i: int|
                        0 <= i < f.workers->0@.len() && (#[trigger] f.workers->0@[i]).work_type_id
                            == Some(id)
            },
            StatAsk::PickupRows { from: x, to: y } => x == from && y == to && f.rows is None,
            StatAsk::Contributions { rows } => f.rows is Some && rows@ == f.rows->0@
                && f.contributions is None,
            _ => false,
        },
        n matches Next::Done(Ok(out)) ==> {
            &&& f.workers is Some && f.rows is Some && f.contributions is Some
            &&& out.items@.len() == f.workers->0@.len()
            &&& forall|i: int|
                0 <= i < f.workers->0@.len() ==> {
                    let w = f.workers->0@[i];
                    let o = #[trigger] out.items@[i];
                    &&& o.worker_id == w.id && o.worker_name == w.name && o.badge_code
                        == w.badge_code && o.work_type_id == w.work_type_id && o.is_active
                        == w.is_active
                    &&& w.work_type_id is None ==> o.work_type_name is None
                    &&& (pickup_of(f.rows->0@, w.id) matches Some(r) ==> o.pickup_count
                        == r.pickup_count && o.pickup_quantity == r.pickup_quantity
                        && o.participated_part_count == r.participated_part_count)
                    &&& (pickup_of(f.rows->0@, w.id) is None ==> o.pickup_count == 0
                        && o.pickup_quantity == 0 && o.participated_part_count == 0)
                    &&& o.contribution_pct == share_of(f.contributions->0@, w.id)
                }
        },
{
    if f.workers is Some {
        types_are_those_of_the_workers(f.workers->0@);
        lemma_distinct(crate::worker::service::types_of(f.workers->0@));
    }
}

/// The name of a worker's work type is that of the row with its id.
pub proof fn worker_stats_name_the_own_type<C>(
    from: Date,
    to: Date,
    f: WorkerStatsFacts<C>,
    n: Next<StatAsk, WorkerStatsListOut<C>>,
    i: int,
    k: int,
)
    requires
        gives_worker_stats(from, to, f, n),
        n.is_ok(),
        0 <= i < f.workers->0@.len(),
        f.work_types is Some,
        0 <= k < f.work_types->0@.len(),
        f.workers->0@[i].work_type_id == Some(f.work_types->0@[k].id),
        forall|j: int|
            k < j < f.work_types->0@.len() ==> (#[trigger] f.work_types->0@[j]).id
                != f.work_types->0@[k].id,
    ensures
        n->Done_0->Ok_0.items@[i].work_type_name == Some(f.work_types->0@[k].name),
{
    types_are_those_of_the_workers(f.workers->0@);
    names_are_of_the_own_type(f.work_types->0@, k);
    let types = crate::worker::service::types_of(f.workers->0@);
    assert(types.contains(f.work_types->0@[k].id));
}

// ---------------------------------------------------------------------------
// One worker
// ---------------------------------------------------------------------------

/// The statistics of one worker: asked for by the id that the text stands for,
/// over the days of the request, and told as they were read. The parts are those
/// that are not deleted, in order; all different ones count.
pub proof fn worker_detail_tells_what_was_read(
    worker_id: Seq<char>,
    from: Date,
    to: Date,
    f: WorkerDetailFacts,
    n: Next<StatAsk, WorkerDetailOut>,
)
    requires
        gives_detail(worker_id, from, to, f, n),
        from.wf(),
        to.wf(),
    ensures
        n.is_refused(ErrorCode::BizInvalidValue) <==> from.is_after(to) || parsed_i64(
            worker_id,
        ) is None,
        n.is_refused(ErrorCode::BizWorkerNotFound) <==> !from.is_after(to) && parsed_i64(
            worker_id,
        ) is Some && absent(f.worker),
        n matches Next::Done(Err(e)) ==> e.code is BizInvalidValue || e.code is BizWorkerNotFound,
        n matches Next::Ask(a) ==> match a {
            StatAsk::Worker { id } => parsed_i64(worker_id) == Some(id) && f.worker is None,
            StatAsk::WorkType { id } => f.worker->0->0.work_type_id == Some(id)
                && f.work_type is None,
            StatAsk::WorkerEvents { worker_id: w, from: x, to: y } => parsed_i64(worker_id) == Some(
                w,
            ) && x == from && y == to && f.events is None,
            StatAsk::DailyPickups { worker_id: w, from: x, to: y } => parsed_i64(worker_id) == Some(
                w,
            ) && x == from && y == to && f.daily is None,
            StatAsk::WorkerParts { worker_id: w, from: x, to: y } => parsed_i64(worker_id) == Some(
                w,
            ) && x == from && y == to && f.parts is None,
            _ => false,
        },
        n.is_ok() ==> present(f.worker) && f.events is Some && f.daily is Some && f.parts is Some,
        n matches Next::Done(Ok(out)) ==> {
            let w = f.worker->0->0;
            let live = f.parts->0@.filter(|r: WorkerPartRow| r.is_live);
            &&& out.worker.id == w.id && out.worker.name == w.name && out.worker.badge_code
                == w.badge_code && out.worker.is_active == w.is_active
            &&& w.work_type_id is None ==> out.worker.work_type_name is None
            &&& w.work_type_id is Some ==> f.work_type is Some && match f.work_type->0 {
                Some(wt) => out.worker.work_type_name == Some(wt.name),
                None => out.worker.work_type_name is None,
            }
            &&& f.events is Some && out.pickup_count == f.events->0.pickup_count
                && out.pickup_quantity == f.events->0.pickup_quantity && out.return_count
                == f.events->0.return_count
            &&& counts_by_day(from, to, f.daily->0@, out.daily_pickups@)
            &&& out.participated_part_count == f.parts->0@.map_values(
                |r: WorkerPartRow| r.part_id,
            ).to_set().len()
            &&& out.parts@.len() == live.len()
            &&& forall|i: int|
                0 <= i < live.len() ==> {
                    let p = #[trigger] out.parts@[i];
                    &&& p.part_id == live[i].part_id && p.serial_no == live[i].serial_no && p.name
                        == live[i].name && p.drawing_no == live[i].drawing_no
                    &&& p.status == live[i].status && p.pickup_count == live[i].pickup_count
                        && p.last_pickup_at == live[i].last_pickup_at
                }
        },
{
    if n.is_ok() {
        days_have_the_counts_of_their_rows(from, to, f.daily->0@);
    }
}

// ---------------------------------------------------------------------------
// Batches taken out of turn
// ---------------------------------------------------------------------------

/// The summary has one line for each row, in order, with the data of that row.
pub proof fn skip_summary_tells_each_row(
    rows: Option<Vec<PickupSkipSummaryRow>>,
    n: Next<StatAsk, PickupSkipSummaryOut>,
)
    requires
        gives_skip_summary(rows, n),
    ensures
        rows is None <==> (n matches Next::Ask(a) && a is SkipSummary),
        rows matches Some(r) ==> n.is_ok() && n->Done_0->Ok_0.items@.len() == r@.len() && forall|
            i: int,
        |
            0 <= i < r@.len() ==> {
                let o = #[trigger] n->Done_0->Ok_0.items@[i];
                &&& o.worker_id == r@[i].worker_id && o.worker_name == r@[i].worker_name
                    && o.badge_code == r@[i].badge_code
                &&& o.work_type_name == r@[i].work_type_name && o.skip_count == r@[i].skip_count
                    && o.last_skip_at == r@[i].last_skip_at
            },
{
}

/// A page of one worker's batches: the worker is the one that the text stands
/// for, the page has between 1 and 200 entries and begins no earlier than the
/// first; each row is told with its own data.
pub proof fn skip_detail_tells_a_page(
    worker_id: Seq<char>,
    limit: i64,
    offset: i64,
    f: SkipDetailFacts,
    n: Next<StatAsk, PickupSkipDetailOut>,
)
    requires
        gives_skip_detail(worker_id, limit, offset, f, n),
    ensures
        n.is_refused(ErrorCode::BizInvalidValue) <==> parsed_i64(worker_id) is None,
        n matches Next::Done(Err(e)) ==> e.code is BizInvalidValue,
        n matches Next::Ask(a) ==> match a {
            StatAsk::SkipDetail { worker_id: w, limit: l, offset: o } => {
                &&& parsed_i64(worker_id) == Some(w) && f.rows is None
                &&& 1 <= l <= 200 && (1 <= limit <= 200 ==> l == limit) && (limit < 1 ==> l == 1)
                    && (limit > 200 ==> l == 200)
                &&& o >= 0 && (offset >= 0 ==> o == offset) && (offset < 0 ==> o == 0)
            },
            StatAsk::SkipDetailCount { worker_id: w } => parsed_i64(worker_id) == Some(w)
                && f.total is None,
            _ => false,
        },
        n matches Next::Done(Ok(out)) ==> {
            let l = out.limit;
            let o = out.offset;
            &&& f.total == Some(out.total)
            &&& 1 <= l <= 200 && (1 <= limit <= 200 ==> l == limit) && (limit < 1 ==> l == 1) && (
            limit > 200 ==> l == 200)
            &&& o >= 0 && (offset >= 0 ==> o == offset) && (offset < 0 ==> o == 0)
            &&& f.rows is Some && out.items@.len() == f.rows->0@.len()
            &&& forall|i: int|
                0 <= i < out.items@.len() ==> {
                    let r = f.rows->0@[i];
                    let x = #[trigger] out.items@[i];
                    &&& x.id == r.id && x.part_id == r.part_id && x.serial_no == r.serial_no
                        && x.part_name == r.part_name
                    &&& x.batch_no == r.batch_no && x.quantity == r.quantity && x.created_at
                        == r.created_at
                    &&& x.part_planned_delivery_date == r.part_planned_delivery_date
                        && x.skipped_earliest_date == r.skipped_earliest_date
                }
        },
{
}

/// Where a page is not described, it begins at the first entry and has 50.
pub proof fn undescribed_pages_have_fifty_entries(q: PickupSkipDetailQuery)
    ensures
        q.limit is None ==> page_of(q).0 == 50,
        q.limit is Some ==> q.limit == Some(page_of(q).0),
        q.offset is None ==> page_of(q).1 == 0,
        q.offset is Some ==> q.offset == Some(page_of(q).1),
{
}

/// Days the wrong way round are told, the first one first.
pub proof fn days_the_wrong_way_round_are_told(
    from: Date,
    to: Date,
    f: OverviewFacts,
    n: Next<StatAsk, OverviewOut>,
)
    requires
        gives_overview(from, to, f, n),
        from.is_after(to),
    ensures
        n.fails(
            ErrorCode::BizInvalidValue,
            "date_from ("@ + date_text(from) + ") must be <= date_to ("@ + date_text(to) + ")"@,
        ),
{
}

} // verus!
