//! The endpoints of the statistics. All of them only read.
use super::daily::{daily_counts, fill_zero_daily_counts};
use super::dto::{
    DeliveryPerformance, OverviewOut, PickupSkipDetailItem, PickupSkipDetailOut,
    PickupSkipSummaryItem, PickupSkipSummaryOut, StatusCount, WorkerBrief, WorkerDetailOut,
    WorkerPartItem, WorkerStatsItem, WorkerStatsListOut,
};
use super::repo::{
    DeliveredRow, PickupSkipDetailRow, PickupSkipSummaryRow, WorkerEventsRow, WorkerPartRow,
    WorkerPickupRow,
};
use crate::calendar::{date_text, Date};
use crate::error::{AppError, ErrorCode};
use crate::flow::Next;
use crate::paging::{clamp, clamped};
use crate::text::{copy_opt, join3, parse_i64, parsed_i64};
use crate::work_type::model::TWorkType;
use crate::worker::model::TWorker;
use crate::worker::service::{collect_types, find_type_name, name_for, types_of};
use vstd::prelude::*;
use vstd::string::*;

verus! {

/// What an endpoint of the statistics asks for.
pub enum StatAsk {
    Today,
    CountCreated { from: Date, to: Date },
    CountCompleted { from: Date, to: Date },
    CountInProcessAt { day: Date },
    Delivered { from: Date, to: Date },
    CountOverdue { today: Date },
    CountRepairs { from: Date, to: Date },
    DailyCreated { from: Date, to: Date },
    DailyCompleted { from: Date, to: Date },
    StatusDistribution,
    /// The workers that are not deleted, at most so many.
    Workers { limit: i64, offset: i64 },
    WorkTypesByIds { ids: Vec<i64> },
    PickupRows { from: Date, to: Date },
    /// Each worker's share of what was picked up.
    Contributions { rows: Vec<WorkerPickupRow> },
    Worker { id: i64 },
    WorkType { id: i64 },
    WorkerEvents { worker_id: i64, from: Date, to: Date },
    DailyPickups { worker_id: i64, from: Date, to: Date },
    WorkerParts { worker_id: i64, from: Date, to: Date },
    SkipSummary,
    SkipDetail { worker_id: i64, limit: i64, offset: i64 },
    SkipDetailCount { worker_id: i64 },
}

pub struct StatisticsService;

// ---------------------------------------------------------------------------
// Small parts
// ---------------------------------------------------------------------------

/// The message about days the wrong way round.
pub open spec fn bad_range_text(from: Date, to: Date) -> Seq<char> {
    "date_from ("@ + date_text(from) + ") must be <= date_to ("@ + date_text(to) + ")"@
}

/// The message about a worker's id that is none.
pub open spec fn bad_worker_id_text() -> Seq<char> {
    "worker_id 必须是正整数雪花 ID 字符串"@
}

impl StatisticsService {
    /// Refuses days the wrong way round.
    pub fn validate_date_range(date_from: Date, date_to: Date) -> (r: Result<(), AppError>)
        requires
            date_from.wf(),
            date_to.wf(),
        ensures
            r is Ok <==> !date_from.is_after(date_to),
            r matches Err(e) ==> e.says(
                ErrorCode::BizInvalidValue,
                bad_range_text(date_from, date_to),
            ),
    {
        if date_from.after(&date_to) {
            let mut message = join3(
                "date_from (",
                date_from.text().as_str(),
                ") must be <= date_to (",
            );
            message.append(date_to.text().as_str());
            message.append(")");
            return Err(AppError::biz(ErrorCode::BizInvalidValue, message.as_str()));
        }
        Ok(())
    }

    /// The id of a worker that a text stands for.
    pub fn parse_worker_id(s: &str) -> (r: Result<i64, AppError>)
        ensures
            match parsed_i64(s@) {
                Some(id) => r == Ok::<i64, AppError>(id),
                None => r matches Err(e) && e.says(
                    ErrorCode::BizInvalidValue,
                    bad_worker_id_text(),
                ),
            },
    {
        match parse_i64(s) {
            Some(id) => Ok(id),
            None => Err(
                AppError::biz(ErrorCode::BizInvalidValue, "worker_id 必须是正整数雪花 ID 字符串"),
            ),
        }
    }
}

// ---------------------------------------------------------------------------
// Overview
// ---------------------------------------------------------------------------

/// What is known while the overview is put together.
pub struct OverviewFacts {
    pub today: Option<Date>,
    pub created: Option<i64>,
    pub completed: Option<i64>,
    pub in_process: Option<i64>,
    pub delivered: Option<DeliveredRow>,
    pub overdue: Option<i64>,
    pub repairs: Option<i64>,
    pub daily_created: Option<Vec<(Date, i64)>>,
    pub daily_completed: Option<Vec<(Date, i64)>>,
    pub statuses: Option<Vec<StatusCount>>,
}

/// Deliveries that were neither after the planned nor after the last day.
pub open spec fn on_time(d: DeliveredRow) -> int {
    if d.count - d.orange - d.red > 0 {
        d.count - d.orange - d.red
    } else {
        0
    }
}

/// Everything for the overview is known.
pub open spec fn overview_known(f: OverviewFacts) -> bool {
    &&& f.today is Some && f.created is Some && f.completed is Some && f.in_process is Some
    &&& f.delivered is Some && f.overdue is Some && f.repairs is Some
    &&& f.daily_created is Some && f.daily_completed is Some && f.statuses is Some
}

/// The first thing that is missing for the overview.
pub open spec fn overview_asks(from: Date, to: Date, f: OverviewFacts) -> StatAsk {
    match f.today {
        None => StatAsk::Today,
        Some(today) => if f.created is None {
            StatAsk::CountCreated { from, to }
        } else if f.completed is None {
            StatAsk::CountCompleted { from, to }
        } else if f.in_process is None {
            StatAsk::CountInProcessAt { day: to }
        } else if f.delivered is None {
            StatAsk::Delivered { from, to }
        } else if f.overdue is None {
            StatAsk::CountOverdue { today }
        } else if f.repairs is None {
            StatAsk::CountRepairs { from, to }
        } else if f.daily_created is None {
            StatAsk::DailyCreated { from, to }
        } else if f.daily_completed is None {
            StatAsk::DailyCompleted { from, to }
        } else {
            StatAsk::StatusDistribution
        },
    }
}

/// The overview tells what is known.
pub open spec fn tells_overview(out: OverviewOut, from: Date, to: Date, f: OverviewFacts) -> bool {
    let d = f.delivered->0;
    &&& out.date_from == from
    &&& out.date_to == to
    &&& out.created_count == f.created->0
    &&& out.completed_count == f.completed->0
    &&& out.in_process_count == f.in_process->0
    &&& out.delivered_count == d.count
    &&& out.delivered_value == d.value
    &&& out.late_orange_count == d.orange
    &&& out.late_red_count == d.red
    &&& out.overdue_undelivered_count == f.overdue->0
    &&& out.repair_part_count == f.repairs->0
    &&& out.daily_created@ == daily_counts(from, to, f.daily_created->0@)
    &&& out.daily_completed@ == daily_counts(from, to, f.daily_completed->0@)
    &&& out.delivery_performance.on_time == on_time(d)
    &&& out.delivery_performance.orange == d.orange
    &&& out.delivery_performance.red == d.red
    &&& out.status_distribution@ == f.statuses->0@
}

/// How the overview is put together.
pub open spec fn gives_overview(
    from: Date,
    to: Date,
    f: OverviewFacts,
    n: Next<StatAsk, OverviewOut>,
) -> bool {
    if from.is_after(to) {
        n.fails(ErrorCode::BizInvalidValue, bad_range_text(from, to))
    } else if !overview_known(f) {
        n.asks(overview_asks(from, to, f))
    } else {
        n matches Next::Done(Ok(out)) && tells_overview(out, from, to, f)
    }
}

impl StatisticsService {
    /// What was created, completed and delivered over some days.
    pub fn overview(date_from: Date, date_to: Date, f: &OverviewFacts) -> (n: Next<
        StatAsk,
        OverviewOut,
    >)
        requires
            date_from.wf(),
            date_to.wf(),
            f.delivered matches Some(d) ==> d.orange >= 0 && d.red >= 0,
        ensures
            gives_overview(date_from, date_to, *f, n),
    {
        match Self::validate_date_range(date_from, date_to) {
            Err(e) => {
                return Next::Done(Err(e));
            },
            Ok(()) => {},
        }
        let (from, to) = (date_from, date_to);
        let today: Date = match f.today {
            None => {
                return Next::Ask(StatAsk::Today);
            },
            Some(t) => t,
        };
        let created: i64 = match f.created {
            None => {
                return Next::Ask(StatAsk::CountCreated { from, to });
            },
            Some(c) => c,
        };
        let completed: i64 = match f.completed {
            None => {
                return Next::Ask(StatAsk::CountCompleted { from, to });
            },
            Some(c) => c,
        };
        let in_process: i64 = match f.in_process {
            None => {
                return Next::Ask(StatAsk::CountInProcessAt { day: to });
            },
            Some(c) => c,
        };
        let delivered: DeliveredRow = match f.delivered {
            None => {
                return Next::Ask(StatAsk::Delivered { from, to });
            },
            Some(d) => d,
        };
        let overdue: i64 = match f.overdue {
            None => {
                return Next::Ask(StatAsk::CountOverdue { today });
            },
            Some(c) => c,
        };
        let repairs: i64 = match f.repairs {
            None => {
                return Next::Ask(StatAsk::CountRepairs { from, to });
            },
            Some(c) => c,
        };
        let daily_created_rows = match &f.daily_created {
            None => {
                return Next::Ask(StatAsk::DailyCreated { from, to });
            },
            Some(r) => r,
        };
        let daily_completed_rows = match &f.daily_completed {
            None => {
                return Next::Ask(StatAsk::DailyCompleted { from, to });
            },
            Some(r) => r,
        };
        let status_distribution = match &f.statuses {
            None => {
                return Next::Ask(StatAsk::StatusDistribution);
            },
            Some(s) => s.clone(),
        };
        assert(status_distribution@ =~= f.statuses->0@);
        let left: i128 = delivered.count as i128 - delivered.orange as i128
            - delivered.red as i128;
        let on_time: i64 = if left > 0 {
            left as i64
        } else {
            0
        };
        Next::Done(
            Ok(
                OverviewOut {
                    date_from: from,
                    date_to: to,
                    created_count: created,
                    completed_count: completed,
                    in_process_count: in_process,
                    delivered_count: delivered.count,
                    delivered_value: delivered.value,
                    late_orange_count: delivered.orange,
                    late_red_count: delivered.red,
                    overdue_undelivered_count: overdue,
                    repair_part_count: repairs,
                    daily_created: fill_zero_daily_counts(from, to, daily_created_rows),
                    daily_completed: fill_zero_daily_counts(from, to, daily_completed_rows),
                    delivery_performance: DeliveryPerformance {
                        on_time,
                        orange: delivered.orange,
                        red: delivered.red,
                    },
                    status_distribution,
                },
            ),
        )
    }
}

// ---------------------------------------------------------------------------
// All workers
// ---------------------------------------------------------------------------

/// What is known while the statistics of all workers are put together.
pub struct WorkerStatsFacts<C> {
    pub workers: Option<Vec<TWorker>>,
    pub work_types: Option<Vec<TWorkType>>,
    pub rows: Option<Vec<WorkerPickupRow>>,
    pub contributions: Option<Vec<(i64, Option<C>)>>,
}

/// The most workers that are counted.
pub const MAX_WORKERS: i64 = 1000;

/// A list with each id where it first occurs.
pub open spec fn distinct(ids: Seq<i64>) -> Seq<i64>
    decreases ids.len(),
{
    if ids.len() == 0 {
        ids
    } else if ids.drop_last().contains(ids.last()) {
        distinct(ids.drop_last())
    } else {
        distinct(ids.drop_last()).push(ids.last())
    }
}

/// What a worker picked up; of two rows the later counts.
pub open spec fn pickup_of(rows: Seq<WorkerPickupRow>, worker_id: i64) -> Option<WorkerPickupRow>
    decreases rows.len(),
{
    if rows.len() == 0 {
        None
    } else if rows.last().worker_id == worker_id {
        Some(rows.last())
    } else {
        pickup_of(rows.drop_last(), worker_id)
    }
}

/// The share of a worker; of two the later counts.
pub open spec fn share_of<C>(shares: Seq<(i64, Option<C>)>, worker_id: i64) -> Option<C>
    decreases shares.len(),
{
    if shares.len() == 0 {
        None
    } else if shares.last().0 == worker_id {
        shares.last().1
    } else {
        share_of(shares.drop_last(), worker_id)
    }
}

/// What is told of a worker.
pub open spec fn stats_item<C>(
    w: TWorker,
    types: Seq<TWorkType>,
    rows: Seq<WorkerPickupRow>,
    shares: Seq<(i64, Option<C>)>,
) -> WorkerStatsItem<C> {
    let p = pickup_of(rows, w.id);
    WorkerStatsItem {
        worker_id: w.id,
        worker_name: w.name,
        badge_code: w.badge_code,
        work_type_id: w.work_type_id,
        work_type_name: name_for(types, w),
        is_active: w.is_active,
        pickup_count: match p {
            Some(r) => r.pickup_count,
            None => 0,
        },
        pickup_quantity: match p {
            Some(r) => r.pickup_quantity,
            None => 0,
        },
        participated_part_count: match p {
            Some(r) => r.participated_part_count,
            None => 0,
        },
        contribution_pct: share_of(shares, w.id),
    }
}

/// The work types of the workers, once they are known; there are none to look up
/// for no work type.
pub open spec fn worker_types_known(
    workers: Seq<TWorker>,
    work_types: Option<Vec<TWorkType>>,
) -> Option<Seq<TWorkType>> {
    if types_of(workers).len() == 0 {
        Some(Seq::empty())
    } else {
        match work_types {
            Some(t) => Some(t@),
            None => None,
        }
    }
}

/// How the statistics of all workers are put together.
pub open spec fn gives_worker_stats<C>(
    from: Date,
    to: Date,
    f: WorkerStatsFacts<C>,
    n: Next<StatAsk, WorkerStatsListOut<C>>,
) -> bool {
    if from.is_after(to) {
        n.fails(ErrorCode::BizInvalidValue, bad_range_text(from, to))
    } else {
        match f.workers {
            None => n.asks(StatAsk::Workers { limit: MAX_WORKERS, offset: 0 }),
            Some(workers) => match (
                worker_types_known(workers@, f.work_types),
                f.rows,
                f.contributions,
            ) {
                (None, _, _) => n matches Next::Ask(StatAsk::WorkTypesByIds { ids }) && ids@
                    == distinct(types_of(workers@)),
                (Some(_), None, _) => n.asks(StatAsk::PickupRows { from, to }),
                (Some(_), Some(rows), None) => n matches Next::Ask(
                    StatAsk::Contributions { rows: r },
                ) && r@ == rows@,
                (Some(types), Some(rows), Some(shares)) => n matches Next::Done(Ok(out))
                    && out.items@ == workers@.map_values(
                    |w: TWorker| stats_item(w, types, rows@, shares@),
                ),
            },
        }
    }
}

fn find_pickup(rows: &Vec<WorkerPickupRow>, worker_id: i64) -> (r: Option<WorkerPickupRow>)
    ensures
        r == pickup_of(rows@, worker_id),
{
    let mut k: usize = rows.len();
    assert(rows@.take(k as int) =~= rows@);
    while k > 0
        invariant
            k <= rows@.len(),
            pickup_of(rows@.take(k as int), worker_id) == pickup_of(rows@, worker_id),
        decreases k,
    {
        assert(rows@.take(k as int).last() == rows@[k - 1]);
        assert(rows@.take(k as int).drop_last() =~= rows@.take(k - 1));
        if rows[k - 1].worker_id == worker_id {
            return Some(rows[k - 1]);
        }
        k = k - 1;
    }
    None
}

fn find_share<C: Copy>(shares: &Vec<(i64, Option<C>)>, worker_id: i64) -> (r: Option<C>)
    ensures
        r == share_of(shares@, worker_id),
{
    let mut k: usize = shares.len();
    assert(shares@.take(k as int) =~= shares@);
    while k > 0
        invariant
            k <= shares@.len(),
            share_of(shares@.take(k as int), worker_id) == share_of(shares@, worker_id),
        decreases k,
    {
        assert(shares@.take(k as int).last() == shares@[k - 1]);
        assert(shares@.take(k as int).drop_last() =~= shares@.take(k - 1));
        if shares[k - 1].0 == worker_id {
            return shares[k - 1].1;
        }
        k = k - 1;
    }
    None
}

fn holds(ids: &Vec<i64>, upto: usize, id: i64) -> (r: bool)
    requires
        upto <= ids@.len(),
    ensures
        r == ids@.take(upto as int).contains(id),
{
    let mut i: usize = 0;
    while i < upto
        invariant
            i <= upto <= ids@.len(),
            forall|j: int| 0 <= j < i ==> ids@[j] != id,
        decreases upto - i,
    {
        if ids[i] == id {
            assert(ids@.take(upto as int)[i as int] == id);
            return true;
        }
        i = i + 1;
    }
    false
}

fn dedup(ids: &Vec<i64>) -> (r: Vec<i64>)
    ensures
        r@ == distinct(ids@),
{
    let mut out: Vec<i64> = Vec::new();
    let mut i: usize = 0;
    assert(ids@.take(0) =~= Seq::<i64>::empty());
    while i < ids.len()
        invariant
            i <= ids@.len(),
            out@ == distinct(ids@.take(i as int)),
        decreases ids@.len() - i,
    {
        assert(ids@.take(i + 1).drop_last() =~= ids@.take(i as int));
        if !holds(ids, i, ids[i]) {
            out.push(ids[i]);
        }
        i = i + 1;
    }
    assert(ids@.take(i as int) =~= ids@);
    out
}

impl StatisticsService {
    /// What each worker picked up over some days, with the worker's share.
    pub fn worker_stats<C: Copy>(date_from: Date, date_to: Date, f: &WorkerStatsFacts<C>) -> (n:
        Next<StatAsk, WorkerStatsListOut<C>>)
        requires
            date_from.wf(),
            date_to.wf(),
        ensures
            gives_worker_stats(date_from, date_to, *f, n),
    {
        match Self::validate_date_range(date_from, date_to) {
            Err(e) => {
                return Next::Done(Err(e));
            },
            Ok(()) => {},
        }
        let workers = match &f.workers {
            None => {
                return Next::Ask(StatAsk::Workers { limit: MAX_WORKERS, offset: 0 });
            },
            Some(w) => w,
        };
        let type_ids: Vec<i64> = collect_types(workers);
        let none: Vec<TWorkType> = Vec::new();
        let types: &Vec<TWorkType> = if type_ids.len() == 0 {
            &none
        } else {
            match &f.work_types {
                None => {
                    return Next::Ask(StatAsk::WorkTypesByIds { ids: dedup(&type_ids) });
                },
                Some(t) => t,
            }
        };
        assert(worker_types_known(workers@, f.work_types) == Some(types@));
        let rows = match &f.rows {
            None => {
                return Next::Ask(StatAsk::PickupRows { from: date_from, to: date_to });
            },
            Some(r) => r,
        };
        let shares = match &f.contributions {
            None => {
                let copy = rows.clone();
                assert(copy@ =~= rows@);
                return Next::Ask(StatAsk::Contributions { rows: copy });
            },
            Some(s) => s,
        };
        let ghost shown = workers@.map_values(
            |w: TWorker| stats_item(w, types@, rows@, shares@),
        );
        let mut items: Vec<WorkerStatsItem<C>> = Vec::new();
        let mut i: usize = 0;
        while i < workers.len()
            invariant
                i <= workers@.len(),
                shown == workers@.map_values(
                    |w: TWorker| stats_item(w, types@, rows@, shares@),
                ),
                items@ == shown.take(i as int),
            decreases workers@.len() - i,
        {
            let w = &workers[i];
            let name: Option<String> = match w.work_type_id {
                Some(id) => find_type_name(types, id),
                None => None,
            };
            let (pickup_count, pickup_quantity, participated_part_count): (i64, i64, i64) =
                match find_pickup(rows, w.id) {
                Some(r) => (r.pickup_count, r.pickup_quantity, r.participated_part_count),
                None => (0, 0, 0),
            };
            items.push(
                WorkerStatsItem {
                    worker_id: w.id,
                    worker_name: w.name.clone(),
                    badge_code: w.badge_code.clone(),
                    work_type_id: w.work_type_id,
                    work_type_name: name,
                    is_active: w.is_active,
                    pickup_count,
                    pickup_quantity,
                    participated_part_count,
                    contribution_pct: find_share(shares, w.id),
                },
            );
            i = i + 1;
            assert(items@ =~= shown.take(i as int));
        }
        assert(items@ =~= shown);
        Next::Done(Ok(WorkerStatsListOut { items }))
    }
}

// ---------------------------------------------------------------------------
// One worker
// ---------------------------------------------------------------------------

/// What is known while the statistics of one worker are put together.
pub struct WorkerDetailFacts {
    pub worker: Option<Option<TWorker>>,
    pub work_type: Option<Option<TWorkType>>,
    pub events: Option<WorkerEventsRow>,
    pub daily: Option<Vec<(Date, i64)>>,
    pub parts: Option<Vec<WorkerPartRow>>,
}

/// A part that a worker took part in.
pub open spec fn part_item(r: WorkerPartRow) -> WorkerPartItem {
    WorkerPartItem {
        part_id: r.part_id,
        serial_no: r.serial_no,
        name: r.name,
        drawing_no: r.drawing_no,
        status: r.status,
        pickup_count: r.pickup_count,
        last_pickup_at: r.last_pickup_at,
    }
}

/// The parts that have not been deleted, in order.
pub open spec fn live_parts(rows: Seq<WorkerPartRow>) -> Seq<WorkerPartRow> {
    rows.filter(|r: WorkerPartRow| r.is_live)
}

/// How many different parts there are, deleted ones among them.
pub open spec fn parts_counted(rows: Seq<WorkerPartRow>) -> nat {
    rows.map_values(|r: WorkerPartRow| r.part_id).to_set().len()
}

/// The name of the worker's work type: none where the worker has none or it is
/// not there; `None` while it has to be looked up.
pub open spec fn work_type_name_of(
    worker: TWorker,
    work_type: Option<Option<TWorkType>>,
) -> Option<Option<String>> {
    match (worker.work_type_id, work_type) {
        (None, _) => Some(None),
        (Some(_), None) => None,
        (Some(_), Some(None)) => Some(None),
        (Some(_), Some(Some(wt))) => Some(Some(wt.name)),
    }
}

/// The statistics of a worker tell what is known. A deleted part counts as one
/// that the worker took part in, and is not listed.
pub open spec fn tells_detail(
    out: WorkerDetailOut,
    from: Date,
    to: Date,
    w: TWorker,
    name: Option<String>,
    events: WorkerEventsRow,
    daily: Seq<(Date, i64)>,
    parts: Seq<WorkerPartRow>,
) -> bool {
    &&& out.worker == WorkerBrief {
        id: w.id,
        name: w.name,
        badge_code: w.badge_code,
        work_type_name: name,
        is_active: w.is_active,
    }
    &&& out.pickup_count == events.pickup_count
    &&& out.pickup_quantity == events.pickup_quantity
    &&& out.return_count == events.return_count
    &&& out.participated_part_count == parts_counted(parts)
    &&& out.daily_pickups@ == daily_counts(from, to, daily)
    &&& out.parts@ == live_parts(parts).map_values(|r: WorkerPartRow| part_item(r))
}

/// How the statistics of one worker are put together.
pub open spec fn gives_detail(
    worker_id: Seq<char>,
    from: Date,
    to: Date,
    f: WorkerDetailFacts,
    n: Next<StatAsk, WorkerDetailOut>,
) -> bool {
    if from.is_after(to) {
        n.fails(ErrorCode::BizInvalidValue, bad_range_text(from, to))
    } else {
        match parsed_i64(worker_id) {
            None => n.fails(ErrorCode::BizInvalidValue, bad_worker_id_text()),
            Some(id) => match f.worker {
                None => n.asks(StatAsk::Worker { id }),
                Some(None) => n.fails(
                    ErrorCode::BizWorkerNotFound,
                    "worker "@ + worker_id + " 不存在或已软删"@,
                ),
                Some(Some(w)) => match (work_type_name_of(w, f.work_type), f.events, f.daily, f.parts) {
                    (None, _, _, _) => n.asks(StatAsk::WorkType { id: w.work_type_id->0 }),
                    (Some(_), None, _, _) => n.asks(
                        StatAsk::WorkerEvents { worker_id: id, from, to },
                    ),
                    (Some(_), Some(_), None, _) => n.asks(
                        StatAsk::DailyPickups { worker_id: id, from, to },
                    ),
                    (Some(_), Some(_), Some(_), None) => n.asks(
                        StatAsk::WorkerParts { worker_id: id, from, to },
                    ),
                    (Some(name), Some(events), Some(daily), Some(parts)) => n matches Next::Done(
                        Ok(out),
                    ) && tells_detail(out, from, to, w, name, events, daily@, parts@),
                },
            },
        }
    }
}

fn part_ids(rows: &Vec<WorkerPartRow>) -> (r: Vec<i64>)
    ensures
        r@ == rows@.map_values(|r: WorkerPartRow| r.part_id),
{
    let ghost shown = rows@.map_values(|r: WorkerPartRow| r.part_id);
    let mut out: Vec<i64> = Vec::new();
    let mut i: usize = 0;
    while i < rows.len()
        invariant
            i <= rows@.len(),
            shown == rows@.map_values(|r: WorkerPartRow| r.part_id),
            out@ == shown.take(i as int),
        decreases rows@.len() - i,
    {
        out.push(rows[i].part_id);
        i = i + 1;
        assert(out@ =~= shown.take(i as int));
    }
    assert(out@ =~= shown);
    out
}

fn list_live(rows: &Vec<WorkerPartRow>) -> (r: Vec<WorkerPartItem>)
    ensures
        r@ == live_parts(rows@).map_values(|r: WorkerPartRow| part_item(r)),
{
    let mut out: Vec<WorkerPartItem> = Vec::new();
    let mut i: usize = 0;
    proof {
        reveal(Seq::filter);
    }
    assert(out@ =~= live_parts(rows@.take(0)).map_values(|r: WorkerPartRow| part_item(r)));
    while i < rows.len()
        invariant
            i <= rows@.len(),
            out@ == live_parts(rows@.take(i as int)).map_values(|r: WorkerPartRow| part_item(r)),
        decreases rows@.len() - i,
    {
        let r = &rows[i];
        let ghost now = rows@.take(i + 1);
        proof {
            reveal(Seq::filter);
            assert(now.drop_last() =~= rows@.take(i as int));
            assert(now.last() == *r);
        }
        if r.is_live {
            out.push(
                WorkerPartItem {
                    part_id: r.part_id,
                    serial_no: copy_opt(&r.serial_no),
                    name: r.name.clone(),
                    drawing_no: r.drawing_no.clone(),
                    status: r.status.clone(),
                    pickup_count: r.pickup_count,
                    last_pickup_at: r.last_pickup_at,
                },
            );
        }
        i = i + 1;
        assert(out@ =~= live_parts(now).map_values(|r: WorkerPartRow| part_item(r)));
    }
    assert(rows@.take(i as int) =~= rows@);
    out
}

/// As many are left as there are different ids, each of them once.
pub proof fn lemma_distinct(ids: Seq<i64>)
    ensures
        distinct(ids).no_duplicates(),
        distinct(ids).len() == ids.to_set().len(),
        distinct(ids).len() <= ids.len(),
        forall|x: i64| #[trigger] distinct(ids).contains(x) <==> ids.contains(x),
    decreases ids.len(),
{
    if ids.len() == 0 {
        assert(ids.to_set() =~= Set::<i64>::empty());
    } else {
        let front = ids.drop_last();
        lemma_distinct(front);
        vstd::seq_lib::seq_to_set_is_finite(front);
        assert(ids.to_set() =~= front.to_set().insert(ids.last())) by {
            assert forall|x: i64| ids.to_set().contains(x) <==> front.to_set().insert(
                ids.last(),
            ).contains(x) by {
                if ids.contains(x) {
                    let i = choose|i: int| 0 <= i < ids.len() && ids[i] == x;
                    if i < front.len() {
                        assert(front[i] == x);
                    }
                }
                if front.contains(x) {
                    let i = choose|i: int| 0 <= i < front.len() && front[i] == x;
                    assert(ids[i] == x);
                }
                assert(ids[ids.len() - 1] == ids.last());
            }
        }
        let out = distinct(ids);
        let inner = distinct(front);
        assert forall|x: i64| #[trigger] out.contains(x) <==> ids.contains(x) by {
            assert(ids.to_set().contains(x) <==> ids.contains(x));
            assert(front.to_set().contains(x) <==> front.contains(x));
            if !front.contains(ids.last()) {
                if inner.contains(x) {
                    let i = choose|i: int| 0 <= i < inner.len() && inner[i] == x;
                    assert(out[i] == x);
                }
                assert(out[out.len() - 1] == ids.last());
                if out.contains(x) {
                    let i = choose|i: int| 0 <= i < out.len() && out[i] == x;
                    if i < inner.len() {
                        assert(inner[i] == x);
                        assert(inner.contains(x));
                    }
                }
            }
        }
        if !front.contains(ids.last()) {
            assert(!inner.contains(ids.last()));
            assert forall|i: int, j: int|
                0 <= i < out.len() && 0 <= j < out.len() && i != j implies out[i] != out[j] by {
                if i < inner.len() {
                    assert(inner.contains(inner[i]));
                }
                if j < inner.len() {
                    assert(inner.contains(inner[j]));
                }
            }
        }
    }
}

impl StatisticsService {
    /// What one worker picked up and brought back over some days, and on which
    /// parts.
    pub fn worker_detail(
        worker_id_str: &str,
        date_from: Date,
        date_to: Date,
        f: &WorkerDetailFacts,
    ) -> (n: Next<StatAsk, WorkerDetailOut>)
        requires
            date_from.wf(),
            date_to.wf(),
            f.parts matches Some(p) ==> p@.len() <= i64::MAX,
        ensures
            gives_detail(worker_id_str@, date_from, date_to, *f, n),
    {
        match Self::validate_date_range(date_from, date_to) {
            Err(e) => {
                return Next::Done(Err(e));
            },
            Ok(()) => {},
        }
        let (from, to) = (date_from, date_to);
        let id: i64 = match Self::parse_worker_id(worker_id_str) {
            Err(e) => {
                return Next::Done(Err(e));
            },
            Ok(id) => id,
        };
        let worker = match &f.worker {
            None => {
                return Next::Ask(StatAsk::Worker { id });
            },
            Some(None) => {
                let message = join3("worker ", worker_id_str, " 不存在或已软删");
                return Next::Done(
                    Err(AppError::biz(ErrorCode::BizWorkerNotFound, message.as_str())),
                );
            },
            Some(Some(w)) => w,
        };
        let work_type_name: Option<String> = match worker.work_type_id {
            None => None,
            Some(wt_id) => match &f.work_type {
                None => {
                    return Next::Ask(StatAsk::WorkType { id: wt_id });
                },
                Some(None) => None,
                Some(Some(wt)) => Some(wt.name.clone()),
            },
        };
        let events: WorkerEventsRow = match f.events {
            None => {
                return Next::Ask(StatAsk::WorkerEvents { worker_id: id, from, to });
            },
            Some(e) => e,
        };
        let daily = match &f.daily {
            None => {
                return Next::Ask(StatAsk::DailyPickups { worker_id: id, from, to });
            },
            Some(d) => d,
        };
        let rows = match &f.parts {
            None => {
                return Next::Ask(StatAsk::WorkerParts { worker_id: id, from, to });
            },
            Some(p) => p,
        };
        let ids: Vec<i64> = part_ids(rows);
        let different: Vec<i64> = dedup(&ids);
        proof {
            lemma_distinct(ids@);
        }
        let participated_part_count: i64 = different.len() as i64;
        let parts: Vec<WorkerPartItem> = list_live(rows);
        Next::Done(
            Ok(
                WorkerDetailOut {
                    worker: WorkerBrief {
                        id: worker.id,
                        name: worker.name.clone(),
                        badge_code: worker.badge_code.clone(),
                        work_type_name,
                        is_active: worker.is_active,
                    },
                    pickup_count: events.pickup_count,
                    pickup_quantity: events.pickup_quantity,
                    participated_part_count,
                    return_count: events.return_count,
                    daily_pickups: fill_zero_daily_counts(from, to, daily),
                    parts,
                },
            ),
        )
    }
}

// ---------------------------------------------------------------------------
// Batches taken out of turn
// ---------------------------------------------------------------------------

/// A worker who took batches out of turn.
pub open spec fn summary_item(r: PickupSkipSummaryRow) -> PickupSkipSummaryItem {
    PickupSkipSummaryItem {
        worker_id: r.worker_id,
        worker_name: r.worker_name,
        badge_code: r.badge_code,
        work_type_name: r.work_type_name,
        skip_count: r.skip_count,
        last_skip_at: r.last_skip_at,
    }
}

/// A batch that was taken out of turn.
pub open spec fn detail_item(r: PickupSkipDetailRow) -> PickupSkipDetailItem {
    PickupSkipDetailItem {
        id: r.id,
        part_id: r.part_id,
        serial_no: r.serial_no,
        part_name: r.part_name,
        batch_no: r.batch_no,
        quantity: r.quantity,
        part_planned_delivery_date: r.part_planned_delivery_date,
        skipped_earliest_date: r.skipped_earliest_date,
        created_at: r.created_at,
    }
}

/// How workers who took batches out of turn are listed.
pub open spec fn gives_skip_summary(
    rows: Option<Vec<PickupSkipSummaryRow>>,
    n: Next<StatAsk, PickupSkipSummaryOut>,
) -> bool {
    match rows {
        None => n.asks(StatAsk::SkipSummary),
        Some(rows) => n matches Next::Done(Ok(out)) && out.items@ == rows@.map_values(
            |r: PickupSkipSummaryRow| summary_item(r),
        ),
    }
}

/// What is known while the batches that a worker took out of turn are listed.
pub struct SkipDetailFacts {
    pub rows: Option<Vec<PickupSkipDetailRow>>,
    pub total: Option<i64>,
}

/// The longest page of batches taken out of turn.
pub const MAX_SKIP_LIMIT: i64 = 200;

/// How the batches that a worker took out of turn are listed.
pub open spec fn gives_skip_detail(
    worker_id: Seq<char>,
    limit: i64,
    offset: i64,
    f: SkipDetailFacts,
    n: Next<StatAsk, PickupSkipDetailOut>,
) -> bool {
    let lim = clamped(limit, 1, MAX_SKIP_LIMIT);
    let off = clamped(offset, 0, i64::MAX);
    match parsed_i64(worker_id) {
        None => n.fails(ErrorCode::BizInvalidValue, bad_worker_id_text()),
        Some(id) => match (f.rows, f.total) {
            (None, _) => n.asks(StatAsk::SkipDetail { worker_id: id, limit: lim, offset: off }),
            (Some(_), None) => n.asks(StatAsk::SkipDetailCount { worker_id: id }),
            (Some(rows), Some(total)) => n matches Next::Done(Ok(out)) && out.items@
                == rows@.map_values(|r: PickupSkipDetailRow| detail_item(r)) && out.total == total
                && out.limit == lim && out.offset == off,
        },
    }
}

impl StatisticsService {
    /// The workers who took batches out of turn.
    pub fn pickup_skip_summary(rows: &Option<Vec<PickupSkipSummaryRow>>) -> (n: Next<
        StatAsk,
        PickupSkipSummaryOut,
    >)
        ensures
            gives_skip_summary(*rows, n),
    {
        let rows = match rows {
            None => {
                return Next::Ask(StatAsk::SkipSummary);
            },
            Some(r) => r,
        };
        let ghost shown = rows@.map_values(|r: PickupSkipSummaryRow| summary_item(r));
        let mut items: Vec<PickupSkipSummaryItem> = Vec::new();
        let mut i: usize = 0;
        while i < rows.len()
            invariant
                i <= rows@.len(),
                shown == rows@.map_values(|r: PickupSkipSummaryRow| summary_item(r)),
                items@ == shown.take(i as int),
            decreases rows@.len() - i,
        {
            let r = &rows[i];
            items.push(
                PickupSkipSummaryItem {
                    worker_id: r.worker_id,
                    worker_name: r.worker_name.clone(),
                    badge_code: r.badge_code.clone(),
                    work_type_name: copy_opt(&r.work_type_name),
                    skip_count: r.skip_count,
                    last_skip_at: r.last_skip_at,
                },
            );
            i = i + 1;
            assert(items@ =~= shown.take(i as int));
        }
        assert(items@ =~= shown);
        Next::Done(Ok(PickupSkipSummaryOut { items }))
    }

    /// A page of the batches that a worker took out of turn.
    pub fn pickup_skip_detail(
        worker_id_str: &str,
        limit: i64,
        offset: i64,
        f: &SkipDetailFacts,
    ) -> (n: Next<StatAsk, PickupSkipDetailOut>)
        ensures
            gives_skip_detail(worker_id_str@, limit, offset, *f, n),
    {
        let worker_id: i64 = match Self::parse_worker_id(worker_id_str) {
            Err(e) => {
                return Next::Done(Err(e));
            },
            Ok(id) => id,
        };
        let limit: i64 = clamp(limit, 1, MAX_SKIP_LIMIT);
        let offset: i64 = clamp(offset, 0, i64::MAX);
        let rows = match &f.rows {
            None => {
                return Next::Ask(StatAsk::SkipDetail { worker_id, limit, offset });
            },
            Some(r) => r,
        };
        let total: i64 = match f.total {
            None => {
                return Next::Ask(StatAsk::SkipDetailCount { worker_id });
            },
            Some(t) => t,
        };
        let ghost shown = rows@.map_values(|r: PickupSkipDetailRow| detail_item(r));
        let mut items: Vec<PickupSkipDetailItem> = Vec::new();
        let mut i: usize = 0;
        while i < rows.len()
            invariant
                i <= rows@.len(),
                shown == rows@.map_values(|r: PickupSkipDetailRow| detail_item(r)),
                items@ == shown.take(i as int),
            decreases rows@.len() - i,
        {
            let r = &rows[i];
            items.push(
                PickupSkipDetailItem {
                    id: r.id,
                    part_id: r.part_id,
                    serial_no: copy_opt(&r.serial_no),
                    part_name: r.part_name.clone(),
                    batch_no: r.batch_no,
                    quantity: r.quantity,
                    part_planned_delivery_date: r.part_planned_delivery_date,
                    skipped_earliest_date: r.skipped_earliest_date,
                    created_at: r.created_at,
                },
            );
            i = i + 1;
            assert(items@ =~= shown.take(i as int));
        }
        assert(items@ =~= shown);
        Next::Done(Ok(PickupSkipDetailOut { items, total, limit, offset }))
    }
}

// ---------------------------------------------------------------------------
// Laws
// ---------------------------------------------------------------------------

/// Where no more deliveries were late than there were, the deliveries split into
/// those on time and the two kinds of late ones.
pub proof fn deliveries_split_by_punctuality(d: DeliveredRow)
    requires
        d.orange >= 0,
        d.red >= 0,
        d.orange + d.red <= d.count,
    ensures
        on_time(d) + d.orange + d.red == d.count,
        on_time(d) >= 0,
{
}

proof fn lemma_live_or_deleted(rows: Seq<WorkerPartRow>)
    ensures
        live_parts(rows).len() + rows.filter(|r: WorkerPartRow| !r.is_live).len() == rows.len(),
    decreases rows.len(),
{
    reveal(Seq::filter);
    if rows.len() > 0 {
        lemma_live_or_deleted(rows.drop_last());
    }
}

/// A worker's parts, each read once, all count; the list leaves out the deleted
/// ones and nothing else.
pub proof fn deleted_parts_count_but_are_not_listed(
    worker_id: Seq<char>,
    from: Date,
    to: Date,
    f: WorkerDetailFacts,
    n: Next<StatAsk, WorkerDetailOut>,
)
    requires
        gives_detail(worker_id, from, to, f, n),
        n matches Next::Done(Ok(_)),
        f.parts->0@.map_values(|r: WorkerPartRow| r.part_id).no_duplicates(),
    ensures
        n->Done_0->Ok_0.participated_part_count == f.parts->0@.len(),
        n->Done_0->Ok_0.participated_part_count - n->Done_0->Ok_0.parts@.len()
            == f.parts->0@.filter(|r: WorkerPartRow| !r.is_live).len(),
{
    f.parts->0@.map_values(|r: WorkerPartRow| r.part_id).unique_seq_to_set();
    lemma_live_or_deleted(f.parts->0@);
}

/// Every worker who was read gets one line, in order, whether or not the worker
/// picked anything up.
pub proof fn every_worker_gets_a_line<C>(
    from: Date,
    to: Date,
    f: WorkerStatsFacts<C>,
    n: Next<StatAsk, WorkerStatsListOut<C>>,
    i: int,
)
    requires
        gives_worker_stats(from, to, f, n),
        n matches Next::Done(Ok(_)),
        0 <= i < f.workers->0@.len(),
    ensures
        n->Done_0->Ok_0.items@.len() == f.workers->0@.len(),
        n->Done_0->Ok_0.items@[i].worker_id == f.workers->0@[i].id,
        pickup_of(f.rows->0@, f.workers->0@[i].id) is None
            ==> n->Done_0->Ok_0.items@[i].pickup_count == 0,
{
}

} // verus!
