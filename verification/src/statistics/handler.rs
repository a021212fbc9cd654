//! What the statistics' endpoints add around the service: they are for managers,
//! and pages have a length to begin with.
use super::dto::{
    DateRangeQuery, OverviewOut, PickupSkipDetailOut, PickupSkipDetailQuery, PickupSkipSummaryOut,
    WorkerDetailOut, WorkerStatsListOut,
};
use super::repo::PickupSkipSummaryRow;
use super::service::{
    gives_detail, gives_overview, gives_skip_detail, gives_skip_summary, gives_worker_stats,
    OverviewFacts, SkipDetailFacts, StatAsk, StatisticsService, WorkerDetailFacts,
    WorkerStatsFacts,
};
use crate::auth::{CurrentUser, Role};
use crate::flow::{for_managers, Next};
use vstd::prelude::*;

verus! {

/// The length of a page where none is asked for.
pub const DEFAULT_SKIP_LIMIT: i64 = 50;

/// The overview, for a manager.
pub fn overview(current: &CurrentUser, q: &DateRangeQuery, f: &OverviewFacts) -> (n: Next<
    StatAsk,
    OverviewOut,
>)
    requires
        q.date_from.wf(),
        q.date_to.wf(),
        f.delivered matches Some(d) ==> d.orange >= 0 && d.red >= 0,
    ensures
        for_managers(
            *current,
            n,
            gives_overview(q.date_from, q.date_to, *f, n),
        ),
{
    match current.require_role(Role::Manager) {
        Err(e) => Next::Done(Err(e)),
        Ok(()) => StatisticsService::overview(q.date_from, q.date_to, f),
    }
}

/// The statistics of all workers, for a manager.
pub fn worker_stats<C: Copy>(
    current: &CurrentUser,
    q: &DateRangeQuery,
    f: &WorkerStatsFacts<C>,
) -> (n: Next<StatAsk, WorkerStatsListOut<C>>)
    requires
        q.date_from.wf(),
        q.date_to.wf(),
    ensures
        for_managers(
            *current,
            n,
            gives_worker_stats(q.date_from, q.date_to, *f, n),
        ),
{
    match current.require_role(Role::Manager) {
        Err(e) => Next::Done(Err(e)),
        Ok(()) => StatisticsService::worker_stats(q.date_from, q.date_to, f),
    }
}

/// The statistics of one worker, for a manager.
pub fn worker_detail(
    current: &CurrentUser,
    worker_id: &str,
    q: &DateRangeQuery,
    f: &WorkerDetailFacts,
) -> (n: Next<StatAsk, WorkerDetailOut>)
    requires
        q.date_from.wf(),
        q.date_to.wf(),
        f.parts matches Some(p) ==> p@.len() <= i64::MAX,
    ensures
        for_managers(
            *current,
            n,
            gives_detail(worker_id@, q.date_from, q.date_to, *f, n),
        ),
{
    match current.require_role(Role::Manager) {
        Err(e) => Next::Done(Err(e)),
        Ok(()) => StatisticsService::worker_detail(worker_id, q.date_from, q.date_to, f),
    }
}

/// The workers who took batches out of turn, for a manager.
pub fn pickup_skip_summary(
    current: &CurrentUser,
    rows: &Option<Vec<PickupSkipSummaryRow>>,
) -> (n: Next<StatAsk, PickupSkipSummaryOut>)
    ensures
        for_managers(
            *current,
            n,
            gives_skip_summary(*rows, n),
        ),
{
    match current.require_role(Role::Manager) {
        Err(e) => Next::Done(Err(e)),
        Ok(()) => StatisticsService::pickup_skip_summary(rows),
    }
}

/// The page that is asked for where parts of it are left out.
pub open spec fn page_of(q: PickupSkipDetailQuery) -> (i64, i64) {
    (
        match q.limit {
            Some(l) => l,
            None => DEFAULT_SKIP_LIMIT,
        },
        match q.offset {
            Some(o) => o,
            None => 0,
        },
    )
}

/// A page of the batches that a worker took out of turn, for a manager.
pub fn pickup_skip_detail(
    current: &CurrentUser,
    worker_id: &str,
    q: &PickupSkipDetailQuery,
    f: &SkipDetailFacts,
) -> (n: Next<StatAsk, PickupSkipDetailOut>)
    ensures
        for_managers(
            *current,
            n,
            gives_skip_detail(worker_id@, page_of(*q).0, page_of(*q).1, *f, n),
        ),
{
    match current.require_role(Role::Manager) {
        Err(e) => {
            return Next::Done(Err(e));
        },
        Ok(()) => {},
    }
    let limit: i64 = match q.limit {
        Some(l) => l,
        None => DEFAULT_SKIP_LIMIT,
    };
    let offset: i64 = match q.offset {
        Some(o) => o,
        None => 0,
    };
    StatisticsService::pickup_skip_detail(worker_id, limit, offset, f)
}

} // verus!
