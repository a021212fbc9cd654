//! What the pool's endpoints add around the service: who may call them, and what
//! the dashboard is told afterwards.
use super::dto::{AdminRefillRequest, AdminRemoveRequest};
use super::model::{RefillResult, TakenItem};
use super::service::{
    refills_worker, removes_held, PoolAsk, RefillFacts, RemoveFacts, WorkerPoolService,
};
use crate::auth::{CurrentUser, Role};
use crate::flow::{for_managers, Next};
use vstd::prelude::*;

verus! {

/// Fills a worker up on behalf of a manager.
pub fn admin_refill(current: &CurrentUser, req: &AdminRefillRequest, f: &RefillFacts) -> (n: Next<
    PoolAsk,
    RefillResult,
>)
    ensures
        for_managers(
            *current,
            n,
            refills_worker(req.worker_id, req.shelf_id, current.id, *f, n),
        ),
{
    match current.require_role(Role::Manager) {
        Err(e) => Next::Done(Err(e)),
        Ok(()) => WorkerPoolService::refill_for_worker(
            req.worker_id,
            req.shelf_id,
            current.id,
            f,
        ),
    }
}

/// Takes a batch from a worker on behalf of a manager.
pub fn admin_remove(current: &CurrentUser, req: &AdminRemoveRequest, f: &RemoveFacts) -> (n: Next<
    PoolAsk,
    TakenItem,
>)
    requires
        f.batch matches Some(Some(b)) ==> b.version < i32::MAX,
    ensures
        for_managers(
            *current,
            n,
            removes_held(*req, current.id, *f, n),
        ),
{
    match current.require_role(Role::Manager) {
        Err(e) => Next::Done(Err(e)),
        Ok(()) => WorkerPoolService::admin_remove_held_batch(req, current, f),
    }
}

/// What the dashboard is told of a refill.
pub open spec fn notice_of(r: RefillResult) -> Option<&'static str> {
    if r.taken@.len() > 0 {
        Some("WORKER_POOL_REFILL_DONE")
    } else if r.pool_empty {
        Some("WORKER_POOL_EMPTY")
    } else {
        None
    }
}

/// What the dashboard is told of a refill: that batches were taken, or that
/// there were none to take.
pub fn refill_notice(r: &RefillResult) -> (kind: Option<&'static str>)
    ensures
        kind == notice_of(*r),
{
    if r.taken.len() > 0 {
        Some("WORKER_POOL_REFILL_DONE")
    } else if r.pool_empty {
        Some("WORKER_POOL_EMPTY")
    } else {
        None
    }
}

} // verus!
