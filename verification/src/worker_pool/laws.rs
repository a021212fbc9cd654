//! What the endpoints of the pool do, told by what goes in and what comes out.
use super::allocate::{
    allocates_all, is_through, items_view, limit_in, limits_of, lines, serves, standing_at,
    standings, total, AllocateAsk, AllocateFacts, FillLine, Limits, Standing, Visit,
};
use super::dto::{
    AdminAssignRequest, AdminRemoveRequest, AssignResult, AutoAllocateMode, AutoAllocateRequest,
    AutoAllocateResult, PoolBatchItem, ProcessPoolDetail, WorkTypeMaxHeld, WorkerFillItem,
};
use super::handler::notice_of;
use super::model::{NewPartEvent, RefillResult, TakenItem, WorkerPoolState};
use super::repo::{shows_candidate, CandidateRow};
use super::service::{
    assigns, computes_state, notes_logged, notes_synced, notes_taken, refills, refills_worker,
    removes_held, views_pool, AssignFacts, Haul, PoolAsk, PoolFacts, RefillFacts,
    RemoveFacts, StateFacts,
};
use crate::auth::{CurrentUser, Role};
use crate::error::ErrorCode;
use crate::flow::{absent, Next};
use crate::text::decimal;
use vstd::prelude::*;

verus! {

/// The event tells of this batch: which part and batch, how many pieces, which
/// drawing, whose badge and who did it. The batch was in process before and is
/// afterwards.
pub open spec fn is_event_of(
    e: NewPartEvent,
    kind: Seq<char>,
    note: Option<Seq<char>>,
    part_id: i64,
    batch_id: i64,
    quantity: i32,
    drawing: Seq<char>,
    badge: Seq<char>,
    by: i64,
) -> bool {
    &&& e.event_type@ == kind
    &&& e.from_status matches Some(s) && s@ == "IN_PROCESS"@
    &&& e.to_status matches Some(s) && s@ == "IN_PROCESS"@
    &&& e.part_id == part_id
    &&& e.batch_id == Some(batch_id)
    &&& e.quantity == Some(quantity)
    &&& e.drawing_code matches Some(d) && d@ == drawing
    &&& e.badge_code matches Some(b) && b@ == badge
    &&& match note {
        Some(x) => e.note matches Some(t) && t@ == x,
        None => e.note is None,
    }
    &&& e.created_by == Some(by)
}

// ---------------------------------------------------------------------------
// Refilling a worker
// ---------------------------------------------------------------------------

/// A refill takes batches one by one for the worker from the shelf, for every
/// process that the work type is mapped to and for no other. Each batch gets its
/// own history entry and its part is brought in line before the next is taken.
/// It is over when the pool gives no more, and tells all that was taken.
pub proof fn refill_takes_until_the_pool_gives_no_more(
    worker_id: i64,
    work_type_id: i64,
    shelf_id: i64,
    badge_code: String,
    operator: i64,
    f: RefillFacts,
    n: Next<PoolAsk, RefillResult>,
)
    requires
        refills(worker_id, work_type_id, shelf_id, badge_code, operator, f, n),
    ensures
        n matches Next::Ask(PoolAsk::TakeOne {
            worker_id: w,
            shelf_id: s,
            process_ids,
            operator: o,
        }) ==> {
            &&& w == worker_id && s == shelf_id && o == operator
            &&& f.process_ids matches Some(ids) && forall|id: i64|
                ids@.contains(id) <==> #[trigger] process_ids@.contains(id)
            &&& process_ids@.len() > 0
            &&& f.haul.logged >= f.haul.taken@.len() && f.haul.synced >= f.haul.taken@.len()
            &&& !f.haul.dry
        },
        n matches Next::Ask(PoolAsk::InsertEvent { event }) ==> {
            let t = f.haul.taken@[f.haul.logged as int];
            &&& f.haul.logged < f.haul.taken@.len()
            &&& is_event_of(
                event,
                "TAKEN_FROM_POOL"@,
                None,
                t.part_id,
                t.batch_id,
                t.quantity,
                t.drawing_no@,
                badge_code@,
                operator,
            )
        },
        n matches Next::Ask(PoolAsk::SyncPart { part_id }) ==> f.haul.logged >= f.haul.taken@.len()
            && f.haul.synced < f.haul.taken@.len() && part_id
            == f.haul.taken@[f.haul.synced as int].part_id,
        n matches Next::Ask(PoolAsk::WorkType { work_type_id: t }) ==> t == work_type_id
            && f.work_type is None,
        n matches Next::Ask(PoolAsk::ProcessIds { work_type_id: t }) ==> t == work_type_id
            && f.process_ids is None,
        n matches Next::Ask(a) ==> a is TakeOne || a is InsertEvent || a is SyncPart
            || a is WorkType || a is ProcessIds,
        n matches Next::Done(Ok(r)) ==> {
            &&& r.worker_id == worker_id && r.shelf_id == shelf_id
            &&& r.taken@ == f.haul.taken@
            &&& r.pool_empty <==> r.taken@.len() == 0
        },
        n.is_ok() <==> {
            &&& f.work_type matches Some(Some(wt)) && wt.max_held_batches is Some
            &&& f.process_ids matches Some(ids) && ids@.len() > 0
            &&& f.haul.logged >= f.haul.taken@.len() && f.haul.synced >= f.haul.taken@.len()
            &&& f.haul.dry
        },
        absent(f.work_type) <==> n.is_refused(ErrorCode::BizWorkTypeNotFound),
        (f.work_type matches Some(Some(wt)) && wt.max_held_batches is None) <==> n.is_refused(
            ErrorCode::BizWorkTypeMaxHeldNotSet,
        ),
        n.is_refused(ErrorCode::BizWorkTypeNoProcessMapping) ==> f.process_ids is Some
            && f.process_ids->0@.len() == 0,
        n matches Next::Done(Err(e)) ==> e.code is BizWorkTypeNotFound
            || e.code is BizWorkTypeMaxHeldNotSet || e.code is BizWorkTypeNoProcessMapping,
{
    if f.process_ids is Some {
        let ids = f.process_ids->0;
        assert(ids@.len() > 0 ==> ids@.contains(ids@[0]));
    }
}

/// A refill is for a worker who is there, active and has a work type; the work
/// type and the badge are the worker's own.
pub proof fn refill_is_for_active_workers_with_a_work_type(
    worker_id: i64,
    shelf_id: i64,
    operator: i64,
    f: RefillFacts,
    n: Next<PoolAsk, RefillResult>,
)
    requires
        refills_worker(worker_id, shelf_id, operator, f, n),
    ensures
        f.worker is None <==> (n matches Next::Ask(PoolAsk::Worker { worker_id: w }) && w
            == worker_id),
        absent(f.worker) <==> n.is_refused(ErrorCode::BizWorkerNotFound),
        (f.worker matches Some(Some(w)) && !w.is_active) <==> n.is_refused(
            ErrorCode::BizWorkerInactive,
        ),
        (f.worker matches Some(Some(w)) && w.is_active && w.work_type_id is None)
            <==> n.is_refused(ErrorCode::BizWorkerNoWorkType),
        (f.worker matches Some(Some(w)) && w.is_active && w.work_type_id is Some) ==> refills(
            worker_id,
            f.worker->0->0.work_type_id->0,
            shelf_id,
            f.worker->0->0.badge_code,
            operator,
            f,
            n,
        ),
{
    if let Some(Some(w)) = f.worker {
        if w.is_active && w.work_type_id is Some {
            refill_takes_until_the_pool_gives_no_more(
                worker_id,
                w.work_type_id->0,
                shelf_id,
                w.badge_code,
                operator,
                f,
                n,
            );
        }
    }
}

/// What is noted of a haul: the batch that the pool gave, behind those before, or
/// that it had none; one more entry, or one more part in line, and nothing else.
pub proof fn hauls_note_what_happened(before: Haul, item: TakenItem, after: Haul)
    ensures
        notes_taken(before, Some(item), after) ==> after.taken@.len() == before.taken@.len() + 1
            && after.taken@.last() == item && after.taken@.drop_last() == before.taken@ && after.dry
            == before.dry && after.logged == before.logged && after.synced == before.synced,
        notes_taken(before, None, after) ==> after.dry && after.taken@ == before.taken@
            && after.logged == before.logged && after.synced == before.synced,
        notes_logged(before, after) ==> after.taken@ == before.taken@ && after.synced
            == before.synced && after.dry == before.dry,
        notes_logged(before, after) && before.logged < before.taken@.len() ==> after.logged
            == before.logged + 1,
        notes_synced(before, after) ==> after.taken@ == before.taken@ && after.logged
            == before.logged && after.dry == before.dry,
        notes_synced(before, after) && before.synced < before.taken@.len() ==> after.synced
            == before.synced + 1,
{
    if notes_taken(before, Some(item), after) {
        assert(after.taken@.drop_last() =~= before.taken@);
    }
}

/// Of a refill the dashboard is told that batches were taken, or that the pool
/// had none.
pub proof fn dashboard_is_told_of_refills(r: RefillResult)
    ensures
        r.taken@.len() > 0 ==> notice_of(r) is Some && notice_of(r)->0@
            == "WORKER_POOL_REFILL_DONE"@,
        r.taken@.len() == 0 && r.pool_empty ==> notice_of(r) is Some && notice_of(r)->0@
            == "WORKER_POOL_EMPTY"@,
        r.taken@.len() == 0 && !r.pool_empty ==> notice_of(r) is None,
{
}

/// A visit begins with nothing known, nothing taken and nothing noted.
pub proof fn visits_begin_with_nothing(v: Visit)
    requires
        v.is_fresh(),
    ensures
        v.worker is None && v.target is None && v.process_ids is None,
        v.haul.taken@.len() == 0 && v.haul.logged == 0 && v.haul.synced == 0 && !v.haul.dry,
        v.minutes@.len() == 0,
{
}

// ---------------------------------------------------------------------------
// What a worker holds
// ---------------------------------------------------------------------------

/// The state of a worker: the limit is that of the work type, and 0 where there
/// is none; what is free is the limit less what is held, never below 0; each
/// process of the work type has its own count, and all batches held are listed.
pub proof fn state_tells_limit_and_room(
    worker_id: i64,
    shelf_id: i64,
    f: StateFacts,
    n: Next<PoolAsk, WorkerPoolState>,
)
    requires
        computes_state(worker_id, shelf_id, f, n),
        f.held matches Some(h) ==> h >= 0,
    ensures
        absent(f.worker) <==> n.is_refused(ErrorCode::BizWorkerNotFound),
        n matches Next::Done(Err(e)) ==> e.code is BizWorkerNotFound,
        n matches Next::Ask(PoolAsk::Worker { worker_id: w }) ==> w == worker_id,
        n matches Next::Ask(PoolAsk::HeldCount { worker_id: w }) ==> w == worker_id,
        n matches Next::Ask(PoolAsk::HeldBatches { worker_id: w }) ==> w == worker_id,
        n matches Next::Ask(PoolAsk::WorkType { work_type_id }) ==> f.worker matches Some(Some(w))
            && w.work_type_id == Some(work_type_id),
        n matches Next::Ask(PoolAsk::ProcessIds { work_type_id }) ==> f.worker matches Some(Some(w))
            && w.work_type_id == Some(work_type_id),
        n matches Next::Ask(PoolAsk::PoolCount { shelf_id: s, process_id }) ==> s == shelf_id
            && f.counts@.len() < f.process_ids->0@.len() && process_id
            == f.process_ids->0@[f.counts@.len() as int],
        n matches Next::Ask(a) ==> a is Worker || a is HeldCount || a is HeldBatches || a is WorkType
            || a is ProcessIds || a is PoolCount,
        n matches Next::Done(Ok(s)) ==> {
            let w = f.worker->0->0;
            let held = f.held->0;
            &&& f.worker matches Some(Some(_)) && f.held is Some
            &&& s.worker_id == worker_id && s.worker_name == w.name
            &&& s.current_held == held
            &&& s.held_batches@ == f.held_batches->0@
            &&& s.capacity_remaining >= 0
            &&& s.capacity_remaining > 0 ==> s.capacity_remaining + held == s.max_held
            &&& s.capacity_remaining == 0 ==> held >= s.max_held
            &&& match w.work_type_id {
                Some(_) => {
                    &&& match f.work_type->0 {
                        Some(wt) => s.work_type_code == wt.code && match wt.max_held_batches {
                            Some(m) => s.max_held == m,
                            None => s.max_held == 0,
                        },
                        None => s.work_type_code@.len() == 0 && s.max_held == 0,
                    }
                    &&& s.pool_count_by_process@.len() == f.process_ids->0@.len()
                    &&& forall|i: int|
                        0 <= i < f.process_ids->0@.len() ==> (
                        #[trigger] s.pool_count_by_process@[i]).process_id
                            == f.process_ids->0@[i] && s.pool_count_by_process@[i].pool_count
                            == f.counts@[i]
                },
                None => s.work_type_code@.len() == 0 && s.max_held == 0
                    && s.pool_count_by_process@.len() == 0,
            }
        },
{
}

// ---------------------------------------------------------------------------
// Taking a batch away from a worker
// ---------------------------------------------------------------------------

/// A batch is taken away from the worker who holds it and put back on the named
/// shelf, at the step of its part's chain that stands for the named process; a
/// part without a chain gets no step. The history tells of that batch, that
/// worker and that manager, and the answer is the batch one version on.
pub proof fn removal_puts_the_named_batch_back(
    req: AdminRemoveRequest,
    operator: i64,
    f: RemoveFacts,
    n: Next<PoolAsk, TakenItem>,
)
    requires
        removes_held(req, operator, f, n),
        f.batch matches Some(Some(b)) ==> b.version < i32::MAX,
    ensures
        n matches Next::Ask(PoolAsk::Worker { worker_id }) ==> worker_id == req.worker_id,
        n matches Next::Ask(PoolAsk::HeldBatch { batch_id, worker_id }) ==> batch_id == req.batch_id
            && worker_id == req.worker_id,
        n matches Next::Ask(PoolAsk::ChainOfPart { part_id }) ==> f.batch matches Some(Some(b))
            && part_id == b.part_id,
        n matches Next::Ask(PoolAsk::StepOfProcess { chain_id, process_id }) ==> f.chain == Some(
            Some(chain_id),
        ) && process_id == req.next_process_id,
        n matches Next::Ask(PoolAsk::MarkReturned {
            batch_id,
            version,
            shelf_id,
            step_id,
            updated_by,
        }) ==> {
            &&& f.batch matches Some(Some(b)) && batch_id == b.id && version == b.version
            &&& shelf_id == req.shelf_id && updated_by == operator
            &&& f.chain matches Some(chain) && match chain {
                Some(_) => f.step == Some(step_id),
                None => step_id is None,
            }
        },
        n matches Next::Ask(PoolAsk::Part { part_id }) ==> f.batch matches Some(Some(b)) && part_id
            == b.part_id,
        n matches Next::Ask(PoolAsk::SyncPart { part_id }) ==> f.part matches Some(Some(p))
            && part_id == p.id,
        n matches Next::Ask(PoolAsk::InsertEvent { event }) ==> {
            &&& f.part matches Some(Some(_))
            &&& f.batch matches Some(Some(_))
            &&& f.worker matches Some(Some(_))
            &&& f.synced
            &&& is_event_of(
                event,
                "ADMIN_REMOVED_FROM_WORKER"@,
                Some("admin_remove"@),
                f.part->0->0.id,
                f.batch->0->0.id,
                f.batch->0->0.quantity,
                f.part->0->0.drawing_no@,
                f.worker->0->0.badge_code@,
                operator,
            )
        },
        n matches Next::Ask(a) ==> a is Worker || a is HeldBatch || a is ChainOfPart
            || a is StepOfProcess || a is MarkReturned || a is Part || a is SyncPart
            || a is InsertEvent,
        absent(f.worker) <==> n.is_refused(ErrorCode::BizWorkerNotFound),
        ((f.worker matches Some(Some(_))) && absent(f.batch)) <==> n.is_refused(
            ErrorCode::BizPartBatchNotHeldByWorker,
        ),
        n.is_refused(ErrorCode::VersionConflict) ==> f.returned_rows == Some(0u64),
        n.is_refused(ErrorCode::BizPartNotFound) ==> absent(f.part),
        n matches Next::Done(Err(e)) ==> e.code is BizWorkerNotFound
            || e.code is BizPartBatchNotHeldByWorker || e.code is VersionConflict
            || e.code is BizPartNotFound,
        n matches Next::Done(Ok(t)) ==> {
            let b = f.batch->0->0;
            let p = f.part->0->0;
            &&& t.batch_id == b.id && t.part_id == p.id && t.batch_no == b.batch_no && t.quantity
                == b.quantity
            &&& t.serial_no == p.serial_no && t.drawing_no == p.drawing_no
            &&& t.system_delivery_date == p.system_delivery_date && t.planned_delivery_date
                == Some(p.planned_delivery_date) && t.is_urgent == p.is_urgent
            &&& t.version == b.version + 1
        },
        n.is_ok() <==> {
            &&& f.worker matches Some(Some(_))
            &&& f.batch matches Some(Some(_))
            &&& f.chain matches Some(chain) && (chain is None || f.step is Some)
            &&& f.returned_rows matches Some(rows) && rows > 0
            &&& f.part matches Some(Some(_))
            &&& f.synced && f.logged
        },
{
}

// ---------------------------------------------------------------------------
// Looking into the pool
// ---------------------------------------------------------------------------

/// Managers, clerks and inspectors may look into the pool of a process; they see
/// the process, and its work types, workers and waiting batches as they were
/// read, with their number.
pub proof fn pool_is_shown_as_it_is(
    current: CurrentUser,
    process_id: i64,
    f: PoolFacts,
    n: Next<PoolAsk, ProcessPoolDetail>,
)
    requires
        views_pool(current, process_id, f, n),
    ensures
        n.is_refused(ErrorCode::Forbidden) <==> !current.roles@.contains(Role::Manager)
            && !current.roles@.contains(Role::Clerk) && !current.roles@.contains(Role::Inspector),
        n.is_refused(ErrorCode::BizProcessNotFound) ==> absent(f.process),
        absent(f.process) ==> !n.is_ok() && !(n is Ask),
        n matches Next::Ask(PoolAsk::Process { process_id: p }) ==> p == process_id,
        n matches Next::Ask(PoolAsk::WorkTypesOfProcess { process_id: p }) ==> p == process_id,
        n matches Next::Ask(PoolAsk::WorkersOfProcess { process_id: p }) ==> p == process_id,
        n matches Next::Ask(PoolAsk::Candidates { process_id: p }) ==> p == process_id,
        n matches Next::Ask(a) ==> a is Process || a is WorkTypesOfProcess || a is WorkersOfProcess
            || a is Candidates,
        n matches Next::Done(Err(e)) ==> e.code is Forbidden || e.code is BizProcessNotFound,
        n matches Next::Done(Ok(d)) ==> {
            let p = f.process->0->0;
            &&& d.process_id == process_id && d.process_code == p.code && d.process_name == p.name
            &&& d.workers@ == f.workers->0@ && d.work_types@ == f.work_types->0@ && d.items@
                == f.items->0@
            &&& d.total == d.items@.len()
        },
        n.is_ok() <==> {
            &&& current.roles@.contains(Role::Manager) || current.roles@.contains(Role::Clerk)
                || current.roles@.contains(Role::Inspector)
            &&& f.process matches Some(Some(_))
            &&& f.work_types is Some && f.workers is Some && f.items is Some
        },
{
}

/// A waiting batch is shown with the data of its own row; its customer's path is
/// the group and the customer, or the customer alone where there is no group.
pub proof fn waiting_batch_is_shown_with_its_own_data(item: PoolBatchItem, r: CandidateRow)
    requires
        shows_candidate(item, r),
    ensures
        item.batch_id == r.batch_id && item.part_id == r.part_id && item.batch_no == r.batch_no
            && item.quantity == r.quantity && item.version == r.batch_version,
        item.serial_no == r.serial_no && item.name == r.name && item.drawing_no == r.drawing_no
            && item.note == r.note && item.applicant_name == r.applicant_name,
        item.shelf_id == r.shelf_id && item.shelf_code == r.shelf_code && item.shelf_name
            == r.shelf_name && item.location == r.location,
        item.is_urgent == r.is_urgent && item.system_delivery_date == r.system_delivery_date,
        item.customer_name == r.customer_name && item.parent_customer_name
            == r.parent_customer_name,
        item.customer_path is Some <==> r.customer_name is Some,
        r.customer_name matches Some(c) ==> match r.parent_customer_name {
            Some(p) => item.customer_path->0@ == p@ + " / "@ + c@,
            None => item.customer_path->0@ == c@,
        },
{
}

// ---------------------------------------------------------------------------
// Giving a batch to a worker
// ---------------------------------------------------------------------------

/// A manager gives the named batch of the named shelf to the named worker. The
/// worker is there, active, of a work type with a limit, and holds fewer batches
/// than that; the batch waits for the named process, where one is named.
pub proof fn assignment_gives_the_named_batch(
    req: AdminAssignRequest,
    current: CurrentUser,
    f: AssignFacts,
    n: Next<PoolAsk, AssignResult>,
)
    requires
        assigns(req, current, f, n),
        f.held matches Some(h) ==> h >= 0,
    ensures
        n.is_refused(ErrorCode::Forbidden) <==> !current.roles@.contains(Role::Manager),
        n matches Next::Ask(PoolAsk::Worker { worker_id }) ==> worker_id == req.worker_id,
        n matches Next::Ask(PoolAsk::WorkType { work_type_id }) ==> f.worker matches Some(Some(w))
            && w.work_type_id == Some(work_type_id),
        n matches Next::Ask(PoolAsk::HeldCount { worker_id }) ==> worker_id == req.worker_id,
        n matches Next::Ask(PoolAsk::BatchStep { batch_id }) ==> batch_id == req.batch_id
            && req.process_id is Some,
        n matches Next::Ask(PoolAsk::ProcessOfStep { step_id }) ==> f.batch_step == Some(
            Some(Some(step_id)),
        ) && req.process_id is Some,
        n matches Next::Ask(PoolAsk::TakeSpecific { worker_id, shelf_id, batch_id, operator }) ==> {
            &&& worker_id == req.worker_id && shelf_id == req.shelf_id && batch_id == req.batch_id
            &&& operator == current.id
        },
        n matches Next::Ask(PoolAsk::SyncPart { part_id }) ==> f.taken matches Some(Some(t))
            && part_id == t.part_id,
        n matches Next::Ask(PoolAsk::InsertEvent { event }) ==> {
            let t = f.taken->0->0;
            &&& f.taken matches Some(Some(_)) && f.synced
            &&& is_event_of(
                event,
                "TAKEN_FROM_POOL"@,
                Some("admin_assign"@),
                t.part_id,
                t.batch_id,
                t.quantity,
                t.drawing_no@,
                f.worker->0->0.badge_code@,
                current.id,
            )
        },
        n matches Next::Ask(a) ==> a is Worker || a is WorkType || a is HeldCount || a is BatchStep
            || a is ProcessOfStep || a is TakeSpecific || a is SyncPart || a is InsertEvent,
        (n matches Next::Ask(a) && (a is TakeSpecific || a is SyncPart || a is InsertEvent))
            || n.is_ok() ==> {
            &&& current.roles@.contains(Role::Manager)
            &&& f.worker matches Some(Some(w)) && w.is_active && w.work_type_id is Some
            &&& f.work_type matches Some(Some(wt)) && wt.max_held_batches matches Some(max)
                && f.held matches Some(held) && held < max
            &&& req.process_id matches Some(wanted) ==> (f.batch_step matches Some(Some(Some(_))))
                && f.step_process == Some(Some(wanted))
        },
        n.is_refused(ErrorCode::BizWorkerNotFound) <==> current.roles@.contains(Role::Manager)
            && absent(f.worker),
        n.is_refused(ErrorCode::BizWorkerInactive) <==> current.roles@.contains(Role::Manager) && (
        f.worker matches Some(Some(w)) && !w.is_active),
        n.is_refused(ErrorCode::BizWorkerHoldLimitExceeded) ==> (f.work_type matches Some(Some(wt))
            && wt.max_held_batches matches Some(max) && f.held matches Some(held) && held >= max),
        n.is_refused(ErrorCode::BizInvalidValue) ==> (req.process_id matches Some(wanted)
            && f.batch_step matches Some(Some(step)) && (step is None || (f.step_process is Some
            && f.step_process->0 != Some(wanted)))),
        n.is_refused(ErrorCode::BizPartBatchNotFound) ==> absent(f.batch_step),
        n.is_refused(ErrorCode::BizPartBatchNotHeldByWorker) ==> absent(f.taken),
        n.is_refused(ErrorCode::BizWorkerNoWorkType) ==> f.worker->0->0.work_type_id is None,
        n.is_refused(ErrorCode::BizWorkTypeNotFound) ==> absent(f.work_type),
        n.is_refused(ErrorCode::BizWorkTypeMaxHeldNotSet) ==> f.work_type->0->0.max_held_batches
            is None,
        n matches Next::Done(Err(e)) ==> e.code is Forbidden || e.code is BizWorkerNotFound
            || e.code is BizWorkerInactive || e.code is BizWorkerNoWorkType
            || e.code is BizWorkTypeNotFound || e.code is BizWorkTypeMaxHeldNotSet
            || e.code is BizWorkerHoldLimitExceeded || e.code is BizInvalidValue
            || e.code is BizPartBatchNotFound || e.code is BizPartBatchNotHeldByWorker,
        n matches Next::Done(Ok(r)) ==> {
            &&& r.worker_id == req.worker_id && r.batch_id == req.batch_id && r.shelf_id
                == req.shelf_id
            &&& f.taken == Some(Some(r.taken))
            &&& r.current_held == f.held->0 + 1
            &&& f.work_type->0->0.max_held_batches == Some(r.max_held)
            &&& f.synced && f.logged
        },
        // Where nothing stands against it, the batch is given.
        current.roles@.contains(Role::Manager) && (f.worker matches Some(Some(w)) && w.is_active
            && w.work_type_id is Some) && (f.work_type matches Some(Some(wt))
            && wt.max_held_batches matches Some(max) && f.held matches Some(held) && held < max) && (
        req.process_id matches Some(wanted) ==> (f.batch_step matches Some(Some(Some(_))))
            && f.step_process == Some(Some(wanted))) ==> match f.taken {
            None => n matches Next::Ask(a) && a is TakeSpecific,
            Some(None) => n.is_refused(ErrorCode::BizPartBatchNotHeldByWorker),
            Some(Some(_)) => if !f.synced {
                n matches Next::Ask(a) && a is SyncPart
            } else if !f.logged {
                n matches Next::Ask(a) && a is InsertEvent
            } else {
                n.is_ok()
            },
        },
{
}

// ---------------------------------------------------------------------------
// Filling up all workers of a process
// ---------------------------------------------------------------------------

/// The minutes in all are the sum of the minutes one by one.
pub proof fn total_is_the_sum(minutes: Seq<i32>)
    ensures
        total(minutes) == minutes.fold_left(0int, |sum: int, m: i32| sum + m),
    decreases minutes.len(),
{
    if minutes.len() > 0 {
        total_is_the_sum(minutes.drop_last());
    }
}

/// The limits of a work type are those of its own row; of several rows for one
/// work type the last counts.
pub proof fn limits_are_those_of_the_own_row(
    work_types: Seq<WorkTypeMaxHeld>,
    minutes: Seq<Option<i32>>,
    k: int,
)
    requires
        0 <= k < work_types.len(),
        forall|j: int|
            k < j < work_types.len() ==> (#[trigger] work_types[j]).work_type_id
                != work_types[k].work_type_id,
    ensures
        limits_of(work_types, minutes, work_types[k].work_type_id) == Some(
            (work_types[k].max_held_batches, minutes[k]),
        ),
    decreases work_types.len(),
{
    let last = work_types.len() - 1;
    if k < last {
        assert(work_types[last].work_type_id != work_types[k].work_type_id);
        limits_are_those_of_the_own_row(work_types.drop_last(), minutes, k);
    }
}

/// A work type without a row has no limits.
pub proof fn unmapped_work_types_have_no_limits(
    work_types: Seq<WorkTypeMaxHeld>,
    minutes: Seq<Option<i32>>,
    work_type_id: i64,
)
    ensures
        limits_of(work_types, minutes, work_type_id) is Some <==> exists|k: int|
            0 <= k < work_types.len() && (#[trigger] work_types[k]).work_type_id == work_type_id,
    decreases work_types.len(),
{
    if limits_of(work_types, minutes, work_type_id) is Some {
        let k = lemma_row_of_limits(work_types, minutes, work_type_id);
        assert(work_types[k].work_type_id == work_type_id);
    } else if exists|k: int|
        0 <= k < work_types.len() && (#[trigger] work_types[k]).work_type_id == work_type_id {
        let k = choose|k: int|
            0 <= k < work_types.len() && (#[trigger] work_types[k]).work_type_id == work_type_id;
        let front = work_types.drop_last();
        unmapped_work_types_have_no_limits(front, minutes, work_type_id);
        if k < front.len() {
            assert(front[k].work_type_id == work_type_id);
        }
    }
}

/// A worker is filled up by the limit of the worker's own work type: the one on
/// batches where batches count, the one on minutes where minutes count.
pub proof fn target_is_of_the_own_work_type<R>(
    req: AutoAllocateRequest<R>,
    ratio_ok: bool,
    ratio_text: Seq<char>,
    current: CurrentUser,
    f: AllocateFacts,
    n: Next<AllocateAsk, AutoAllocateResult<R>>,
    k: int,
)
    requires
        allocates_all(req, ratio_ok, ratio_text, current, f, n),
        n matches Next::Ask(AllocateAsk::Worker { index, ask }) && ask is Target,
        forall|a: int, b: int|
            0 <= a < b < f.work_types->0@.len() ==> (#[trigger] f.work_types->0@[a]).work_type_id
                != (#[trigger] f.work_types->0@[b]).work_type_id,
        0 <= k < f.work_types->0@.len(),
        f.work_types->0@[k].work_type_id
            == f.workers->0@[n->Ask_0->Worker_index as int].work_type_id,
    ensures
        match req.mode {
            AutoAllocateMode::Count => f.work_types->0@[k].max_held_batches == Some(
                n->Ask_0->Worker_ask->max,
            ),
            AutoAllocateMode::Time => f.minutes@[k] == Some(n->Ask_0->Worker_ask->max),
        },
{
    let work_types = f.work_types->0@;
    assert forall|j: int| k < j < work_types.len() implies (
    #[trigger] work_types[j]).work_type_id != work_types[k].work_type_id by {}
    limits_are_those_of_the_own_row(work_types, f.minutes@, k);
    lemma_step_of_allocation(req, ratio_ok, ratio_text, current, f, n);
}

/// The standing of the worker whom a step is about.
proof fn lemma_step_of_allocation<R>(
    req: AutoAllocateRequest<R>,
    ratio_ok: bool,
    ratio_text: Seq<char>,
    current: CurrentUser,
    f: AllocateFacts,
    n: Next<AllocateAsk, AutoAllocateResult<R>>,
)
    requires
        allocates_all(req, ratio_ok, ratio_text, current, f, n),
        n matches Next::Ask(AllocateAsk::Worker { index, ask }),
    ensures
        ({
            let i = n->Ask_0->Worker_index as int;
            let workers = f.workers->0@;
            let all = standings(req.mode, f.work_types->0@, workers, current.id, f);
            &&& current.is(Role::Manager) && ratio_ok && f.process_exists == Some(true)
            &&& f.work_types is Some && f.work_types->0@.len() > 0 && f.work_types->0@.len()
                <= f.minutes@.len()
            &&& f.workers is Some
            &&& 0 <= i < workers.len()
            &&& all[i] == standing_at(
                req.mode,
                f.work_types->0@,
                workers,
                current.id,
                f,
                i,
            )
            &&& serves(n, all[i], i, workers[i].worker_id, req.shelf_id, current.id)
            &&& forall|j: int| 0 <= j < i ==> is_through(#[trigger] all[j])
        }),
{
}

/// Nothing is left to do for the worker at `i`: the worker has no work type, or
/// one that is not mapped, is not there or not active, can do no process; or got
/// up to the target or all that the pool had, all of it entered and in line.
pub open spec fn is_served<R>(req: AutoAllocateRequest<R>, f: AllocateFacts, i: int) -> bool {
    let row = f.workers->0@[i];
    let v = f.visits@[i];
    ||| row.work_type_id == 0
    ||| forall|k: int|
        0 <= k < f.work_types->0@.len() ==> (#[trigger] f.work_types->0@[k]).work_type_id
            != row.work_type_id
    ||| i < f.visits@.len() && v.worker is Some && (v.worker->0 is None
        || !v.worker->0->0.is_active)
    ||| i < f.visits@.len() && v.process_ids is Some && v.process_ids->0@.len() == 0
    ||| gets_batches(f, i) && v.haul.logged >= v.haul.taken@.len() && v.haul.synced
        >= v.haul.taken@.len() && (v.haul.dry || match req.mode {
        AutoAllocateMode::Count => v.haul.taken@.len() >= v.target->0,
        AutoAllocateMode::Time => v.minutes@.len() >= v.haul.taken@.len() && total(v.minutes@)
            >= v.target->0,
    })
}

/// The worker at `i` is one for whom batches are taken.
pub open spec fn gets_batches(f: AllocateFacts, i: int) -> bool {
    let row = f.workers->0@[i];
    let v = f.visits@[i];
    &&& row.work_type_id != 0
    &&& exists|k: int|
        0 <= k < f.work_types->0@.len() && (#[trigger] f.work_types->0@[k]).work_type_id
            == row.work_type_id
    &&& i < f.visits@.len()
    &&& v.worker is Some && v.worker->0 is Some && v.worker->0->0.is_active
    &&& v.target is Some
    &&& v.process_ids is Some && v.process_ids->0@.len() > 0
}

proof fn lemma_through_is_served<R>(
    req: AutoAllocateRequest<R>,
    current: CurrentUser,
    f: AllocateFacts,
    i: int,
)
    requires
        f.work_types is Some,
        f.workers is Some,
        0 <= i < f.workers->0@.len(),
        is_through(
            standing_at(req.mode, f.work_types->0@, f.workers->0@, current.id, f, i),
        ),
    ensures
        is_served(req, f, i),
        standing_at(req.mode, f.work_types->0@, f.workers->0@, current.id, f, i) is NoWorkType
            <==> f.workers->0@[i].work_type_id == 0,
        standing_at(req.mode, f.work_types->0@, f.workers->0@, current.id, f, i) is Filled
            <==> gets_batches(f, i),
        standing_at(
            req.mode,
            f.work_types->0@,
            f.workers->0@,
            current.id,
            f,
            i,
        ) matches Standing::Filled { target, count, ran_dry } ==> f.visits@[i].target == Some(target)
            && match req.mode {
            AutoAllocateMode::Count => count == f.visits@[i].haul.taken@.len(),
            AutoAllocateMode::Time => count == total(f.visits@[i].minutes@),
        },
{
    unmapped_work_types_have_no_limits(
        f.work_types->0@,
        f.minutes@,
        f.workers->0@[i].work_type_id,
    );
}

/// What filling up all workers asks for, and for whom: workers one after the
/// other, in their order. A batch is taken for a worker who is there and active,
/// from the shelf of the request, for all processes of the worker's work type,
/// while the target is not reached.
pub proof fn allocation_serves_workers_in_order<R>(
    req: AutoAllocateRequest<R>,
    ratio_ok: bool,
    ratio_text: Seq<char>,
    current: CurrentUser,
    f: AllocateFacts,
    n: Next<AllocateAsk, AutoAllocateResult<R>>,
)
    requires
        allocates_all(req, ratio_ok, ratio_text, current, f, n),
        n matches Next::Ask(AllocateAsk::Worker { index, ask }),
    ensures
        ({
            let i = n->Ask_0->Worker_index as int;
            let ask = n->Ask_0->Worker_ask;
            let row = f.workers->0@[i];
            let v = f.visits@[i];
            let taken = v.haul.taken@;
            &&& f.workers is Some && 0 <= i < f.workers->0@.len()
            &&& current.roles@.contains(Role::Manager) && ratio_ok
            &&& forall|j: int| 0 <= j < i ==> #[trigger] is_served(req, f, j)
            &&& ask is Worker || ask is Target || ask is ProcessIds || ask is TakeOne
                || ask is InsertEvent || ask is SyncPart || ask is EstimatedMinutes
            &&& !(ask is Worker) ==> i < f.visits@.len() && v.worker is Some && v.worker->0 is Some
                && v.worker->0->0.is_active
            &&& ask matches PoolAsk::Worker { worker_id } ==> worker_id == row.worker_id
            &&& ask is Target ==> v.target is None
            &&& ask matches PoolAsk::ProcessIds { work_type_id } ==> work_type_id
                == row.work_type_id && v.process_ids is None
            &&& ask matches PoolAsk::TakeOne { worker_id, shelf_id, process_ids, operator } ==> {
                &&& worker_id == row.worker_id && shelf_id == req.shelf_id && operator
                    == current.id
                &&& forall|id: i64|
                    v.process_ids->0@.contains(id) <==> #[trigger] process_ids@.contains(id)
                &&& v.haul.logged >= taken.len() && v.haul.synced >= taken.len() && !v.haul.dry
                &&& match req.mode {
                    AutoAllocateMode::Count => taken.len() < v.target->0,
                    AutoAllocateMode::Time => v.minutes@.len() >= taken.len() && total(v.minutes@)
                        < v.target->0,
                }
            }
            &&& ask matches PoolAsk::InsertEvent { event } ==> {
                let t = taken[v.haul.logged as int];
                &&& v.haul.logged < taken.len()
                &&& is_event_of(
                    event,
                    "TAKEN_FROM_POOL"@,
                    Some("auto_allocate"@),
                    t.part_id,
                    t.batch_id,
                    t.quantity,
                    t.drawing_no@,
                    v.worker->0->0.badge_code@,
                    current.id,
                )
            }
            &&& ask matches PoolAsk::SyncPart { part_id } ==> v.haul.synced < taken.len() && part_id
                == taken[v.haul.synced as int].part_id
            &&& ask matches PoolAsk::EstimatedMinutes { batch_id } ==> req.mode is Time
                && v.minutes@.len() < taken.len() && batch_id
                == taken[v.minutes@.len() as int].batch_id
        }),
{
    lemma_step_of_allocation(req, ratio_ok, ratio_text, current, f, n);
    let i = n->Ask_0->Worker_index as int;
    let workers = f.workers->0@;
    let all = standings(req.mode, f.work_types->0@, workers, current.id, f);
    assert forall|j: int| 0 <= j < i implies #[trigger] is_served(req, f, j) by {
        assert(is_through(all[j]));
        lemma_through_is_served(req, current, f, j);
    }
}

/// Before any worker, filling up looks at the caller, the share, the process and
/// its work types with their limits, in this order.
pub proof fn allocation_checks_the_whole_first<R>(
    req: AutoAllocateRequest<R>,
    ratio_ok: bool,
    ratio_text: Seq<char>,
    current: CurrentUser,
    f: AllocateFacts,
    n: Next<AllocateAsk, AutoAllocateResult<R>>,
)
    requires
        allocates_all(req, ratio_ok, ratio_text, current, f, n),
    ensures
        n.is_refused(ErrorCode::Forbidden) <==> !current.roles@.contains(Role::Manager),
        n.is_refused(ErrorCode::BizAutoAllocateInvalidRatio) <==> current.roles@.contains(
            Role::Manager,
        ) && !ratio_ok,
        n.is_refused(ErrorCode::BizProcessNotFound) <==> current.roles@.contains(Role::Manager)
            && ratio_ok && f.process_exists == Some(false),
        n.is_refused(ErrorCode::BizWorkTypeNoProcessMapping) <==> current.roles@.contains(
            Role::Manager,
        ) && ratio_ok && f.process_exists == Some(true) && f.work_types is Some
            && f.work_types->0@.len() == 0,
        n matches Next::Ask(AllocateAsk::Whole { ask }) ==> match ask {
            PoolAsk::Process { process_id } => process_id == req.process_id
                && f.process_exists is None,
            PoolAsk::WorkTypesOfProcess { process_id } => process_id == req.process_id
                && f.work_types is None,
            PoolAsk::MaxHeldMinutes { work_type_id } => f.minutes@.len() < f.work_types->0@.len()
                && work_type_id == f.work_types->0@[f.minutes@.len() as int].work_type_id,
            PoolAsk::WorkersOfProcess { process_id } => process_id == req.process_id
                && f.workers is None,
            _ => false,
        },
        n matches Next::Done(Err(e)) ==> e.code is Forbidden || e.code is BizAutoAllocateInvalidRatio
            || e.code is BizProcessNotFound || e.code is BizWorkTypeNoProcessMapping
            || e.code is BizWorkTypeMaxHeldNotSet || e.code is BizWorkTypeMaxHeldMinutesNotSet,
        n.is_refused(ErrorCode::BizWorkTypeMaxHeldNotSet) ==> req.mode is Count,
        n.is_refused(ErrorCode::BizWorkTypeMaxHeldMinutesNotSet) ==> req.mode is Time,
        n.is_ok() ==> current.roles@.contains(Role::Manager) && ratio_ok && f.process_exists
            == Some(true) && f.work_types is Some && f.work_types->0@.len() > 0
            && f.work_types->0@.len() <= f.minutes@.len() && f.workers is Some,
{
}

/// Filling up is over when every worker is served. The result repeats the request
/// and has one line, in the order of the workers, for each worker without a work
/// type and for each for whom batches were to be taken, and none for the others.
pub proof fn allocation_tells_of_all_workers<R>(
    req: AutoAllocateRequest<R>,
    ratio_ok: bool,
    ratio_text: Seq<char>,
    current: CurrentUser,
    f: AllocateFacts,
    n: Next<AllocateAsk, AutoAllocateResult<R>>,
)
    requires
        allocates_all(req, ratio_ok, ratio_text, current, f, n),
        n.is_ok(),
    ensures
        ({
            let r = n->Done_0->Ok_0;
            let workers = f.workers->0@;
            let told = Seq::new(workers.len(), |i: int| i).filter(
                |i: int| workers[i].work_type_id == 0 || gets_batches(f, i),
            );
            &&& r.process_id == req.process_id && r.shelf_id == req.shelf_id && r.mode == req.mode
                && r.fill_ratio == req.fill_ratio
            &&& forall|i: int| 0 <= i < workers.len() ==> #[trigger] is_served(req, f, i)
            &&& r.filled@.len() == told.len()
            &&& forall|k: int|
                0 <= k < told.len() ==> tells_of(req, #[trigger] r.filled@[k], f, told[k])
        }),
{
    let r = n->Done_0->Ok_0;
    let workers = f.workers->0@;
    let all = standings(req.mode, f.work_types->0@, workers, current.id, f);
    assert forall|i: int| 0 <= i < workers.len() implies #[trigger] is_served(req, f, i) by {
        assert(is_through(all[i]));
        lemma_through_is_served(req, current, f, i);
    }
    lemma_lines(req, current, f, workers.len());
    assert(workers.take(workers.len() as int) =~= workers);
    let told = Seq::new(workers.len(), |i: int| i).filter(
        |i: int| workers[i].work_type_id == 0 || gets_batches(f, i),
    );
    assert(lines(workers, all).len() == items_view(r.filled@).len());
    assert forall|k: int| 0 <= k < told.len() implies tells_of(
        req,
        #[trigger] r.filled@[k],
        f,
        told[k],
    ) by {
        assert(items_view(r.filled@)[k] == lines(workers, all)[k]);
        assert(tells_line(req, lines(workers, all)[k], f, told[k]));
    }
}

/// The line tells what was done for the worker at `i`: the target and the batches
/// or minutes reached, or that there is no work type.
pub open spec fn tells_of<R>(
    req: AutoAllocateRequest<R>,
    item: WorkerFillItem,
    f: AllocateFacts,
    i: int,
) -> bool {
    let v = f.visits@[i];
    &&& item.worker_id == f.workers->0@[i].worker_id
    &&& if f.workers->0@[i].work_type_id == 0 {
        item.target == 0 && item.filled_count == 0 && item.skipped_reason is Some
    } else {
        &&& item.skipped_reason is None
        &&& v.target == Some(item.target)
        &&& match req.mode {
            AutoAllocateMode::Count => item.filled_count == v.haul.taken@.len(),
            AutoAllocateMode::Time => item.filled_count == total(v.minutes@),
        }
    }
}

spec fn tells_line<R>(
    req: AutoAllocateRequest<R>,
    line: FillLine,
    f: AllocateFacts,
    i: int,
) -> bool {
    let v = f.visits@[i];
    &&& line.worker_id == f.workers->0@[i].worker_id
    &&& if f.workers->0@[i].work_type_id == 0 {
        line.target == 0 && line.filled_count == 0 && line.skipped_reason is Some
    } else {
        &&& line.skipped_reason is None
        &&& v.target == Some(line.target)
        &&& match req.mode {
            AutoAllocateMode::Count => line.filled_count == v.haul.taken@.len(),
            AutoAllocateMode::Time => line.filled_count == total(v.minutes@),
        }
    }
}

proof fn lemma_lines<R>(
    req: AutoAllocateRequest<R>,
    current: CurrentUser,
    f: AllocateFacts,
    m: nat,
)
    requires
        f.work_types is Some,
        f.workers is Some,
        m <= f.workers->0@.len(),
        forall|i: int|
            0 <= i < f.workers->0@.len() ==> is_through(
                #[trigger] standings(
                    req.mode,
                    f.work_types->0@,
                    f.workers->0@,
                    current.id,
                    f,
                )[i],
            ),
    ensures
        ({
            let workers = f.workers->0@;
            let all = standings(req.mode, f.work_types->0@, workers, current.id, f);
            let told = Seq::new(m, |i: int| i).filter(
                |i: int| workers[i].work_type_id == 0 || gets_batches(f, i),
            );
            let out = lines(workers.take(m as int), all);
            &&& out.len() == told.len()
            &&& forall|k: int|
                0 <= k < out.len() ==> tells_line(req, #[trigger] out[k], f, told[k])
        }),
    decreases m,
{
    reveal(Seq::filter);
    let workers = f.workers->0@;
    let all = standings(req.mode, f.work_types->0@, workers, current.id, f);
    if m > 0 {
        let last = m - 1;
        lemma_lines(req, current, f, last as nat);
        assert(workers.take(m as int).drop_last() =~= workers.take(last));
        assert(workers.take(m as int).last() == workers[last]);
        assert(Seq::new(m, |i: int| i).drop_last() =~= Seq::new(last as nat, |i: int| i));
        assert(is_through(all[last]));
        lemma_through_is_served(req, current, f, last);
    }
}

/// Filling up is refused for want of a limit only where the work type of an
/// active worker lacks the one that counts.
pub proof fn missing_limit_is_that_of_an_active_worker<R>(
    req: AutoAllocateRequest<R>,
    ratio_ok: bool,
    ratio_text: Seq<char>,
    current: CurrentUser,
    f: AllocateFacts,
    n: Next<AllocateAsk, AutoAllocateResult<R>>,
)
    requires
        allocates_all(req, ratio_ok, ratio_text, current, f, n),
        n.is_refused(ErrorCode::BizWorkTypeMaxHeldNotSet) || n.is_refused(
            ErrorCode::BizWorkTypeMaxHeldMinutesNotSet,
        ),
    ensures
        exists|i: int, k: int|
            {
                &&& 0 <= i < f.workers->0@.len() && i < f.visits@.len()
                &&& 0 <= k < f.work_types->0@.len()
                &&& (#[trigger] f.work_types->0@[k]).work_type_id == (
                #[trigger] f.workers->0@[i]).work_type_id
                &&& f.visits@[i].worker is Some && f.visits@[i].worker->0 is Some
                    && f.visits@[i].worker->0->0.is_active
                &&& match req.mode {
                    AutoAllocateMode::Count => f.work_types->0@[k].max_held_batches is None,
                    AutoAllocateMode::Time => f.minutes@[k] is None,
                }
            },
{
    let workers = f.workers->0@;
    let work_types = f.work_types->0@;
    let all = standings(req.mode, work_types, workers, current.id, f);
    let i = choose|i: int|
        {
            &&& 0 <= i < workers.len()
            &&& forall|j: int| 0 <= j < i ==> is_through(#[trigger] all[j])
            &&& !is_through(#[trigger] all[i])
            &&& serves(n, all[i], i, workers[i].worker_id, req.shelf_id, current.id)
        };
    let k = lemma_row_of_limits(work_types, f.minutes@, workers[i].work_type_id);
    assert(work_types[k].work_type_id == workers[i].work_type_id);
}

proof fn lemma_row_of_limits(
    work_types: Seq<WorkTypeMaxHeld>,
    minutes: Seq<Option<i32>>,
    work_type_id: i64,
) -> (k: int)
    requires
        limits_of(work_types, minutes, work_type_id) is Some,
    ensures
        0 <= k < work_types.len(),
        work_types[k].work_type_id == work_type_id,
        limits_of(work_types, minutes, work_type_id) == Some(
            (work_types[k].max_held_batches, minutes[k]),
        ),
    decreases work_types.len(),
{
    if work_types.last().work_type_id == work_type_id {
        work_types.len() - 1
    } else {
        lemma_row_of_limits(work_types.drop_last(), minutes, work_type_id)
    }
}

// ---------------------------------------------------------------------------
// What a refusal names
// ---------------------------------------------------------------------------

/// A refused refill names the worker, or the work type, that stands in the way.
pub proof fn refused_refills_name_the_cause(
    worker_id: i64,
    shelf_id: i64,
    operator: i64,
    f: RefillFacts,
    n: Next<PoolAsk, RefillResult>,
)
    requires
        refills_worker(worker_id, shelf_id, operator, f, n),
    ensures
        n matches Next::Done(Err(e)) ==> match e.code {
            ErrorCode::BizWorkerNotFound => e.message@ == "worker "@ + decimal(worker_id as int)
                + " 不存在"@,
            ErrorCode::BizWorkerInactive => e.message@ == "worker "@ + decimal(worker_id as int)
                + " 已停用"@,
            ErrorCode::BizWorkerNoWorkType => e.message@ == "worker "@ + decimal(worker_id as int)
                + " 未分配工种"@,
            ErrorCode::BizWorkTypeNotFound => e.message@ == "work_type "@ + decimal(
                f.worker->0->0.work_type_id->0 as int,
            ) + " 不存在"@,
            ErrorCode::BizWorkTypeMaxHeldNotSet => e.message@ == "work_type "@ + decimal(
                f.worker->0->0.work_type_id->0 as int,
            ) + " max_held_batches 未设置"@,
            ErrorCode::BizWorkTypeNoProcessMapping => e.message@ == "work_type "@ + decimal(
                f.worker->0->0.work_type_id->0 as int,
            ) + " 未映射工序"@,
            _ => false,
        },
{
}

/// A refused removal names the batch, and the worker where the worker does not
/// hold it.
pub proof fn refused_removals_name_the_batch(
    req: AdminRemoveRequest,
    operator: i64,
    f: RemoveFacts,
    n: Next<PoolAsk, TakenItem>,
)
    requires
        removes_held(req, operator, f, n),
    ensures
        n matches Next::Done(Err(e)) ==> match e.code {
            ErrorCode::BizPartBatchNotHeldByWorker => e.message@ == "batch "@ + decimal(
                req.batch_id as int,
            ) + " 不是 worker "@ + decimal(req.worker_id as int) + " 持有"@,
            ErrorCode::VersionConflict => e.message@ == "batch "@ + decimal(
                f.batch->0->0.id as int,
            ) + " 版本冲突或状态非 IN_PROCESS+WORKER"@,
            ErrorCode::BizWorkerNotFound => e.message@ == "worker 不存在"@,
            ErrorCode::BizPartNotFound => e.message@ == "part 不存在"@,
            _ => true,
        },
{
}

/// A refused assignment names the worker, the work type or the batch that stands
/// in the way, with the numbers that were compared.
pub proof fn refused_assignments_name_the_cause(
    req: AdminAssignRequest,
    current: CurrentUser,
    f: AssignFacts,
    n: Next<PoolAsk, AssignResult>,
)
    requires
        assigns(req, current, f, n),
    ensures
        n matches Next::Done(Err(e)) ==> match e.code {
            ErrorCode::Forbidden => e.message@ == "权限不足"@,
            ErrorCode::BizWorkerNotFound => e.message@ == "worker "@ + decimal(req.worker_id as int)
                + " 不存在"@,
            ErrorCode::BizWorkerInactive => e.message@ == "worker "@ + decimal(req.worker_id as int)
                + " 已停用"@,
            ErrorCode::BizWorkerNoWorkType => e.message@ == "worker "@ + decimal(
                req.worker_id as int,
            ) + " 未分配工种"@,
            ErrorCode::BizWorkTypeNotFound => e.message@ == "work_type "@ + decimal(
                f.worker->0->0.work_type_id->0 as int,
            ) + " 不存在"@,
            ErrorCode::BizWorkTypeMaxHeldNotSet => e.message@ == "work_type "@ + decimal(
                f.worker->0->0.work_type_id->0 as int,
            ) + " max_held_batches 未设置"@,
            ErrorCode::BizWorkerHoldLimitExceeded => e.message@ == "worker "@ + decimal(
                req.worker_id as int,
            ) + " 已持有 "@ + decimal(f.held->0 as int) + " 批次，工种上限 "@ + decimal(
                f.work_type->0->0.max_held_batches->0 as int,
            ) + " 触顶"@,
            ErrorCode::BizPartBatchNotFound => e.message@ == "batch "@ + decimal(
                req.batch_id as int,
            ) + " 不存在"@,
            ErrorCode::BizInvalidValue => {
                let at = if f.batch_step->0->0 is Some {
                    f.step_process->0
                } else {
                    None
                };
                at != req.process_id && tells_other_process(e.message@, req, at)
            },
            ErrorCode::BizPartBatchNotHeldByWorker => e.message@ == "batch "@ + decimal(
                req.batch_id as int,
            ) + " 不在候选池（status/location/holder 不符或已软删）"@,
            _ => false,
        },
{
}

/// The message names the batch, the process it waits for and the one that was
/// asked for.
pub open spec fn tells_other_process(
    message: Seq<char>,
    req: AdminAssignRequest,
    at: Option<i64>,
) -> bool {
    message == "batch "@ + decimal(req.batch_id as int) + " 当前 step.process_id="@ + (match at {
        Some(id) => "Some("@ + decimal(id as int) + ")"@,
        None => "None"@,
    }) + " 与 request process_id="@ + decimal(req.process_id->0 as int) + " 不匹配"@
}

/// A refused allocation names the process that it was asked for, or the ratio.
pub proof fn refused_allocations_name_the_process<R>(
    req: AutoAllocateRequest<R>,
    ratio_ok: bool,
    ratio_text: Seq<char>,
    current: CurrentUser,
    f: AllocateFacts,
    n: Next<AllocateAsk, AutoAllocateResult<R>>,
)
    requires
        allocates_all(req, ratio_ok, ratio_text, current, f, n),
    ensures
        n.is_refused(ErrorCode::BizProcessNotFound) ==> n.fails(
            ErrorCode::BizProcessNotFound,
            "process "@ + decimal(req.process_id as int) + " 不存在"@,
        ),
        n.is_refused(ErrorCode::BizAutoAllocateInvalidRatio) ==> n.fails(
            ErrorCode::BizAutoAllocateInvalidRatio,
            "fill_ratio 必须在 [0.0, 1.0]，当前 "@ + ratio_text,
        ),
        current.is(Role::Manager) && ratio_ok && f.process_exists == Some(true)
            && f.work_types is Some && f.work_types->0@.len() == 0 ==> n.fails(
            ErrorCode::BizWorkTypeNoProcessMapping,
            "process "@ + decimal(req.process_id as int) + " 未映射工种"@,
        ),
{
}

/// The limit that is missing is named with the work type that lacks it.
pub proof fn missing_limits_are_named(mode: AutoAllocateMode, limits: Limits, work_type_id: i64)
    ensures
        limit_in(mode, limits, work_type_id) matches Err(p) ==> match mode {
            AutoAllocateMode::Count => p.0 is BizWorkTypeMaxHeldNotSet && p.1 == "work_type "@
                + decimal(work_type_id as int) + " max_held_batches 未设置（COUNT 模式）"@,
            AutoAllocateMode::Time => p.0 is BizWorkTypeMaxHeldMinutesNotSet && p.1
                == "work_type "@ + decimal(work_type_id as int)
                + " max_held_minutes 未设置（TIME 模式）"@,
        },
{
}

} // verus!
