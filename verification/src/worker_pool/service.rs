//! Filling workers up from the pool, giving single batches out and taking them
//! back, and looking at the pool.
use super::dto::{
    AdminAssignRequest, AdminRemoveRequest, AssignResult, PoolBatchItem, ProcessPoolDetail,
    WorkTypeMaxHeld, WorkerBrief,
};
use super::model::{
    HeldBatchItem, HeldBatchRow, NewPartEvent, PartRow, ProcessPoolCount, ProcessRow, RefillResult,
    TakenItem, WorkerPoolState,
};
use crate::auth::{forbidden_text, CurrentUser, Role};
use crate::error::{about, fail_about, AppError, ErrorCode};
use crate::flow::Next;
use crate::mapping::copy_ids;
use crate::text::{copy_opt, decimal, id_text, join3, opt_id_text, option_text};
use crate::work_type::model::TWorkType;
use crate::worker::model::TWorker;
use vstd::prelude::*;
use vstd::string::*;

verus! {

/// What an endpoint of the pool asks for.
pub enum PoolAsk {
    /// A worker that is not deleted.
    Worker { worker_id: i64 },
    /// A work type that is not deleted.
    WorkType { work_type_id: i64 },
    /// The processes that a work type is mapped to.
    ProcessIds { work_type_id: i64 },
    /// The batch of a shelf that is next for one of the processes, handed to the
    /// worker in one step, where the worker may hold another.
    TakeOne { worker_id: i64, shelf_id: i64, process_ids: Vec<i64>, operator: i64 },
    /// This batch of a shelf, handed to the worker in one step.
    TakeSpecific { worker_id: i64, shelf_id: i64, batch_id: i64, operator: i64 },
    /// An entry in the history of a part.
    InsertEvent { event: NewPartEvent },
    /// Bringing the part of a batch in line with its batches.
    SyncPart { part_id: i64 },
    /// How many batches a worker holds.
    HeldCount { worker_id: i64 },
    /// How many batches of a shelf wait for a process.
    PoolCount { shelf_id: i64, process_id: i64 },
    /// The batches that a worker holds.
    HeldBatches { worker_id: i64 },
    /// A batch in process, where this worker holds it.
    HeldBatch { batch_id: i64, worker_id: i64 },
    /// The process chain of a part.
    ChainOfPart { part_id: i64 },
    /// The step of a chain that stands for a process.
    StepOfProcess { chain_id: i64, process_id: i64 },
    /// Putting a batch of this version back on a shelf, at a step; the number of
    /// rows that changed.
    MarkReturned {
        batch_id: i64,
        version: i32,
        shelf_id: i64,
        step_id: Option<i64>,
        updated_by: i64,
    },
    /// A part that is not deleted.
    Part { part_id: i64 },
    /// A process that is not deleted.
    Process { process_id: i64 },
    /// The work types that are mapped to a process.
    WorkTypesOfProcess { process_id: i64 },
    /// The active workers that can carry out a process.
    WorkersOfProcess { process_id: i64 },
    /// The batches that wait for a process, on all shelves.
    Candidates { process_id: i64 },
    /// The limit of a work type in minutes.
    MaxHeldMinutes { work_type_id: i64 },
    /// How many minutes a batch is estimated to take.
    EstimatedMinutes { batch_id: i64 },
    /// The share of a limit that was asked for, rounded up.
    Target { max: i32 },
    /// The step that a batch is at; nothing where there is no such batch.
    BatchStep { batch_id: i64 },
    /// The process of a step.
    ProcessOfStep { step_id: i64 },
}

pub struct WorkerPoolService;

// ---------------------------------------------------------------------------
// Taking batches
// ---------------------------------------------------------------------------

/// The history entry of a batch that was taken from the pool.
pub open spec fn taken_event(
    t: TakenItem,
    badge_code: String,
    note: Option<&'static str>,
    operator: i64,
) -> NewPartEvent {
    NewPartEvent {
        part_id: t.part_id,
        event_type: "TAKEN_FROM_POOL",
        from_status: Some("IN_PROCESS"),
        to_status: Some("IN_PROCESS"),
        batch_id: Some(t.batch_id),
        quantity: Some(t.quantity),
        drawing_code: Some(t.drawing_no),
        badge_code: Some(badge_code),
        note,
        created_by: Some(operator),
    }
}

pub(crate) fn event_of(
    t: &TakenItem,
    badge_code: &String,
    note: Option<&'static str>,
    operator: i64,
) -> (r: NewPartEvent)
    ensures
        r == taken_event(*t, *badge_code, note, operator),
{
    NewPartEvent {
        part_id: t.part_id,
        event_type: "TAKEN_FROM_POOL",
        from_status: Some("IN_PROCESS"),
        to_status: Some("IN_PROCESS"),
        batch_id: Some(t.batch_id),
        quantity: Some(t.quantity),
        drawing_code: Some(t.drawing_no.clone()),
        badge_code: Some(badge_code.clone()),
        note,
        created_by: Some(operator),
    }
}

/// Batches taken for one worker, one after the other: how many of them have
/// their history entry, how many parts are in line again, and whether the pool
/// had no more to give.
pub struct Haul {
    pub taken: Vec<TakenItem>,
    pub logged: usize,
    pub synced: usize,
    pub dry: bool,
}

/// `after` is the haul `before` with what the pool gave noted: a batch, or
/// nothing.
pub open spec fn notes_taken(before: Haul, given: Option<TakenItem>, after: Haul) -> bool {
    &&& after.taken@ == match given {
        Some(item) => before.taken@.push(item),
        None => before.taken@,
    }
    &&& after.dry == (given is None || before.dry)
    &&& after.logged == before.logged
    &&& after.synced == before.synced
}

/// `after` is the haul `before` with one more history entry noted, where one was
/// missing.
pub open spec fn notes_logged(before: Haul, after: Haul) -> bool {
    &&& after.logged == if before.logged < before.taken@.len() {
        before.logged + 1
    } else {
        before.logged as int
    }
    &&& after.taken@ == before.taken@
    &&& after.synced == before.synced
    &&& after.dry == before.dry
}

/// `after` is the haul `before` with one more part noted as in line, where one was
/// not.
pub open spec fn notes_synced(before: Haul, after: Haul) -> bool {
    &&& after.synced == if before.synced < before.taken@.len() {
        before.synced + 1
    } else {
        before.synced as int
    }
    &&& after.taken@ == before.taken@
    &&& after.logged == before.logged
    &&& after.dry == before.dry
}

impl Haul {
    /// Each batch is entered and its part brought in line before the next one is
    /// taken.
    pub open spec fn in_order(&self) -> bool {
        self.synced <= self.logged <= self.taken@.len() <= self.synced + 1
    }

    /// Nothing is left to do for the batches taken so far.
    pub open spec fn settled(&self) -> bool {
        self.logged >= self.taken@.len() && self.synced >= self.taken@.len()
    }

    /// Nothing taken yet.
    pub fn new() -> (r: Haul)
        ensures
            r.taken@ == Seq::<TakenItem>::empty(),
            r.logged == 0 && r.synced == 0 && !r.dry,
            r.in_order() && r.settled(),
    {
        Haul { taken: Vec::new(), logged: 0, synced: 0, dry: false }
    }

    /// Notes what the pool gave: a batch, or nothing.
    pub fn took(&mut self, t: Option<TakenItem>)
        ensures
            notes_taken(*old(self), t, *final(self)),
            old(self).in_order() && old(self).settled() ==> final(self).in_order(),
    {
        match t {
            Some(item) => {
                self.taken.push(item);
            },
            None => {
                self.dry = true;
            },
        }
    }

    /// Notes that a history entry was written.
    pub fn logged_one(&mut self)
        ensures
            notes_logged(*old(self), *final(self)),
            old(self).in_order() ==> final(self).in_order(),
    {
        if self.logged < self.taken.len() {
            self.logged = self.logged + 1;
        }
    }

    /// Notes that a part was brought in line.
    pub fn synced_one(&mut self)
        ensures
            notes_synced(*old(self), *final(self)),
            old(self).in_order() && old(self).logged == old(self).taken@.len()
                ==> final(self).in_order(),
    {
        if self.synced < self.taken.len() {
            self.synced = self.synced + 1;
        }
    }

    /// What is left to do for the batches taken so far, the first thing first.
    pub open spec fn chore(
        &self,
        badge_code: String,
        note: Option<&'static str>,
        operator: i64,
    ) -> Option<PoolAsk> {
        if self.logged < self.taken@.len() {
            Some(
                PoolAsk::InsertEvent {
                    event: taken_event(
                        self.taken@[self.logged as int],
                        badge_code,
                        note,
                        operator,
                    ),
                },
            )
        } else if self.synced < self.taken@.len() {
            Some(PoolAsk::SyncPart { part_id: self.taken@[self.synced as int].part_id })
        } else {
            None
        }
    }

    pub(crate) fn next_chore(
        &self,
        badge_code: &String,
        note: Option<&'static str>,
        operator: i64,
    ) -> (r: Option<PoolAsk>)
        ensures
            r == self.chore(*badge_code, note, operator),
    {
        if self.logged < self.taken.len() {
            Some(
                PoolAsk::InsertEvent {
                    event: event_of(&self.taken[self.logged], badge_code, note, operator),
                },
            )
        } else if self.synced < self.taken.len() {
            Some(PoolAsk::SyncPart { part_id: self.taken[self.synced].part_id })
        } else {
            None
        }
    }
}

pub(crate) fn copy_taken(v: &Vec<TakenItem>) -> (r: Vec<TakenItem>)
    ensures
        r@ == v@,
{
    let r = v.clone();
    assert(r@ =~= v@);
    r
}

// ---------------------------------------------------------------------------
// Refill
// ---------------------------------------------------------------------------

/// What is known while a worker is filled up.
pub struct RefillFacts {
    pub worker: Option<Option<TWorker>>,
    pub work_type: Option<Option<TWorkType>>,
    pub process_ids: Option<Vec<i64>>,
    pub haul: Haul,
}

/// `n` asks for another batch.
pub open spec fn asks_one<T>(
    n: Next<PoolAsk, T>,
    worker: i64,
    shelf: i64,
    ids: Seq<i64>,
    by: i64,
) -> bool {
    n matches Next::Ask(PoolAsk::TakeOne { worker_id, shelf_id, process_ids, operator })
        && worker_id == worker && shelf_id == shelf && process_ids@ == ids && operator == by
}

/// How a worker of a known work type is filled up.
pub open spec fn refills(
    worker_id: i64,
    work_type_id: i64,
    shelf_id: i64,
    badge_code: String,
    operator: i64,
    f: RefillFacts,
    n: Next<PoolAsk, RefillResult>,
) -> bool {
    match f.work_type {
        None => n.asks(PoolAsk::WorkType { work_type_id }),
        Some(None) => n.fails(
            ErrorCode::BizWorkTypeNotFound,
            about("work_type "@, work_type_id, " 不存在"@),
        ),
        Some(Some(wt)) => if wt.max_held_batches is None {
            n.fails(
                ErrorCode::BizWorkTypeMaxHeldNotSet,
                about("work_type "@, work_type_id, " max_held_batches 未设置"@),
            )
        } else {
            match f.process_ids {
                None => n.asks(PoolAsk::ProcessIds { work_type_id }),
                Some(ids) => if ids@.len() == 0 {
                    n.fails(
                        ErrorCode::BizWorkTypeNoProcessMapping,
                        about("work_type "@, work_type_id, " 未映射工序"@),
                    )
                } else {
                    match f.haul.chore(badge_code, None, operator) {
                        Some(ask) => n.asks(ask),
                        None => if !f.haul.dry {
                            asks_one(n, worker_id, shelf_id, ids@, operator)
                        } else {
                            n matches Next::Done(Ok(r)) && r.worker_id == worker_id && r.shelf_id
                                == shelf_id && r.taken@ == f.haul.taken@ && r.pool_empty == (
                            f.haul.taken@.len() == 0)
                        },
                    }
                },
            }
        },
    }
}

/// How a worker is filled up.
pub open spec fn refills_worker(
    worker_id: i64,
    shelf_id: i64,
    operator: i64,
    f: RefillFacts,
    n: Next<PoolAsk, RefillResult>,
) -> bool {
    match f.worker {
        None => n.asks(PoolAsk::Worker { worker_id }),
        Some(None) => n.fails(
            ErrorCode::BizWorkerNotFound,
            about("worker "@, worker_id, " 不存在"@),
        ),
        Some(Some(w)) => if !w.is_active {
            n.fails(ErrorCode::BizWorkerInactive, about("worker "@, worker_id, " 已停用"@))
        } else {
            match w.work_type_id {
                None => n.fails(
                    ErrorCode::BizWorkerNoWorkType,
                    about("worker "@, worker_id, " 未分配工种"@),
                ),
                Some(wt) => refills(worker_id, wt, shelf_id, w.badge_code, operator, f, n),
            }
        },
    }
}

impl WorkerPoolService {
    /// Fills a worker up from a shelf: takes batches until the pool has none or
    /// the worker may hold no more. Each batch is entered in the history.
    pub fn refill_for_worker(
        worker_id: i64,
        shelf_id: i64,
        operator_user_id: i64,
        f: &RefillFacts,
    ) -> (n: Next<PoolAsk, RefillResult>)
        ensures
            refills_worker(worker_id, shelf_id, operator_user_id, *f, n),
    {
        let found = match &f.worker {
            None => {
                return Next::Ask(PoolAsk::Worker { worker_id });
            },
            Some(w) => w,
        };
        let worker = match found {
            None => {
                return Next::Done(
                    Err(fail_about(ErrorCode::BizWorkerNotFound, "worker ", worker_id, " 不存在")),
                );
            },
            Some(w) => w,
        };
        if !worker.is_active {
            return Next::Done(
                Err(fail_about(ErrorCode::BizWorkerInactive, "worker ", worker_id, " 已停用")),
            );
        }
        match worker.work_type_id {
            None => Next::Done(
                Err(
                    fail_about(
                        ErrorCode::BizWorkerNoWorkType,
                        "worker ",
                        worker_id,
                        " 未分配工种",
                    ),
                ),
            ),
            Some(work_type_id) => Self::refill_for_worker_with_work_type(
                worker_id,
                work_type_id,
                shelf_id,
                &worker.badge_code,
                operator_user_id,
                f,
            ),
        }
    }

    /// Fills up a worker that is known to be active and of this work type.
    pub fn refill_for_worker_with_work_type(
        worker_id: i64,
        work_type_id: i64,
        shelf_id: i64,
        badge_code: &String,
        operator_user_id: i64,
        f: &RefillFacts,
    ) -> (n: Next<PoolAsk, RefillResult>)
        ensures
            refills(worker_id, work_type_id, shelf_id, *badge_code, operator_user_id, *f, n),
    {
        let found = match &f.work_type {
            None => {
                return Next::Ask(PoolAsk::WorkType { work_type_id });
            },
            Some(wt) => wt,
        };
        let work_type = match found {
            None => {
                return Next::Done(
                    Err(
                        fail_about(
                            ErrorCode::BizWorkTypeNotFound,
                            "work_type ",
                            work_type_id,
                            " 不存在",
                        ),
                    ),
                );
            },
            Some(wt) => wt,
        };
        if work_type.max_held_batches.is_none() {
            return Next::Done(
                Err(
                    fail_about(
                        ErrorCode::BizWorkTypeMaxHeldNotSet,
                        "work_type ",
                        work_type_id,
                        " max_held_batches 未设置",
                    ),
                ),
            );
        }
        let process_ids = match &f.process_ids {
            None => {
                return Next::Ask(PoolAsk::ProcessIds { work_type_id });
            },
            Some(ids) => ids,
        };
        if process_ids.len() == 0 {
            return Next::Done(
                Err(
                    fail_about(
                        ErrorCode::BizWorkTypeNoProcessMapping,
                        "work_type ",
                        work_type_id,
                        " 未映射工序",
                    ),
                ),
            );
        }
        match f.haul.next_chore(badge_code, None, operator_user_id) {
            Some(ask) => Next::Ask(ask),
            None => if !f.haul.dry {
                Next::Ask(
                    PoolAsk::TakeOne {
                        worker_id,
                        shelf_id,
                        process_ids: copy_ids(process_ids),
                        operator: operator_user_id,
                    },
                )
            } else {
                let taken = copy_taken(&f.haul.taken);
                let pool_empty: bool = taken.len() == 0;
                Next::Done(Ok(RefillResult { worker_id, shelf_id, taken, pool_empty }))
            },
        }
    }
}

// ---------------------------------------------------------------------------
// State of a worker
// ---------------------------------------------------------------------------

/// What is known while the state of a worker is put together.
pub struct StateFacts {
    pub worker: Option<Option<TWorker>>,
    pub work_type: Option<Option<TWorkType>>,
    pub held: Option<i64>,
    pub process_ids: Option<Vec<i64>>,
    /// The counts of the first processes, in order.
    pub counts: Vec<i64>,
    pub held_batches: Option<Vec<HeldBatchItem>>,
}

/// How many batches a worker of this work type may hold.
pub open spec fn limit_of(work_type: Option<TWorkType>) -> i32 {
    match work_type {
        Some(wt) => match wt.max_held_batches {
            Some(m) => m,
            None => 0,
        },
        None => 0,
    }
}

/// How many more batches fit.
pub open spec fn room(limit: i32, held: i64) -> int {
    if limit - held > 0 {
        limit - held
    } else {
        0
    }
}

/// The counts by process, in order.
pub open spec fn counted(ids: Seq<i64>, counts: Seq<i64>) -> Seq<ProcessPoolCount> {
    Seq::new(
        ids.len(),
        |i: int| ProcessPoolCount { process_id: ids[i], pool_count: counts[i] },
    )
}

/// What is left to ask for, or the state, once the worker's limit and processes
/// are known.
pub open spec fn describes(
    worker: TWorker,
    work_type: Option<TWorkType>,
    ids: Seq<i64>,
    held: i64,
    worker_id: i64,
    shelf_id: i64,
    f: StateFacts,
    n: Next<PoolAsk, WorkerPoolState>,
) -> bool {
    if f.counts@.len() < ids.len() {
        n.asks(PoolAsk::PoolCount { shelf_id, process_id: ids[f.counts@.len() as int] })
    } else {
        match f.held_batches {
            None => n.asks(PoolAsk::HeldBatches { worker_id }),
            Some(batches) => {
                &&& n matches Next::Done(Ok(s))
                &&& s.worker_id == worker_id
                &&& s.worker_name == worker.name
                &&& match work_type {
                    Some(wt) => s.work_type_code == wt.code,
                    None => s.work_type_code@.len() == 0,
                }
                &&& s.max_held == limit_of(work_type)
                &&& s.current_held == held
                &&& s.capacity_remaining == room(limit_of(work_type), held)
                &&& s.pool_count_by_process@ == counted(ids, f.counts@)
                &&& s.held_batches@ == batches@
            },
        }
    }
}

/// How the state of a worker is put together.
pub open spec fn computes_state(
    worker_id: i64,
    shelf_id: i64,
    f: StateFacts,
    n: Next<PoolAsk, WorkerPoolState>,
) -> bool {
    match f.worker {
        None => n.asks(PoolAsk::Worker { worker_id }),
        Some(None) => n.fails(ErrorCode::BizWorkerNotFound, "worker 不存在"@),
        Some(Some(w)) => match w.work_type_id {
            Some(work_type_id) => match (f.work_type, f.held, f.process_ids) {
                (None, _, _) => n.asks(PoolAsk::WorkType { work_type_id }),
                (Some(_), None, _) => n.asks(PoolAsk::HeldCount { worker_id }),
                (Some(_), Some(_), None) => n.asks(PoolAsk::ProcessIds { work_type_id }),
                (Some(wt), Some(held), Some(ids)) => describes(
                    w,
                    wt,
                    ids@,
                    held,
                    worker_id,
                    shelf_id,
                    f,
                    n,
                ),
            },
            None => match f.held {
                None => n.asks(PoolAsk::HeldCount { worker_id }),
                Some(held) => describes(
                    w,
                    None,
                    Seq::empty(),
                    held,
                    worker_id,
                    shelf_id,
                    f,
                    n,
                ),
            },
        },
    }
}

fn describe(
    worker: &TWorker,
    work_type: &Option<TWorkType>,
    ids: &Vec<i64>,
    held: i64,
    worker_id: i64,
    shelf_id: i64,
    f: &StateFacts,
) -> (n: Next<PoolAsk, WorkerPoolState>)
    requires
        held >= 0,
    ensures
        describes(*worker, *work_type, ids@, held, worker_id, shelf_id, *f, n),
{
    if f.counts.len() < ids.len() {
        return Next::Ask(PoolAsk::PoolCount { shelf_id, process_id: ids[f.counts.len()] });
    }
    let batches = match &f.held_batches {
        None => {
            return Next::Ask(PoolAsk::HeldBatches { worker_id });
        },
        Some(b) => b,
    };
    let mut by_process: Vec<ProcessPoolCount> = Vec::new();
    let mut i: usize = 0;
    while i < ids.len()
        invariant
            i <= ids@.len() <= f.counts@.len(),
            by_process@ == counted(ids@, f.counts@).take(i as int),
        decreases ids@.len() - i,
    {
        by_process.push(ProcessPoolCount { process_id: ids[i], pool_count: f.counts[i] });
        i = i + 1;
        assert(by_process@ =~= counted(ids@, f.counts@).take(i as int));
    }
    assert(by_process@ =~= counted(ids@, f.counts@));
    let max_held: i32 = match work_type {
        Some(wt) => match wt.max_held_batches {
            Some(m) => m,
            None => 0,
        },
        None => 0,
    };
    let code: String = match work_type {
        Some(wt) => wt.code.clone(),
        None => String::new(),
    };
    let capacity_remaining: i32 = if max_held as i64 > held {
        (max_held as i64 - held) as i32
    } else {
        0
    };
    let held_batches = batches.clone();
    assert(held_batches@ =~= batches@);
    Next::Done(
        Ok(
            WorkerPoolState {
                worker_id,
                worker_name: worker.name.clone(),
                work_type_code: code,
                max_held,
                current_held: held,
                capacity_remaining,
                pool_count_by_process: by_process,
                held_batches,
            },
        ),
    )
}

impl WorkerPoolService {
    /// What a worker holds and could still take from a shelf. A worker without a
    /// work type has no limit to fill and no processes.
    pub fn compute_state(worker_id: i64, shelf_id: i64, f: &StateFacts) -> (n: Next<
        PoolAsk,
        WorkerPoolState,
    >)
        requires
            f.held matches Some(h) ==> h >= 0,
        ensures
            computes_state(worker_id, shelf_id, *f, n),
    {
        let found = match &f.worker {
            None => {
                return Next::Ask(PoolAsk::Worker { worker_id });
            },
            Some(w) => w,
        };
        let worker = match found {
            None => {
                return Next::Done(
                    Err(AppError::biz(ErrorCode::BizWorkerNotFound, "worker 不存在")),
                );
            },
            Some(w) => w,
        };
        match worker.work_type_id {
            Some(work_type_id) => {
                let work_type = match &f.work_type {
                    None => {
                        return Next::Ask(PoolAsk::WorkType { work_type_id });
                    },
                    Some(wt) => wt,
                };
                let held: i64 = match f.held {
                    None => {
                        return Next::Ask(PoolAsk::HeldCount { worker_id });
                    },
                    Some(h) => h,
                };
                match &f.process_ids {
                    None => Next::Ask(PoolAsk::ProcessIds { work_type_id }),
                    Some(ids) => describe(worker, work_type, ids, held, worker_id, shelf_id, f),
                }
            },
            None => match f.held {
                None => Next::Ask(PoolAsk::HeldCount { worker_id }),
                Some(held) => {
                    let none: Vec<i64> = Vec::new();
                    describe(worker, &None, &none, held, worker_id, shelf_id, f)
                },
            },
        }
    }
}

// ---------------------------------------------------------------------------
// Taking a batch back
// ---------------------------------------------------------------------------

/// What is known while a batch is taken from a worker.
pub struct RemoveFacts {
    pub worker: Option<Option<TWorker>>,
    pub batch: Option<Option<HeldBatchRow>>,
    pub chain: Option<Option<i64>>,
    pub step: Option<Option<i64>>,
    pub returned_rows: Option<u64>,
    pub part: Option<Option<PartRow>>,
    pub synced: bool,
    pub logged: bool,
}

/// The step that a batch goes back to: the one that its part's chain has for the
/// process, where the part has a chain; `None` while that is not known.
pub open spec fn step_to(f: RemoveFacts) -> Option<Option<i64>> {
    match f.chain {
        None => None,
        Some(None) => Some(None),
        Some(Some(_)) => f.step,
    }
}

/// The history entry of a batch that was taken from a worker.
pub open spec fn removed_event(
    batch: HeldBatchRow,
    part: PartRow,
    badge_code: String,
    operator: i64,
) -> NewPartEvent {
    NewPartEvent {
        part_id: part.id,
        event_type: "ADMIN_REMOVED_FROM_WORKER",
        from_status: Some("IN_PROCESS"),
        to_status: Some("IN_PROCESS"),
        batch_id: Some(batch.id),
        quantity: Some(batch.quantity),
        drawing_code: Some(part.drawing_no),
        badge_code: Some(badge_code),
        note: Some("admin_remove"),
        created_by: Some(operator),
    }
}

/// A batch that was put back, one version on.
pub open spec fn returned_item(batch: HeldBatchRow, part: PartRow) -> TakenItem {
    TakenItem {
        batch_id: batch.id,
        part_id: part.id,
        batch_no: batch.batch_no,
        quantity: batch.quantity,
        serial_no: part.serial_no,
        drawing_no: part.drawing_no,
        system_delivery_date: part.system_delivery_date,
        planned_delivery_date: Some(part.planned_delivery_date),
        is_urgent: part.is_urgent,
        version: (batch.version + 1) as i32,
    }
}

/// How a batch is taken from a worker, once it is known to be the worker's.
pub open spec fn returns_batch(
    req: AdminRemoveRequest,
    operator: i64,
    worker: TWorker,
    batch: HeldBatchRow,
    f: RemoveFacts,
    n: Next<PoolAsk, TakenItem>,
) -> bool {
    match (step_to(f), f.returned_rows, f.part) {
        (None, _, _) => match f.chain {
            None => n.asks(PoolAsk::ChainOfPart { part_id: batch.part_id }),
            Some(chain) => n.asks(
                PoolAsk::StepOfProcess { chain_id: chain->0, process_id: req.next_process_id },
            ),
        },
        (Some(step_id), None, _) => n.asks(
            PoolAsk::MarkReturned {
                batch_id: batch.id,
                version: batch.version,
                shelf_id: req.shelf_id,
                step_id,
                updated_by: operator,
            },
        ),
        (Some(_), Some(rows), part) => if rows == 0 {
            n.fails(
                ErrorCode::VersionConflict,
                about("batch "@, batch.id, " 版本冲突或状态非 IN_PROCESS+WORKER"@),
            )
        } else {
            match part {
                None => n.asks(PoolAsk::Part { part_id: batch.part_id }),
                Some(None) => n.fails(ErrorCode::BizPartNotFound, "part 不存在"@),
                Some(Some(p)) => if !f.synced {
                    n.asks(PoolAsk::SyncPart { part_id: p.id })
                } else if !f.logged {
                    n.asks(
                        PoolAsk::InsertEvent {
                            event: removed_event(batch, p, worker.badge_code, operator),
                        },
                    )
                } else {
                    n.succeeds(returned_item(batch, p))
                },
            }
        },
    }
}

/// The message about a batch that the worker does not hold.
pub open spec fn not_held_text(batch_id: i64, worker_id: i64) -> Seq<char> {
    "batch "@ + decimal(batch_id as int) + " 不是 worker "@ + decimal(worker_id as int) + " 持有"@
}

/// How a batch is taken from a worker.
pub open spec fn removes_held(
    req: AdminRemoveRequest,
    operator: i64,
    f: RemoveFacts,
    n: Next<PoolAsk, TakenItem>,
) -> bool {
    match (f.worker, f.batch) {
        (None, _) => n.asks(PoolAsk::Worker { worker_id: req.worker_id }),
        (Some(None), _) => n.fails(ErrorCode::BizWorkerNotFound, "worker 不存在"@),
        (Some(Some(_)), None) => n.asks(
            PoolAsk::HeldBatch { batch_id: req.batch_id, worker_id: req.worker_id },
        ),
        (Some(Some(_)), Some(None)) => n.fails(
            ErrorCode::BizPartBatchNotHeldByWorker,
            not_held_text(req.batch_id, req.worker_id),
        ),
        (Some(Some(w)), Some(Some(batch))) => returns_batch(req, operator, w, batch, f, n),
    }
}

impl WorkerPoolService {
    /// Takes a batch from a worker and puts it back on a shelf, for a process.
    /// Whether the shelf serves that process is not asked.
    pub fn admin_remove_held_batch(
        req: &AdminRemoveRequest,
        current: &CurrentUser,
        f: &RemoveFacts,
    ) -> (n: Next<PoolAsk, TakenItem>)
        requires
            f.batch matches Some(Some(b)) ==> b.version < i32::MAX,
        ensures
            removes_held(*req, current.id, *f, n),
    {
        let found = match &f.worker {
            None => {
                return Next::Ask(PoolAsk::Worker { worker_id: req.worker_id });
            },
            Some(w) => w,
        };
        let worker = match found {
            None => {
                return Next::Done(
                    Err(AppError::biz(ErrorCode::BizWorkerNotFound, "worker 不存在")),
                );
            },
            Some(w) => w,
        };
        let batch: HeldBatchRow = match f.batch {
            None => {
                return Next::Ask(
                    PoolAsk::HeldBatch { batch_id: req.batch_id, worker_id: req.worker_id },
                );
            },
            Some(None) => {
                let mut message = join3(
                    "batch ",
                    id_text(req.batch_id).as_str(),
                    " 不是 worker ",
                );
                message.append(id_text(req.worker_id).as_str());
                message.append(" 持有");
                return Next::Done(
                    Err(
                        AppError::biz(
                            ErrorCode::BizPartBatchNotHeldByWorker,
                            message.as_str(),
                        ),
                    ),
                );
            },
            Some(Some(b)) => b,
        };
        let step_id: Option<i64> = match f.chain {
            None => {
                return Next::Ask(PoolAsk::ChainOfPart { part_id: batch.part_id });
            },
            Some(None) => None,
            Some(Some(chain_id)) => match f.step {
                None => {
                    return Next::Ask(
                        PoolAsk::StepOfProcess { chain_id, process_id: req.next_process_id },
                    );
                },
                Some(s) => s,
            },
        };
        match f.returned_rows {
            None => {
                return Next::Ask(
                    PoolAsk::MarkReturned {
                        batch_id: batch.id,
                        version: batch.version,
                        shelf_id: req.shelf_id,
                        step_id,
                        updated_by: current.id,
                    },
                );
            },
            Some(rows) => {
                if rows == 0 {
                    return Next::Done(
                        Err(
                            fail_about(
                                ErrorCode::VersionConflict,
                                "batch ",
                                batch.id,
                                " 版本冲突或状态非 IN_PROCESS+WORKER",
                            ),
                        ),
                    );
                }
            },
        }
        let part = match &f.part {
            None => {
                return Next::Ask(PoolAsk::Part { part_id: batch.part_id });
            },
            Some(None) => {
                return Next::Done(Err(AppError::biz(ErrorCode::BizPartNotFound, "part 不存在")));
            },
            Some(Some(p)) => p,
        };
        if !f.synced {
            return Next::Ask(PoolAsk::SyncPart { part_id: part.id });
        }
        if !f.logged {
            return Next::Ask(
                PoolAsk::InsertEvent {
                    event: NewPartEvent {
                        part_id: part.id,
                        event_type: "ADMIN_REMOVED_FROM_WORKER",
                        from_status: Some("IN_PROCESS"),
                        to_status: Some("IN_PROCESS"),
                        batch_id: Some(batch.id),
                        quantity: Some(batch.quantity),
                        drawing_code: Some(part.drawing_no.clone()),
                        badge_code: Some(worker.badge_code.clone()),
                        note: Some("admin_remove"),
                        created_by: Some(current.id),
                    },
                },
            );
        }
        Next::Done(
            Ok(
                TakenItem {
                    batch_id: batch.id,
                    part_id: part.id,
                    batch_no: batch.batch_no,
                    quantity: batch.quantity,
                    serial_no: copy_opt(&part.serial_no),
                    drawing_no: part.drawing_no.clone(),
                    system_delivery_date: part.system_delivery_date,
                    planned_delivery_date: Some(part.planned_delivery_date),
                    is_urgent: part.is_urgent,
                    version: batch.version + 1,
                },
            ),
        )
    }
}

// ---------------------------------------------------------------------------
// The pool of a process
// ---------------------------------------------------------------------------

/// What is known while the pool of a process is put together.
pub struct PoolFacts {
    pub process: Option<Option<ProcessRow>>,
    pub work_types: Option<Vec<WorkTypeMaxHeld>>,
    pub workers: Option<Vec<WorkerBrief>>,
    pub items: Option<Vec<PoolBatchItem>>,
}

/// Managers, clerks and inspectors may look at the pool.
pub open spec fn may_view_pool(current: CurrentUser) -> bool {
    current.is(Role::Manager) || current.is(Role::Clerk) || current.is(Role::Inspector)
}

/// How the pool of a process is put together.
pub open spec fn views_pool(
    current: CurrentUser,
    process_id: i64,
    f: PoolFacts,
    n: Next<PoolAsk, ProcessPoolDetail>,
) -> bool {
    if !may_view_pool(current) {
        n.fails(ErrorCode::Forbidden, forbidden_text())
    } else {
        match (f.process, f.work_types, f.workers, f.items) {
            (None, _, _, _) => n.asks(PoolAsk::Process { process_id }),
            (Some(None), _, _, _) => n.fails(
                ErrorCode::BizProcessNotFound,
                about("process "@, process_id, " 不存在"@),
            ),
            (Some(Some(_)), None, _, _) => n.asks(PoolAsk::WorkTypesOfProcess { process_id }),
            (Some(Some(_)), Some(_), None, _) => n.asks(PoolAsk::WorkersOfProcess { process_id }),
            (Some(Some(_)), Some(_), Some(_), None) => n.asks(PoolAsk::Candidates { process_id }),
            (Some(Some(p)), Some(work_types), Some(workers), Some(items)) => {
                &&& n matches Next::Done(Ok(d))
                &&& d.process_id == process_id
                &&& d.process_code == p.code
                &&& d.process_name == p.name
                &&& d.workers@ == workers@
                &&& d.work_types@ == work_types@
                &&& d.items@ == items@
                &&& d.total == items@.len()
            },
        }
    }
}

impl WorkerPoolService {
    /// Everything that waits for a process, on all shelves, with the work types
    /// and workers that can take it.
    pub fn pool_by_process(current: &CurrentUser, process_id: i64, f: &PoolFacts) -> (n: Next<
        PoolAsk,
        ProcessPoolDetail,
    >)
        requires
            f.items matches Some(items) ==> items@.len() <= i64::MAX,
        ensures
            views_pool(*current, process_id, *f, n),
    {
        let allowed: [Role; 3] = [Role::Manager, Role::Clerk, Role::Inspector];
        proof {
            assert(allowed@[0] == Role::Manager);
            assert(allowed@[1] == Role::Clerk);
            assert(allowed@[2] == Role::Inspector);
            if current.is(Role::Manager) {
                assert(current.is(allowed@[0]));
            }
            if current.is(Role::Clerk) {
                assert(current.is(allowed@[1]));
            }
            if current.is(Role::Inspector) {
                assert(current.is(allowed@[2]));
            }
        }
        match current.require_any_role(&allowed) {
            Err(e) => {
                return Next::Done(Err(e));
            },
            Ok(()) => {},
        }
        let process = match &f.process {
            None => {
                return Next::Ask(PoolAsk::Process { process_id });
            },
            Some(None) => {
                return Next::Done(
                    Err(
                        fail_about(
                            ErrorCode::BizProcessNotFound,
                            "process ",
                            process_id,
                            " 不存在",
                        ),
                    ),
                );
            },
            Some(Some(p)) => p,
        };
        let work_types = match &f.work_types {
            None => {
                return Next::Ask(PoolAsk::WorkTypesOfProcess { process_id });
            },
            Some(v) => v.clone(),
        };
        let workers = match &f.workers {
            None => {
                return Next::Ask(PoolAsk::WorkersOfProcess { process_id });
            },
            Some(v) => v.clone(),
        };
        let items = match &f.items {
            None => {
                return Next::Ask(PoolAsk::Candidates { process_id });
            },
            Some(v) => v.clone(),
        };
        assert(work_types@ =~= f.work_types->0@);
        assert(workers@ =~= f.workers->0@);
        assert(items@ =~= f.items->0@);
        let total: i64 = items.len() as i64;
        Next::Done(
            Ok(
                ProcessPoolDetail {
                    process_id,
                    process_code: process.code.clone(),
                    process_name: process.name.clone(),
                    workers,
                    work_types,
                    total,
                    items,
                },
            ),
        )
    }
}

// ---------------------------------------------------------------------------
// Giving one batch out
// ---------------------------------------------------------------------------

/// What is known while a batch is given to a worker.
pub struct AssignFacts {
    pub worker: Option<Option<TWorker>>,
    pub work_type: Option<Option<TWorkType>>,
    pub held: Option<i64>,
    /// The step of the batch: nothing where there is no such batch.
    pub batch_step: Option<Option<Option<i64>>>,
    pub step_process: Option<Option<i64>>,
    pub taken: Option<Option<TakenItem>>,
    pub synced: bool,
    pub logged: bool,
}

/// The message about a worker that holds as much as the worker may.
pub open spec fn limit_text(worker_id: i64, held: i64, max_held: i32) -> Seq<char> {
    "worker "@ + decimal(worker_id as int) + " 已持有 "@ + decimal(held as int)
        + " 批次，工种上限 "@ + decimal(max_held as int) + " 触顶"@
}

/// The message about a batch that waits for another process.
pub open spec fn other_process_text(batch_id: i64, at: Option<i64>, wanted: i64) -> Seq<char> {
    "batch "@ + decimal(batch_id as int) + " 当前 step.process_id="@ + option_text(at)
        + " 与 request process_id="@ + decimal(wanted as int) + " 不匹配"@
}

/// The process that a batch waits for, once it is known: that of its step, where
/// it has one.
pub open spec fn waits_for(step: Option<i64>, f: AssignFacts) -> Option<Option<i64>> {
    match step {
        None => Some(None),
        Some(_) => f.step_process,
    }
}

/// How a batch is handed over, once the worker may have it.
pub open spec fn hands_over(
    req: AdminAssignRequest,
    operator: i64,
    worker: TWorker,
    max_held: i32,
    held: i64,
    f: AssignFacts,
    n: Next<PoolAsk, AssignResult>,
) -> bool {
    match f.taken {
        None => n.asks(
            PoolAsk::TakeSpecific {
                worker_id: req.worker_id,
                shelf_id: req.shelf_id,
                batch_id: req.batch_id,
                operator,
            },
        ),
        Some(None) => n.fails(
            ErrorCode::BizPartBatchNotHeldByWorker,
            about("batch "@, req.batch_id, " 不在候选池（status/location/holder 不符或已软删）"@),
        ),
        Some(Some(t)) => if !f.synced {
            n.asks(PoolAsk::SyncPart { part_id: t.part_id })
        } else if !f.logged {
            n.asks(
                PoolAsk::InsertEvent {
                    event: taken_event(t, worker.badge_code, Some("admin_assign"), operator),
                },
            )
        } else {
            n.succeeds(
                AssignResult {
                    worker_id: req.worker_id,
                    batch_id: req.batch_id,
                    shelf_id: req.shelf_id,
                    taken: t,
                    current_held: (held + 1) as i32,
                    max_held,
                },
            )
        },
    }
}

/// How it is checked that a batch waits for the named process.
pub open spec fn checks_process(
    req: AdminAssignRequest,
    wanted: i64,
    f: AssignFacts,
    n: Next<PoolAsk, AssignResult>,
) -> bool {
    match f.batch_step {
        None => n.asks(PoolAsk::BatchStep { batch_id: req.batch_id }),
        Some(None) => n.fails(
            ErrorCode::BizPartBatchNotFound,
            about("batch "@, req.batch_id, " 不存在"@),
        ),
        Some(Some(step)) => match waits_for(step, f) {
            None => n.asks(PoolAsk::ProcessOfStep { step_id: step->0 }),
            Some(at) => n.fails(
                ErrorCode::BizInvalidValue,
                other_process_text(req.batch_id, at, wanted),
            ),
        },
    }
}

/// The batch waits for the process that was named, or none was named.
pub open spec fn process_fits(req: AdminAssignRequest, f: AssignFacts) -> bool {
    match req.process_id {
        None => true,
        Some(wanted) => f.batch_step matches Some(Some(step)) && waits_for(step, f) == Some(
            Some(wanted),
        ),
    }
}

/// How a batch is given to a worker.
pub open spec fn assigns(
    req: AdminAssignRequest,
    current: CurrentUser,
    f: AssignFacts,
    n: Next<PoolAsk, AssignResult>,
) -> bool {
    if !current.is(Role::Manager) {
        n.fails(ErrorCode::Forbidden, forbidden_text())
    } else {
        match f.worker {
            None => n.asks(PoolAsk::Worker { worker_id: req.worker_id }),
            Some(None) => n.fails(
                ErrorCode::BizWorkerNotFound,
                about("worker "@, req.worker_id, " 不存在"@),
            ),
            Some(Some(w)) => if !w.is_active {
                n.fails(
                    ErrorCode::BizWorkerInactive,
                    about("worker "@, req.worker_id, " 已停用"@),
                )
            } else {
                match (w.work_type_id, f.work_type) {
                    (None, _) => n.fails(
                        ErrorCode::BizWorkerNoWorkType,
                        about("worker "@, req.worker_id, " 未分配工种"@),
                    ),
                    (Some(id), None) => n.asks(PoolAsk::WorkType { work_type_id: id }),
                    (Some(id), Some(None)) => n.fails(
                        ErrorCode::BizWorkTypeNotFound,
                        about("work_type "@, id, " 不存在"@),
                    ),
                    (Some(id), Some(Some(wt))) => match (wt.max_held_batches, f.held) {
                        (None, _) => n.fails(
                            ErrorCode::BizWorkTypeMaxHeldNotSet,
                            about("work_type "@, id, " max_held_batches 未设置"@),
                        ),
                        (Some(_), None) => n.asks(
                            PoolAsk::HeldCount { worker_id: req.worker_id },
                        ),
                        (Some(max_held), Some(held)) => if held >= max_held {
                            n.fails(
                                ErrorCode::BizWorkerHoldLimitExceeded,
                                limit_text(req.worker_id, held, max_held),
                            )
                        } else if !process_fits(req, f) {
                            checks_process(req, req.process_id->0, f, n)
                        } else {
                            hands_over(req, current.id, w, max_held, held, f, n)
                        },
                    },
                }
            },
        }
    }
}

fn limit_reached(worker_id: i64, held: i64, max_held: i32) -> (r: AppError)
    ensures
        r.says(ErrorCode::BizWorkerHoldLimitExceeded, limit_text(worker_id, held, max_held)),
{
    let mut message = join3("worker ", id_text(worker_id).as_str(), " 已持有 ");
    message.append(id_text(held).as_str());
    message.append(" 批次，工种上限 ");
    message.append(id_text(max_held as i64).as_str());
    message.append(" 触顶");
    AppError::biz(ErrorCode::BizWorkerHoldLimitExceeded, message.as_str())
}

/// `None` where the batch waits for the named process, or none is named.
fn check_process(req: &AdminAssignRequest, f: &AssignFacts) -> (r: Option<
    Next<PoolAsk, AssignResult>,
>)
    ensures
        match r {
            None => process_fits(*req, *f),
            Some(n) => !process_fits(*req, *f) && checks_process(*req, req.process_id->0, *f, n),
        },
{
    let wanted: i64 = match req.process_id {
        None => {
            return None;
        },
        Some(p) => p,
    };
    let step: Option<i64> = match f.batch_step {
        None => {
            return Some(Next::Ask(PoolAsk::BatchStep { batch_id: req.batch_id }));
        },
        Some(None) => {
            return Some(
                Next::Done(
                    Err(
                        fail_about(
                            ErrorCode::BizPartBatchNotFound,
                            "batch ",
                            req.batch_id,
                            " 不存在",
                        ),
                    ),
                ),
            );
        },
        Some(Some(s)) => s,
    };
    let at: Option<i64> = match step {
        None => None,
        Some(step_id) => match f.step_process {
            None => {
                return Some(Next::Ask(PoolAsk::ProcessOfStep { step_id }));
            },
            Some(p) => p,
        },
    };
    if let Some(p) = at {
        if p == wanted {
            return None;
        }
    }
    let mut message = join3("batch ", id_text(req.batch_id).as_str(), " 当前 step.process_id=");
    message.append(opt_id_text(at).as_str());
    message.append(" 与 request process_id=");
    message.append(id_text(wanted).as_str());
    message.append(" 不匹配");
    Some(Next::Done(Err(AppError::biz(ErrorCode::BizInvalidValue, message.as_str()))))
}

impl WorkerPoolService {
    /// Gives one batch of a shelf to a worker that may hold another.
    pub fn assign_batch_to_worker(
        req: &AdminAssignRequest,
        current: &CurrentUser,
        f: &AssignFacts,
    ) -> (n: Next<PoolAsk, AssignResult>)
        requires
            f.held matches Some(h) ==> h >= 0,
        ensures
            assigns(*req, *current, *f, n),
    {
        match current.require_role(Role::Manager) {
            Err(e) => {
                return Next::Done(Err(e));
            },
            Ok(()) => {},
        }
        let worker = match &f.worker {
            None => {
                return Next::Ask(PoolAsk::Worker { worker_id: req.worker_id });
            },
            Some(None) => {
                return Next::Done(
                    Err(
                        fail_about(
                            ErrorCode::BizWorkerNotFound,
                            "worker ",
                            req.worker_id,
                            " 不存在",
                        ),
                    ),
                );
            },
            Some(Some(w)) => w,
        };
        if !worker.is_active {
            return Next::Done(
                Err(fail_about(ErrorCode::BizWorkerInactive, "worker ", req.worker_id, " 已停用")),
            );
        }
        let work_type_id: i64 = match worker.work_type_id {
            None => {
                return Next::Done(
                    Err(
                        fail_about(
                            ErrorCode::BizWorkerNoWorkType,
                            "worker ",
                            req.worker_id,
                            " 未分配工种",
                        ),
                    ),
                );
            },
            Some(id) => id,
        };
        let work_type = match &f.work_type {
            None => {
                return Next::Ask(PoolAsk::WorkType { work_type_id });
            },
            Some(None) => {
                return Next::Done(
                    Err(
                        fail_about(
                            ErrorCode::BizWorkTypeNotFound,
                            "work_type ",
                            work_type_id,
                            " 不存在",
                        ),
                    ),
                );
            },
            Some(Some(wt)) => wt,
        };
        let max_held: i32 = match work_type.max_held_batches {
            None => {
                return Next::Done(
                    Err(
                        fail_about(
                            ErrorCode::BizWorkTypeMaxHeldNotSet,
                            "work_type ",
                            work_type_id,
                            " max_held_batches 未设置",
                        ),
                    ),
                );
            },
            Some(m) => m,
        };
        let held: i64 = match f.held {
            None => {
                return Next::Ask(PoolAsk::HeldCount { worker_id: req.worker_id });
            },
            Some(h) => h,
        };
        if held >= max_held as i64 {
            return Next::Done(Err(limit_reached(req.worker_id, held, max_held)));
        }
        if let Some(n) = check_process(req, f) {
            return n;
        }
        let taken = match &f.taken {
            None => {
                return Next::Ask(
                    PoolAsk::TakeSpecific {
                        worker_id: req.worker_id,
                        shelf_id: req.shelf_id,
                        batch_id: req.batch_id,
                        operator: current.id,
                    },
                );
            },
            Some(None) => {
                return Next::Done(
                    Err(
                        fail_about(
                            ErrorCode::BizPartBatchNotHeldByWorker,
                            "batch ",
                            req.batch_id,
                            " 不在候选池（status/location/holder 不符或已软删）",
                        ),
                    ),
                );
            },
            Some(Some(t)) => t,
        };
        if !f.synced {
            return Next::Ask(PoolAsk::SyncPart { part_id: taken.part_id });
        }
        if !f.logged {
            return Next::Ask(
                PoolAsk::InsertEvent {
                    event: event_of(taken, &worker.badge_code, Some("admin_assign"), current.id),
                },
            );
        }
        Next::Done(
            Ok(
                AssignResult {
                    worker_id: req.worker_id,
                    batch_id: req.batch_id,
                    shelf_id: req.shelf_id,
                    taken: taken.clone(),
                    current_held: (held + 1) as i32,
                    max_held,
                },
            ),
        )
    }
}

// ---------------------------------------------------------------------------
// Laws
// ---------------------------------------------------------------------------

/// A refill asks for another batch, or ends well, only when every batch taken so
/// far is entered in the history and its part is in line; and it ends well only
/// when the pool gave no more.
pub proof fn refill_settles_every_batch(
    worker_id: i64,
    shelf_id: i64,
    operator: i64,
    f: RefillFacts,
    n: Next<PoolAsk, RefillResult>,
)
    requires
        refills_worker(worker_id, shelf_id, operator, f, n),
    ensures
        n matches Next::Ask(a) && a is TakeOne ==> f.haul.settled(),
        n matches Next::Done(Ok(r)) ==> f.haul.settled() && f.haul.dry && r.taken@
            == f.haul.taken@,
{
}

/// Giving a batch out never takes a worker beyond the limit of the work type,
/// and nothing is taken from the pool for a caller who is no manager, for a
/// worker who is not active, or at the limit.
pub proof fn assignment_respects_the_limit(
    req: AdminAssignRequest,
    current: CurrentUser,
    f: AssignFacts,
    n: Next<PoolAsk, AssignResult>,
)
    requires
        f.held matches Some(h) ==> h >= 0,
        assigns(req, current, f, n),
    ensures
        n matches Next::Done(Ok(r)) ==> r.current_held <= r.max_held && r.current_held == f.held->0
            + 1,
        n matches Next::Ask(a) && a is TakeSpecific ==> {
            &&& current.is(Role::Manager)
            &&& f.worker matches Some(Some(w)) && w.is_active
            &&& f.work_type matches Some(Some(wt)) && wt.max_held_batches matches Some(m)
                && f.held->0 < m
            &&& process_fits(req, f)
        },
{
}

/// Taking a batch back writes nothing before the batch is known to be held by
/// the worker, and a batch that changed meanwhile leaves no trace: no part is
/// brought in line, no entry is made and no success is told.
pub proof fn removal_checks_before_it_writes(
    req: AdminRemoveRequest,
    operator: i64,
    f: RemoveFacts,
    n: Next<PoolAsk, TakenItem>,
)
    requires
        removes_held(req, operator, f, n),
        f.batch matches Some(Some(b)) ==> b.version < i32::MAX,
    ensures
        n matches Next::Ask(a) && (a is MarkReturned || a is SyncPart || a is InsertEvent) ==> (
        f.worker matches Some(Some(_))) && (f.batch matches Some(Some(_))),
        f.returned_rows == Some(0u64) ==> !(n matches Next::Done(Ok(_))) && !(n matches Next::Ask(a)
            && (a is SyncPart || a is InsertEvent)),
        n matches Next::Done(Ok(t)) ==> t.version == f.batch->0->0.version + 1,
{
}

/// The room of a worker is what is left of the limit, never less than none.
pub proof fn room_is_what_is_left(limit: i32, held: i64)
    requires
        held >= 0,
    ensures
        0 <= room(limit, held),
        limit >= 0 ==> room(limit, held) <= limit,
        room(limit, held) == 0 <==> held >= limit,
        held <= limit ==> room(limit, held) + held == limit,
{
}

} // verus!
