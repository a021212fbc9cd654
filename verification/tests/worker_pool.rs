//! The worker pool: refills, single batches, states and automatic allocation.
use shopfloor::auth::{CurrentUser, Role};
use shopfloor::calendar::{Date, DateTime};
use shopfloor::error::{AppError, ErrorCode};
use shopfloor::flow::Next;
use shopfloor::work_type::model::TWorkType;
use shopfloor::worker::model::TWorker;
use shopfloor::worker_pool::allocate::{AllocateAsk, AllocateFacts, Visit};
use shopfloor::worker_pool::dto::{
    AdminAssignRequest, AdminRefillRequest, AdminRemoveRequest, AutoAllocateMode,
    AutoAllocateRequest, AutoAllocateResult, WorkTypeMaxHeld, WorkerBrief,
};
use shopfloor::worker_pool::handler::{admin_refill, admin_remove, refill_notice};
use shopfloor::worker_pool::model::{
    HeldBatchRow, NewPartEvent, PartRow, ProcessRow, RefillResult, TakenItem,
};
use shopfloor::worker_pool::repo::{customer_path, CandidateRow, WorkerPoolRepo};
use shopfloor::worker_pool::service::{
    AssignFacts, Haul, PoolAsk, PoolFacts, RefillFacts, RemoveFacts, StateFacts,
    WorkerPoolService,
};

fn day() -> Date {
    Date::new(2026, 9, 18).unwrap()
}

fn now() -> DateTime {
    DateTime { date: day(), second_of_day: 0, nanos: 0 }
}

fn user(role: Role) -> CurrentUser {
    CurrentUser {
        id: 7,
        username: "u".to_string(),
        roles: vec![role],
        shelf_ids: vec![],
        shelf_wildcard: false,
    }
}

fn worker(id: i64, work_type_id: Option<i64>) -> TWorker {
    TWorker {
        id,
        badge_code: format!("B{id}"),
        name: format!("Worker {id}"),
        id_card_no: None,
        phone: None,
        is_active: true,
        work_type_id,
        version: 0,
        created_at: now(),
        created_by: None,
        updated_at: now(),
        updated_by: None,
        deleted_at: None,
    }
}

fn work_type(id: i64, max_held_batches: Option<i32>) -> TWorkType {
    TWorkType {
        id,
        code: format!("T{id}"),
        name: format!("Type {id}"),
        description: None,
        sort_order: 0,
        version: 0,
        created_at: now(),
        created_by: None,
        updated_at: now(),
        updated_by: None,
        deleted_at: None,
        max_held_batches,
    }
}

fn taken(batch_id: i64) -> TakenItem {
    TakenItem {
        batch_id,
        part_id: 100 + batch_id,
        batch_no: 1,
        quantity: 5,
        serial_no: None,
        drawing_no: format!("D{batch_id}"),
        system_delivery_date: None,
        planned_delivery_date: None,
        is_urgent: false,
        version: 1,
    }
}

fn error<A, T>(n: Next<A, T>) -> AppError {
    match n {
        Next::Done(Err(e)) => e,
        _ => panic!("an error was expected"),
    }
}

fn value<A, T>(n: Next<A, T>) -> T {
    match n {
        Next::Done(Ok(v)) => v,
        Next::Done(Err(e)) => panic!("failed: {:?}", e),
        Next::Ask(_) => panic!("a value was expected"),
    }
}

fn ask<A, T>(n: Next<A, T>) -> A {
    match n {
        Next::Ask(a) => a,
        _ => panic!("something was to be asked for"),
    }
}

/// A pool with so many batches, and what was done with them.
struct Pool {
    left: Vec<i64>,
    log: Vec<String>,
}

fn label(e: &NewPartEvent) -> String {
    format!("{}:{}:{}", e.event_type, e.batch_id.unwrap(), e.note.unwrap_or("-"))
}

impl Pool {
    fn serve(&mut self, ask: PoolAsk, haul: &mut Haul) {
        match ask {
            PoolAsk::TakeOne { worker_id, .. } => {
                if self.left.is_empty() {
                    haul.took(None);
                } else {
                    let id = self.left.remove(0);
                    self.log.push(format!("take {id} for {worker_id}"));
                    haul.took(Some(taken(id)));
                }
            }
            PoolAsk::InsertEvent { event } => {
                self.log.push(label(&event));
                haul.logged_one();
            }
            PoolAsk::SyncPart { part_id } => {
                self.log.push(format!("sync {part_id}"));
                haul.synced_one();
            }
            _ => unreachable!("not asked for here"),
        }
    }
}

fn refill(pool: &mut Pool, w: Option<TWorker>, wt: Option<TWorkType>) -> Result<RefillResult, AppError> {
    let mut f = RefillFacts { worker: None, work_type: None, process_ids: None, haul: Haul::new() };
    loop {
        match WorkerPoolService::refill_for_worker(1, 9, 7, &f) {
            Next::Done(r) => return r,
            Next::Ask(PoolAsk::Worker { .. }) => f.worker = Some(w.clone()),
            Next::Ask(PoolAsk::WorkType { .. }) => f.work_type = Some(wt.clone()),
            Next::Ask(PoolAsk::ProcessIds { .. }) => f.process_ids = Some(vec![3, 4]),
            Next::Ask(other) => pool.serve(other, &mut f.haul),
        }
    }
}

#[test]
fn a_refill_takes_logs_and_syncs_each_batch() {
    let mut pool = Pool { left: vec![1, 2], log: vec![] };
    let r = refill(&mut pool, Some(worker(1, Some(5))), Some(work_type(5, Some(3)))).unwrap();
    assert_eq!(r.taken.len(), 2);
    assert!(!r.pool_empty);
    assert_eq!(
        pool.log,
        vec![
            "take 1 for 1",
            "TAKEN_FROM_POOL:1:-",
            "sync 101",
            "take 2 for 1",
            "TAKEN_FROM_POOL:2:-",
            "sync 102",
        ]
    );
    assert_eq!(refill_notice(&r), Some("WORKER_POOL_REFILL_DONE"));
}

#[test]
fn a_refill_from_nothing_finds_the_pool_empty() {
    let mut pool = Pool { left: vec![], log: vec![] };
    let r = refill(&mut pool, Some(worker(1, Some(5))), Some(work_type(5, Some(3)))).unwrap();
    assert!(r.taken.is_empty());
    assert!(r.pool_empty);
    assert_eq!(refill_notice(&r), Some("WORKER_POOL_EMPTY"));
    let nothing = RefillResult { worker_id: 1, shelf_id: 9, taken: vec![], pool_empty: false };
    assert_eq!(refill_notice(&nothing), None);
}

#[test]
fn refills_need_an_active_worker_with_a_limit() {
    let mut pool = Pool { left: vec![1], log: vec![] };
    let e = refill(&mut pool, None, None).unwrap_err();
    assert_eq!((e.code(), e.message.as_str()), (ErrorCode::BizWorkerNotFound, "worker 1 不存在"));
    let mut gone = worker(1, Some(5));
    gone.is_active = false;
    let e = refill(&mut pool, Some(gone), None).unwrap_err();
    assert_eq!(e.code(), ErrorCode::BizWorkerInactive);
    let e = refill(&mut pool, Some(worker(1, None)), None).unwrap_err();
    assert_eq!(e.code(), ErrorCode::BizWorkerNoWorkType);
    let e = refill(&mut pool, Some(worker(1, Some(5))), None).unwrap_err();
    assert_eq!(e.code(), ErrorCode::BizWorkTypeNotFound);
    let e = refill(&mut pool, Some(worker(1, Some(5))), Some(work_type(5, None))).unwrap_err();
    assert_eq!(e.code(), ErrorCode::BizWorkTypeMaxHeldNotSet);
    assert!(pool.log.is_empty());
}

#[test]
fn refills_need_a_mapped_process() {
    let f = RefillFacts {
        worker: None,
        work_type: Some(Some(work_type(5, Some(1)))),
        process_ids: Some(vec![]),
        haul: Haul::new(),
    };
    let e = error(WorkerPoolService::refill_for_worker_with_work_type(
        1,
        5,
        9,
        &"B1".to_string(),
        7,
        &f,
    ));
    assert_eq!(e.code(), ErrorCode::BizWorkTypeNoProcessMapping);
}

#[test]
fn refills_on_behalf_are_for_managers() {
    let f = RefillFacts { worker: None, work_type: None, process_ids: None, haul: Haul::new() };
    let req = AdminRefillRequest { worker_id: 1, shelf_id: 9 };
    assert_eq!(error(admin_refill(&user(Role::Clerk), &req, &f)).code(), ErrorCode::Forbidden);
    assert!(matches!(
        ask(admin_refill(&user(Role::Manager), &req, &f)),
        PoolAsk::Worker { worker_id: 1 }
    ));
}

#[test]
fn the_state_of_a_worker_counts_room_and_pools() {
    let mut f = StateFacts {
        worker: Some(Some(worker(1, Some(5)))),
        work_type: Some(Some(work_type(5, Some(3)))),
        held: Some(2),
        process_ids: Some(vec![3, 4]),
        counts: vec![10],
        held_batches: None,
    };
    assert!(matches!(
        ask(WorkerPoolService::compute_state(1, 9, &f)),
        PoolAsk::PoolCount { shelf_id: 9, process_id: 4 }
    ));
    f.counts.push(20);
    assert!(matches!(
        ask(WorkerPoolService::compute_state(1, 9, &f)),
        PoolAsk::HeldBatches { worker_id: 1 }
    ));
    f.held_batches = Some(vec![]);
    let s = value(WorkerPoolService::compute_state(1, 9, &f));
    assert_eq!((s.max_held, s.current_held, s.capacity_remaining), (3, 2, 1));
    assert_eq!(s.work_type_code, "T5");
    assert_eq!(s.pool_count_by_process[1].pool_count, 20);
    f.held = Some(8);
    assert_eq!(value(WorkerPoolService::compute_state(1, 9, &f)).capacity_remaining, 0);
}

#[test]
fn a_worker_without_a_work_type_has_no_room() {
    let f = StateFacts {
        worker: Some(Some(worker(1, None))),
        work_type: None,
        held: Some(0),
        process_ids: None,
        counts: vec![],
        held_batches: Some(vec![]),
    };
    let s = value(WorkerPoolService::compute_state(1, 9, &f));
    assert_eq!((s.max_held, s.capacity_remaining), (0, 0));
    assert_eq!(s.work_type_code, "");
}

fn part() -> PartRow {
    PartRow {
        id: 50,
        serial_no: Some("SN".to_string()),
        drawing_no: "D".to_string(),
        system_delivery_date: None,
        planned_delivery_date: day(),
        is_urgent: true,
    }
}

#[test]
fn a_held_batch_is_put_back() {
    let req = AdminRemoveRequest { worker_id: 1, batch_id: 20, shelf_id: 9, next_process_id: 3 };
    let who = user(Role::Manager);
    let mut f = RemoveFacts {
        worker: Some(Some(worker(1, Some(5)))),
        batch: Some(None),
        chain: None,
        step: None,
        returned_rows: None,
        part: None,
        synced: false,
        logged: false,
    };
    let e = error(admin_remove(&who, &req, &f));
    assert_eq!(e.code(), ErrorCode::BizPartBatchNotHeldByWorker);
    assert_eq!(e.message, "batch 20 不是 worker 1 持有");
    f.batch = Some(Some(HeldBatchRow { id: 20, part_id: 50, batch_no: 2, quantity: 6, version: 8 }));
    assert!(matches!(ask(admin_remove(&who, &req, &f)), PoolAsk::ChainOfPart { part_id: 50 }));
    f.chain = Some(Some(70));
    assert!(matches!(
        ask(admin_remove(&who, &req, &f)),
        PoolAsk::StepOfProcess { chain_id: 70, process_id: 3 }
    ));
    f.step = Some(Some(71));
    assert!(matches!(
        ask(admin_remove(&who, &req, &f)),
        PoolAsk::MarkReturned {
            batch_id: 20,
            version: 8,
            shelf_id: 9,
            step_id: Some(71),
            updated_by: 7
        }
    ));
    f.returned_rows = Some(0);
    assert_eq!(error(admin_remove(&who, &req, &f)).code(), ErrorCode::VersionConflict);
    f.returned_rows = Some(1);
    f.part = Some(None);
    assert_eq!(error(admin_remove(&who, &req, &f)).code(), ErrorCode::BizPartNotFound);
    f.part = Some(Some(part()));
    assert!(matches!(ask(admin_remove(&who, &req, &f)), PoolAsk::SyncPart { part_id: 50 }));
    f.synced = true;
    match ask(admin_remove(&who, &req, &f)) {
        PoolAsk::InsertEvent { event } => {
            assert_eq!(label(&event), "ADMIN_REMOVED_FROM_WORKER:20:admin_remove");
            assert_eq!(event.badge_code.as_deref(), Some("B1"));
        }
        _ => panic!("an entry was to be made"),
    }
    f.logged = true;
    let t = value(admin_remove(&who, &req, &f));
    assert_eq!((t.batch_id, t.part_id, t.version), (20, 50, 9));
    assert_eq!(t.planned_delivery_date, Some(day()));
    assert_eq!(error(admin_remove(&user(Role::Clerk), &req, &f)).code(), ErrorCode::Forbidden);
}

#[test]
fn a_part_without_a_chain_has_no_step() {
    let req = AdminRemoveRequest { worker_id: 1, batch_id: 20, shelf_id: 9, next_process_id: 3 };
    let f = RemoveFacts {
        worker: Some(Some(worker(1, Some(5)))),
        batch: Some(Some(HeldBatchRow {
            id: 20,
            part_id: 50,
            batch_no: 2,
            quantity: 6,
            version: 8,
        })),
        chain: Some(None),
        step: None,
        returned_rows: None,
        part: None,
        synced: false,
        logged: false,
    };
    assert!(matches!(
        ask(WorkerPoolService::admin_remove_held_batch(&req, &user(Role::Manager), &f)),
        PoolAsk::MarkReturned { step_id: None, .. }
    ));
}

fn brief(worker_id: i64, work_type_id: i64) -> WorkerBrief {
    WorkerBrief {
        worker_id,
        name: format!("Worker {worker_id}"),
        work_type_id,
        work_type_code: format!("T{work_type_id}"),
    }
}

fn max_held(work_type_id: i64, max_held_batches: Option<i32>) -> WorkTypeMaxHeld {
    WorkTypeMaxHeld {
        work_type_id,
        work_type_code: format!("T{work_type_id}"),
        work_type_name: format!("Type {work_type_id}"),
        max_held_batches,
    }
}

fn candidate() -> CandidateRow {
    CandidateRow {
        batch_id: 1,
        part_id: 2,
        batch_no: 3,
        quantity: 4,
        location: "SHELF".to_string(),
        batch_version: 5,
        serial_no: None,
        name: "n".to_string(),
        drawing_no: "d".to_string(),
        system_delivery_date: None,
        is_urgent: false,
        note: None,
        applicant_name: None,
        customer_name: Some("Leaf".to_string()),
        parent_customer_name: Some("Group".to_string()),
        shelf_id: 9,
        shelf_code: "S9".to_string(),
        shelf_name: "Shelf".to_string(),
    }
}

#[test]
fn the_pool_of_a_process_is_shown() {
    let items = WorkerPoolRepo::list_candidates_by_process_all_shelves(vec![candidate()]);
    assert_eq!(items[0].customer_path.as_deref(), Some("Group / Leaf"));
    assert_eq!(items[0].version, 5);
    let mut f = PoolFacts { process: None, work_types: None, workers: None, items: None };
    assert_eq!(
        error(WorkerPoolService::pool_by_process(&user(Role::ShelfAccount), 3, &f)).code(),
        ErrorCode::Forbidden
    );
    let who = user(Role::Inspector);
    f.process = Some(None);
    assert_eq!(
        error(WorkerPoolService::pool_by_process(&who, 3, &f)).message,
        "process 3 不存在"
    );
    f.process = Some(Some(ProcessRow { id: 3, code: "P".to_string(), name: "N".to_string() }));
    f.work_types = Some(vec![max_held(5, Some(1))]);
    f.workers = Some(vec![brief(1, 5)]);
    f.items = Some(items);
    let d = value(WorkerPoolService::pool_by_process(&who, 3, &f));
    assert_eq!((d.total, d.items.len(), d.workers.len(), d.work_types.len()), (1, 1, 1, 1));
}

#[test]
fn customers_have_a_path() {
    let some = |s: &str| Some(s.to_string());
    assert_eq!(customer_path(&some("G"), &some("L")).as_deref(), Some("G / L"));
    assert_eq!(customer_path(&None, &some("L")).as_deref(), Some("L"));
    assert_eq!(customer_path(&some("G"), &None), None);
}

fn assign_facts() -> AssignFacts {
    AssignFacts {
        worker: Some(Some(worker(1, Some(5)))),
        work_type: Some(Some(work_type(5, Some(3)))),
        held: Some(2),
        batch_step: None,
        step_process: None,
        taken: None,
        synced: false,
        logged: false,
    }
}

#[test]
fn a_batch_is_given_to_a_worker() {
    let req = AdminAssignRequest { worker_id: 1, batch_id: 20, shelf_id: 9, process_id: Some(3) };
    let who = user(Role::Manager);
    let mut f = assign_facts();
    assert!(matches!(
        ask(WorkerPoolService::assign_batch_to_worker(&req, &who, &f)),
        PoolAsk::BatchStep { batch_id: 20 }
    ));
    f.batch_step = Some(None);
    assert_eq!(
        error(WorkerPoolService::assign_batch_to_worker(&req, &who, &f)).code(),
        ErrorCode::BizPartBatchNotFound
    );
    f.batch_step = Some(Some(Some(71)));
    assert!(matches!(
        ask(WorkerPoolService::assign_batch_to_worker(&req, &who, &f)),
        PoolAsk::ProcessOfStep { step_id: 71 }
    ));
    f.step_process = Some(Some(4));
    let e = error(WorkerPoolService::assign_batch_to_worker(&req, &who, &f));
    assert_eq!(e.code(), ErrorCode::BizInvalidValue);
    assert_eq!(
        e.message,
        "batch 20 当前 step.process_id=Some(4) 与 request process_id=3 不匹配"
    );
    f.step_process = Some(Some(3));
    assert!(matches!(
        ask(WorkerPoolService::assign_batch_to_worker(&req, &who, &f)),
        PoolAsk::TakeSpecific { worker_id: 1, shelf_id: 9, batch_id: 20, operator: 7 }
    ));
    f.taken = Some(None);
    assert_eq!(
        error(WorkerPoolService::assign_batch_to_worker(&req, &who, &f)).code(),
        ErrorCode::BizPartBatchNotHeldByWorker
    );
    f.taken = Some(Some(taken(20)));
    assert!(matches!(
        ask(WorkerPoolService::assign_batch_to_worker(&req, &who, &f)),
        PoolAsk::SyncPart { part_id: 120 }
    ));
    f.synced = true;
    match ask(WorkerPoolService::assign_batch_to_worker(&req, &who, &f)) {
        PoolAsk::InsertEvent { event } => {
            assert_eq!(label(&event), "TAKEN_FROM_POOL:20:admin_assign");
        }
        _ => panic!("an entry was to be made"),
    }
    f.logged = true;
    let r = value(WorkerPoolService::assign_batch_to_worker(&req, &who, &f));
    assert_eq!((r.current_held, r.max_held, r.taken.batch_id), (3, 3, 20));
}

#[test]
fn a_worker_at_the_limit_gets_nothing() {
    let req = AdminAssignRequest { worker_id: 1, batch_id: 20, shelf_id: 9, process_id: None };
    let mut f = assign_facts();
    f.held = Some(3);
    let e = error(WorkerPoolService::assign_batch_to_worker(&req, &user(Role::Manager), &f));
    assert_eq!(e.code(), ErrorCode::BizWorkerHoldLimitExceeded);
    assert_eq!(e.message, "worker 1 已持有 3 批次，工种上限 3 触顶");
    f.held = Some(2);
    assert!(matches!(
        ask(WorkerPoolService::assign_batch_to_worker(&req, &user(Role::Manager), &f)),
        PoolAsk::TakeSpecific { .. }
    ));
    assert_eq!(
        error(WorkerPoolService::assign_batch_to_worker(&req, &user(Role::Clerk), &f)).code(),
        ErrorCode::Forbidden
    );
}

/// The workers, their work types and the pool of an automatic allocation.
struct Plant {
    pool: Pool,
    workers: Vec<(WorkerBrief, Option<TWorker>)>,
    work_types: Vec<WorkTypeMaxHeld>,
    minutes: Option<i32>,
    estimates: fn(i64) -> i32,
}

fn allocate(
    plant: &mut Plant,
    mode: AutoAllocateMode,
    ratio: f64,
) -> Result<AutoAllocateResult<f64>, AppError> {
    let req = AutoAllocateRequest { process_id: 3, shelf_id: 9, mode, fill_ratio: ratio };
    let ok = (0.0..=1.0).contains(&ratio);
    let text = format!("{ratio}");
    let mut f = AllocateFacts {
        process_exists: None,
        work_types: None,
        minutes: vec![],
        workers: None,
        visits: vec![],
    };
    loop {
        let next = WorkerPoolService::auto_allocate_for_process(
            &req,
            ok,
            &text,
            &user(Role::Manager),
            &f,
        );
        match next {
            Next::Done(r) => return r,
            Next::Ask(AllocateAsk::Whole { ask }) => match ask {
                PoolAsk::Process { .. } => f.process_exists = Some(true),
                PoolAsk::WorkTypesOfProcess { .. } => {
                    f.work_types = Some(plant.work_types.clone());
                }
                PoolAsk::MaxHeldMinutes { .. } => f.minutes.push(plant.minutes),
                PoolAsk::WorkersOfProcess { .. } => {
                    f.workers = Some(plant.workers.iter().map(|w| w.0.clone()).collect());
                }
                _ => unreachable!("not asked for here"),
            },
            Next::Ask(AllocateAsk::Worker { index, ask }) => {
                while f.visits.len() <= index {
                    f.visits.push(Visit::new());
                }
                let v = &mut f.visits[index];
                match ask {
                    PoolAsk::Worker { .. } => v.worker = Some(plant.workers[index].1.clone()),
                    PoolAsk::Target { max } => {
                        v.target = Some(((max as f64) * ratio).ceil() as i32);
                    }
                    PoolAsk::ProcessIds { .. } => v.process_ids = Some(vec![3]),
                    PoolAsk::EstimatedMinutes { batch_id } => {
                        assert_eq!(v.haul.taken[v.minutes.len()].batch_id, batch_id);
                        v.minutes.push((plant.estimates)(batch_id));
                    }
                    other => plant.pool.serve(other, &mut v.haul),
                }
            }
        }
    }
}

fn plant(batches: Vec<i64>) -> Plant {
    Plant {
        pool: Pool { left: batches, log: vec![] },
        workers: vec![
            (brief(1, 5), Some(worker(1, Some(5)))),
            (brief(2, 0), None),
            (brief(3, 5), None),
            (brief(4, 5), Some(worker(4, Some(5)))),
        ],
        work_types: vec![max_held(5, Some(3))],
        minutes: None,
        estimates: |_| 1,
    }
}

#[test]
fn workers_are_filled_to_their_target() {
    let mut p = plant(vec![1, 2, 3, 4, 5, 6]);
    let r = allocate(&mut p, AutoAllocateMode::Count, 0.5).unwrap();
    let lines: Vec<(i64, i32, i32, bool)> = r
        .filled
        .iter()
        .map(|l| (l.worker_id, l.target, l.filled_count, l.skipped_reason.is_some()))
        .collect();
    assert_eq!(lines, vec![(1, 2, 2, false), (2, 0, 0, true), (4, 2, 2, false)]);
    assert!(!r.pool_empty);
    assert_eq!(r.fill_ratio, 0.5);
    assert_eq!(p.pool.left, vec![5, 6]);
    assert_eq!(p.pool.log[1], "TAKEN_FROM_POOL:1:auto_allocate");
}

#[test]
fn allocation_stops_where_the_pool_runs_out() {
    let mut p = plant(vec![1, 2, 3]);
    let r = allocate(&mut p, AutoAllocateMode::Count, 1.0).unwrap();
    assert_eq!(r.filled[0].filled_count, 3);
    assert_eq!(r.filled[2].filled_count, 0);
    assert!(r.pool_empty);
}

#[test]
fn pool_is_empty_exactly_where_a_worker_got_fewer() {
    for batches in 0..8 {
        for ratio in [0.0, 0.25, 0.5, 1.0] {
            let mut p = plant((1..=batches).collect());
            let r = allocate(&mut p, AutoAllocateMode::Count, ratio).unwrap();
            assert!(r.filled.iter().all(|l| 0 <= l.filled_count && l.filled_count <= l.target));
            let fewer = r.filled.iter().any(|l| l.filled_count < l.target);
            assert_eq!(r.pool_empty, fewer);
            let given: i32 = r.filled.iter().map(|l| l.filled_count).sum();
            assert_eq!(p.pool.left.len() as i32, batches as i32 - given);
        }
    }
}

#[test]
fn time_fills_up_by_estimated_minutes() {
    let mut p = plant(vec![1, 2, 3, 4, 5, 6, 7]);
    p.minutes = Some(60);
    p.estimates = |batch_id| if batch_id <= 2 { 25 } else { 15 };
    let r = allocate(&mut p, AutoAllocateMode::Time, 1.0).unwrap();
    assert_eq!((r.filled[0].target, r.filled[0].filled_count), (60, 65));
    assert_eq!((r.filled[1].target, r.filled[1].filled_count), (0, 0));
    assert_eq!((r.filled[2].target, r.filled[2].filled_count), (60, 60));
    assert!(!r.pool_empty);
    assert_eq!(p.pool.left, Vec::<i64>::new());

    let mut p = plant(vec![1, 2, 3, 4]);
    p.minutes = Some(59);
    p.estimates = |batch_id| if batch_id == 4 { 0 } else { 20 };
    let r = allocate(&mut p, AutoAllocateMode::Time, 0.5).unwrap();
    assert_eq!((r.filled[0].target, r.filled[0].filled_count), (30, 40));
    assert_eq!((r.filled[2].target, r.filled[2].filled_count), (30, 20));
    assert!(r.pool_empty);
}

#[test]
fn without_the_last_batch_a_worker_is_below_the_minutes() {
    for batches in 0..12 {
        for limit in [1, 7, 30] {
            let mut p = plant((1..=batches).collect());
            p.minutes = Some(limit);
            p.estimates = |batch_id| (batch_id * 5 % 9) as i32;
            let r = allocate(&mut p, AutoAllocateMode::Time, 1.0).unwrap();
            let mut first = 1;
            for line in r.filled.iter().filter(|l| l.skipped_reason.is_none()) {
                let takes = format!(" for {}", line.worker_id);
                let n = p.pool.log.iter().filter(|l| l.ends_with(&takes)).count() as i64;
                let minutes: Vec<i32> = (first..first + n).map(p.estimates).collect();
                first += n;
                assert_eq!(line.filled_count, minutes.iter().sum::<i32>());
                if let Some(last) = minutes.last() {
                    assert!(line.filled_count - last < line.target);
                }
            }
            assert_eq!(r.pool_empty, r.filled.iter().any(|l| l.filled_count < l.target));
        }
    }
}

#[test]
fn only_time_asks_for_estimates() {
    let mut p = plant(vec![1, 2, 3, 4, 5, 6]);
    p.estimates = |_| panic!("batches are counted");
    let r = allocate(&mut p, AutoAllocateMode::Count, 1.0).unwrap();
    assert_eq!((r.filled[0].filled_count, r.filled[2].filled_count), (3, 3));
}

#[test]
fn no_share_takes_nothing() {
    let mut p = plant(vec![1]);
    let r = allocate(&mut p, AutoAllocateMode::Count, 0.0).unwrap();
    assert!(!r.pool_empty);
    assert_eq!(p.pool.left, vec![1]);
}

#[test]
fn shares_outside_the_bounds_are_refused() {
    let mut p = plant(vec![]);
    let e = allocate(&mut p, AutoAllocateMode::Count, 1.5).unwrap_err();
    assert_eq!(e.code(), ErrorCode::BizAutoAllocateInvalidRatio);
    assert_eq!(e.message, "fill_ratio 必须在 [0.0, 1.0]，当前 1.5");
}

#[test]
fn a_mode_needs_its_limit() {
    let mut p = plant(vec![1]);
    let e = allocate(&mut p, AutoAllocateMode::Time, 1.0).unwrap_err();
    assert_eq!(e.code(), ErrorCode::BizWorkTypeMaxHeldMinutesNotSet);
    let mut p = plant(vec![1]);
    p.work_types = vec![max_held(5, None)];
    let e = allocate(&mut p, AutoAllocateMode::Count, 1.0).unwrap_err();
    assert_eq!(e.code(), ErrorCode::BizWorkTypeMaxHeldNotSet);
    let mut p = plant(vec![1]);
    p.work_types = vec![];
    let e = allocate(&mut p, AutoAllocateMode::Count, 1.0).unwrap_err();
    assert_eq!(e.code(), ErrorCode::BizWorkTypeNoProcessMapping);
}
