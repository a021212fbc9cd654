//! Workers: what is asked for, in which order, and what comes out.
use shopfloor::auth::{CurrentUser, Role};
use shopfloor::calendar::{Date, DateTime};
use shopfloor::error::{AppError, DbFault, ErrorCode};
use shopfloor::flow::Next;
use shopfloor::work_type::model::TWorkType;
use shopfloor::worker::dto::{WorkerCreateRequest, WorkerListQuery, WorkerUpdateRequest};
use shopfloor::worker::model::TWorker;
use shopfloor::worker::repo::WorkerRepo;
use shopfloor::worker::service::{
    collect_types, find_type_name, normalize_optional_str, CreateWorkerFacts,
    DeactivateWorkerFacts, GetWorkerFacts, ListWorkersFacts, ReactivateWorkerFacts,
    UpdateWorkerFacts, WorkerAsk, WorkerService,
};

fn now() -> DateTime {
    DateTime { date: Date::new(2026, 9, 18).unwrap(), second_of_day: 0, nanos: 0 }
}

fn user(role: Role) -> CurrentUser {
    CurrentUser {
        id: 7,
        username: "u".to_string(),
        roles: vec![role],
        shelf_ids: vec![],
        shelf_wildcard: false,
    }
}

fn worker(id: i64, work_type_id: Option<i64>) -> TWorker {
    TWorker {
        id,
        badge_code: format!("B{id}"),
        name: format!("Worker {id}"),
        id_card_no: None,
        phone: None,
        is_active: true,
        work_type_id,
        version: 3,
        created_at: now(),
        created_by: None,
        updated_at: now(),
        updated_by: None,
        deleted_at: None,
    }
}

fn work_type(id: i64, name: &str) -> TWorkType {
    TWorkType {
        id,
        code: format!("T{id}"),
        name: name.to_string(),
        description: None,
        sort_order: 0,
        version: 0,
        created_at: now(),
        created_by: None,
        updated_at: now(),
        updated_by: None,
        deleted_at: None,
        max_held_batches: None,
    }
}

fn error<A, T>(n: Next<A, T>) -> AppError {
    match n {
        Next::Done(Err(e)) => e,
        _ => panic!("an error was expected"),
    }
}

fn value<A, T>(n: Next<A, T>) -> T {
    match n {
        Next::Done(Ok(v)) => v,
        Next::Done(Err(e)) => panic!("failed: {:?}", e),
        Next::Ask(_) => panic!("a value was expected"),
    }
}

fn ask<A, T>(n: Next<A, T>) -> A {
    match n {
        Next::Ask(a) => a,
        _ => panic!("something was to be asked for"),
    }
}

#[test]
fn badges_are_trimmed_and_checked() {
    assert_eq!(
        error(WorkerService::verify_badge("  ", &user(Role::ShelfAccount), &None)).code(),
        ErrorCode::BizWorkerNotFound
    );
    match ask(WorkerService::verify_badge(" B1 ", &user(Role::ShelfAccount), &None)) {
        WorkerAsk::ByBadge { badge_code, with_deleted } => {
            assert_eq!(badge_code, "B1");
            assert!(with_deleted);
        }
        _ => panic!("a badge was to be looked up"),
    }
    assert_eq!(
        error(WorkerService::verify_badge("B1", &user(Role::ShelfAccount), &Some(None))).message,
        "工人不存在"
    );
    let mut gone = worker(1, None);
    gone.is_active = false;
    assert_eq!(
        error(WorkerService::verify_badge("B1", &user(Role::ShelfAccount), &Some(Some(gone)))).code(),
        ErrorCode::BizWorkerInactive
    );
    let out = value(WorkerService::verify_badge("B1", &user(Role::ShelfAccount), &Some(Some(worker(1, Some(5))))));
    assert_eq!(out.work_type_id.as_deref(), Some("5"));
    assert!(out.work_type_name.is_none());
}

#[test]
fn workers_are_listed_with_their_work_types() {
    let q = WorkerListQuery {
        name_like: Some(" An ".to_string()),
        is_active: Some(true),
        limit: None,
        offset: Some(-1),
    };
    let mut f = ListWorkersFacts { rows: None, total: None, work_types: None };
    assert_eq!(
        error(WorkerService::list_workers(&q, &user(Role::Clerk), &f)).code(),
        ErrorCode::Forbidden
    );
    match ask(WorkerService::list_workers(&q, &user(Role::Manager), &f)) {
        WorkerAsk::List { name_like, is_active, limit, offset } => {
            assert_eq!(name_like.as_deref(), Some("An"));
            assert_eq!(is_active, Some(true));
            assert_eq!((limit, offset), (50, 0));
        }
        _ => panic!("workers were to be listed"),
    }
    f.rows = Some(vec![worker(1, Some(5)), worker(2, None), worker(3, Some(6))]);
    assert!(matches!(
        ask(WorkerService::list_workers(&q, &user(Role::Manager), &f)),
        WorkerAsk::Count { .. }
    ));
    f.total = Some(9);
    match ask(WorkerService::list_workers(&q, &user(Role::Manager), &f)) {
        WorkerAsk::WorkTypesByIds { ids } => assert_eq!(ids, vec![5, 6]),
        _ => panic!("work types were to be looked up"),
    }
    f.work_types = Some(vec![work_type(5, "turner")]);
    let out = value(WorkerService::list_workers(&q, &user(Role::Manager), &f));
    assert_eq!(out.total, 9);
    assert_eq!(out.items[0].work_type_name.as_deref(), Some("turner"));
    assert!(out.items[1].work_type_name.is_none());
    assert!(out.items[2].work_type_name.is_none());
    assert_eq!(out.items[2].work_type_id.as_deref(), Some("6"));
}

#[test]
fn one_worker_is_read() {
    let mut f = GetWorkerFacts { worker: None, work_type: None };
    assert!(matches!(
        ask(WorkerService::get_worker(1, &user(Role::Manager), &f)),
        WorkerAsk::ById { id: 1, include_deleted: false }
    ));
    f.worker = Some(None);
    assert_eq!(
        error(WorkerService::get_worker(1, &user(Role::Manager), &f)).code(),
        ErrorCode::BizWorkerNotFound
    );
    f.worker = Some(Some(worker(1, Some(5))));
    assert!(matches!(
        ask(WorkerService::get_worker(1, &user(Role::Manager), &f)),
        WorkerAsk::WorkType { id: 5 }
    ));
    f.work_type = Some(Some(work_type(5, "turner")));
    let out = value(WorkerService::get_worker(1, &user(Role::Manager), &f));
    assert_eq!(out.work_type_name.as_deref(), Some("turner"));
}

fn create_req() -> WorkerCreateRequest {
    WorkerCreateRequest {
        badge_code: " B9 ".to_string(),
        name: " Kim ".to_string(),
        id_card_no: Some("  ".to_string()),
        phone: Some(" 1 ".to_string()),
        work_type_id: Some("5".to_string()),
    }
}

#[test]
fn workers_are_created_step_by_step() {
    let req = create_req();
    let who = user(Role::Manager);
    let mut f = CreateWorkerFacts {
        holder: None,
        asked_type: None,
        id: None,
        created: None,
        work_type: None,
    };
    assert!(matches!(
        ask(WorkerService::create_worker(&req, &who, &f)),
        WorkerAsk::ByBadge { with_deleted: false, .. }
    ));
    f.holder = Some(Some(worker(2, None)));
    let e = error(WorkerService::create_worker(&req, &who, &f));
    assert_eq!(e.code(), ErrorCode::VersionConflict);
    assert_eq!(e.message, "badge_code 'B9' 已被占用");
    f.holder = Some(None);
    assert!(matches!(
        ask(WorkerService::create_worker(&req, &who, &f)),
        WorkerAsk::RequestedType { id: 5 }
    ));
    f.asked_type = Some(None);
    assert_eq!(
        error(WorkerService::create_worker(&req, &who, &f)).code(),
        ErrorCode::BizWorkTypeNotFound
    );
    f.asked_type = Some(Some(work_type(5, "turner")));
    assert!(matches!(ask(WorkerService::create_worker(&req, &who, &f)), WorkerAsk::NewId));
    f.id = Some(99);
    match ask(WorkerService::create_worker(&req, &who, &f)) {
        WorkerAsk::Create { insert } => {
            assert_eq!(insert.id, 99);
            assert_eq!(insert.badge_code, "B9");
            assert_eq!(insert.name, "Kim");
            assert!(insert.id_card_no.is_none());
            assert_eq!(insert.phone.as_deref(), Some("1"));
            assert_eq!(insert.work_type_id, Some(5));
            assert_eq!(insert.created_by, 7);
        }
        _ => panic!("a worker was to be stored"),
    }
    f.created = Some(Err(DbFault {
        sqlstate: Some("23505".to_string()),
        error: AppError::internal("x"),
    }));
    assert_eq!(
        error(WorkerService::create_worker(&req, &who, &f)).code(),
        ErrorCode::VersionConflict
    );
    f.created = Some(Err(DbFault { sqlstate: None, error: AppError::internal("x") }));
    assert_eq!(error(WorkerService::create_worker(&req, &who, &f)).code(), ErrorCode::Internal);
    f.created = Some(Ok(worker(99, Some(5))));
    f.work_type = Some(Some(work_type(5, "turner")));
    assert_eq!(value(WorkerService::create_worker(&req, &who, &f)).id, 99);
}

#[test]
fn workers_need_a_badge_and_a_name() {
    let f = CreateWorkerFacts {
        holder: None,
        asked_type: None,
        id: None,
        created: None,
        work_type: None,
    };
    let who = user(Role::Manager);
    let mut req = create_req();
    req.badge_code = " ".to_string();
    assert_eq!(
        error(WorkerService::create_worker(&req, &who, &f)).message,
        "badge_code 不能为空"
    );
    let mut req = create_req();
    req.name = "".to_string();
    assert_eq!(error(WorkerService::create_worker(&req, &who, &f)).message, "name 不能为空");
    let mut req = create_req();
    req.work_type_id = Some("x".to_string());
    let known = CreateWorkerFacts { holder: Some(None), ..f };
    assert_eq!(
        error(WorkerService::create_worker(&req, &who, &known)).code(),
        ErrorCode::BizInvalidValue
    );
}

#[test]
fn an_empty_update_sets_nothing() {
    let req = WorkerUpdateRequest {
        name: None,
        badge_code: None,
        id_card_no: None,
        phone: None,
        work_type_id: None,
    };
    let f = UpdateWorkerFacts {
        current: Some(Some(worker(1, None))),
        asked_type: None,
        affected: None,
        worker: None,
        work_type: None,
    };
    match ask(WorkerService::update_worker(1, &req, &user(Role::Manager), &f)) {
        WorkerAsk::Update { id, version, patch, updated_by } => {
            assert_eq!((id, version, updated_by), (1, 3, 7));
            assert!(patch.name.is_none() && patch.badge_code.is_none());
            assert!(!patch.set_id_card_no && !patch.set_phone && !patch.set_work_type_id);
        }
        _ => panic!("a worker was to be changed"),
    }
}

#[test]
fn updates_clear_and_set() {
    let req = WorkerUpdateRequest {
        name: Some(" New ".to_string()),
        badge_code: None,
        id_card_no: Some(None),
        phone: Some(Some(" 2 ".to_string())),
        work_type_id: Some(None),
    };
    let who = user(Role::Manager);
    let mut f = UpdateWorkerFacts {
        current: Some(Some(worker(1, Some(5)))),
        asked_type: None,
        affected: None,
        worker: None,
        work_type: None,
    };
    match ask(WorkerService::update_worker(1, &req, &who, &f)) {
        WorkerAsk::Update { patch, .. } => {
            assert_eq!(patch.name.as_deref(), Some("New"));
            assert!(patch.set_id_card_no && patch.id_card_no.is_none());
            assert!(patch.set_phone);
            assert_eq!(patch.phone.as_deref(), Some("2"));
            assert!(patch.set_work_type_id && patch.work_type_id.is_none());
        }
        _ => panic!("a worker was to be changed"),
    }
    f.affected = Some(Ok(0));
    assert_eq!(
        error(WorkerService::update_worker(1, &req, &who, &f)).code(),
        ErrorCode::VersionConflict
    );
    f.affected = Some(Ok(1));
    f.worker = Some(Some(worker(1, None)));
    assert_eq!(value(WorkerService::update_worker(1, &req, &who, &f)).id, 1);
}

#[test]
fn busy_workers_are_not_deactivated() {
    let who = user(Role::Manager);
    let mut f =
        DeactivateWorkerFacts { current: Some(Some(worker(1, None))), in_use: None, affected: None };
    assert!(matches!(
        ask(WorkerService::deactivate_worker(1, &who, &f)),
        WorkerAsk::CountInUse { id: 1 }
    ));
    f.in_use = Some(2);
    assert_eq!(
        error(WorkerService::deactivate_worker(1, &who, &f)).code(),
        ErrorCode::BizWorkerInUse
    );
    f.in_use = Some(0);
    assert!(matches!(
        ask(WorkerService::deactivate_worker(1, &who, &f)),
        WorkerAsk::Deactivate { id: 1, version: 3, updated_by: 7 }
    ));
    f.affected = Some(1);
    value(WorkerService::deactivate_worker(1, &who, &f));
}

#[test]
fn active_workers_are_not_reactivated() {
    let who = user(Role::Manager);
    let mut f = ReactivateWorkerFacts {
        current: None,
        affected: None,
        worker: None,
        work_type: None,
    };
    assert!(matches!(
        ask(WorkerService::reactivate_worker(1, &who, &f)),
        WorkerAsk::ToChange { id: 1, include_deleted: true }
    ));
    f.current = Some(Some(worker(1, None)));
    f.affected = Some(0);
    assert_eq!(
        error(WorkerService::reactivate_worker(1, &who, &f)).message,
        "工人已是激活状态，无需重启"
    );
    f.affected = Some(1);
    f.worker = Some(Some(worker(1, None)));
    assert!(value(WorkerService::reactivate_worker(1, &who, &f)).is_active);
}

#[test]
fn small_parts_of_the_worker_service() {
    assert_eq!(normalize_optional_str(&Some(" a ".to_string())).as_deref(), Some("a"));
    assert!(normalize_optional_str(&Some("  ".to_string())).is_none());
    let types = vec![work_type(1, "a"), work_type(2, "b"), work_type(1, "c")];
    assert_eq!(find_type_name(&types, 1).as_deref(), Some("c"));
    assert!(find_type_name(&types, 3).is_none());
    assert_eq!(collect_types(&vec![worker(1, None), worker(2, Some(8))]), vec![8]);
    let filter = WorkerRepo::list_with_filters(&Some(" an ".to_string()), None);
    assert_eq!(filter.name_pattern.as_deref(), Some("%an%"));
    assert!(WorkerRepo::list_with_filters(&Some(" ".to_string()), None).name_pattern.is_none());
}
