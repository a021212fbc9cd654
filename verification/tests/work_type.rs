//! Work types and their processes.
use shopfloor::auth::{CurrentUser, Role};
use shopfloor::calendar::{Date, DateTime};
use shopfloor::error::{AppError, DbFault, ErrorCode};
use shopfloor::flow::Next;
use shopfloor::work_type::dto::{
    SetWorkTypeProcessesItem, WorkTypeCreateRequest, WorkTypeListQuery, WorkTypeUpdateRequest,
};
use shopfloor::work_type::model::TWorkType;
use shopfloor::work_type::process_mapping::{
    ListProcessesFacts, SetProcessesFacts, WorkTypeProcessRow, WorkTypeProcessService,
};
use shopfloor::work_type::repo::WorkTypeRepo;
use shopfloor::work_type::service::{
    pid_to_string, CreateWorkTypeFacts, DeleteWorkTypeFacts, GetWorkTypeFacts,
    ListWorkTypesFacts, UpdateWorkTypeFacts, WorkTypeAsk, WorkTypeService,
};

fn now() -> DateTime {
    DateTime { date: Date::new(2026, 9, 18).unwrap(), second_of_day: 0, nanos: 0 }
}

fn user(role: Role) -> CurrentUser {
    CurrentUser {
        id: 7,
        username: "u".to_string(),
        roles: vec![role],
        shelf_ids: vec![],
        shelf_wildcard: false,
    }
}

fn work_type(id: i64) -> TWorkType {
    TWorkType {
        id,
        code: format!("T{id}"),
        name: format!("Type {id}"),
        description: None,
        sort_order: 0,
        version: 2,
        created_at: now(),
        created_by: None,
        updated_at: now(),
        updated_by: None,
        deleted_at: None,
        max_held_batches: Some(3),
    }
}

fn error<A, T>(n: Next<A, T>) -> AppError {
    match n {
        Next::Done(Err(e)) => e,
        _ => panic!("an error was expected"),
    }
}

fn value<A, T>(n: Next<A, T>) -> T {
    match n {
        Next::Done(Ok(v)) => v,
        Next::Done(Err(e)) => panic!("failed: {:?}", e),
        Next::Ask(_) => panic!("a value was expected"),
    }
}

fn ask<A, T>(n: Next<A, T>) -> A {
    match n {
        Next::Ask(a) => a,
        _ => panic!("something was to be asked for"),
    }
}

#[test]
fn work_types_are_listed_with_their_processes() {
    let q = WorkTypeListQuery { code_like: None, limit: None, offset: None };
    let who = user(Role::Clerk);
    let mut f = ListWorkTypesFacts { rows: None, total: None, processes: None };
    assert!(matches!(
        ask(WorkTypeService::list_work_types(&q, &who, &f)),
        WorkTypeAsk::List { code_like: None, limit: 50, offset: 0 }
    ));
    f.rows = Some(vec![work_type(1), work_type(2), work_type(3)]);
    f.total = Some(3);
    match ask(WorkTypeService::list_work_types(&q, &who, &f)) {
        WorkTypeAsk::ProcessesOf { ids } => assert_eq!(ids, vec![1, 2, 3]),
        _ => panic!("processes were to be looked up"),
    }
    f.processes = Some(vec![(1, 10), (1, 11), (3, 30)]);
    let out = value(WorkTypeService::list_work_types(&q, &who, &f));
    assert_eq!(out.items[0].process_ids, vec!["10".to_string(), "11".to_string()]);
    assert!(out.items[1].process_ids.is_empty());
    assert_eq!(out.items[2].process_ids, vec!["30".to_string()]);
}

#[test]
fn no_work_types_need_no_processes() {
    let q = WorkTypeListQuery { code_like: None, limit: None, offset: None };
    let f = ListWorkTypesFacts { rows: Some(vec![]), total: Some(0), processes: None };
    assert!(value(WorkTypeService::list_work_types(&q, &user(Role::Clerk), &f)).items.is_empty());
}

#[test]
fn one_work_type_is_read() {
    let mut f = GetWorkTypeFacts { work_type: Some(None), processes: None };
    assert_eq!(
        error(WorkTypeService::get_work_type(1, &user(Role::Clerk), &f)).code(),
        ErrorCode::BizWorkTypeNotFound
    );
    f.work_type = Some(Some(work_type(1)));
    f.processes = Some(vec![(1, -4)]);
    let out = value(WorkTypeService::get_work_type(1, &user(Role::Clerk), &f));
    assert_eq!(out.process_ids, vec!["-4".to_string()]);
    assert_eq!(out.max_held_batches, Some(3));
}

fn create_req() -> WorkTypeCreateRequest {
    WorkTypeCreateRequest {
        code: " T ".to_string(),
        name: " Turner ".to_string(),
        description: None,
        sort_order: None,
        max_held_batches: Some(1),
    }
}

#[test]
fn work_types_are_created() {
    let req = create_req();
    let mut f = CreateWorkTypeFacts { id: None, created: None };
    assert_eq!(
        error(WorkTypeService::create_work_type(&req, &user(Role::Clerk), &f)).code(),
        ErrorCode::Forbidden
    );
    let who = user(Role::Manager);
    assert!(matches!(
        ask(WorkTypeService::create_work_type(&req, &who, &f)),
        WorkTypeAsk::NewId
    ));
    f.id = Some(5);
    match ask(WorkTypeService::create_work_type(&req, &who, &f)) {
        WorkTypeAsk::Create { insert } => {
            assert_eq!((insert.id, insert.created_by), (5, 7));
            assert_eq!(insert.code, "T");
            assert_eq!(insert.name, "Turner");
            assert_eq!(insert.sort_order, 0);
            assert_eq!(insert.max_held_batches, Some(1));
        }
        _ => panic!("a work type was to be stored"),
    }
    f.created = Some(Err(DbFault {
        sqlstate: Some("23505".to_string()),
        error: AppError::internal("x"),
    }));
    assert_eq!(
        error(WorkTypeService::create_work_type(&req, &who, &f)).message,
        "code 'T' 已被占用"
    );
    f.created = Some(Ok(work_type(5)));
    assert_eq!(value(WorkTypeService::create_work_type(&req, &who, &f)).id, 5);
}

#[test]
fn limits_of_less_than_one_are_refused() {
    let f = CreateWorkTypeFacts { id: None, created: None };
    let mut req = create_req();
    req.max_held_batches = Some(0);
    assert_eq!(
        error(WorkTypeService::create_work_type(&req, &user(Role::Manager), &f)).code(),
        ErrorCode::BizInvalidValue
    );
    let change = WorkTypeUpdateRequest {
        code: None,
        name: None,
        description: None,
        sort_order: None,
        max_held_batches: Some(Some(-1)),
    };
    let g = UpdateWorkTypeFacts {
        existing: Some(Some(work_type(1))),
        affected: None,
        work_type: None,
        processes: None,
    };
    assert_eq!(
        error(WorkTypeService::update_work_type(1, &change, &user(Role::Manager), &g)).code(),
        ErrorCode::BizInvalidValue
    );
}

#[test]
fn codes_do_not_change() {
    let change = WorkTypeUpdateRequest {
        code: Some("X".to_string()),
        name: None,
        description: None,
        sort_order: None,
        max_held_batches: None,
    };
    let f = UpdateWorkTypeFacts { existing: None, affected: None, work_type: None, processes: None };
    assert_eq!(
        error(WorkTypeService::update_work_type(1, &change, &user(Role::Manager), &f)).code(),
        ErrorCode::BizInvalidValue
    );
}

#[test]
fn work_types_are_changed_once_per_version() {
    let change = WorkTypeUpdateRequest {
        code: None,
        name: Some(" N ".to_string()),
        description: Some(Some(" d ".to_string())),
        sort_order: Some(9),
        max_held_batches: Some(None),
    };
    let who = user(Role::Manager);
    let mut f = UpdateWorkTypeFacts {
        existing: Some(Some(work_type(1))),
        affected: None,
        work_type: None,
        processes: None,
    };
    match ask(WorkTypeService::update_work_type(1, &change, &who, &f)) {
        WorkTypeAsk::Update { id, version, patch, updated_by } => {
            assert_eq!((id, version, updated_by), (1, 2, 7));
            assert_eq!(patch.name.as_deref(), Some("N"));
            assert!(patch.set_description);
            assert_eq!(patch.description.as_deref(), Some("d"));
            assert_eq!(patch.sort_order, Some(9));
            assert!(patch.set_max_held_batches && patch.max_held_batches.is_none());
        }
        _ => panic!("a work type was to be changed"),
    }
    f.affected = Some(0);
    assert_eq!(
        error(WorkTypeService::update_work_type(1, &change, &who, &f)).code(),
        ErrorCode::VersionConflict
    );
    f.affected = Some(1);
    f.work_type = Some(Some(work_type(1)));
    f.processes = Some(vec![]);
    assert_eq!(value(WorkTypeService::update_work_type(1, &change, &who, &f)).id, 1);
}

#[test]
fn work_types_in_use_are_not_deleted() {
    let who = user(Role::Manager);
    let mut f = DeleteWorkTypeFacts {
        work_type: Some(Some(work_type(1))),
        references: None,
        affected: None,
    };
    assert!(matches!(
        ask(WorkTypeService::soft_delete_work_type(1, &who, &f)),
        WorkTypeAsk::CountReferences { id: 1 }
    ));
    f.references = Some(2);
    assert_eq!(
        error(WorkTypeService::soft_delete_work_type(1, &who, &f)).code(),
        ErrorCode::BizWorkTypeInUse
    );
    f.references = Some(0);
    f.affected = Some(1);
    value(WorkTypeService::soft_delete_work_type(1, &who, &f));
}

#[test]
fn processes_of_a_work_type_are_replaced() {
    let items = vec![SetWorkTypeProcessesItem { process_id: "10".to_string(), sort_order: 4 }];
    let who = user(Role::Manager);
    let mut f = SetProcessesFacts {
        work_type: Some(Some(work_type(1))),
        existing: Some(vec![]),
        cleared: false,
        inserted: false,
    };
    assert!(error(WorkTypeProcessService::set_work_type_processes(1, &items, &who, &f))
        .message
        .contains("[10]"));
    f.existing = Some(vec![10]);
    assert!(matches!(
        ask(WorkTypeProcessService::set_work_type_processes(1, &items, &who, &f)),
        WorkTypeAsk::ClearMappings { work_type_id: 1 }
    ));
    f.cleared = true;
    match ask(WorkTypeProcessService::set_work_type_processes(1, &items, &who, &f)) {
        WorkTypeAsk::InsertMappings { rows, created_by } => {
            assert_eq!(rows.len(), 1);
            assert_eq!((rows[0].work_type_id, rows[0].process_id, rows[0].sort_order), (1, 10, 4));
            assert_eq!(created_by, 7);
        }
        _ => panic!("mappings were to be stored"),
    }
    f.inserted = true;
    value(WorkTypeProcessService::set_work_type_processes(1, &items, &who, &f));
    assert_eq!(
        error(WorkTypeProcessService::set_work_type_processes(1, &items, &user(Role::Clerk), &f))
            .code(),
        ErrorCode::Forbidden
    );
}

/// A table of mappings: work type, process, place, and whether the row is live.
type Table = Vec<(i64, i64, i32, bool)>;

fn set_processes(table: &mut Table, id: i64, wanted: &[(&str, i32)]) -> Result<(), AppError> {
    let items: Vec<SetWorkTypeProcessesItem> = wanted
        .iter()
        .map(|w| SetWorkTypeProcessesItem { process_id: w.0.to_string(), sort_order: w.1 })
        .collect();
    let mut f =
        SetProcessesFacts { work_type: None, existing: None, cleared: false, inserted: false };
    loop {
        match WorkTypeProcessService::set_work_type_processes(id, &items, &user(Role::Manager), &f)
        {
            Next::Done(r) => return r,
            Next::Ask(WorkTypeAsk::ById { id }) => f.work_type = Some(Some(work_type(id))),
            Next::Ask(WorkTypeAsk::ExistingProcesses { ids }) => {
                f.existing = Some([1, 2, 3].into_iter().filter(|p| ids.contains(p)).collect());
            }
            Next::Ask(WorkTypeAsk::ClearMappings { work_type_id }) => {
                for row in table.iter_mut().filter(|r| r.0 == work_type_id) {
                    row.3 = false;
                }
                f.cleared = true;
            }
            Next::Ask(WorkTypeAsk::InsertMappings { rows, .. }) => {
                for r in rows {
                    table.push((r.work_type_id, r.process_id, r.sort_order, true));
                }
                f.inserted = true;
            }
            Next::Ask(_) => unreachable!("not asked for here"),
        }
    }
}

fn listed(table: &Table, id: i64) -> Vec<(i64, i32)> {
    let mut f = ListProcessesFacts { work_type: None, rows: None };
    loop {
        match WorkTypeProcessService::list_work_type_processes(id, &user(Role::Clerk), &f) {
            Next::Done(r) => {
                return r.unwrap().items.iter().map(|i| (i.process_id, i.sort_order)).collect();
            }
            Next::Ask(WorkTypeAsk::ById { id }) => f.work_type = Some(Some(work_type(id))),
            Next::Ask(WorkTypeAsk::MappingsOf { work_type_id }) => {
                let mut live: Table =
                    table.iter().filter(|r| r.0 == work_type_id && r.3).copied().collect();
                live.sort_by_key(|r| r.2);
                f.rows = Some(
                    live.iter()
                        .map(|r| WorkTypeProcessRow {
                            process_id: r.1,
                            sort_order: r.2,
                            process_code: format!("P{}", r.1),
                        })
                        .collect(),
                );
            }
            Next::Ask(_) => unreachable!("not asked for here"),
        }
    }
}

#[test]
fn a_list_shows_the_processes_set_last() {
    let mut table: Table = vec![];
    set_processes(&mut table, 8, &[("3", 0)]).unwrap();
    set_processes(&mut table, 5, &[("1", 0)]).unwrap();
    assert_eq!(listed(&table, 5), vec![(1, 0)]);
    set_processes(&mut table, 5, &[("2", 0)]).unwrap();
    assert_eq!(listed(&table, 5), vec![(2, 0)]);
    set_processes(&mut table, 5, &[("3", 4), ("1", 2)]).unwrap();
    assert_eq!(listed(&table, 5), vec![(1, 2), (3, 4)]);
    assert_eq!(listed(&table, 8), vec![(3, 0)]);

    let before = table.clone();
    for refused in [&[("9", 0)][..], &[("1", 0), ("1", 1)][..], &[("x", 0)][..]] {
        assert!(set_processes(&mut table, 5, refused).is_err());
        assert_eq!(table, before);
    }
    set_processes(&mut table, 5, &[]).unwrap();
    assert_eq!(listed(&table, 5), vec![]);
    assert_eq!(listed(&table, 8), vec![(3, 0)]);
}

#[test]
fn processes_of_a_work_type_are_listed() {
    let f = ListProcessesFacts {
        work_type: Some(Some(work_type(1))),
        rows: Some(vec![WorkTypeProcessRow {
            process_id: 10,
            sort_order: 2,
            process_code: "P10".to_string(),
        }]),
    };
    let out = value(WorkTypeProcessService::list_work_type_processes(1, &user(Role::Clerk), &f));
    assert_eq!(out.items[0].work_type_id, 1);
    assert_eq!(out.items[0].process_code, "P10");
}

#[test]
fn small_parts_of_the_work_type_service() {
    assert_eq!(pid_to_string(i64::MIN), "-9223372036854775808");
    assert_eq!(
        WorkTypeRepo::list_with_filters(&Some(" x ".to_string())).as_deref(),
        Some("%x%")
    );
}
