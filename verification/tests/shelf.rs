//! Shelves and their processes.
use shopfloor::auth::{CurrentUser, Role};
use shopfloor::calendar::{Date, DateTime};
use shopfloor::error::{AppError, DbFault, ErrorCode};
use shopfloor::flow::Next;
use shopfloor::shelf::dto::{
    AllShelfProcessMappingItem, SetShelfProcessesItem, ShelfCreateRequest, ShelfForReturnQuery,
    ShelfListQuery, ShelfProcessMappingItem, ShelfUpdateRequest,
};
use shopfloor::shelf::model::{TShelf, TShelfWithLoad};
use shopfloor::shelf::process_mapping::{
    ListProcessesFacts, SetProcessesFacts, ShelfProcessService,
};
use shopfloor::shelf::repo::ShelfRepo;
use shopfloor::shelf::service::{
    check_zone, shelf_not_found, CreateShelfFacts, DeleteShelfFacts, ForReturnFacts,
    ListShelvesFacts, ShelfAsk, ShelfService, UpdateShelfFacts,
};

fn now() -> DateTime {
    DateTime { date: Date::new(2026, 9, 18).unwrap(), second_of_day: 0, nanos: 0 }
}

fn user(role: Role, shelf_ids: Vec<i64>) -> CurrentUser {
    CurrentUser {
        id: 7,
        username: "u".to_string(),
        roles: vec![role],
        shelf_ids,
        shelf_wildcard: false,
    }
}

fn manager() -> CurrentUser {
    user(Role::Manager, vec![])
}

fn shelf(id: i64) -> TShelf {
    TShelf {
        id,
        code: format!("S{id}"),
        name: format!("Shelf {id}"),
        zone: "PRODUCTION".to_string(),
        location: None,
        is_active: true,
        display_order: 1,
        version: 4,
        created_at: now(),
        created_by: None,
        updated_at: now(),
        updated_by: None,
        deleted_at: None,
    }
}

fn loaded(id: i64, current_load: i64) -> TShelfWithLoad {
    TShelfWithLoad {
        id,
        code: format!("S{id}"),
        name: format!("Shelf {id}"),
        zone: "PRODUCTION".to_string(),
        location: None,
        current_load,
    }
}

fn error<A, T>(n: Next<A, T>) -> AppError {
    match n {
        Next::Done(Err(e)) => e,
        _ => panic!("an error was expected"),
    }
}

fn value<A, T>(n: Next<A, T>) -> T {
    match n {
        Next::Done(Ok(v)) => v,
        Next::Done(Err(e)) => panic!("failed: {:?}", e),
        Next::Ask(_) => panic!("a value was expected"),
    }
}

fn ask<A, T>(n: Next<A, T>) -> A {
    match n {
        Next::Ask(a) => a,
        _ => panic!("something was to be asked for"),
    }
}

#[test]
fn zones_are_read_in_any_case() {
    assert_eq!(check_zone(" production ").unwrap(), "PRODUCTION");
    assert_eq!(check_zone("Inspection").unwrap(), "INSPECTION");
    assert_eq!(check_zone("STORAGE").unwrap_err().code(), ErrorCode::BizInvalidValue);
    assert_eq!(check_zone("").unwrap_err().code(), ErrorCode::BizInvalidValue);
    assert_eq!(shelf_not_found().message, "货架不存在");
}

#[test]
fn zones_follow_unicode_capitals() {
    assert_eq!(check_zone("ınspectıon").unwrap(), "INSPECTION");
    assert!(check_zone("ınspectıön").is_err());
}

#[test]
fn shelves_are_listed_with_their_accounts() {
    let q = ShelfListQuery {
        code_like: Some("  ".to_string()),
        zone: Some(" PRODUCTION ".to_string()),
        is_active: None,
        limit: Some(2),
        offset: None,
    };
    let who = user(Role::Inspector, vec![]);
    let mut f = ListShelvesFacts { rows: None, total: None, accounts: None };
    match ask(ShelfService::list_shelves(&q, &who, &f)) {
        ShelfAsk::List { code_like, zone, limit, offset, .. } => {
            assert!(code_like.is_none());
            assert_eq!(zone.as_deref(), Some("PRODUCTION"));
            assert_eq!((limit, offset), (2, 0));
        }
        _ => panic!("shelves were to be listed"),
    }
    f.rows = Some(vec![shelf(1), shelf(2)]);
    f.total = Some(8);
    match ask(ShelfService::list_shelves(&q, &who, &f)) {
        ShelfAsk::AccountCounts { ids } => assert_eq!(ids, vec![1, 2]),
        _ => panic!("accounts were to be counted"),
    }
    f.accounts = Some(vec![(2, 3)]);
    let out = value(ShelfService::list_shelves(&q, &who, &f));
    assert_eq!(out.total, 8);
    assert_eq!(out.items[0].account_count, 0);
    assert_eq!(out.items[1].account_count, 3);
    let mut nobody = who.clone();
    nobody.roles = vec![];
    assert_eq!(error(ShelfService::list_shelves(&q, &nobody, &f)).code(), ErrorCode::Forbidden);
}

#[test]
fn a_shelf_is_shown_to_those_who_see_it() {
    let found = Some(Some(shelf(5)));
    assert_eq!(value(ShelfService::get_shelf(5, &manager(), &found)).code, "S5");
    assert_eq!(
        value(ShelfService::get_shelf(5, &user(Role::ShelfAccount, vec![5]), &found)).id,
        5
    );
    assert_eq!(
        error(ShelfService::get_shelf(5, &user(Role::ShelfAccount, vec![6]), &found)).code(),
        ErrorCode::ShelfMismatch
    );
    assert_eq!(
        error(ShelfService::get_shelf(5, &manager(), &Some(None))).code(),
        ErrorCode::BizShelfNotFound
    );
}

fn create_req() -> ShelfCreateRequest {
    ShelfCreateRequest {
        code: " C1 ".to_string(),
        name: " Name ".to_string(),
        zone: "inspection".to_string(),
        location: Some(" ".to_string()),
        display_order: None,
    }
}

#[test]
fn shelves_are_created() {
    let mut f = CreateShelfFacts { id: None, created: None };
    let req = create_req();
    assert_eq!(
        error(ShelfService::create_shelf(&req, &user(Role::Clerk, vec![]), &f)).code(),
        ErrorCode::Forbidden
    );
    assert!(matches!(ask(ShelfService::create_shelf(&req, &manager(), &f)), ShelfAsk::NewId));
    f.id = Some(11);
    match ask(ShelfService::create_shelf(&req, &manager(), &f)) {
        ShelfAsk::Create { insert } => {
            assert_eq!(insert.id, 11);
            assert_eq!(insert.code, "C1");
            assert_eq!(insert.name, "Name");
            assert_eq!(insert.zone, "INSPECTION");
            assert!(insert.location.is_none());
            assert_eq!(insert.display_order, 0);
            assert_eq!(insert.created_by, 7);
        }
        _ => panic!("a shelf was to be stored"),
    }
    f.created = Some(Err(DbFault {
        sqlstate: Some("23505".to_string()),
        error: AppError::internal("x"),
    }));
    let e = error(ShelfService::create_shelf(&req, &manager(), &f));
    assert_eq!(e.code(), ErrorCode::BizShelfDuplicateCode);
    assert_eq!(e.message, "code 'C1' 已被占用");
    f.created = Some(Ok(shelf(11)));
    assert_eq!(value(ShelfService::create_shelf(&req, &manager(), &f)).id, 11);
}

#[test]
fn shelves_need_a_code_a_name_and_a_zone() {
    let f = CreateShelfFacts { id: None, created: None };
    let mut req = create_req();
    req.code = " ".to_string();
    assert_eq!(
        error(ShelfService::create_shelf(&req, &manager(), &f)).code(),
        ErrorCode::BizInvalidValue
    );
    let mut req = create_req();
    req.name = "".to_string();
    assert_eq!(
        error(ShelfService::create_shelf(&req, &manager(), &f)).code(),
        ErrorCode::BizInvalidValue
    );
    let mut req = create_req();
    req.zone = "STORAGE".to_string();
    assert_eq!(
        error(ShelfService::create_shelf(&req, &manager(), &f)).code(),
        ErrorCode::BizInvalidValue
    );
}

#[test]
fn shelves_are_changed_once_per_version() {
    let req = ShelfUpdateRequest {
        name: Some(" N ".to_string()),
        location: Some(None),
        display_order: None,
    };
    let mut f = UpdateShelfFacts { current: Some(Some(shelf(1))), affected: None, shelf: None };
    match ask(ShelfService::update_shelf(1, &req, &manager(), &f)) {
        ShelfAsk::Update { id, version, patch, updated_by } => {
            assert_eq!((id, version, updated_by), (1, 4, 7));
            assert_eq!(patch.name.as_deref(), Some("N"));
            assert!(patch.set_location && patch.location.is_none());
            assert!(patch.display_order.is_none());
        }
        _ => panic!("a shelf was to be changed"),
    }
    f.affected = Some(Ok(0));
    assert_eq!(
        error(ShelfService::update_shelf(1, &req, &manager(), &f)).code(),
        ErrorCode::VersionConflict
    );
    f.affected = Some(Err(DbFault {
        sqlstate: Some("23514".to_string()),
        error: AppError::internal("x"),
    }));
    assert_eq!(
        error(ShelfService::update_shelf(1, &req, &manager(), &f)).code(),
        ErrorCode::BizInvalidValue
    );
    f.affected = Some(Ok(1));
    f.shelf = Some(Some(shelf(1)));
    assert_eq!(value(ShelfService::update_shelf(1, &req, &manager(), &f)).id, 1);
}

#[test]
fn shelves_in_use_are_not_deleted() {
    let mut f =
        DeleteShelfFacts { current: Some(Some(shelf(1))), in_use: Some(1), affected: None };
    assert_eq!(
        error(ShelfService::soft_delete_shelf(1, &manager(), &f)).code(),
        ErrorCode::BizShelfInUse
    );
    f.in_use = Some(0);
    assert!(matches!(
        ask(ShelfService::soft_delete_shelf(1, &manager(), &f)),
        ShelfAsk::SoftDelete { id: 1, version: 4, updated_by: 7 }
    ));
    f.affected = Some(0);
    assert_eq!(
        error(ShelfService::soft_delete_shelf(1, &manager(), &f)).code(),
        ErrorCode::VersionConflict
    );
    f.affected = Some(1);
    value(ShelfService::soft_delete_shelf(1, &manager(), &f));
}

#[test]
fn the_emptiest_visible_shelf_is_recommended() {
    let q = ShelfForReturnQuery { next_process_id: Some("12".to_string()) };
    let who = user(Role::ShelfAccount, vec![2, 3]);
    let mut f = ForReturnFacts { process_exists: None, shelves: None };
    assert!(matches!(
        ask(ShelfService::list_for_return(&q, &who, &f)),
        ShelfAsk::ProcessExists { process_id: 12 }
    ));
    f.process_exists = Some(false);
    let e = error(ShelfService::list_for_return(&q, &who, &f));
    assert_eq!(e.code(), ErrorCode::BizProcessNotFound);
    assert_eq!(e.message, "process 12 不存在");
    f.process_exists = Some(true);
    assert!(matches!(
        ask(ShelfService::list_for_return(&q, &who, &f)),
        ShelfAsk::ProductionShelves
    ));
    f.shelves = Some(vec![loaded(1, 0), loaded(2, 1), loaded(3, 5)]);
    let out = value(ShelfService::list_for_return(&q, &who, &f));
    let ids: Vec<(i64, bool)> = out.items.iter().map(|i| (i.id, i.is_recommended)).collect();
    assert_eq!(ids, vec![(2, true), (3, false)]);
}

#[test]
fn a_process_must_be_an_id() {
    let q = ShelfForReturnQuery { next_process_id: Some("x".to_string()) };
    let f = ForReturnFacts { process_exists: None, shelves: None };
    assert_eq!(
        error(ShelfService::list_for_return(&q, &manager(), &f)).code(),
        ErrorCode::BizInvalidValue
    );
    let blank = ShelfForReturnQuery { next_process_id: None };
    assert!(matches!(
        ask(ShelfService::list_for_return(&blank, &manager(), &f)),
        ShelfAsk::ProductionShelves
    ));
}

#[test]
fn inspection_shelves_are_the_active_ones() {
    match ask(ShelfService::list_for_inspection(&manager(), &None)) {
        ShelfAsk::List { code_like, zone, is_active, limit, offset } => {
            assert!(code_like.is_none());
            assert_eq!(zone.as_deref(), Some("INSPECTION"));
            assert_eq!(is_active, Some(true));
            assert_eq!((limit, offset), (500, 0));
        }
        _ => panic!("shelves were to be listed"),
    }
    let out = value(ShelfService::list_for_inspection(&manager(), &Some(vec![shelf(3)])));
    assert_eq!(out.items[0].code, "S3");
}

#[test]
fn mappings_are_shown_of_visible_shelves_only() {
    let rows = vec![
        AllShelfProcessMappingItem {
            shelf_id: 1,
            shelf_code: "S1".to_string(),
            process_id: 10,
            process_code: "P10".to_string(),
        },
        AllShelfProcessMappingItem {
            shelf_id: 2,
            shelf_code: "S2".to_string(),
            process_id: 20,
            process_code: "P20".to_string(),
        },
    ];
    let all = Some(rows);
    let out = value(ShelfService::list_all_process_mappings(
        &user(Role::ShelfAccount, vec![2]),
        &all,
    ));
    assert_eq!(out.items.len(), 1);
    assert_eq!(out.items[0].process_code, "P20");
    assert_eq!(
        value(ShelfService::list_all_process_mappings(&manager(), &all)).items.len(),
        2
    );
}

fn named(ids: &[&str]) -> Vec<SetShelfProcessesItem> {
    ids.iter()
        .enumerate()
        .map(|(i, id)| SetShelfProcessesItem {
            process_id: id.to_string(),
            sort_order: i as i32,
        })
        .collect()
}

#[test]
fn processes_of_a_shelf_are_replaced() {
    let items = named(&["10", "20"]);
    let mut f = SetProcessesFacts {
        shelf: Some(Some(shelf(1))),
        existing: None,
        cleared: false,
        inserted: false,
    };
    match ask(ShelfProcessService::set_shelf_processes(1, &items, &manager(), &f)) {
        ShelfAsk::ExistingProcesses { ids } => assert_eq!(ids, vec![10, 20]),
        _ => panic!("processes were to be looked up"),
    }
    f.existing = Some(vec![20]);
    let e = error(ShelfProcessService::set_shelf_processes(1, &items, &manager(), &f));
    assert_eq!(e.code(), ErrorCode::BizShelfProcessProcessNotFound);
    assert_eq!(e.message, "process 不存在: [10]");
    f.existing = Some(vec![20, 10]);
    assert!(matches!(
        ask(ShelfProcessService::set_shelf_processes(1, &items, &manager(), &f)),
        ShelfAsk::ClearMappings { shelf_id: 1 }
    ));
    f.cleared = true;
    match ask(ShelfProcessService::set_shelf_processes(1, &items, &manager(), &f)) {
        ShelfAsk::InsertMappings { rows, created_by } => {
            assert_eq!(rows.len(), 2);
            assert_eq!((rows[1].shelf_id, rows[1].process_id, rows[1].sort_order), (1, 20, 1));
            assert_eq!(created_by, 7);
        }
        _ => panic!("mappings were to be stored"),
    }
    f.inserted = true;
    value(ShelfProcessService::set_shelf_processes(1, &items, &manager(), &f));
}

#[test]
fn no_processes_clear_a_shelf() {
    let mut f = SetProcessesFacts {
        shelf: Some(Some(shelf(1))),
        existing: None,
        cleared: false,
        inserted: false,
    };
    assert!(matches!(
        ask(ShelfProcessService::set_shelf_processes(1, &vec![], &manager(), &f)),
        ShelfAsk::ClearMappings { shelf_id: 1 }
    ));
    f.cleared = true;
    value(ShelfProcessService::set_shelf_processes(1, &vec![], &manager(), &f));
}

#[test]
fn processes_are_set_by_managers_on_shelves_that_exist() {
    let f = SetProcessesFacts { shelf: Some(None), existing: None, cleared: false, inserted: false };
    assert_eq!(
        error(ShelfProcessService::set_shelf_processes(
            1,
            &named(&["10"]),
            &user(Role::Clerk, vec![]),
            &f
        ))
        .code(),
        ErrorCode::Forbidden
    );
    let e = error(ShelfProcessService::set_shelf_processes(1, &named(&["10"]), &manager(), &f));
    assert_eq!(e.message, "shelf 1 不存在");
    let known = SetProcessesFacts { shelf: Some(Some(shelf(1))), ..f };
    assert_eq!(
        error(ShelfProcessService::set_shelf_processes(1, &named(&["1x"]), &manager(), &known))
            .code(),
        ErrorCode::BizInvalidValue
    );
}

#[test]
fn a_shelf_serves_the_processes_set_last() {
    let mut table: Vec<(i64, i64, bool)> = vec![(2, 30, true)];
    for wanted in [&["10"][..], &["20"][..], &["30", "10"][..]] {
        let items = named(wanted);
        let mut f =
            SetProcessesFacts { shelf: None, existing: None, cleared: false, inserted: false };
        loop {
            match ShelfProcessService::set_shelf_processes(1, &items, &manager(), &f) {
                Next::Done(r) => break r.unwrap(),
                Next::Ask(ShelfAsk::ById { id }) => f.shelf = Some(Some(shelf(id))),
                Next::Ask(ShelfAsk::ExistingProcesses { ids }) => f.existing = Some(ids),
                Next::Ask(ShelfAsk::ClearMappings { shelf_id }) => {
                    for row in table.iter_mut().filter(|r| r.0 == shelf_id) {
                        row.2 = false;
                    }
                    f.cleared = true;
                }
                Next::Ask(ShelfAsk::InsertMappings { rows, .. }) => {
                    table.extend(rows.iter().map(|r| (r.shelf_id, r.process_id, true)));
                    f.inserted = true;
                }
                Next::Ask(_) => unreachable!("not asked for here"),
            }
        }
        let live: Vec<String> =
            table.iter().filter(|r| r.0 == 1 && r.2).map(|r| r.1.to_string()).collect();
        assert_eq!(live, wanted);
        assert!(table.contains(&(2, 30, true)));
    }
}

#[test]
fn processes_of_a_shelf_are_listed() {
    let f = ListProcessesFacts {
        shelf: Some(Some(shelf(1))),
        rows: Some(vec![ShelfProcessMappingItem {
            shelf_id: 1,
            shelf_code: "S1".to_string(),
            process_id: 10,
            process_code: "P10".to_string(),
            sort_order: 2,
        }]),
    };
    let out = value(ShelfProcessService::list_shelf_processes(1, &manager(), &f));
    assert_eq!(out.items[0].sort_order, 2);
}

#[test]
fn blank_conditions_on_shelves_are_dropped() {
    let f = ShelfRepo::list_with_filters(
        &Some(" ab ".to_string()),
        &Some("".to_string()),
        Some(true),
    );
    assert_eq!(f.code_pattern.as_deref(), Some("%ab%"));
    assert_eq!(f.is_active, Some(true));
}
