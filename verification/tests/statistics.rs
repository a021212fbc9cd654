//! Statistics.
use shopfloor::auth::{CurrentUser, Role};
use shopfloor::calendar::{Date, DateTime, Decimal};
use shopfloor::error::{AppError, ErrorCode};
use shopfloor::flow::Next;
use shopfloor::statistics::daily::fill_zero_daily_counts;
use shopfloor::statistics::dto::{DateRangeQuery, PickupSkipDetailQuery, StatusCount};
use shopfloor::statistics::handler;
use shopfloor::statistics::repo::{
    DeliveredRow, PickupSkipDetailRow, PickupSkipSummaryRow, WorkerEventsRow, WorkerPartRow,
    WorkerPickupRow,
};
use shopfloor::statistics::service::{
    OverviewFacts, SkipDetailFacts, StatAsk, StatisticsService, WorkerDetailFacts,
    WorkerStatsFacts,
};
use shopfloor::work_type::model::TWorkType;
use shopfloor::worker::model::TWorker;

fn day(y: i32, m: u32, d: u32) -> Date {
    Date::new(y, m, d).unwrap()
}

fn noon(d: Date) -> DateTime {
    DateTime { date: d, second_of_day: 43200, nanos: 0 }
}

fn user(role: Role) -> CurrentUser {
    CurrentUser {
        id: 7,
        username: "u".to_string(),
        roles: vec![role],
        shelf_ids: vec![],
        shelf_wildcard: false,
    }
}

fn worker(id: i64, work_type_id: Option<i64>) -> TWorker {
    let t = noon(day(2026, 1, 1));
    TWorker {
        id,
        badge_code: format!("B{id}"),
        name: format!("Worker {id}"),
        id_card_no: None,
        phone: None,
        is_active: true,
        work_type_id,
        version: 0,
        created_at: t,
        created_by: None,
        updated_at: t,
        updated_by: None,
        deleted_at: None,
    }
}

fn work_type(id: i64, name: &str) -> TWorkType {
    let t = noon(day(2026, 1, 1));
    TWorkType {
        id,
        code: format!("T{id}"),
        name: name.to_string(),
        description: None,
        sort_order: 0,
        version: 0,
        created_at: t,
        created_by: None,
        updated_at: t,
        updated_by: None,
        deleted_at: None,
        max_held_batches: None,
    }
}

fn part(part_id: i64) -> WorkerPartRow {
    WorkerPartRow {
        part_id,
        is_live: true,
        serial_no: None,
        name: "n".to_string(),
        drawing_no: "d".to_string(),
        status: "s".to_string(),
        pickup_count: 1,
        last_pickup_at: noon(day(2026, 2, 28)),
    }
}

fn error<A, T>(n: Next<A, T>) -> AppError {
    match n {
        Next::Done(Err(e)) => e,
        _ => panic!("an error was expected"),
    }
}

fn value<A, T>(n: Next<A, T>) -> T {
    match n {
        Next::Done(Ok(v)) => v,
        Next::Done(Err(e)) => panic!("failed: {:?}", e),
        Next::Ask(_) => panic!("a value was expected"),
    }
}

fn ask<A, T>(n: Next<A, T>) -> A {
    match n {
        Next::Ask(a) => a,
        _ => panic!("something was to be asked for"),
    }
}

#[test]
fn every_day_is_counted_over_a_leap_day() {
    let rows = vec![(day(2024, 2, 29), 5), (day(2024, 3, 1), 2), (day(2024, 2, 29), 6)];
    let out = fill_zero_daily_counts(day(2024, 2, 27), day(2024, 3, 2), &rows);
    let shown: Vec<(u32, u32, i64)> =
        out.iter().map(|d| (d.date.month, d.date.day, d.count)).collect();
    assert_eq!(shown, vec![(2, 27, 0), (2, 28, 0), (2, 29, 6), (3, 1, 2), (3, 2, 0)]);
}

#[test]
fn one_day_is_one_count() {
    let d = day(2023, 12, 31);
    assert_eq!(fill_zero_daily_counts(d, d, &vec![]).len(), 1);
    assert_eq!(fill_zero_daily_counts(d, day(2024, 1, 1), &vec![])[1].date, day(2024, 1, 1));
}

#[test]
fn days_the_wrong_way_round_are_refused() {
    let e = StatisticsService::validate_date_range(day(2026, 2, 2), day(2026, 2, 1)).unwrap_err();
    assert_eq!(e.code(), ErrorCode::BizInvalidValue);
    assert_eq!(e.message, "date_from (2026-02-02) must be <= date_to (2026-02-01)");
    assert!(StatisticsService::validate_date_range(day(2026, 2, 1), day(2026, 2, 1)).is_ok());
}

#[test]
fn dates_are_written_with_four_digits_and_a_sign_beyond() {
    let e = StatisticsService::validate_date_range(day(10000, 1, 9), day(987, 12, 31)).unwrap_err();
    assert_eq!(e.message, "date_from (+10000-01-09) must be <= date_to (0987-12-31)");
    let e = StatisticsService::validate_date_range(day(0, 1, 1), day(-1, 1, 1)).unwrap_err();
    assert_eq!(e.message, "date_from (0000-01-01) must be <= date_to (-0001-01-01)");
}

#[test]
fn worker_ids_are_numbers() {
    assert_eq!(StatisticsService::parse_worker_id("42").unwrap(), 42);
    assert_eq!(
        StatisticsService::parse_worker_id("4 2").unwrap_err().message,
        "worker_id 必须是正整数雪花 ID 字符串"
    );
}

fn overview_facts() -> OverviewFacts {
    OverviewFacts {
        today: None,
        created: None,
        completed: None,
        in_process: None,
        delivered: None,
        overdue: None,
        repairs: None,
        daily_created: None,
        daily_completed: None,
        statuses: None,
    }
}

#[test]
fn the_overview_is_put_together() {
    let q = DateRangeQuery { date_from: day(2026, 2, 1), date_to: day(2026, 2, 3) };
    let who = user(Role::Manager);
    let mut f = overview_facts();
    assert_eq!(error(handler::overview(&user(Role::Clerk), &q, &f)).code(), ErrorCode::Forbidden);
    assert!(matches!(ask(handler::overview(&who, &q, &f)), StatAsk::Today));
    f.today = Some(day(2026, 5, 5));
    assert!(matches!(ask(handler::overview(&who, &q, &f)), StatAsk::CountCreated { .. }));
    f.created = Some(1);
    f.completed = Some(2);
    match ask(handler::overview(&who, &q, &f)) {
        StatAsk::CountInProcessAt { day: d } => assert_eq!(d, q.date_to),
        _ => panic!("parts in process were to be counted"),
    }
    f.in_process = Some(3);
    f.delivered = Some(DeliveredRow {
        count: 10,
        value: Decimal { mantissa: 12345, scale: 2 },
        orange: 3,
        red: 2,
    });
    match ask(handler::overview(&who, &q, &f)) {
        StatAsk::CountOverdue { today } => assert_eq!(today, day(2026, 5, 5)),
        _ => panic!("overdue parts were to be counted"),
    }
    f.overdue = Some(4);
    f.repairs = Some(5);
    f.daily_created = Some(vec![(day(2026, 2, 2), 9)]);
    f.daily_completed = Some(vec![]);
    assert!(matches!(ask(handler::overview(&who, &q, &f)), StatAsk::StatusDistribution));
    f.statuses = Some(vec![StatusCount { status_value: "X".to_string(), count: 8 }]);
    let out = value(handler::overview(&who, &q, &f));
    assert_eq!((out.created_count, out.completed_count, out.in_process_count), (1, 2, 3));
    assert_eq!(out.delivery_performance.on_time, 5);
    assert_eq!((out.delivery_performance.orange, out.delivery_performance.red), (3, 2));
    assert_eq!(out.delivered_value, Decimal { mantissa: 12345, scale: 2 });
    assert_eq!((out.overdue_undelivered_count, out.repair_part_count), (4, 5));
    assert_eq!(out.daily_created.len(), 3);
    assert_eq!(out.daily_created[1].count, 9);
    assert_eq!(out.status_distribution[0].status_value, "X");
}

#[test]
fn on_time_is_never_negative() {
    let f = OverviewFacts {
        today: Some(day(2026, 1, 1)),
        created: Some(0),
        completed: Some(0),
        in_process: Some(0),
        delivered: Some(DeliveredRow {
            count: 1,
            value: Decimal { mantissa: 0, scale: 0 },
            orange: i64::MAX,
            red: i64::MAX,
        }),
        overdue: Some(0),
        repairs: Some(0),
        daily_created: Some(vec![]),
        daily_completed: Some(vec![]),
        statuses: Some(vec![]),
    };
    let d = day(2026, 1, 1);
    assert_eq!(value(StatisticsService::overview(d, d, &f)).delivery_performance.on_time, 0);
}

fn pickup(worker_id: i64, count: i64) -> WorkerPickupRow {
    WorkerPickupRow {
        worker_id,
        work_type_id: None,
        pickup_count: count,
        pickup_quantity: 10 * count,
        participated_part_count: count,
    }
}

#[test]
fn every_worker_gets_a_line() {
    let q = DateRangeQuery { date_from: day(2026, 2, 1), date_to: day(2026, 2, 3) };
    let who = user(Role::Manager);
    let mut f: WorkerStatsFacts<f64> =
        WorkerStatsFacts { workers: None, work_types: None, rows: None, contributions: None };
    assert!(matches!(
        ask(handler::worker_stats(&who, &q, &f)),
        StatAsk::Workers { limit: 1000, offset: 0 }
    ));
    f.workers = Some(vec![worker(1, Some(5)), worker(2, Some(5)), worker(3, None)]);
    match ask(handler::worker_stats(&who, &q, &f)) {
        StatAsk::WorkTypesByIds { ids } => assert_eq!(ids, vec![5]),
        _ => panic!("work types were to be looked up"),
    }
    f.work_types = Some(vec![work_type(5, "turner")]);
    assert!(matches!(ask(handler::worker_stats(&who, &q, &f)), StatAsk::PickupRows { .. }));
    f.rows = Some(vec![pickup(2, 4)]);
    match ask(handler::worker_stats(&who, &q, &f)) {
        StatAsk::Contributions { rows } => assert_eq!(rows, vec![pickup(2, 4)]),
        _ => panic!("shares were to be computed"),
    }
    f.contributions = Some(vec![(2, Some(0.5)), (1, None)]);
    let out = value(handler::worker_stats(&who, &q, &f));
    assert_eq!(out.items.len(), 3);
    assert_eq!(out.items[0].pickup_count, 0);
    assert_eq!(out.items[0].work_type_name.as_deref(), Some("turner"));
    assert_eq!((out.items[1].pickup_count, out.items[1].pickup_quantity), (4, 40));
    assert_eq!(out.items[1].contribution_pct, Some(0.5));
    assert!(out.items[2].contribution_pct.is_none());
}

#[test]
fn one_worker_is_told_of() {
    let q = DateRangeQuery { date_from: day(2026, 2, 1), date_to: day(2026, 2, 2) };
    let who = user(Role::Manager);
    let mut f = WorkerDetailFacts {
        worker: None,
        work_type: None,
        events: None,
        daily: None,
        parts: None,
    };
    assert_eq!(
        error(handler::worker_detail(&who, "x", &q, &f)).code(),
        ErrorCode::BizInvalidValue
    );
    assert!(matches!(
        ask(handler::worker_detail(&who, "9", &q, &f)),
        StatAsk::Worker { id: 9 }
    ));
    f.worker = Some(None);
    let e = error(handler::worker_detail(&who, "009", &q, &f));
    assert_eq!(e.code(), ErrorCode::BizWorkerNotFound);
    assert_eq!(e.message, "worker 009 不存在或已软删");
    f.worker = Some(Some(worker(9, Some(5))));
    assert!(matches!(
        ask(handler::worker_detail(&who, "9", &q, &f)),
        StatAsk::WorkType { id: 5 }
    ));
    f.work_type = Some(Some(work_type(5, "turner")));
    f.events =
        Some(WorkerEventsRow { pickup_count: 3, pickup_quantity: 30, return_count: 1 });
    f.daily = Some(vec![(day(2026, 2, 2), 3)]);
    f.parts = Some(vec![part(1), part(2), part(1)]);
    let out = value(handler::worker_detail(&who, "9", &q, &f));
    assert_eq!(out.participated_part_count, 2);
    assert_eq!(out.parts.len(), 3);
    assert_eq!(out.daily_pickups.len(), 2);
    assert_eq!(out.worker.work_type_name.as_deref(), Some("turner"));
    assert_eq!((out.pickup_count, out.pickup_quantity, out.return_count), (3, 30, 1));
}

#[test]
fn deleted_parts_count_and_are_not_listed() {
    let q = DateRangeQuery { date_from: day(2026, 2, 1), date_to: day(2026, 2, 2) };
    let mut deleted = part(2);
    deleted.is_live = false;
    let f = WorkerDetailFacts {
        worker: Some(Some(worker(9, None))),
        work_type: None,
        events: Some(WorkerEventsRow { pickup_count: 3, pickup_quantity: 30, return_count: 0 }),
        daily: Some(vec![]),
        parts: Some(vec![deleted, part(1)]),
    };
    let out = value(handler::worker_detail(&user(Role::Manager), "9", &q, &f));
    assert_eq!(out.participated_part_count, 2);
    assert_eq!(out.parts.len(), 1);
    assert_eq!(out.parts[0].part_id, 1);
}

#[test]
fn batches_taken_out_of_turn_are_listed() {
    let who = user(Role::Manager);
    assert!(matches!(ask(handler::pickup_skip_summary(&who, &None)), StatAsk::SkipSummary));
    let rows = Some(vec![PickupSkipSummaryRow {
        worker_id: 1,
        worker_name: "w".to_string(),
        badge_code: "b".to_string(),
        work_type_name: None,
        skip_count: 4,
        last_skip_at: None,
    }]);
    assert_eq!(value(handler::pickup_skip_summary(&who, &rows)).items[0].skip_count, 4);
    assert_eq!(
        error(handler::pickup_skip_summary(&user(Role::Inspector), &rows)).code(),
        ErrorCode::Forbidden
    );
}

#[test]
fn pages_of_skips_have_bounds() {
    let who = user(Role::Manager);
    let mut f = SkipDetailFacts { rows: None, total: None };
    let plain = PickupSkipDetailQuery { limit: None, offset: None };
    assert!(matches!(
        ask(handler::pickup_skip_detail(&who, "4", &plain, &f)),
        StatAsk::SkipDetail { worker_id: 4, limit: 50, offset: 0 }
    ));
    let wide = PickupSkipDetailQuery { limit: Some(1000), offset: Some(-3) };
    assert!(matches!(
        ask(handler::pickup_skip_detail(&who, "4", &wide, &f)),
        StatAsk::SkipDetail { worker_id: 4, limit: 200, offset: 0 }
    ));
    f.rows = Some(vec![PickupSkipDetailRow {
        id: 1,
        part_id: 2,
        serial_no: None,
        part_name: "p".to_string(),
        batch_no: 3,
        quantity: 4,
        part_planned_delivery_date: None,
        skipped_earliest_date: Some(day(2026, 1, 1)),
        created_at: noon(day(2026, 1, 2)),
    }]);
    assert!(matches!(
        ask(handler::pickup_skip_detail(&who, "4", &wide, &f)),
        StatAsk::SkipDetailCount { worker_id: 4 }
    ));
    f.total = Some(77);
    let out = value(handler::pickup_skip_detail(&who, "4", &wide, &f));
    assert_eq!((out.total, out.limit, out.offset), (77, 200, 0));
    assert_eq!(out.items[0].skipped_earliest_date, Some(day(2026, 1, 1)));
}
