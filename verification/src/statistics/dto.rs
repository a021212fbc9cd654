//! Requests and answers of the statistics.
use crate::calendar::{Date, DateTime, Decimal};
use crate::text::copy_opt;
use vstd::prelude::*;

verus! {

/// The days from one to another, both of them counted.
#[derive(Debug, Clone, Copy, PartialEq, Eq, Structural)]
pub struct DateRangeQuery {
    pub date_from: Date,
    pub date_to: Date,
}

#[derive(Debug, Clone, Copy, PartialEq, Eq, Structural)]
pub struct PickupSkipDetailQuery {
    pub limit: Option<i64>,
    pub offset: Option<i64>,
}

#[derive(Debug, Clone, Copy, PartialEq, Eq, Structural)]
pub struct DayCount {
    pub date: Date,
    pub count: i64,
}

/// Deliveries: on time, after the planned day, and after the last day.
#[derive(Debug, Clone, Copy, PartialEq, Eq, Structural)]
pub struct DeliveryPerformance {
    pub on_time: i64,
    pub orange: i64,
    pub red: i64,
}

#[derive(Debug)]
pub struct StatusCount {
    pub status_value: String,
    pub count: i64,
}

impl Clone for StatusCount {
    fn clone(&self) -> (r: Self)
        ensures
            r == *self,
    {
        StatusCount {
            status_value: self.status_value.clone(),
            count: self.count,
        }
    }
}

#[derive(Debug, Clone)]
pub struct OverviewOut {
    pub date_from: Date,
    pub date_to: Date,
    pub created_count: i64,
    pub completed_count: i64,
    pub in_process_count: i64,
    pub delivered_count: i64,
    pub delivered_value: Decimal,
    pub late_orange_count: i64,
    pub late_red_count: i64,
    pub overdue_undelivered_count: i64,
    pub repair_part_count: i64,
    pub daily_created: Vec<DayCount>,
    pub daily_completed: Vec<DayCount>,
    pub delivery_performance: DeliveryPerformance,
    pub status_distribution: Vec<StatusCount>,
}

/// What a worker did. The share of the whole is a number of the caller's kind.
#[derive(Debug, Clone)]
pub struct WorkerStatsItem<C> {
    pub worker_id: i64,
    pub worker_name: String,
    pub badge_code: String,
    pub work_type_id: Option<i64>,
    pub work_type_name: Option<String>,
    pub is_active: bool,
    pub pickup_count: i64,
    pub pickup_quantity: i64,
    pub participated_part_count: i64,
    pub contribution_pct: Option<C>,
}

#[derive(Debug, Clone)]
pub struct WorkerStatsListOut<C> {
    pub items: Vec<WorkerStatsItem<C>>,
}

#[derive(Debug)]
pub struct WorkerBrief {
    pub id: i64,
    pub name: String,
    pub badge_code: String,
    pub work_type_name: Option<String>,
    pub is_active: bool,
}

impl Clone for WorkerBrief {
    fn clone(&self) -> (r: Self)
        ensures
            r == *self,
    {
        WorkerBrief {
            id: self.id,
            name: self.name.clone(),
            badge_code: self.badge_code.clone(),
            work_type_name: copy_opt(&self.work_type_name),
            is_active: self.is_active,
        }
    }
}

#[derive(Debug)]
pub struct WorkerPartItem {
    pub part_id: i64,
    pub serial_no: Option<String>,
    pub name: String,
    pub drawing_no: String,
    pub status: String,
    pub pickup_count: i64,
    pub last_pickup_at: DateTime,
}

impl Clone for WorkerPartItem {
    fn clone(&self) -> (r: Self)
        ensures
            r == *self,
    {
        WorkerPartItem {
            part_id: self.part_id,
            serial_no: copy_opt(&self.serial_no),
            name: self.name.clone(),
            drawing_no: self.drawing_no.clone(),
            status: self.status.clone(),
            pickup_count: self.pickup_count,
            last_pickup_at: self.last_pickup_at,
        }
    }
}

#[derive(Debug, Clone)]
pub struct WorkerDetailOut {
    pub worker: WorkerBrief,
    pub pickup_count: i64,
    pub pickup_quantity: i64,
    pub participated_part_count: i64,
    pub return_count: i64,
    pub daily_pickups: Vec<DayCount>,
    pub parts: Vec<WorkerPartItem>,
}

#[derive(Debug)]
pub struct PickupSkipSummaryItem {
    pub worker_id: i64,
    pub worker_name: String,
    pub badge_code: String,
    pub work_type_name: Option<String>,
    pub skip_count: i64,
    pub last_skip_at: Option<DateTime>,
}

impl Clone for PickupSkipSummaryItem {
    fn clone(&self) -> (r: Self)
        ensures
            r == *self,
    {
        PickupSkipSummaryItem {
            worker_id: self.worker_id,
            worker_name: self.worker_name.clone(),
            badge_code: self.badge_code.clone(),
            work_type_name: copy_opt(&self.work_type_name),
            skip_count: self.skip_count,
            last_skip_at: self.last_skip_at,
        }
    }
}

#[derive(Debug, Clone)]
pub struct PickupSkipSummaryOut {
    pub items: Vec<PickupSkipSummaryItem>,
}

#[derive(Debug)]
pub struct PickupSkipDetailItem {
    pub id: i64,
    pub part_id: i64,
    pub serial_no: Option<String>,
    pub part_name: String,
    pub batch_no: i32,
    pub quantity: i32,
    pub part_planned_delivery_date: Option<Date>,
    pub skipped_earliest_date: Option<Date>,
    pub created_at: DateTime,
}

impl Clone for PickupSkipDetailItem {
    fn clone(&self) -> (r: Self)
        ensures
            r == *self,
    {
        PickupSkipDetailItem {
            id: self.id,
            part_id: self.part_id,
            serial_no: copy_opt(&self.serial_no),
            part_name: self.part_name.clone(),
            batch_no: self.batch_no,
            quantity: self.quantity,
            part_planned_delivery_date: self.part_planned_delivery_date,
            skipped_earliest_date: self.skipped_earliest_date,
            created_at: self.created_at,
        }
    }
}

#[derive(Debug, Clone)]
pub struct PickupSkipDetailOut {
    pub items: Vec<PickupSkipDetailItem>,
    pub total: i64,
    pub limit: i64,
    pub offset: i64,
}

} // verus!
