//! Rows of the pool as the database gives them.
use super::dto::PoolBatchItem;
use crate::calendar::Date;
use crate::text::{copy_opt, join3, opt_view};
use vstd::prelude::*;

verus! {

/// A waiting batch as the database gives it.
#[derive(Debug, Clone)]
pub struct CandidateRow {
    pub batch_id: i64,
    pub part_id: i64,
    pub batch_no: i32,
    pub quantity: i32,
    pub location: String,
    pub batch_version: i32,
    pub serial_no: Option<String>,
    pub name: String,
    pub drawing_no: String,
    pub system_delivery_date: Option<Date>,
    pub is_urgent: bool,
    pub note: Option<String>,
    pub applicant_name: Option<String>,
    pub customer_name: Option<String>,
    pub parent_customer_name: Option<String>,
    pub shelf_id: i64,
    pub shelf_code: String,
    pub shelf_name: String,
}

/// The path of a customer: below its group, where it has one.
pub open spec fn path_of(parent: Option<String>, leaf: Option<String>) -> Option<Seq<char>> {
    match (parent, leaf) {
        (Some(p), Some(l)) => Some(p@ + " / "@ + l@),
        (None, Some(l)) => Some(l@),
        (_, None) => None,
    }
}

/// The path of a customer: below its group, where it has one.
pub fn customer_path(parent: &Option<String>, leaf: &Option<String>) -> (r: Option<String>)
    ensures
        opt_view(r) == path_of(*parent, *leaf),
{
    match (parent, leaf) {
        (Some(p), Some(l)) => Some(join3(p.as_str(), " / ", l.as_str())),
        (None, Some(l)) => Some(l.clone()),
        (_, None) => None,
    }
}

/// `item` shows the row, with the path of its customer.
pub open spec fn shows_candidate(item: PoolBatchItem, r: CandidateRow) -> bool {
    &&& opt_view(item.customer_path) == path_of(r.parent_customer_name, r.customer_name)
    &&& item == PoolBatchItem {
        batch_id: r.batch_id,
        part_id: r.part_id,
        batch_no: r.batch_no,
        quantity: r.quantity,
        serial_no: r.serial_no,
        name: r.name,
        drawing_no: r.drawing_no,
        system_delivery_date: r.system_delivery_date,
        customer_name: r.customer_name,
        parent_customer_name: r.parent_customer_name,
        customer_path: item.customer_path,
        applicant_name: r.applicant_name,
        location: r.location,
        shelf_id: r.shelf_id,
        shelf_code: r.shelf_code,
        shelf_name: r.shelf_name,
        is_urgent: r.is_urgent,
        note: r.note,
        version: r.batch_version,
    }
}

pub struct WorkerPoolRepo;

impl WorkerPoolRepo {
    /// The waiting batches as they are shown, in the order of the rows.
    pub fn list_candidates_by_process_all_shelves(rows: Vec<CandidateRow>) -> (r: Vec<
        PoolBatchItem,
    >)
        ensures
            r@.len() == rows@.len(),
            forall|i: int| 0 <= i < rows@.len() ==> shows_candidate(#[trigger] r@[i], rows@[i]),
    {
        let mut out: Vec<PoolBatchItem> = Vec::new();
        let mut i: usize = 0;
        while i < rows.len()
            invariant
                i <= rows@.len(),
                out@.len() == i,
                forall|j: int| 0 <= j < i ==> shows_candidate(#[trigger] out@[j], rows@[j]),
            decreases rows@.len() - i,
        {
            let r = &rows[i];
            let item = PoolBatchItem {
                batch_id: r.batch_id,
                part_id: r.part_id,
                batch_no: r.batch_no,
                quantity: r.quantity,
                serial_no: copy_opt(&r.serial_no),
                name: r.name.clone(),
                drawing_no: r.drawing_no.clone(),
                system_delivery_date: r.system_delivery_date,
                customer_name: copy_opt(&r.customer_name),
                parent_customer_name: copy_opt(&r.parent_customer_name),
                customer_path: customer_path(&r.parent_customer_name, &r.customer_name),
                applicant_name: copy_opt(&r.applicant_name),
                location: r.location.clone(),
                shelf_id: r.shelf_id,
                shelf_code: r.shelf_code.clone(),
                shelf_name: r.shelf_name.clone(),
                is_urgent: r.is_urgent,
                note: copy_opt(&r.note),
                version: r.batch_version,
            };
            out.push(item);
            i = i + 1;
        }
        out
    }
}

} // verus!
