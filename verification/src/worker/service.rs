//! The endpoints on workers.
use super::dto::{
    WorkerCreateRequest, WorkerListOut, WorkerListQuery, WorkerOut, WorkerUpdateRequest,
};
use super::model::TWorker;
use super::repo::{WorkerInsert, WorkerPatch};
use crate::auth::{forbidden_text, CurrentUser, Role};
use crate::error::{
    conflict_text, unique_violation, version_conflict, AppError, DbFault, ErrorCode, Problem,
};
use crate::flow::Next;
use crate::paging::{limit_of, offset_of, page_limit, page_offset};
use crate::patch::{change_required, change_text, is_blank, text_change, trimmed_opt};
use crate::text::{
    copy_opt, decimal, id_text, join3, keep_non_blank, non_blank, opt_view, parse_i64, parsed_i64,
    trim, trimmed,
};
use crate::work_type::model::TWorkType;
use vstd::prelude::*;
use vstd::string::*;

verus! {

/// What an endpoint on workers asks for.
pub enum WorkerAsk {
    /// A worker by id; deleted ones too, where that is said.
    ById { id: i64, include_deleted: bool },
    /// The worker that is about to be changed; deleted ones too, where that is
    /// said.
    ToChange { id: i64, include_deleted: bool },
    /// A worker by badge; deleted ones too, where that is said.
    ByBadge { badge_code: String, with_deleted: bool },
    List { name_like: Option<String>, is_active: Option<bool>, limit: i64, offset: i64 },
    Count { name_like: Option<String>, is_active: Option<bool> },
    WorkTypesByIds { ids: Vec<i64> },
    WorkType { id: i64 },
    /// The work type that a request names.
    RequestedType { id: i64 },
    NewId,
    Create { insert: WorkerInsert },
    /// Changing a worker of this version; the number of rows that changed.
    Update { id: i64, version: i32, patch: WorkerPatch, updated_by: i64 },
    /// How many parts in work a worker holds.
    CountInUse { id: i64 },
    Deactivate { id: i64, version: i32, updated_by: i64 },
    Reactivate { id: i64, version: i32, updated_by: i64 },
}

// ---------------------------------------------------------------------------
// Small parts
// ---------------------------------------------------------------------------

/// The error about a worker that is not there.
pub fn worker_not_found() -> (r: AppError)
    ensures
        r.says(ErrorCode::BizWorkerNotFound, "工人不存在"@),
{
    AppError::biz(ErrorCode::BizWorkerNotFound, "工人不存在")
}

/// The error about a worker that is not active.
pub fn worker_inactive() -> (r: AppError)
    ensures
        r.says(ErrorCode::BizWorkerInactive, "工人已停用"@),
{
    AppError::biz(ErrorCode::BizWorkerInactive, "工人已停用")
}

/// The error about a work type that is not there.
pub fn work_type_not_found() -> (r: AppError)
    ensures
        r.says(ErrorCode::BizWorkTypeNotFound, "工种不存在"@),
{
    AppError::biz(ErrorCode::BizWorkTypeNotFound, "工种不存在")
}

/// A text without white space at its ends, where anything is left of it.
pub fn normalize_optional_str(s: &Option<String>) -> (r: Option<String>)
    ensures
        opt_view(r) == non_blank(opt_view(*s)),
{
    keep_non_blank(s)
}

/// A worker as the client gets it: the id of the work type as text, and its name.
pub open spec fn shows_worker(o: WorkerOut, w: TWorker, work_type_name: Option<String>) -> bool {
    &&& opt_view(o.work_type_id) == match w.work_type_id {
        Some(id) => Some(decimal(id as int)),
        None => None,
    }
    &&& o == WorkerOut {
        id: w.id,
        badge_code: w.badge_code,
        name: w.name,
        id_card_no: w.id_card_no,
        phone: w.phone,
        is_active: w.is_active,
        work_type_id: o.work_type_id,
        work_type_name,
        version: w.version,
        created_at: w.created_at,
        updated_at: w.updated_at,
    }
}

/// A worker as the client gets it.
pub fn to_worker_out(w: &TWorker, work_type_name: Option<String>) -> (o: WorkerOut)
    ensures
        shows_worker(o, *w, work_type_name),
{
    let work_type_id: Option<String> = match w.work_type_id {
        Some(id) => Some(id_text(id)),
        None => None,
    };
    WorkerOut {
        id: w.id,
        badge_code: w.badge_code.clone(),
        name: w.name.clone(),
        id_card_no: copy_opt(&w.id_card_no),
        phone: copy_opt(&w.phone),
        is_active: w.is_active,
        work_type_id,
        work_type_name,
        version: w.version,
        created_at: w.created_at,
        updated_at: w.updated_at,
    }
}

/// The name of the work type with an id; of two rows the later counts.
pub open spec fn name_of_type(rows: Seq<TWorkType>, id: i64) -> Option<String>
    decreases rows.len(),
{
    if rows.len() == 0 {
        None
    } else if rows.last().id == id {
        Some(rows.last().name)
    } else {
        name_of_type(rows.drop_last(), id)
    }
}

/// The name of the work type of a worker.
pub open spec fn name_for(rows: Seq<TWorkType>, w: TWorker) -> Option<String> {
    match w.work_type_id {
        Some(id) => name_of_type(rows, id),
        None => None,
    }
}

/// The name of the work type with an id; of two rows the later counts.
pub fn find_type_name(rows: &Vec<TWorkType>, id: i64) -> (r: Option<String>)
    ensures
        r == name_of_type(rows@, id),
{
    let mut k: usize = rows.len();
    assert(rows@.take(k as int) =~= rows@);
    while k > 0
        invariant
            k <= rows@.len(),
            name_of_type(rows@.take(k as int), id) == name_of_type(rows@, id),
        decreases k,
    {
        assert(rows@.take(k as int).last() == rows@[k - 1]);
        assert(rows@.take(k as int).drop_last() =~= rows@.take(k - 1));
        if rows[k - 1].id == id {
            return Some(rows[k - 1].name.clone());
        }
        k = k - 1;
    }
    None
}

/// The work types of some workers, in the order of the workers.
pub open spec fn types_of(rows: Seq<TWorker>) -> Seq<i64>
    decreases rows.len(),
{
    if rows.len() == 0 {
        Seq::empty()
    } else {
        match rows.last().work_type_id {
            Some(id) => types_of(rows.drop_last()).push(id),
            None => types_of(rows.drop_last()),
        }
    }
}

/// The work types of some workers, in the order of the workers.
pub fn collect_types(rows: &Vec<TWorker>) -> (r: Vec<i64>)
    ensures
        r@ == types_of(rows@),
{
    let mut out: Vec<i64> = Vec::new();
    let mut i: usize = 0;
    assert(rows@.take(0) =~= Seq::<TWorker>::empty());
    while i < rows.len()
        invariant
            i <= rows@.len(),
            out@ == types_of(rows@.take(i as int)),
        decreases rows@.len() - i,
    {
        assert(rows@.take(i + 1).drop_last() =~= rows@.take(i as int));
        if let Some(id) = rows[i].work_type_id {
            out.push(id);
        }
        i = i + 1;
    }
    assert(rows@.take(i as int) =~= rows@);
    out
}

/// How far the check of a work type that is given as text is.
pub enum TypeCheck {
    /// None is given.
    Unassigned,
    Refused(Problem),
    /// The work type has to be looked up.
    Ask(i64),
    /// The id of the work type.
    Found(i64),
}

/// The check of a work type that is given as text: blank is none, else a whole
/// number that is the id of a work type.
pub open spec fn type_check(
    raw: Option<String>,
    found: Option<Option<TWorkType>>,
) -> TypeCheck {
    match non_blank(opt_view(raw)) {
        None => TypeCheck::Unassigned,
        Some(t) => match parsed_i64(t) {
            None => TypeCheck::Refused((ErrorCode::BizInvalidValue, "work_type_id 非整数"@)),
            Some(id) => match found {
                None => TypeCheck::Ask(id),
                Some(None) => TypeCheck::Refused((ErrorCode::BizWorkTypeNotFound, "工种不存在"@)),
                Some(Some(wt)) => TypeCheck::Found(wt.id),
            },
        },
    }
}

/// The check of a work type, in code.
pub enum TypeAnswer {
    Unassigned,
    Refused(AppError),
    Ask(i64),
    Found(i64),
}

/// Checks a work type that is given as text.
pub fn resolve_work_type_id(raw: &Option<String>, found: &Option<Option<TWorkType>>) -> (r:
    TypeAnswer)
    ensures
        match type_check(*raw, *found) {
            TypeCheck::Unassigned => r is Unassigned,
            TypeCheck::Refused(p) => r matches TypeAnswer::Refused(e) && e.says(p.0, p.1),
            TypeCheck::Ask(id) => r == TypeAnswer::Ask(id),
            TypeCheck::Found(id) => r == TypeAnswer::Found(id),
        },
{
    let kept = keep_non_blank(raw);
    let trimmed_text = match &kept {
        None => {
            return TypeAnswer::Unassigned;
        },
        Some(t) => t,
    };
    match parse_i64(trimmed_text.as_str()) {
        None => TypeAnswer::Refused(
            AppError::biz(ErrorCode::BizInvalidValue, "work_type_id 非整数"),
        ),
        Some(id) => match found {
            None => TypeAnswer::Ask(id),
            Some(None) => TypeAnswer::Refused(work_type_not_found()),
            Some(Some(wt)) => TypeAnswer::Found(wt.id),
        },
    }
}

/// The error of a refused write of a worker.
pub open spec fn write_problem(fault: DbFault, e: AppError) -> bool {
    if fault.has_state(unique_violation()) {
        e.says(ErrorCode::VersionConflict, "badge_code 或 id_card_no 已存在"@)
    } else {
        e == fault.error
    }
}

fn write_failed(fault: &DbFault) -> (r: AppError)
    ensures
        write_problem(*fault, r),
{
    if fault.is_state("23505") {
        AppError::biz(ErrorCode::VersionConflict, "badge_code 或 id_card_no 已存在")
    } else {
        fault.error.copy()
    }
}

// ---------------------------------------------------------------------------
// The endpoints
// ---------------------------------------------------------------------------

pub struct WorkerService;

/// How a badge is verified. A worker who was deactivated is told from one who is
/// not there.
pub open spec fn verifies_badge(
    badge_code: Seq<char>,
    found: Option<Option<TWorker>>,
    n: Next<WorkerAsk, WorkerOut>,
) -> bool {
    if trimmed(badge_code).len() == 0 {
        n.fails(ErrorCode::BizWorkerNotFound, "工人不存在"@)
    } else {
        match found {
            None => n matches Next::Ask(WorkerAsk::ByBadge { badge_code: b, with_deleted }) && b@
                == trimmed(badge_code) && with_deleted,
            Some(None) => n.fails(ErrorCode::BizWorkerNotFound, "工人不存在"@),
            Some(Some(w)) => if !w.is_active {
                n.fails(ErrorCode::BizWorkerInactive, "工人已停用"@)
            } else {
                n matches Next::Done(Ok(out)) && shows_worker(out, w, None)
            },
        }
    }
}

/// What is known while workers are listed.
pub struct ListWorkersFacts {
    pub rows: Option<Vec<TWorker>>,
    pub total: Option<i64>,
    pub work_types: Option<Vec<TWorkType>>,
}

/// The work types to be looked up for a list: none are where there are none.
pub open spec fn types_known(
    rows: Seq<TWorker>,
    work_types: Option<Vec<TWorkType>>,
) -> Option<Seq<TWorkType>> {
    if types_of(rows).len() == 0 {
        Some(Seq::empty())
    } else {
        match work_types {
            Some(wts) => Some(wts@),
            None => None,
        }
    }
}

/// How workers are listed.
pub open spec fn lists_workers(
    query: WorkerListQuery,
    user: CurrentUser,
    f: ListWorkersFacts,
    n: Next<WorkerAsk, WorkerListOut>,
) -> bool {
    let like = non_blank(opt_view(query.name_like));
    let limit = page_limit(query.limit);
    let offset = page_offset(query.offset);
    if !user.is(Role::Manager) {
        n.fails(ErrorCode::Forbidden, forbidden_text())
    } else {
        match (f.rows, f.total) {
            (None, _) => n matches Next::Ask(
                WorkerAsk::List { name_like, is_active, limit: lim, offset: off },
            ) && opt_view(name_like) == like && is_active == query.is_active && lim == limit && off
                == offset,
            (Some(_), None) => n matches Next::Ask(WorkerAsk::Count { name_like, is_active })
                && opt_view(name_like) == like && is_active == query.is_active,
            (Some(rows), Some(total)) => match types_known(rows@, f.work_types) {
                None => n matches Next::Ask(WorkerAsk::WorkTypesByIds { ids }) && ids@ == types_of(
                    rows@,
                ),
                Some(types) => {
                    &&& n matches Next::Done(Ok(out))
                    &&& out.total == total
                    &&& out.limit == limit
                    &&& out.offset == offset
                    &&& out.items@.len() == rows@.len()
                    &&& forall|i: int|
                        0 <= i < rows@.len() ==> shows_worker(
                            #[trigger] out.items@[i],
                            rows@[i],
                            name_for(types, rows@[i]),
                        )
                },
            },
        }
    }
}

/// What is known while one worker is read.
pub struct GetWorkerFacts {
    pub worker: Option<Option<TWorker>>,
    pub work_type: Option<Option<TWorkType>>,
}

/// How a worker that was found is told of, with the name of the work type.
pub open spec fn tells_worker(
    w: TWorker,
    work_type: Option<Option<TWorkType>>,
    n: Next<WorkerAsk, WorkerOut>,
) -> bool {
    match (w.work_type_id, work_type) {
        (None, _) => n matches Next::Done(Ok(out)) && shows_worker(out, w, None),
        (Some(id), None) => n.asks(WorkerAsk::WorkType { id }),
        (Some(_), Some(None)) => n matches Next::Done(Ok(out)) && shows_worker(out, w, None),
        (Some(_), Some(Some(wt))) => n matches Next::Done(Ok(out)) && shows_worker(
            out,
            w,
            Some(wt.name),
        ),
    }
}

/// How one worker is read.
pub open spec fn gets_worker(
    id: i64,
    user: CurrentUser,
    f: GetWorkerFacts,
    n: Next<WorkerAsk, WorkerOut>,
) -> bool {
    if !user.is(Role::Manager) {
        n.fails(ErrorCode::Forbidden, forbidden_text())
    } else {
        match f.worker {
            None => n.asks(WorkerAsk::ById { id, include_deleted: false }),
            Some(None) => n.fails(ErrorCode::BizWorkerNotFound, "工人不存在"@),
            Some(Some(w)) => tells_worker(w, f.work_type, n),
        }
    }
}

fn tell_worker(w: &TWorker, work_type: &Option<Option<TWorkType>>) -> (n: Next<
    WorkerAsk,
    WorkerOut,
>)
    ensures
        tells_worker(*w, *work_type, n),
{
    match w.work_type_id {
        None => Next::Done(Ok(to_worker_out(w, None))),
        Some(id) => match work_type {
            None => Next::Ask(WorkerAsk::WorkType { id }),
            Some(None) => Next::Done(Ok(to_worker_out(w, None))),
            Some(Some(wt)) => Next::Done(Ok(to_worker_out(w, Some(wt.name.clone())))),
        },
    }
}

/// What is known while a worker is created.
pub struct CreateWorkerFacts {
    /// The worker who has the badge already.
    pub holder: Option<Option<TWorker>>,
    pub asked_type: Option<Option<TWorkType>>,
    pub id: Option<i64>,
    pub created: Option<Result<TWorker, DbFault>>,
    /// The work type of the worker that was stored.
    pub work_type: Option<Option<TWorkType>>,
}

/// The worker to be stored.
pub open spec fn inserts_worker(
    insert: WorkerInsert,
    req: WorkerCreateRequest,
    id: i64,
    work_type_id: Option<i64>,
    by: i64,
) -> bool {
    &&& insert.id == id
    &&& insert.badge_code@ == trimmed(req.badge_code@)
    &&& insert.name@ == trimmed(req.name@)
    &&& opt_view(insert.id_card_no) == non_blank(opt_view(req.id_card_no))
    &&& opt_view(insert.phone) == non_blank(opt_view(req.phone))
    &&& insert.work_type_id == work_type_id
    &&& insert.created_by == by
}

/// How a worker is stored and told of, once the request is in order.
pub open spec fn writes_worker(
    req: WorkerCreateRequest,
    work_type_id: Option<i64>,
    by: i64,
    f: CreateWorkerFacts,
    n: Next<WorkerAsk, WorkerOut>,
) -> bool {
    match (f.id, f.created) {
        (None, _) => n.asks(WorkerAsk::NewId),
        (Some(id), None) => n matches Next::Ask(WorkerAsk::Create { insert }) && inserts_worker(
            insert,
            req,
            id,
            work_type_id,
            by,
        ),
        (Some(_), Some(Err(fault))) => n matches Next::Done(Err(e)) && write_problem(fault, e),
        (Some(_), Some(Ok(w))) => tells_worker(w, f.work_type, n),
    }
}

/// How a worker is created.
pub open spec fn creates_worker(
    req: WorkerCreateRequest,
    user: CurrentUser,
    f: CreateWorkerFacts,
    n: Next<WorkerAsk, WorkerOut>,
) -> bool {
    let badge = trimmed(req.badge_code@);
    if !user.is(Role::Manager) {
        n.fails(ErrorCode::Forbidden, forbidden_text())
    } else if badge.len() == 0 {
        n.fails(ErrorCode::BizInvalidValue, "badge_code 不能为空"@)
    } else if trimmed(req.name@).len() == 0 {
        n.fails(ErrorCode::BizInvalidValue, "name 不能为空"@)
    } else {
        match f.holder {
            None => n matches Next::Ask(WorkerAsk::ByBadge { badge_code, with_deleted })
                && badge_code@ == badge && !with_deleted,
            Some(Some(_)) => n.fails(
                ErrorCode::VersionConflict,
                "badge_code '"@ + badge + "' 已被占用"@,
            ),
            Some(None) => match type_check(req.work_type_id, f.asked_type) {
                TypeCheck::Refused(p) => n.fails(p.0, p.1),
                TypeCheck::Ask(id) => n.asks(WorkerAsk::RequestedType { id }),
                TypeCheck::Unassigned => writes_worker(req, None, user.id, f, n),
                TypeCheck::Found(id) => writes_worker(req, Some(id), user.id, f, n),
            },
        }
    }
}

/// What is known while a worker is changed.
pub struct UpdateWorkerFacts {
    pub current: Option<Option<TWorker>>,
    pub asked_type: Option<Option<TWorkType>>,
    pub affected: Option<Result<u64, DbFault>>,
    pub worker: Option<Option<TWorker>>,
    pub work_type: Option<Option<TWorkType>>,
}

/// How far the change of a work type is: left alone, cleared, refused, to be
/// looked up, or another one.
pub enum TypeChange {
    Decided(bool, Option<i64>),
    Refused(Problem),
    Ask(i64),
}

/// The change of a work type. A blank text is refused: clearing it is said by
/// `None`.
pub open spec fn type_change(
    change: Option<Option<String>>,
    found: Option<Option<TWorkType>>,
) -> TypeChange {
    match change {
        None => TypeChange::Decided(false, None),
        Some(None) => TypeChange::Decided(true, None),
        Some(Some(raw)) => match type_check(Some(raw), found) {
            TypeCheck::Unassigned => TypeChange::Refused(
                (ErrorCode::BizInvalidValue, "work_type_id 非整数"@),
            ),
            TypeCheck::Refused(p) => TypeChange::Refused(p),
            TypeCheck::Ask(id) => TypeChange::Ask(id),
            TypeCheck::Found(id) => TypeChange::Decided(true, Some(id)),
        },
    }
}

/// What of a worker is changed.
pub open spec fn patches_worker(
    patch: WorkerPatch,
    req: WorkerUpdateRequest,
    set_type: bool,
    new_type: Option<i64>,
) -> bool {
    &&& opt_view(patch.name) == trimmed_opt(req.name)
    &&& opt_view(patch.badge_code) == trimmed_opt(req.badge_code)
    &&& (patch.set_id_card_no, opt_view(patch.id_card_no)) == text_change(req.id_card_no)
    &&& (patch.set_phone, opt_view(patch.phone)) == text_change(req.phone)
    &&& patch.set_work_type_id == set_type
    &&& patch.work_type_id == new_type
}

/// How a worker is changed.
pub open spec fn updates_worker(
    id: i64,
    req: WorkerUpdateRequest,
    user: CurrentUser,
    f: UpdateWorkerFacts,
    n: Next<WorkerAsk, WorkerOut>,
) -> bool {
    if !user.is(Role::Manager) {
        n.fails(ErrorCode::Forbidden, forbidden_text())
    } else {
        match f.current {
            None => n.asks(WorkerAsk::ToChange { id, include_deleted: false }),
            Some(None) => n.fails(ErrorCode::BizWorkerNotFound, "工人不存在"@),
            Some(Some(current)) => if is_blank(req.name) {
                n.fails(ErrorCode::BizInvalidValue, "name 不能为空"@)
            } else if is_blank(req.badge_code) {
                n.fails(ErrorCode::BizInvalidValue, "badge_code 不能为空"@)
            } else {
                match type_change(req.work_type_id, f.asked_type) {
                    TypeChange::Refused(p) => n.fails(p.0, p.1),
                    TypeChange::Ask(wt) => n.asks(WorkerAsk::RequestedType { id: wt }),
                    TypeChange::Decided(set_type, new_type) => match f.affected {
                        None => n matches Next::Ask(
                            WorkerAsk::Update { id: i, version, patch, updated_by },
                        ) && i == id && version == current.version && updated_by == user.id
                            && patches_worker(patch, req, set_type, new_type),
                        Some(Err(fault)) => n matches Next::Done(Err(e)) && write_problem(
                            fault,
                            e,
                        ),
                        Some(Ok(rows)) => if rows == 0 {
                            n.fails(ErrorCode::VersionConflict, conflict_text())
                        } else {
                            gets_worker(
                                id,
                                user,
                                GetWorkerFacts { worker: f.worker, work_type: f.work_type },
                                n,
                            )
                        },
                    },
                }
            },
        }
    }
}

/// What is known while a worker is deactivated.
pub struct DeactivateWorkerFacts {
    pub current: Option<Option<TWorker>>,
    pub in_use: Option<i64>,
    pub affected: Option<u64>,
}

/// The message about a worker who still holds parts in work.
pub open spec fn worker_in_use_text(w: TWorker, in_use: i64) -> Seq<char> {
    "工人 "@ + decimal(w.id as int) + " (badge="@ + w.badge_code@ + ") 仍被 "@ + decimal(
        in_use as int,
    ) + " 个 IN_PROCESS/INSPECTION/REPAIRING/RETURNED 零件引用，无法停用"@
}

/// How a worker is deactivated: only one who holds no part in work.
pub open spec fn deactivates_worker(
    id: i64,
    user: CurrentUser,
    f: DeactivateWorkerFacts,
    n: Next<WorkerAsk, ()>,
) -> bool {
    if !user.is(Role::Manager) {
        n.fails(ErrorCode::Forbidden, forbidden_text())
    } else {
        match (f.current, f.in_use, f.affected) {
            (None, _, _) => n.asks(WorkerAsk::ById { id, include_deleted: false }),
            (Some(None), _, _) => n.fails(ErrorCode::BizWorkerNotFound, "工人不存在"@),
            (Some(Some(_)), None, _) => n.asks(WorkerAsk::CountInUse { id }),
            (Some(Some(w)), Some(count), affected) => if count > 0 {
                n.fails(ErrorCode::BizWorkerInUse, worker_in_use_text(w, count))
            } else {
                match affected {
                    None => n.asks(
                        WorkerAsk::Deactivate { id, version: w.version, updated_by: user.id },
                    ),
                    Some(rows) => if rows == 0 {
                        n.fails(ErrorCode::VersionConflict, conflict_text())
                    } else {
                        n.succeeds(())
                    },
                }
            },
        }
    }
}

/// What is known while a worker is activated again.
pub struct ReactivateWorkerFacts {
    pub current: Option<Option<TWorker>>,
    pub affected: Option<u64>,
    pub worker: Option<Option<TWorker>>,
    pub work_type: Option<Option<TWorkType>>,
}

/// How a worker is activated again.
pub open spec fn reactivates_worker(
    id: i64,
    user: CurrentUser,
    f: ReactivateWorkerFacts,
    n: Next<WorkerAsk, WorkerOut>,
) -> bool {
    if !user.is(Role::Manager) {
        n.fails(ErrorCode::Forbidden, forbidden_text())
    } else {
        match (f.current, f.affected) {
            (None, _) => n.asks(WorkerAsk::ToChange { id, include_deleted: true }),
            (Some(None), _) => n.fails(ErrorCode::BizWorkerNotFound, "工人不存在"@),
            (Some(Some(w)), None) => n.asks(
                WorkerAsk::Reactivate { id, version: w.version, updated_by: user.id },
            ),
            (Some(Some(_)), Some(rows)) => if rows == 0 {
                n.fails(ErrorCode::BizInvalidValue, "工人已是激活状态，无需重启"@)
            } else {
                gets_worker(
                    id,
                    user,
                    GetWorkerFacts { worker: f.worker, work_type: f.work_type },
                    n,
                )
            },
        }
    }
}

/// The change of a work type, in code.
enum TypeStep {
    Decided(bool, Option<i64>),
    Refused(AppError),
    Ask(i64),
}

fn change_type(change: &Option<Option<String>>, found: &Option<Option<TWorkType>>) -> (r: TypeStep)
    ensures
        match type_change(*change, *found) {
            TypeChange::Decided(s, t) => r == TypeStep::Decided(s, t),
            TypeChange::Refused(p) => r matches TypeStep::Refused(e) && e.says(p.0, p.1),
            TypeChange::Ask(id) => r == TypeStep::Ask(id),
        },
{
    match change {
        None => TypeStep::Decided(false, None),
        Some(raw) => if raw.is_none() {
            TypeStep::Decided(true, None)
        } else {
            match resolve_work_type_id(raw, found) {
                TypeAnswer::Unassigned => TypeStep::Refused(
                    AppError::biz(ErrorCode::BizInvalidValue, "work_type_id 非整数"),
                ),
                TypeAnswer::Refused(e) => TypeStep::Refused(e),
                TypeAnswer::Ask(id) => TypeStep::Ask(id),
                TypeAnswer::Found(id) => TypeStep::Decided(true, Some(id)),
            }
        },
    }
}

impl WorkerService {
    /// The active worker with a badge.
    pub fn verify_badge(
        badge_code: &str,
        _user: &CurrentUser,
        found: &Option<Option<TWorker>>,
    ) -> (n: Next<WorkerAsk, WorkerOut>)
        ensures
            verifies_badge(badge_code@, *found, n),
    {
        let badge = trim(badge_code);
        if badge.is_empty() {
            return Next::Done(Err(worker_not_found()));
        }
        match found {
            None => Next::Ask(
                WorkerAsk::ByBadge { badge_code: badge.to_owned(), with_deleted: true },
            ),
            Some(None) => Next::Done(Err(worker_not_found())),
            Some(Some(w)) => if !w.is_active {
                Next::Done(Err(worker_inactive()))
            } else {
                Next::Done(Ok(to_worker_out(w, None)))
            },
        }
    }

    /// A page of workers with the names of their work types.
    pub fn list_workers(query: &WorkerListQuery, user: &CurrentUser, f: &ListWorkersFacts) -> (n:
        Next<WorkerAsk, WorkerListOut>)
        ensures
            lists_workers(*query, *user, *f, n),
    {
        match user.require_role(Role::Manager) {
            Err(e) => {
                return Next::Done(Err(e));
            },
            Ok(()) => {},
        }
        let limit: i64 = limit_of(query.limit);
        let offset: i64 = offset_of(query.offset);
        let name_like = keep_non_blank(&query.name_like);
        let rows = match &f.rows {
            None => {
                return Next::Ask(
                    WorkerAsk::List { name_like, is_active: query.is_active, limit, offset },
                );
            },
            Some(r) => r,
        };
        let total: i64 = match f.total {
            None => {
                return Next::Ask(WorkerAsk::Count { name_like, is_active: query.is_active });
            },
            Some(t) => t,
        };
        let ids: Vec<i64> = collect_types(rows);
        let none: Vec<TWorkType> = Vec::new();
        let types: &Vec<TWorkType> = if ids.len() == 0 {
            &none
        } else {
            match &f.work_types {
                None => {
                    return Next::Ask(WorkerAsk::WorkTypesByIds { ids });
                },
                Some(wts) => wts,
            }
        };
        assert(types_known(rows@, f.work_types) == Some(types@));
        let mut items: Vec<WorkerOut> = Vec::new();
        let mut i: usize = 0;
        while i < rows.len()
            invariant
                i <= rows@.len(),
                items@.len() == i,
                forall|j: int|
                    0 <= j < i ==> shows_worker(
                        #[trigger] items@[j],
                        rows@[j],
                        name_for(types@, rows@[j]),
                    ),
            decreases rows@.len() - i,
        {
            let name: Option<String> = match rows[i].work_type_id {
                Some(id) => find_type_name(types, id),
                None => None,
            };
            items.push(to_worker_out(&rows[i], name));
            i = i + 1;
        }
        Next::Done(Ok(WorkerListOut { items, total, limit, offset }))
    }

    /// One worker with the name of the work type.
    pub fn get_worker(id: i64, user: &CurrentUser, f: &GetWorkerFacts) -> (n: Next<
        WorkerAsk,
        WorkerOut,
    >)
        ensures
            gets_worker(id, *user, *f, n),
    {
        match user.require_role(Role::Manager) {
            Err(e) => {
                return Next::Done(Err(e));
            },
            Ok(()) => {},
        }
        Self::read_back(id, &f.worker, &f.work_type)
    }

    fn read_back(
        id: i64,
        worker: &Option<Option<TWorker>>,
        work_type: &Option<Option<TWorkType>>,
    ) -> (n: Next<WorkerAsk, WorkerOut>)
        ensures
            match *worker {
                None => n.asks(WorkerAsk::ById { id, include_deleted: false }),
                Some(None) => n.fails(ErrorCode::BizWorkerNotFound, "工人不存在"@),
                Some(Some(w)) => tells_worker(w, *work_type, n),
            },
    {
        match worker {
            None => Next::Ask(WorkerAsk::ById { id, include_deleted: false }),
            Some(None) => Next::Done(Err(worker_not_found())),
            Some(Some(w)) => tell_worker(w, work_type),
        }
    }

    /// Creates a worker with a badge that nobody else has.
    pub fn create_worker(
        req: &WorkerCreateRequest,
        user: &CurrentUser,
        f: &CreateWorkerFacts,
    ) -> (n: Next<WorkerAsk, WorkerOut>)
        ensures
            creates_worker(*req, *user, *f, n),
    {
        match user.require_role(Role::Manager) {
            Err(e) => {
                return Next::Done(Err(e));
            },
            Ok(()) => {},
        }
        let badge_code = trim(req.badge_code.as_str());
        if badge_code.is_empty() {
            return Next::Done(
                Err(AppError::biz(ErrorCode::BizInvalidValue, "badge_code 不能为空")),
            );
        }
        let name = trim(req.name.as_str());
        if name.is_empty() {
            return Next::Done(Err(AppError::biz(ErrorCode::BizInvalidValue, "name 不能为空")));
        }
        match &f.holder {
            None => {
                return Next::Ask(
                    WorkerAsk::ByBadge {
                        badge_code: badge_code.to_owned(),
                        with_deleted: false,
                    },
                );
            },
            Some(Some(_)) => {
                let message = join3("badge_code '", badge_code, "' 已被占用");
                return Next::Done(
                    Err(AppError::biz(ErrorCode::VersionConflict, message.as_str())),
                );
            },
            Some(None) => {},
        }
        let id_card_no = normalize_optional_str(&req.id_card_no);
        let phone = normalize_optional_str(&req.phone);
        let work_type_id: Option<i64> = match resolve_work_type_id(
            &req.work_type_id,
            &f.asked_type,
        ) {
            TypeAnswer::Refused(e) => {
                return Next::Done(Err(e));
            },
            TypeAnswer::Ask(id) => {
                return Next::Ask(WorkerAsk::RequestedType { id });
            },
            TypeAnswer::Unassigned => None,
            TypeAnswer::Found(id) => Some(id),
        };
        let id: i64 = match f.id {
            None => {
                return Next::Ask(WorkerAsk::NewId);
            },
            Some(id) => id,
        };
        match &f.created {
            None => Next::Ask(
                WorkerAsk::Create {
                    insert: WorkerInsert {
                        id,
                        badge_code: badge_code.to_owned(),
                        name: name.to_owned(),
                        id_card_no,
                        phone,
                        work_type_id,
                        created_by: user.id,
                    },
                },
            ),
            Some(Err(fault)) => Next::Done(Err(write_failed(fault))),
            Some(Ok(w)) => tell_worker(w, &f.work_type),
        }
    }

    /// Changes a worker. What is absent stays as it is.
    pub fn update_worker(
        id: i64,
        req: &WorkerUpdateRequest,
        user: &CurrentUser,
        f: &UpdateWorkerFacts,
    ) -> (n: Next<WorkerAsk, WorkerOut>)
        ensures
            updates_worker(id, *req, *user, *f, n),
    {
        match user.require_role(Role::Manager) {
            Err(e) => {
                return Next::Done(Err(e));
            },
            Ok(()) => {},
        }
        let current = match &f.current {
            None => {
                return Next::Ask(WorkerAsk::ToChange { id, include_deleted: false });
            },
            Some(None) => {
                return Next::Done(Err(worker_not_found()));
            },
            Some(Some(w)) => w,
        };
        let name = match change_required(&req.name) {
            Err(()) => {
                return Next::Done(
                    Err(AppError::biz(ErrorCode::BizInvalidValue, "name 不能为空")),
                );
            },
            Ok(v) => v,
        };
        let badge_code = match change_required(&req.badge_code) {
            Err(()) => {
                return Next::Done(
                    Err(AppError::biz(ErrorCode::BizInvalidValue, "badge_code 不能为空")),
                );
            },
            Ok(v) => v,
        };
        let (set_id_card_no, id_card_no) = change_text(&req.id_card_no);
        let (set_phone, phone) = change_text(&req.phone);
        let (set_work_type_id, work_type_id) = match change_type(
            &req.work_type_id,
            &f.asked_type,
        ) {
            TypeStep::Refused(e) => {
                return Next::Done(Err(e));
            },
            TypeStep::Ask(wt) => {
                return Next::Ask(WorkerAsk::RequestedType { id: wt });
            },
            TypeStep::Decided(s, t) => (s, t),
        };
        match &f.affected {
            None => Next::Ask(
                WorkerAsk::Update {
                    id,
                    version: current.version,
                    patch: WorkerPatch {
                        name,
                        badge_code,
                        set_id_card_no,
                        id_card_no,
                        set_phone,
                        phone,
                        set_work_type_id,
                        work_type_id,
                    },
                    updated_by: user.id,
                },
            ),
            Some(Err(fault)) => Next::Done(Err(write_failed(fault))),
            Some(Ok(rows)) => if *rows == 0 {
                Next::Done(Err(version_conflict()))
            } else {
                Self::read_back(id, &f.worker, &f.work_type)
            },
        }
    }

    /// Deactivates a worker who holds no part in work.
    pub fn deactivate_worker(id: i64, user: &CurrentUser, f: &DeactivateWorkerFacts) -> (n: Next<
        WorkerAsk,
        (),
    >)
        ensures
            deactivates_worker(id, *user, *f, n),
    {
        match user.require_role(Role::Manager) {
            Err(e) => {
                return Next::Done(Err(e));
            },
            Ok(()) => {},
        }
        let current = match &f.current {
            None => {
                return Next::Ask(WorkerAsk::ById { id, include_deleted: false });
            },
            Some(None) => {
                return Next::Done(Err(worker_not_found()));
            },
            Some(Some(w)) => w,
        };
        match f.in_use {
            None => {
                return Next::Ask(WorkerAsk::CountInUse { id });
            },
            Some(count) => {
                if count > 0 {
                    let mut message = join3("工人 ", id_text(current.id).as_str(), " (badge=");
                    message.append(current.badge_code.as_str());
                    message.append(") 仍被 ");
                    message.append(id_text(count).as_str());
                    message.append(
                        " 个 IN_PROCESS/INSPECTION/REPAIRING/RETURNED 零件引用，无法停用",
                    );
                    return Next::Done(
                        Err(AppError::biz(ErrorCode::BizWorkerInUse, message.as_str())),
                    );
                }
            },
        }
        match f.affected {
            None => Next::Ask(
                WorkerAsk::Deactivate { id, version: current.version, updated_by: user.id },
            ),
            Some(rows) => if rows == 0 {
                Next::Done(Err(version_conflict()))
            } else {
                Next::Done(Ok(()))
            },
        }
    }

    /// Activates a worker again who was deactivated.
    pub fn reactivate_worker(id: i64, user: &CurrentUser, f: &ReactivateWorkerFacts) -> (n: Next<
        WorkerAsk,
        WorkerOut,
    >)
        ensures
            reactivates_worker(id, *user, *f, n),
    {
        match user.require_role(Role::Manager) {
            Err(e) => {
                return Next::Done(Err(e));
            },
            Ok(()) => {},
        }
        let current = match &f.current {
            None => {
                return Next::Ask(WorkerAsk::ToChange { id, include_deleted: true });
            },
            Some(None) => {
                return Next::Done(Err(worker_not_found()));
            },
            Some(Some(w)) => w,
        };
        match f.affected {
            None => Next::Ask(
                WorkerAsk::Reactivate { id, version: current.version, updated_by: user.id },
            ),
            Some(rows) => if rows == 0 {
                Next::Done(
                    Err(
                        AppError::biz(
                            ErrorCode::BizInvalidValue,
                            "工人已是激活状态，无需重启",
                        ),
                    ),
                )
            } else {
                Self::read_back(id, &f.worker, &f.work_type)
            },
        }
    }
}

// ---------------------------------------------------------------------------
// Laws
// ---------------------------------------------------------------------------

/// An empty request changes nothing of a worker but the version: no part is set.
pub proof fn empty_update_sets_nothing(
    id: i64,
    req: WorkerUpdateRequest,
    user: CurrentUser,
    f: UpdateWorkerFacts,
    n: Next<WorkerAsk, WorkerOut>,
)
    requires
        updates_worker(id, req, user, f, n),
        req.name is None && req.badge_code is None && req.id_card_no is None && req.phone is None
            && req.work_type_id is None,
        n matches Next::Ask(a) && a is Update,
    ensures
        n matches Next::Ask(WorkerAsk::Update { id: _, version, patch, updated_by }) && version
            == f.current->0->0.version && patch.name is None && patch.badge_code is None
            && !patch.set_id_card_no && !patch.set_phone && !patch.set_work_type_id,
{
}

/// A worker is stored, or moved, only under a work type that was found, or under
/// none; and never with a blank name or badge.
pub proof fn workers_are_stored_sound(
    id: i64,
    create: WorkerCreateRequest,
    update: WorkerUpdateRequest,
    user: CurrentUser,
    fc: CreateWorkerFacts,
    fu: UpdateWorkerFacts,
    c: Next<WorkerAsk, WorkerOut>,
    u: Next<WorkerAsk, WorkerOut>,
)
    requires
        creates_worker(create, user, fc, c),
        updates_worker(id, update, user, fu, u),
    ensures
        c matches Next::Ask(WorkerAsk::Create { insert }) ==> {
            &&& user.is(Role::Manager)
            &&& insert.badge_code@.len() > 0 && insert.name@.len() > 0
            &&& insert.work_type_id matches Some(wt) ==> (fc.asked_type matches Some(Some(t))
                && t.id == wt)
            &&& fc.holder == Some(None::<TWorker>)
        },
        u matches Next::Ask(WorkerAsk::Update { id: _, version, patch, updated_by }) ==> {
            &&& user.is(Role::Manager)
            &&& patch.name matches Some(v) ==> v@.len() > 0
            &&& patch.badge_code matches Some(v) ==> v@.len() > 0
            &&& patch.work_type_id matches Some(wt) ==> (fu.asked_type matches Some(Some(t))
                && t.id == wt)
        },
{
}

/// A worker who holds parts in work is never deactivated.
pub proof fn busy_workers_stay(
    id: i64,
    user: CurrentUser,
    f: DeactivateWorkerFacts,
    n: Next<WorkerAsk, ()>,
)
    requires
        deactivates_worker(id, user, f, n),
        f.in_use matches Some(count) && count > 0,
    ensures
        !(n matches Next::Ask(a) && a is Deactivate),
        !(n matches Next::Done(Ok(_))),
{
}

} // verus!
