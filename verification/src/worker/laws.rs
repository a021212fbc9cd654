//! What the endpoints on workers do, told by what goes in and what comes out.
use super::dto::{
    WorkerCreateRequest, WorkerListOut, WorkerListQuery, WorkerOut, WorkerUpdateRequest,
};
use super::model::TWorker;
use super::service::{
    creates_worker, deactivates_worker, gets_worker, lists_workers, name_of_type,
    reactivates_worker, shows_worker, types_of, updates_worker, verifies_badge,
    CreateWorkerFacts, DeactivateWorkerFacts, GetWorkerFacts, ListWorkersFacts,
    ReactivateWorkerFacts, UpdateWorkerFacts, WorkerAsk,
};
use crate::auth::{CurrentUser, Role};
use crate::error::{DbFault, ErrorCode};
use crate::flow::{absent, present, Next};
use crate::text::{decimal, non_blank, opt_view, parsed_i64, trimmed};
use crate::work_type::model::TWorkType;
use vstd::prelude::*;

verus! {

/// The name of a work type is that of the row with its id; of several the last
/// counts.
pub proof fn names_are_of_the_own_type(rows: Seq<TWorkType>, k: int)
    requires
        0 <= k < rows.len(),
        forall|j: int| k < j < rows.len() ==> (#[trigger] rows[j]).id != rows[k].id,
    ensures
        name_of_type(rows, rows[k].id) == Some(rows[k].name),
    decreases rows.len(),
{
    let last = rows.len() - 1;
    if k < last {
        assert(rows[last].id != rows[k].id);
        names_are_of_the_own_type(rows.drop_last(), k);
    }
}

/// A work type without a row has no name.
pub proof fn unknown_types_have_no_name(rows: Seq<TWorkType>, id: i64)
    requires
        forall|j: int| 0 <= j < rows.len() ==> (#[trigger] rows[j]).id != id,
    ensures
        name_of_type(rows, id) is None,
    decreases rows.len(),
{
    if rows.len() > 0 {
        assert(rows[rows.len() - 1].id != id);
        unknown_types_have_no_name(rows.drop_last(), id);
    }
}

/// The work types of some workers are exactly those that one of them has.
pub proof fn types_are_those_of_the_workers(rows: Seq<TWorker>)
    ensures
        forall|id: i64| #[trigger]
            types_of(rows).contains(id) <==> exists|i: int|
                0 <= i < rows.len() && (#[trigger] rows[i]).work_type_id == Some(id),
    decreases rows.len(),
{
    if rows.len() > 0 {
        let front = rows.drop_last();
        let last = rows.len() - 1;
        types_are_those_of_the_workers(front);
        assert forall|id: i64| #[trigger]
            types_of(rows).contains(id) <==> exists|i: int|
                0 <= i < rows.len() && (#[trigger] rows[i]).work_type_id == Some(id) by {
            let before = types_of(front);
            let all = types_of(rows);
            if all.contains(id) {
                let m = choose|m: int| 0 <= m < all.len() && all[m] == id;
                if m < before.len() {
                    assert(before[m] == id);
                    assert(before.contains(id));
                    let i = choose|i: int|
                        0 <= i < front.len() && (#[trigger] front[i]).work_type_id == Some(id);
                    assert(rows[i].work_type_id == Some(id));
                } else {
                    assert(rows[last].work_type_id == Some(id));
                }
            }
            if exists|i: int| 0 <= i < rows.len() && (#[trigger] rows[i]).work_type_id == Some(id) {
                let i = choose|i: int|
                    0 <= i < rows.len() && (#[trigger] rows[i]).work_type_id == Some(id);
                if i < last {
                    assert(front[i].work_type_id == Some(id));
                    assert(before.contains(id));
                    let m = choose|m: int| 0 <= m < before.len() && before[m] == id;
                    assert(all[m] == id);
                } else {
                    assert(all[all.len() - 1] == id);
                }
            }
        }
    }
}

/// A worker is shown with the worker's own data; the work type's id is written
/// out.
pub proof fn worker_is_shown_with_the_own_data(o: WorkerOut, w: TWorker, name: Option<String>)
    requires
        shows_worker(o, w, name),
    ensures
        o.id == w.id && o.badge_code == w.badge_code && o.name == w.name && o.is_active
            == w.is_active && o.version == w.version,
        o.id_card_no == w.id_card_no && o.phone == w.phone && o.created_at == w.created_at
            && o.updated_at == w.updated_at,
        o.work_type_name == name,
        o.work_type_id is Some <==> w.work_type_id is Some,
        w.work_type_id matches Some(id) ==> o.work_type_id->0@ == decimal(id as int),
{
}

/// The worker is told with the name of the own work type, as it was looked up.
pub open spec fn tells_with_type(
    o: WorkerOut,
    w: TWorker,
    work_type: Option<Option<TWorkType>>,
) -> bool {
    &&& o.id == w.id && o.badge_code == w.badge_code && o.name == w.name && o.is_active
        == w.is_active && o.version == w.version
    &&& o.id_card_no == w.id_card_no && o.phone == w.phone && o.created_at == w.created_at
        && o.updated_at == w.updated_at
    &&& match w.work_type_id {
        None => o.work_type_id is None && o.work_type_name is None,
        Some(id) => {
            &&& o.work_type_id is Some && o.work_type_id->0@ == decimal(id as int)
            &&& work_type is Some
            &&& match work_type->0 {
                Some(wt) => o.work_type_name == Some(wt.name),
                None => o.work_type_name is None,
            }
        },
    }
}

/// A badge is looked for without the space around it, among deleted workers too.
/// Nobody is found by an empty badge; a worker who is not active is named as such.
pub proof fn badge_finds_active_workers(
    badge_code: Seq<char>,
    found: Option<Option<TWorker>>,
    n: Next<WorkerAsk, WorkerOut>,
)
    requires
        verifies_badge(badge_code, found, n),
    ensures
        n matches Next::Ask(a) ==> found is None && (a matches WorkerAsk::ByBadge {
            badge_code: b,
            with_deleted,
        } && b@ == trimmed(badge_code) && with_deleted),
        n.is_refused(ErrorCode::BizWorkerNotFound) <==> trimmed(badge_code).len() == 0 || absent(
            found,
        ),
        n.is_refused(ErrorCode::BizWorkerInactive) <==> trimmed(badge_code).len() > 0 && present(
            found,
        ) && !found->0->0.is_active,
        n.is_ok() <==> trimmed(badge_code).len() > 0 && present(found) && found->0->0.is_active,
        n matches Next::Done(Err(e)) ==> e.code is BizWorkerNotFound || e.code is BizWorkerInactive,
        n matches Next::Done(Ok(o)) ==> {
            let w = found->0->0;
            &&& o.id == w.id && o.badge_code == w.badge_code && o.name == w.name && o.version
                == w.version && o.is_active
            &&& o.work_type_name is None
        },
{
}

/// A manager gets the page of workers that was asked for: the same search, state
/// and page in the list and in the count, and each worker with the own data.
pub proof fn list_shows_the_page_asked_for(
    query: WorkerListQuery,
    user: CurrentUser,
    f: ListWorkersFacts,
    n: Next<WorkerAsk, WorkerListOut>,
)
    requires
        lists_workers(query, user, f, n),
    ensures
        n.is_refused(ErrorCode::Forbidden) <==> !user.roles@.contains(Role::Manager),
        n matches Next::Done(Err(e)) ==> e.code is Forbidden,
        n matches Next::Ask(a) ==> match a {
            WorkerAsk::List { name_like, is_active, limit, offset } => {
                &&& f.rows is None && is_active == query.is_active
                &&& opt_view(name_like) == non_blank(opt_view(query.name_like))
                &&& 1 <= limit <= 500 && (query.limit matches Some(l) ==> (1 <= l <= 500 ==> limit
                    == l) && (l > 500 ==> limit == 500) && (l < 1 ==> limit == 1))
                &&& query.limit is None ==> limit == 50
                &&& offset >= 0 && (query.offset matches Some(o) ==> o >= 0 ==> offset == o)
                &&& query.offset is None ==> offset == 0
            },
            WorkerAsk::Count { name_like, is_active } => f.total is None && is_active
                == query.is_active && opt_view(name_like) == non_blank(opt_view(query.name_like)),
            WorkerAsk::WorkTypesByIds { ids } => f.work_types is None && forall|id: i64| #[trigger]
                ids@.contains(id) <==> exists|i: int|
                    0 <= i < f.rows->0@.len() && (#[trigger] f.rows->0@[i]).work_type_id == Some(
                        id,
                    ),
            _ => false,
        },
        n matches Next::Done(Ok(out)) ==> {
            &&& f.rows is Some && f.total == Some(out.total)
            &&& 1 <= out.limit <= 500 && (query.limit is None ==> out.limit == 50) && (
            query.limit matches Some(l) ==> 1 <= l <= 500 ==> out.limit == l)
            &&& out.offset >= 0 && (query.offset is None ==> out.offset == 0) && (
            query.offset matches Some(o) ==> o >= 0 ==> out.offset == o)
            &&& out.items@.len() == f.rows->0@.len()
            &&& forall|i: int|
                0 <= i < out.items@.len() ==> {
                    let o = #[trigger] out.items@[i];
                    let w = f.rows->0@[i];
                    &&& o.id == w.id && o.badge_code == w.badge_code && o.name == w.name
                        && o.is_active == w.is_active && o.version == w.version
                    &&& o.id_card_no == w.id_card_no && o.phone == w.phone && o.created_at
                        == w.created_at && o.updated_at == w.updated_at
                    &&& w.work_type_id is None ==> o.work_type_id is None
                        && o.work_type_name is None
                    &&& w.work_type_id matches Some(id) ==> o.work_type_id is Some
                        && o.work_type_id->0@ == decimal(id as int)
                }
        },
{
    if f.rows is Some {
        types_are_those_of_the_workers(f.rows->0@);
    }
}

/// In a list, the name of a worker's work type is that of the row with its id.
pub proof fn list_names_the_own_type(
    query: WorkerListQuery,
    user: CurrentUser,
    f: ListWorkersFacts,
    n: Next<WorkerAsk, WorkerListOut>,
    i: int,
    k: int,
)
    requires
        lists_workers(query, user, f, n),
        n.is_ok(),
        0 <= i < f.rows->0@.len(),
        f.work_types is Some,
        0 <= k < f.work_types->0@.len(),
        f.rows->0@[i].work_type_id == Some(f.work_types->0@[k].id),
        forall|j: int|
            k < j < f.work_types->0@.len() ==> (#[trigger] f.work_types->0@[j]).id
                != f.work_types->0@[k].id,
    ensures
        n->Done_0->Ok_0.items@[i].work_type_name == Some(f.work_types->0@[k].name),
{
    types_are_those_of_the_workers(f.rows->0@);
    names_are_of_the_own_type(f.work_types->0@, k);
    assert(types_of(f.rows->0@).contains(f.work_types->0@[k].id));
}

/// A manager gets one worker that is not deleted, with the own data and the name
/// of the own work type.
pub proof fn get_shows_the_named_worker(
    id: i64,
    user: CurrentUser,
    f: GetWorkerFacts,
    n: Next<WorkerAsk, WorkerOut>,
)
    requires
        gets_worker(id, user, f, n),
    ensures
        n.is_refused(ErrorCode::Forbidden) <==> !user.roles@.contains(Role::Manager),
        n.is_refused(ErrorCode::BizWorkerNotFound) <==> user.roles@.contains(Role::Manager)
            && absent(f.worker),
        n matches Next::Done(Err(e)) ==> e.code is Forbidden || e.code is BizWorkerNotFound,
        n matches Next::Ask(a) ==> match a {
            WorkerAsk::ById { id: i, include_deleted } => i == id && !include_deleted
                && f.worker is None,
            WorkerAsk::WorkType { id: t } => f.worker->0->0.work_type_id == Some(t)
                && f.work_type is None,
            _ => false,
        },
        n matches Next::Done(Ok(o)) ==> present(f.worker) && tells_with_type(
            o,
            f.worker->0->0,
            f.work_type,
        ),
        user.roles@.contains(Role::Manager) && present(f.worker) && f.work_type is Some
            ==> n.is_ok(),
{
}

/// The id that a text stands for, where it names a work type that was found.
pub open spec fn named_type(raw: Option<String>, found: Option<Option<TWorkType>>) -> Option<i64> {
    if non_blank(opt_view(raw)) is Some && present(found) {
        Some(found->0->0.id)
    } else {
        None
    }
}

/// A worker is created by a manager, with a badge and a name that are not empty
/// and a badge that nobody has; a work type that is named has to be there. What is
/// stored is what was sent, without space around it; empty details are left out.
pub proof fn creation_stores_what_was_sent(
    req: WorkerCreateRequest,
    user: CurrentUser,
    f: CreateWorkerFacts,
    n: Next<WorkerAsk, WorkerOut>,
)
    requires
        creates_worker(req, user, f, n),
    ensures
        n.is_refused(ErrorCode::Forbidden) ==> !user.roles@.contains(Role::Manager) || (
        f.created matches Some(Err(_))),
        !user.roles@.contains(Role::Manager) ==> n.is_refused(ErrorCode::Forbidden),
        n matches Next::Ask(a) ==> match a {
            WorkerAsk::ByBadge { badge_code, with_deleted } => badge_code@ == trimmed(
                req.badge_code@,
            ) && !with_deleted && f.holder is None,
            WorkerAsk::RequestedType { id } => f.asked_type is None && non_blank(
                opt_view(req.work_type_id),
            ) is Some && parsed_i64(non_blank(opt_view(req.work_type_id))->0) == Some(id),
            WorkerAsk::NewId => f.id is None,
            WorkerAsk::Create { insert } => {
                &&& f.created is None && f.id == Some(insert.id)
                &&& insert.badge_code@ == trimmed(req.badge_code@) && insert.name@ == trimmed(
                    req.name@,
                )
                &&& insert.badge_code@.len() > 0 && insert.name@.len() > 0
                &&& opt_view(insert.id_card_no) == non_blank(opt_view(req.id_card_no))
                &&& opt_view(insert.phone) == non_blank(opt_view(req.phone))
                &&& insert.work_type_id == named_type(req.work_type_id, f.asked_type)
                &&& non_blank(opt_view(req.work_type_id)) is Some ==> insert.work_type_id is Some
                &&& insert.created_by == user.id
                &&& absent(f.holder)
            },
            WorkerAsk::WorkType { id } => f.created is Some && f.created->0 is Ok
                && f.created->0->Ok_0.work_type_id == Some(id) && f.work_type is None,
            _ => false,
        },
        (n matches Next::Ask(a) && a is Create) || n.is_ok() ==> user.roles@.contains(Role::Manager)
            && trimmed(req.badge_code@).len() > 0 && trimmed(req.name@).len() > 0 && absent(
            f.holder,
        ),
        user.roles@.contains(Role::Manager) && (trimmed(req.badge_code@).len() == 0 || trimmed(
            req.name@,
        ).len() == 0) ==> n.is_refused(ErrorCode::BizInvalidValue),
        user.roles@.contains(Role::Manager) && trimmed(req.badge_code@).len() > 0 && trimmed(
            req.name@,
        ).len() > 0 && present(f.holder) ==> n.is_refused(ErrorCode::VersionConflict),
        (n matches Next::Ask(a) && (a is Create || a is NewId)) || n.is_ok() ==> (non_blank(
            opt_view(req.work_type_id),
        ) matches Some(t) ==> parsed_i64(t) is Some && present(f.asked_type)),
        n matches Next::Done(Err(e)) ==> e.code is Forbidden || e.code is BizInvalidValue
            || e.code is VersionConflict || e.code is BizWorkTypeNotFound || (
        f.created matches Some(Err(fault)) && e == fault.error),
        n matches Next::Done(Ok(o)) ==> f.created is Some && f.created->0 is Ok && tells_with_type(
            o,
            f.created->0->Ok_0,
            f.work_type,
        ),
        (f.created matches Some(Err(fault)) && f.id is Some && user.roles@.contains(Role::Manager)
            && trimmed(req.badge_code@).len() > 0 && trimmed(req.name@).len() > 0 && absent(
            f.holder,
        ) && non_blank(opt_view(req.work_type_id)) is None) ==> failed_write(
            f.created->0->Err_0,
            n,
        ),
{
}

/// A write that broke a uniqueness rule is told as a conflict; any other failure
/// is passed on as it is.
pub open spec fn failed_write<T>(fault: DbFault, n: Next<WorkerAsk, T>) -> bool {
    &&& n matches Next::Done(Err(e))
    &&& if fault.sqlstate is Some && fault.sqlstate->0@ == "23505"@ {
        e.code == ErrorCode::VersionConflict
    } else {
        e == fault.error
    }
}

/// A worker is changed by a manager, at the version that was read; only what the
/// request names is set, and to what it says. Afterwards the worker is read back.
pub proof fn update_sets_what_the_request_names(
    id: i64,
    req: WorkerUpdateRequest,
    user: CurrentUser,
    f: UpdateWorkerFacts,
    n: Next<WorkerAsk, WorkerOut>,
)
    requires
        updates_worker(id, req, user, f, n),
    ensures
        !user.roles@.contains(Role::Manager) ==> n.is_refused(ErrorCode::Forbidden),
        user.roles@.contains(Role::Manager) && absent(f.current) ==> n.is_refused(
            ErrorCode::BizWorkerNotFound,
        ),
        user.roles@.contains(Role::Manager) && present(f.current) && ((req.name matches Some(x)
            && trimmed(x@).len() == 0) || (req.badge_code matches Some(x) && trimmed(x@).len()
            == 0)) ==> n.is_refused(ErrorCode::BizInvalidValue),
        n matches Next::Ask(a) ==> match a {
            WorkerAsk::ToChange { id: i, include_deleted } => i == id && !include_deleted
                && f.current is None,
            WorkerAsk::RequestedType { id: t } => f.asked_type is None && (
            req.work_type_id matches Some(Some(raw)) && parsed_i64(trimmed(raw@)) == Some(t)),
            WorkerAsk::Update { id: i, version, patch, updated_by } => {
                &&& i == id && version == f.current->0->0.version && updated_by == user.id
                &&& patch.name is Some <==> req.name is Some
                &&& req.name matches Some(x) ==> patch.name->0@ == trimmed(x@)
                    && patch.name->0@.len() > 0
                &&& patch.badge_code is Some <==> req.badge_code is Some
                &&& req.badge_code matches Some(x) ==> patch.badge_code->0@ == trimmed(x@)
                    && patch.badge_code->0@.len() > 0
                &&& patch.set_id_card_no <==> req.id_card_no is Some
                &&& req.id_card_no matches Some(Some(x)) ==> patch.id_card_no is Some
                    && patch.id_card_no->0@ == trimmed(x@)
                &&& req.id_card_no matches Some(None) ==> patch.id_card_no is None
                &&& patch.set_phone <==> req.phone is Some
                &&& req.phone matches Some(Some(x)) ==> patch.phone is Some && patch.phone->0@
                    == trimmed(x@)
                &&& req.phone matches Some(None) ==> patch.phone is None
                &&& patch.set_work_type_id <==> req.work_type_id is Some
                &&& req.work_type_id matches Some(None) ==> patch.work_type_id is None
                &&& req.work_type_id matches Some(Some(_)) ==> present(f.asked_type)
                    && patch.work_type_id == Some(f.asked_type->0->0.id)
                &&& f.affected is None
            },
            WorkerAsk::ById { id: i, include_deleted } => i == id && !include_deleted
                && f.worker is None && (f.affected matches Some(Ok(rows)) && rows > 0),
            WorkerAsk::WorkType { id: t } => present(f.worker) && f.worker->0->0.work_type_id
                == Some(t) && f.work_type is None,
            _ => false,
        },
        n matches Next::Done(Ok(o)) ==> {
            &&& user.roles@.contains(Role::Manager) && present(f.current)
            &&& f.affected is Some && f.affected->0 is Ok && f.affected->0->Ok_0 > 0
            &&& present(f.worker) && tells_with_type(o, f.worker->0->0, f.work_type)
        },
        n.is_refused(ErrorCode::BizWorkTypeNotFound) ==> absent(f.asked_type) || (
        f.affected matches Some(Err(_))),
        (f.affected matches Some(Ok(0)) && user.roles@.contains(Role::Manager) && present(
            f.current,
        ) && req.name is None && req.badge_code is None && req.work_type_id is None)
            ==> n.is_refused(ErrorCode::VersionConflict),
        (f.affected matches Some(Err(_)) && user.roles@.contains(Role::Manager) && present(
            f.current,
        ) && req.name is None && req.badge_code is None && req.work_type_id is None)
            ==> failed_write(f.affected->0->Err_0, n),
{
}

/// A manager deactivates a worker who holds no part in work, at the version that
/// was read.
pub proof fn deactivation_is_for_idle_workers(
    id: i64,
    user: CurrentUser,
    f: DeactivateWorkerFacts,
    n: Next<WorkerAsk, ()>,
)
    requires
        deactivates_worker(id, user, f, n),
    ensures
        n.is_refused(ErrorCode::Forbidden) <==> !user.roles@.contains(Role::Manager),
        n.is_refused(ErrorCode::BizWorkerNotFound) <==> user.roles@.contains(Role::Manager)
            && absent(f.current),
        n.is_refused(ErrorCode::BizWorkerInUse) <==> user.roles@.contains(Role::Manager)
            && present(f.current) && f.in_use is Some && f.in_use->0 > 0,
        n.is_refused(ErrorCode::VersionConflict) <==> user.roles@.contains(Role::Manager)
            && present(f.current) && f.in_use is Some && f.in_use->0 <= 0 && f.affected == Some(
            0u64,
        ),
        n matches Next::Done(Err(e)) ==> e.code is Forbidden || e.code is BizWorkerNotFound
            || e.code is BizWorkerInUse || e.code is VersionConflict,
        n matches Next::Ask(a) ==> match a {
            WorkerAsk::ById { id: i, include_deleted } => i == id && !include_deleted
                && f.current is None,
            WorkerAsk::CountInUse { id: i } => i == id && f.in_use is None,
            WorkerAsk::Deactivate { id: i, version, updated_by } => {
                &&& i == id && version == f.current->0->0.version && updated_by == user.id
                &&& f.in_use is Some && f.in_use->0 <= 0
            },
            _ => false,
        },
        n.is_ok() <==> user.roles@.contains(Role::Manager) && present(f.current) && f.in_use is Some
            && f.in_use->0 <= 0 && f.affected is Some && f.affected->0 > 0,
{
}

/// A manager brings a worker back, a deleted one too, at the version that was
/// read; one who is active already is refused. Afterwards the worker is read back.
pub proof fn reactivation_brings_the_named_worker_back(
    id: i64,
    user: CurrentUser,
    f: ReactivateWorkerFacts,
    n: Next<WorkerAsk, WorkerOut>,
)
    requires
        reactivates_worker(id, user, f, n),
    ensures
        n.is_refused(ErrorCode::Forbidden) <==> !user.roles@.contains(Role::Manager),
        n.is_refused(ErrorCode::BizInvalidValue) <==> user.roles@.contains(Role::Manager)
            && present(f.current) && f.affected == Some(0u64),
        user.roles@.contains(Role::Manager) && absent(f.current) ==> n.is_refused(
            ErrorCode::BizWorkerNotFound,
        ),
        n matches Next::Done(Err(e)) ==> e.code is Forbidden || e.code is BizWorkerNotFound
            || e.code is BizInvalidValue,
        n matches Next::Ask(a) ==> match a {
            WorkerAsk::ToChange { id: i, include_deleted } => i == id && include_deleted
                && f.current is None,
            WorkerAsk::Reactivate { id: i, version, updated_by } => i == id && version
                == f.current->0->0.version && updated_by == user.id && f.affected is None,
            WorkerAsk::ById { id: i, include_deleted } => i == id && !include_deleted
                && f.worker is None && f.affected is Some && f.affected->0 > 0,
            WorkerAsk::WorkType { id: t } => f.worker->0->0.work_type_id == Some(t)
                && f.work_type is None,
            _ => false,
        },
        n matches Next::Done(Ok(o)) ==> present(f.worker) && tells_with_type(
            o,
            f.worker->0->0,
            f.work_type,
        ) && f.affected is Some && f.affected->0 > 0,
        user.roles@.contains(Role::Manager) && present(f.current) && f.affected is Some
            && f.affected->0 > 0 && present(f.worker) && f.work_type is Some ==> n.is_ok(),
{
}

/// A worker who is not deactivated for the parts held is named with id and badge
/// and with how many parts there are.
pub proof fn workers_in_use_are_named(
    id: i64,
    user: CurrentUser,
    f: DeactivateWorkerFacts,
    n: Next<WorkerAsk, ()>,
)
    requires
        deactivates_worker(id, user, f, n),
    ensures
        n.is_refused(ErrorCode::BizWorkerInUse) ==> n.fails(
            ErrorCode::BizWorkerInUse,
            "工人 "@ + decimal(f.current->0->0.id as int) + " (badge="@
                + f.current->0->0.badge_code@ + ") 仍被 "@ + decimal(f.in_use->0 as int)
                + " 个 IN_PROCESS/INSPECTION/REPAIRING/RETURNED 零件引用，无法停用"@,
        ),
{
}

} // verus!
