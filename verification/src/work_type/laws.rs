//! What the endpoints on work types do, told by what goes in and what comes out.
use super::dto::{
    SetWorkTypeProcessesItem, WorkTypeCreateRequest, WorkTypeListOut, WorkTypeListQuery,
    WorkTypeOut, WorkTypeProcessMappingOut, WorkTypeUpdateRequest,
};
use super::model::TWorkType;
use super::process_mapping::{
    lists_processes, raw_ids, sets_processes, ListProcessesFacts, SetProcessesFacts,
};
use super::service::{
    creates_work_type, deletes_work_type, gets_work_type, ids_of, lists_work_types, processes_of,
    updates_work_type, CreateWorkTypeFacts, DeleteWorkTypeFacts, GetWorkTypeFacts,
    ListWorkTypesFacts, UpdateWorkTypeFacts, WorkTypeAsk,
};
use crate::auth::{CurrentUser, Role};
use crate::error::ErrorCode;
use crate::flow::{absent, present, Next};
use crate::laws::is_page;
use crate::mapping::{ids_in, missing_of};
use crate::text::{decimal, list_text, non_blank, opt_view, parsed_i64, trimmed};
use vstd::prelude::*;

verus! {

/// The work type is told with its own data.
pub open spec fn has_data_of(o: WorkTypeOut, wt: TWorkType) -> bool {
    &&& o.id == wt.id && o.code == wt.code && o.name == wt.name && o.description == wt.description
    &&& o.sort_order == wt.sort_order && o.max_held_batches == wt.max_held_batches && o.version
        == wt.version && o.created_at == wt.created_at && o.updated_at == wt.updated_at
}

/// These are the ids, written out, in order.
pub open spec fn are_ids(texts: Seq<String>, ids: Seq<i64>) -> bool {
    &&& texts.len() == ids.len()
    &&& forall|i: int| 0 <= i < ids.len() ==> (#[trigger] texts[i])@ == decimal(ids[i] as int)
}

/// The processes of a work type among rows of work type and process: those of its
/// own rows, in order.
pub proof fn processes_are_of_the_own_rows(rows: Seq<(i64, i64)>, id: i64)
    ensures
        processes_of(rows, id) == rows.filter(|r: (i64, i64)| r.0 == id).map_values(
            |r: (i64, i64)| r.1,
        ),
    decreases rows.len(),
{
    reveal(Seq::filter);
    let own = |r: (i64, i64)| r.0 == id;
    let process = |r: (i64, i64)| r.1;
    if rows.len() > 0 {
        let front = rows.drop_last();
        processes_are_of_the_own_rows(front, id);
        if rows.last().0 == id {
            assert(rows.filter(own) =~= front.filter(own).push(rows.last()));
            assert(rows.filter(own).map_values(process) =~= front.filter(own).map_values(
                process,
            ).push(rows.last().1));
        }
    } else {
        assert(rows.filter(own).map_values(process) =~= Seq::<i64>::empty());
    }
}

/// Everyone who is signed in gets the page of work types that was asked for, each
/// with its own data and its own processes.
pub proof fn list_shows_the_page_asked_for(
    query: WorkTypeListQuery,
    current: CurrentUser,
    f: ListWorkTypesFacts,
    n: Next<WorkTypeAsk, WorkTypeListOut>,
)
    requires
        lists_work_types(query, current, f, n),
        f.rows matches Some(rows) ==> forall|i: int, j: int|
            0 <= i < j < rows@.len() ==> (#[trigger] rows@[i]).id != (#[trigger] rows@[j]).id,
    ensures
        n.is_refused(ErrorCode::Forbidden) <==> current.roles@.len() == 0,
        n matches Next::Done(Err(e)) ==> e.code is Forbidden,
        n matches Next::Ask(a) ==> match a {
            WorkTypeAsk::List { code_like, limit, offset } => f.rows is None && opt_view(code_like)
                == non_blank(opt_view(query.code_like)) && is_page(
                query.limit,
                query.offset,
                limit,
                offset,
            ),
            WorkTypeAsk::Count { code_like } => f.total is None && opt_view(code_like) == non_blank(
                opt_view(query.code_like),
            ),
            WorkTypeAsk::ProcessesOf { ids } => f.processes is None && ids@.len()
                == f.rows->0@.len() && forall|i: int|
                0 <= i < ids@.len() ==> #[trigger] ids@[i] == f.rows->0@[i].id,
            _ => false,
        },
        n matches Next::Done(Ok(out)) ==> {
            &&& f.rows is Some && f.total == Some(out.total)
            &&& is_page(query.limit, query.offset, out.limit, out.offset)
            &&& out.items@.len() == f.rows->0@.len()
            &&& forall|i: int|
                0 <= i < out.items@.len() ==> has_data_of(#[trigger] out.items@[i], f.rows->0@[i])
            &&& f.processes is Some ==> forall|i: int|
                0 <= i < out.items@.len() ==> are_ids(
                    (#[trigger] out.items@[i]).process_ids@,
                    f.processes->0@.filter(
                        |r: (i64, i64)| r.0 == f.rows->0@[i].id,
                    ).map_values(|r: (i64, i64)| r.1),
                )
        },
{
    if f.rows is Some {
        assert(ids_of(f.rows->0@).len() == f.rows->0@.len());
        if n.is_ok() && f.processes is Some {
            let rows = f.rows->0@;
            let out = n->Done_0->Ok_0;
            assert forall|i: int| 0 <= i < out.items@.len() implies are_ids(
                (#[trigger] out.items@[i]).process_ids@,
                f.processes->0@.filter(|r: (i64, i64)| r.0 == rows[i].id).map_values(
                    |r: (i64, i64)| r.1,
                ),
            ) by {
                processes_are_of_the_own_rows(f.processes->0@, rows[i].id);
                assert forall|j: int| 0 <= j < i implies (#[trigger] rows[j]).id != rows[i].id by {}
            }
        }
    }
}

/// A work type is told to everyone who is signed in, with its own data and the
/// processes that were read for it, in order.
pub proof fn get_shows_the_named_work_type(
    id: i64,
    current: CurrentUser,
    f: GetWorkTypeFacts,
    n: Next<WorkTypeAsk, WorkTypeOut>,
)
    requires
        gets_work_type(id, current, f, n),
    ensures
        n.is_refused(ErrorCode::Forbidden) <==> current.roles@.len() == 0,
        n.is_refused(ErrorCode::BizWorkTypeNotFound) <==> current.roles@.len() > 0 && absent(
            f.work_type,
        ),
        n matches Next::Done(Err(e)) ==> e.code is Forbidden || e.code is BizWorkTypeNotFound,
        n matches Next::Ask(a) ==> match a {
            WorkTypeAsk::ById { id: i } => i == id && f.work_type is None,
            WorkTypeAsk::ProcessesOf { ids } => f.processes is None && ids@.len() == 1 && ids@[0]
                == f.work_type->0->0.id,
            _ => false,
        },
        n.is_ok() <==> current.roles@.len() > 0 && present(f.work_type) && f.processes is Some,
        n matches Next::Done(Ok(o)) ==> has_data_of(o, f.work_type->0->0) && are_ids(
            o.process_ids@,
            f.processes->0@.map_values(|r: (i64, i64)| r.1),
        ),
{
}

/// A manager creates a work type with a code, a name and a limit of at least one,
/// if any; it is stored as it was sent, and told as it was stored, without
/// processes.
pub proof fn creation_stores_what_was_sent(
    req: WorkTypeCreateRequest,
    current: CurrentUser,
    f: CreateWorkTypeFacts,
    n: Next<WorkTypeAsk, WorkTypeOut>,
)
    requires
        creates_work_type(req, current, f, n),
    ensures
        ({
            let sound = trimmed(req.code@).len() > 0 && trimmed(req.name@).len() > 0 && (
            req.max_held_batches is None || req.max_held_batches->0 >= 1);
            let manager = current.roles@.contains(Role::Manager);
            &&& !manager ==> n.is_refused(ErrorCode::Forbidden)
            &&& manager && !sound ==> n.is_refused(ErrorCode::BizInvalidValue)
            &&& n is Ask || n.is_ok() ==> manager && sound
            &&& n matches Next::Ask(a) ==> match a {
                WorkTypeAsk::NewId => f.id is None,
                WorkTypeAsk::Create { insert } => {
                    &&& f.created is None && f.id == Some(insert.id)
                    &&& insert.code@ == trimmed(req.code@) && insert.name@ == trimmed(req.name@)
                    &&& opt_view(insert.description) == non_blank(opt_view(req.description))
                    &&& req.sort_order is Some ==> insert.sort_order == req.sort_order->0
                    &&& req.sort_order is None ==> insert.sort_order == 0
                    &&& insert.max_held_batches == req.max_held_batches
                    &&& insert.created_by == current.id
                },
                _ => false,
            }
            &&& manager && sound && f.id is Some && f.created is Some ==> {
                &&& f.created->0 is Ok ==> n.is_ok() && has_data_of(
                    n->Done_0->Ok_0,
                    f.created->0->Ok_0,
                ) && n->Done_0->Ok_0.process_ids@.len() == 0
                &&& f.created->0 is Err && f.created->0->Err_0.sqlstate is Some
                    && f.created->0->Err_0.sqlstate->0@ == "23505"@ ==> n.is_refused(
                    ErrorCode::BizWorkTypeDuplicateCode,
                )
                &&& f.created->0 is Err && !(f.created->0->Err_0.sqlstate is Some
                    && f.created->0->Err_0.sqlstate->0@ == "23505"@) ==> (n matches Next::Done(Err(e))
                    && e == f.created->0->Err_0.error)
            }
        }),
{
}

/// A manager changes a work type at the version that was read; only what the
/// request names is set, and never the code. Afterwards it is read back.
pub proof fn update_sets_what_the_request_names(
    id: i64,
    req: WorkTypeUpdateRequest,
    current: CurrentUser,
    f: UpdateWorkTypeFacts,
    n: Next<WorkTypeAsk, WorkTypeOut>,
)
    requires
        updates_work_type(id, req, current, f, n),
    ensures
        ({
            let manager = current.roles@.contains(Role::Manager);
            let sound = (req.name is None || trimmed(req.name->0@).len() > 0) && (
            req.max_held_batches is None || req.max_held_batches->0 is None
                || req.max_held_batches->0->0 >= 1);
            &&& n.is_refused(ErrorCode::Forbidden) <==> !manager
            &&& manager && req.code is Some ==> n.is_refused(ErrorCode::BizInvalidValue)
            &&& manager && req.code is None && absent(f.existing) ==> n.is_refused(
                ErrorCode::BizWorkTypeNotFound,
            )
            &&& manager && req.code is None && present(f.existing) && !sound ==> n.is_refused(
                ErrorCode::BizInvalidValue,
            )
            &&& n matches Next::Ask(a) ==> manager && req.code is None && match a {
                WorkTypeAsk::ToChange { id: i } => i == id && f.existing is None,
                WorkTypeAsk::Update { id: i, version, patch, updated_by } => {
                    &&& sound && f.affected is None && i == id && version
                        == f.existing->0->0.version && updated_by == current.id
                    &&& patch.name is Some <==> req.name is Some
                    &&& req.name is Some ==> patch.name->0@ == trimmed(req.name->0@)
                    &&& patch.set_description <==> req.description is Some
                    &&& present(req.description) ==> patch.description is Some
                        && patch.description->0@ == trimmed(req.description->0->0@)
                    &&& absent(req.description) ==> patch.description is None
                    &&& patch.sort_order == req.sort_order
                    &&& patch.set_max_held_batches <==> req.max_held_batches is Some
                    &&& req.max_held_batches is Some ==> patch.max_held_batches
                        == req.max_held_batches->0
                },
                WorkTypeAsk::ById { id: i } => i == id && f.work_type is None && f.affected is Some
                    && f.affected->0 > 0,
                WorkTypeAsk::ProcessesOf { ids } => f.processes is None && ids@.len() == 1
                    && ids@[0] == f.work_type->0->0.id,
                _ => false,
            }
            &&& manager && req.code is None && present(f.existing) && sound && f.affected is Some
                ==> {
                &&& f.affected->0 == 0 ==> n.is_refused(ErrorCode::VersionConflict)
                &&& f.affected->0 > 0 && present(f.work_type) && f.processes is Some ==> n.is_ok()
            }
            &&& n matches Next::Done(Ok(o)) ==> {
                &&& f.affected is Some && f.affected->0 > 0
                &&& has_data_of(o, f.work_type->0->0) && are_ids(
                    o.process_ids@,
                    f.processes->0@.map_values(|r: (i64, i64)| r.1),
                )
            }
        }),
{
    if current.roles@.contains(Role::Manager) {
        assert(current.is(Role::Manager));
        assert(current.has_some_role());
    }
}

/// A manager deletes a work type that nothing refers to, at the version that was
/// read.
pub proof fn deletion_is_for_unused_work_types(
    id: i64,
    current: CurrentUser,
    f: DeleteWorkTypeFacts,
    n: Next<WorkTypeAsk, ()>,
)
    requires
        deletes_work_type(id, current, f, n),
    ensures
        n.is_refused(ErrorCode::Forbidden) <==> !current.roles@.contains(Role::Manager),
        n.is_refused(ErrorCode::BizWorkTypeNotFound) <==> current.roles@.contains(Role::Manager)
            && absent(f.work_type),
        n.is_refused(ErrorCode::BizWorkTypeInUse) <==> current.roles@.contains(Role::Manager)
            && present(f.work_type) && f.references is Some && f.references->0 > 0,
        n.is_refused(ErrorCode::VersionConflict) <==> current.roles@.contains(Role::Manager)
            && present(f.work_type) && f.references is Some && f.references->0 <= 0 && f.affected
            == Some(0u64),
        n matches Next::Done(Err(e)) ==> e.code is Forbidden || e.code is BizWorkTypeNotFound
            || e.code is BizWorkTypeInUse || e.code is VersionConflict,
        n matches Next::Ask(a) ==> match a {
            WorkTypeAsk::ById { id: i } => i == id && f.work_type is None,
            WorkTypeAsk::CountReferences { id: i } => i == id && f.references is None,
            WorkTypeAsk::SoftDelete { id: i, version, updated_by } => i == id && version
                == f.work_type->0->0.version && updated_by == current.id && f.references is Some
                && f.references->0 <= 0,
            _ => false,
        },
        n.is_ok() <==> current.roles@.contains(Role::Manager) && present(f.work_type)
            && f.references is Some && f.references->0 <= 0 && f.affected is Some && f.affected->0
            > 0,
{
}

/// The processes of a work type are told to everyone who is signed in, as they
/// were read.
pub proof fn processes_are_listed_as_read(
    work_type_id: i64,
    current: CurrentUser,
    f: ListProcessesFacts,
    n: Next<WorkTypeAsk, WorkTypeProcessMappingOut>,
)
    requires
        lists_processes(work_type_id, current, f, n),
    ensures
        n.is_refused(ErrorCode::Forbidden) <==> current.roles@.len() == 0,
        n.is_refused(ErrorCode::BizWorkTypeNotFound) <==> current.roles@.len() > 0 && absent(
            f.work_type,
        ),
        n matches Next::Ask(a) ==> match a {
            WorkTypeAsk::ById { id } => id == work_type_id && f.work_type is None,
            WorkTypeAsk::MappingsOf { work_type_id: w } => w == f.work_type->0->0.id
                && f.rows is None,
            _ => false,
        },
        n.is_ok() <==> current.roles@.len() > 0 && present(f.work_type) && f.rows is Some,
        n matches Next::Done(Ok(out)) ==> out.items@.len() == f.rows->0@.len() && forall|i: int|
            0 <= i < out.items@.len() ==> {
                let o = #[trigger] out.items@[i];
                let r = f.rows->0@[i];
                &&& o.work_type_id == f.work_type->0->0.id && o.process_id == r.process_id
                &&& o.process_code == r.process_code && o.sort_order == r.sort_order
            },
{
}

/// Setting the processes of a work type: by a manager, for a work type that is
/// there, with ids that are numbers and processes that are all there; then its
/// mappings are deleted, and one is stored for each item.
pub proof fn set_checks_before_it_writes(
    work_type_id: i64,
    items: Seq<SetWorkTypeProcessesItem>,
    current: CurrentUser,
    f: SetProcessesFacts,
    n: Next<WorkTypeAsk, ()>,
)
    requires
        sets_processes(work_type_id, items, current, f, n),
    ensures
        n.is_refused(ErrorCode::Forbidden) <==> !current.roles@.contains(Role::Manager),
        n.is_refused(ErrorCode::BizWorkTypeNotFound) <==> current.roles@.contains(Role::Manager)
            && absent(f.work_type),
        n.is_refused(ErrorCode::BizInvalidValue) <==> current.roles@.contains(Role::Manager)
            && present(f.work_type) && exists|i: int|
            0 <= i < items.len() && parsed_i64((#[trigger] items[i]).process_id@) is None,
        n.is_refused(ErrorCode::BizProcessNotFound) ==> f.existing is Some && f.existing->0@.len()
            != items.len(),
        n matches Next::Ask(a) ==> match a {
            WorkTypeAsk::ById { id } => id == work_type_id && f.work_type is None,
            WorkTypeAsk::ExistingProcesses { ids } => f.existing is None && ids@.len()
                == items.len() && forall|i: int|
                0 <= i < items.len() ==> parsed_i64((#[trigger] items[i]).process_id@) == Some(
                    ids@[i],
                ),
            WorkTypeAsk::ClearMappings { work_type_id: w } => w == work_type_id && !f.cleared && (
            items.len() == 0 || (f.existing is Some && f.existing->0@.len() == items.len())),
            WorkTypeAsk::InsertMappings { rows, created_by } => {
                &&& f.cleared && !f.inserted && created_by == current.id
                &&& rows@.len() == items.len() && items.len() > 0
                &&& forall|i: int|
                    0 <= i < items.len() ==> parsed_i64((#[trigger] items[i]).process_id@) == Some(
                        rows@[i].process_id,
                    ) && rows@[i].sort_order == items[i].sort_order && rows@[i].work_type_id
                        == f.work_type->0->0.id
                &&& f.existing is Some && f.existing->0@.len() == items.len()
            },
            _ => false,
        },
        n.is_ok() ==> current.roles@.contains(Role::Manager) && present(f.work_type) && f.cleared
            && (items.len() == 0 || f.inserted),
{
    let raw = super::process_mapping::raw_ids(items);
    if crate::mapping::all_ids(raw) {
        assert forall|i: int| 0 <= i < items.len() implies parsed_i64(
            (#[trigger] items[i]).process_id@,
        ) == Some(crate::mapping::ids_in(raw)[i]) by {
            assert(raw[i] == items[i].process_id);
        }
    } else {
        let i = choose|i: int| 0 <= i < raw.len() && parsed_i64((#[trigger] raw[i])@) is None;
        assert(parsed_i64(items[i].process_id@) is None);
    }
}

/// A work type that is not deleted for what refers to it is named with id and
/// code and with how many references there are.
pub proof fn work_types_in_use_are_named(
    id: i64,
    current: CurrentUser,
    f: DeleteWorkTypeFacts,
    n: Next<WorkTypeAsk, ()>,
)
    requires
        deletes_work_type(id, current, f, n),
    ensures
        n.is_refused(ErrorCode::BizWorkTypeInUse) ==> n.fails(
            ErrorCode::BizWorkTypeInUse,
            "工种 "@ + decimal(f.work_type->0->0.id as int) + " (code="@
                + f.work_type->0->0.code@ + ") 仍被 "@ + decimal(f.references->0 as int)
                + " 处引用（worker 或 process mapping），无法软删"@,
        ),
{
}

/// The processes that do not exist are named, and so is the work type.
pub proof fn processes_not_found_are_named(
    work_type_id: i64,
    items: Seq<SetWorkTypeProcessesItem>,
    current: CurrentUser,
    f: SetProcessesFacts,
    n: Next<WorkTypeAsk, ()>,
)
    requires
        sets_processes(work_type_id, items, current, f, n),
    ensures
        n.is_refused(ErrorCode::BizProcessNotFound) ==> n.fails(
            ErrorCode::BizProcessNotFound,
            "process 不存在: "@ + list_text(missing_of(ids_in(raw_ids(items)), f.existing->0@)),
        ),
        absent(f.work_type) && current.is(Role::Manager) ==> n.fails(
            ErrorCode::BizWorkTypeNotFound,
            "work_type "@ + decimal(work_type_id as int) + " 不存在"@,
        ),
{
}

} // verus!
