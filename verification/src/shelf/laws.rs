//! What the endpoints on shelves do, told by what goes in and what comes out.
use super::dto::{
    AllShelfProcessMappingItem, AllShelfProcessMappingOut, SetShelfProcessesItem,
    ShelfCreateRequest, ShelfForInspectionOut, ShelfForReturnOut, ShelfForReturnQuery, ShelfListOut,
    ShelfListQuery, ShelfOut, ShelfProcessMappingOut, ShelfUpdateRequest,
};
use super::model::{TShelf, TShelfWithLoad};
use super::process_mapping::{
    lists_processes, raw_ids, sets_processes, ListProcessesFacts, SetProcessesFacts,
};
use super::service::{
    count_for, creates_shelf, deletes_shelf, gets_shelf, ids_of, lists_all_mappings,
    lists_for_inspection, lists_for_return, lists_shelves, mappings_seen, named_zone, seen,
    updates_shelf, CreateShelfFacts, DeleteShelfFacts, ForReturnFacts, ListShelvesFacts, ShelfAsk,
    UpdateShelfFacts,
};
use crate::auth::{CurrentUser, Role};
use crate::error::ErrorCode;
use crate::flow::{absent, present, Next};
use crate::laws::is_page;
use crate::mapping::{ids_in, missing_of};
use crate::text::{
    decimal, list_text, non_blank, opt_view, parsed_i64, trimmed, unicode_uppercase,
};
use vstd::prelude::*;

verus! {

/// The shelf is told with its own data.
pub open spec fn has_data_of(o: ShelfOut, s: TShelf) -> bool {
    &&& o.id == s.id && o.code == s.code && o.name == s.name && o.zone == s.zone && o.location
        == s.location
    &&& o.is_active == s.is_active && o.display_order == s.display_order && o.version == s.version
        && o.created_at == s.created_at && o.updated_at == s.updated_at
}

/// There are two zones, named in large or small letters, with space around or
/// without.
pub proof fn there_are_two_zones(s: Seq<char>)
    ensures
        named_zone(s) is Some <==> unicode_uppercase(trimmed(s)) == "PRODUCTION"@
            || unicode_uppercase(trimmed(s)) == "INSPECTION"@,
        named_zone(s) matches Some(z) ==> z == unicode_uppercase(trimmed(s)),
{
}

/// The number of accounts of a shelf is that of its own row; of several the last
/// counts.
pub proof fn accounts_are_of_the_own_row(rows: Seq<(i64, i64)>, k: int)
    requires
        0 <= k < rows.len(),
        forall|j: int| k < j < rows.len() ==> (#[trigger] rows[j]).0 != rows[k].0,
    ensures
        count_for(rows, rows[k].0) == rows[k].1,
    decreases rows.len(),
{
    let last = rows.len() - 1;
    if k < last {
        assert(rows[last].0 != rows[k].0);
        accounts_are_of_the_own_row(rows.drop_last(), k);
    }
}

/// A shelf without a row has no accounts.
pub proof fn shelves_without_a_row_have_no_accounts(rows: Seq<(i64, i64)>, id: i64)
    requires
        forall|j: int| 0 <= j < rows.len() ==> (#[trigger] rows[j]).0 != id,
    ensures
        count_for(rows, id) == 0,
    decreases rows.len(),
{
    if rows.len() > 0 {
        assert(rows[rows.len() - 1].0 != id);
        shelves_without_a_row_have_no_accounts(rows.drop_last(), id);
    }
}

/// Everyone who is signed in gets the page of shelves that was asked for: the
/// same search in the list and in the count, each shelf with its own data and the
/// number of its accounts.
pub proof fn list_shows_the_page_asked_for(
    query: ShelfListQuery,
    current: CurrentUser,
    f: ListShelvesFacts,
    n: Next<ShelfAsk, ShelfListOut>,
)
    requires
        lists_shelves(query, current, f, n),
    ensures
        n.is_refused(ErrorCode::Forbidden) <==> current.roles@.len() == 0,
        n matches Next::Done(Err(e)) ==> e.code is Forbidden,
        n matches Next::Ask(a) ==> match a {
            ShelfAsk::List { code_like, zone, is_active, limit, offset } => {
                &&& f.rows is None && is_active == query.is_active
                &&& opt_view(code_like) == non_blank(opt_view(query.code_like))
                &&& opt_view(zone) == non_blank(opt_view(query.zone))
                &&& is_page(query.limit, query.offset, limit, offset)
            },
            ShelfAsk::Count { code_like, zone, is_active } => f.total is None && is_active
                == query.is_active && opt_view(code_like) == non_blank(opt_view(query.code_like))
                && opt_view(zone) == non_blank(opt_view(query.zone)),
            ShelfAsk::AccountCounts { ids } => f.accounts is None && ids@.len() == f.rows->0@.len()
                && forall|i: int|
                0 <= i < ids@.len() ==> #[trigger] ids@[i] == f.rows->0@[i].id,
            _ => false,
        },
        n matches Next::Done(Ok(out)) ==> {
            &&& f.rows is Some && f.total == Some(out.total)
            &&& is_page(query.limit, query.offset, out.limit, out.offset)
            &&& out.items@.len() == f.rows->0@.len()
            &&& forall|i: int|
                0 <= i < out.items@.len() ==> has_data_of(#[trigger] out.items@[i], f.rows->0@[i])
            &&& f.accounts is Some ==> forall|i: int|
                0 <= i < out.items@.len() ==> (#[trigger] out.items@[i]).account_count == count_for(
                    f.accounts->0@,
                    f.rows->0@[i].id,
                )
        },
{
    if f.rows is Some {
        assert(ids_of(f.rows->0@).len() == f.rows->0@.len());
    }
}

/// A shelf is told to callers who are signed in and may see it; its accounts are
/// not counted then.
pub proof fn get_shows_a_shelf_that_may_be_seen(
    id: i64,
    current: CurrentUser,
    found: Option<Option<TShelf>>,
    n: Next<ShelfAsk, ShelfOut>,
)
    requires
        gets_shelf(id, current, found, n),
    ensures
        n.is_refused(ErrorCode::Forbidden) <==> current.roles@.len() == 0,
        n matches Next::Ask(a) ==> found is None && (a matches ShelfAsk::ById { id: i } && i == id),
        n.is_refused(ErrorCode::BizShelfNotFound) <==> current.roles@.len() > 0 && absent(found),
        n.is_refused(ErrorCode::ShelfMismatch) <==> current.roles@.len() > 0 && present(found)
            && !current.sees_shelf(found->0->0.id),
        n.is_ok() <==> current.roles@.len() > 0 && present(found) && current.sees_shelf(
            found->0->0.id,
        ),
        n matches Next::Done(Ok(o)) ==> has_data_of(o, found->0->0) && o.account_count == 0,
        n matches Next::Done(Err(e)) ==> e.code is Forbidden || e.code is BizShelfNotFound
            || e.code is ShelfMismatch,
{
}

/// A manager creates a shelf with a code, a name and a zone; it is stored as it
/// was sent, without space around the texts, and told as it was stored.
pub proof fn creation_stores_what_was_sent(
    req: ShelfCreateRequest,
    current: CurrentUser,
    f: CreateShelfFacts,
    n: Next<ShelfAsk, ShelfOut>,
)
    requires
        creates_shelf(req, current, f, n),
    ensures
        !current.roles@.contains(Role::Manager) ==> n.is_refused(ErrorCode::Forbidden),
        current.roles@.contains(Role::Manager) && (trimmed(req.code@).len() == 0 || trimmed(
            req.name@,
        ).len() == 0 || named_zone(req.zone@) is None) ==> n.is_refused(ErrorCode::BizInvalidValue),
        n matches Next::Ask(a) ==> match a {
            ShelfAsk::NewId => f.id is None,
            ShelfAsk::Create { insert } => {
                &&& f.created is None && f.id == Some(insert.id)
                &&& insert.code@ == trimmed(req.code@) && insert.name@ == trimmed(req.name@)
                &&& insert.zone@ == unicode_uppercase(trimmed(req.zone@))
                &&& opt_view(insert.location) == non_blank(opt_view(req.location))
                &&& req.display_order is Some ==> insert.display_order == req.display_order->0
                &&& req.display_order is None ==> insert.display_order == 0
                &&& insert.created_by == current.id
            },
            _ => false,
        },
        n is Ask || n.is_ok() ==> current.roles@.contains(Role::Manager) && trimmed(
            req.code@,
        ).len() > 0 && trimmed(req.name@).len() > 0 && named_zone(req.zone@) is Some,
        current.roles@.contains(Role::Manager) && trimmed(req.code@).len() > 0 && trimmed(
            req.name@,
        ).len() > 0 && named_zone(req.zone@) is Some && f.id is Some && f.created is Some ==> {
            &&& f.created->0 is Ok ==> n.is_ok() && has_data_of(
                n->Done_0->Ok_0,
                f.created->0->Ok_0,
            ) && n->Done_0->Ok_0.account_count == 0
            &&& f.created->0 is Err && f.created->0->Err_0.sqlstate is Some
                && f.created->0->Err_0.sqlstate->0@ == "23505"@ ==> n.is_refused(
                ErrorCode::BizShelfDuplicateCode,
            )
            &&& f.created->0 is Err && !(f.created->0->Err_0.sqlstate is Some
                && f.created->0->Err_0.sqlstate->0@ == "23505"@) ==> (n matches Next::Done(Err(e))
                && e == f.created->0->Err_0.error)
        },
{
}

/// A manager changes a shelf at the version that was read; only what the request
/// names is set. Afterwards the shelf is read back.
pub proof fn update_sets_what_the_request_names(
    id: i64,
    req: ShelfUpdateRequest,
    current: CurrentUser,
    f: UpdateShelfFacts,
    n: Next<ShelfAsk, ShelfOut>,
)
    requires
        updates_shelf(id, req, current, f, n),
    ensures
        !current.roles@.contains(Role::Manager) ==> n.is_refused(ErrorCode::Forbidden),
        current.roles@.contains(Role::Manager) && absent(f.current) ==> n.is_refused(
            ErrorCode::BizShelfNotFound,
        ),
        current.roles@.contains(Role::Manager) && present(f.current) && req.name is Some && trimmed(
            req.name->0@,
        ).len() == 0 ==> n.is_refused(ErrorCode::BizInvalidValue),
        n matches Next::Ask(a) ==> match a {
            ShelfAsk::ToChange { id: i } => i == id && f.current is None,
            ShelfAsk::Update { id: i, version, patch, updated_by } => {
                &&& f.affected is None && i == id && version == f.current->0->0.version
                    && updated_by == current.id
                &&& patch.name is Some <==> req.name is Some
                &&& req.name is Some ==> patch.name->0@ == trimmed(req.name->0@)
                    && patch.name->0@.len() > 0
                &&& patch.set_location <==> req.location is Some
                &&& present(req.location) ==> patch.location is Some && patch.location->0@
                    == trimmed(req.location->0->0@)
                &&& absent(req.location) ==> patch.location is None
                &&& patch.display_order == req.display_order
            },
            ShelfAsk::ById { id: i } => i == id && f.shelf is None && f.affected is Some
                && f.affected->0 is Ok && f.affected->0->Ok_0 > 0,
            _ => false,
        },
        n matches Next::Done(Ok(o)) ==> {
            &&& f.affected is Some && f.affected->0 is Ok && f.affected->0->Ok_0 > 0
            &&& present(f.shelf) && has_data_of(o, f.shelf->0->0)
        },
        current.roles@.contains(Role::Manager) && present(f.current) && (req.name is None
            || trimmed(req.name->0@).len() > 0) && f.affected is Some ==> {
            &&& f.affected->0 is Ok && f.affected->0->Ok_0 == 0 ==> n.is_refused(
                ErrorCode::VersionConflict,
            )
            &&& f.affected->0 is Ok && f.affected->0->Ok_0 > 0 && present(f.shelf) ==> n.is_ok()
            &&& f.affected->0 is Err && f.affected->0->Err_0.sqlstate is Some
                && f.affected->0->Err_0.sqlstate->0@ == "23514"@ ==> n.is_refused(
                ErrorCode::BizInvalidValue,
            )
            &&& f.affected->0 is Err && !(f.affected->0->Err_0.sqlstate is Some
                && f.affected->0->Err_0.sqlstate->0@ == "23514"@) ==> (n matches Next::Done(Err(e))
                && e == f.affected->0->Err_0.error)
        },
{
}

/// A manager deletes a shelf with no part in work on it, at the version that was
/// read.
pub proof fn deletion_is_for_empty_shelves(
    id: i64,
    current: CurrentUser,
    f: DeleteShelfFacts,
    n: Next<ShelfAsk, ()>,
)
    requires
        deletes_shelf(id, current, f, n),
    ensures
        n.is_refused(ErrorCode::Forbidden) <==> !current.roles@.contains(Role::Manager),
        n.is_refused(ErrorCode::BizShelfNotFound) <==> current.roles@.contains(Role::Manager)
            && absent(f.current),
        n.is_refused(ErrorCode::BizShelfInUse) <==> current.roles@.contains(Role::Manager)
            && present(f.current) && f.in_use is Some && f.in_use->0 > 0,
        n.is_refused(ErrorCode::VersionConflict) <==> current.roles@.contains(Role::Manager)
            && present(f.current) && f.in_use is Some && f.in_use->0 <= 0 && f.affected == Some(
            0u64,
        ),
        n matches Next::Done(Err(e)) ==> e.code is Forbidden || e.code is BizShelfNotFound
            || e.code is BizShelfInUse || e.code is VersionConflict,
        n matches Next::Ask(a) ==> match a {
            ShelfAsk::ById { id: i } => i == id && f.current is None,
            ShelfAsk::CountInUse { id: i } => i == id && f.in_use is None,
            ShelfAsk::SoftDelete { id: i, version, updated_by } => i == id && version
                == f.current->0->0.version && updated_by == current.id && f.in_use is Some
                && f.in_use->0 <= 0,
            _ => false,
        },
        n.is_ok() <==> current.roles@.contains(Role::Manager) && present(f.current)
            && f.in_use is Some && f.in_use->0 <= 0 && f.affected is Some && f.affected->0 > 0,
{
}

/// The shelves that a caller sees are those that the caller may see, all of them
/// and in their order.
pub proof fn seen_are_those_that_may_be_seen(rows: Seq<TShelfWithLoad>, current: CurrentUser)
    ensures
        seen(rows, current) == rows.filter(|s: TShelfWithLoad| current.sees_shelf(s.id)),
    decreases rows.len(),
{
    reveal(Seq::filter);
    if rows.len() > 0 {
        seen_are_those_that_may_be_seen(rows.drop_last(), current);
    }
}

/// Parts can be brought back by managers, clerks, shelf accounts and programmers,
/// for a process that is there, if one is named, to the production shelves that
/// the caller may see, as they were read; the first of them is recommended.
pub proof fn return_offers_the_shelves_seen(
    query: ShelfForReturnQuery,
    current: CurrentUser,
    f: ForReturnFacts,
    n: Next<ShelfAsk, ShelfForReturnOut>,
)
    requires
        lists_for_return(query, current, f, n),
    ensures
        n.is_refused(ErrorCode::Forbidden) <==> !current.roles@.contains(Role::Manager)
            && !current.roles@.contains(Role::Clerk) && !current.roles@.contains(Role::ShelfAccount)
            && !current.roles@.contains(Role::CncProgrammer),
        n matches Next::Done(Err(e)) ==> e.code is Forbidden || e.code is BizInvalidValue
            || e.code is BizProcessNotFound,
        n.is_refused(ErrorCode::BizInvalidValue) ==> non_blank(
            opt_view(query.next_process_id),
        ) is Some && parsed_i64(non_blank(opt_view(query.next_process_id))->0) is None,
        n.is_refused(ErrorCode::BizProcessNotFound) ==> non_blank(
            opt_view(query.next_process_id),
        ) is Some && f.process_exists == Some(false),
        n matches Next::Ask(a) ==> match a {
            ShelfAsk::ProcessExists { process_id } => f.process_exists is None && non_blank(
                opt_view(query.next_process_id),
            ) is Some && parsed_i64(non_blank(opt_view(query.next_process_id))->0) == Some(
                process_id,
            ),
            ShelfAsk::ProductionShelves => f.shelves is None,
            _ => false,
        },
        n is Ask && n->Ask_0 is ProductionShelves || n.is_ok() ==> (non_blank(
            opt_view(query.next_process_id),
        ) is Some ==> parsed_i64(non_blank(opt_view(query.next_process_id))->0) is Some
            && f.process_exists == Some(true)),
        n matches Next::Done(Ok(out)) ==> {
            let rows = f.shelves->0@.filter(|s: TShelfWithLoad| current.sees_shelf(s.id));
            &&& f.shelves is Some && out.items@.len() == rows.len()
            &&& forall|i: int|
                0 <= i < rows.len() ==> {
                    let o = #[trigger] out.items@[i];
                    &&& o.id == rows[i].id && o.code == rows[i].code && o.name == rows[i].name
                        && o.zone == rows[i].zone && o.location == rows[i].location
                    &&& o.current_load == rows[i].current_load
                    &&& o.is_recommended <==> i == 0
                }
        },
        (current.roles@.contains(Role::Manager) || current.roles@.contains(Role::Clerk)
            || current.roles@.contains(Role::ShelfAccount) || current.roles@.contains(
            Role::CncProgrammer,
        )) && non_blank(opt_view(query.next_process_id)) is None && f.shelves is Some
            ==> n.is_ok(),
{
    if f.shelves is Some {
        seen_are_those_that_may_be_seen(f.shelves->0@, current);
    }
}

/// Everyone who is signed in gets the active inspection shelves, as they were
/// read.
pub proof fn inspection_lists_active_inspection_shelves(
    current: CurrentUser,
    rows: Option<Vec<TShelf>>,
    n: Next<ShelfAsk, ShelfForInspectionOut>,
)
    requires
        lists_for_inspection(current, rows, n),
    ensures
        n.is_refused(ErrorCode::Forbidden) <==> current.roles@.len() == 0,
        n matches Next::Ask(a) ==> rows is None && (a matches ShelfAsk::List {
            code_like,
            zone,
            is_active,
            limit,
            offset,
        } && code_like is None && zone is Some && zone->0@ == "INSPECTION"@ && is_active == Some(
            true,
        ) && limit == 500 && offset == 0),
        n.is_ok() <==> current.roles@.len() > 0 && rows is Some,
        n matches Next::Done(Ok(out)) ==> out.items@.len() == rows->0@.len() && forall|i: int|
            0 <= i < out.items@.len() ==> {
                let o = #[trigger] out.items@[i];
                let s = rows->0@[i];
                &&& o.id == s.id && o.code == s.code && o.name == s.name && o.zone == s.zone
                    && o.location == s.location && o.is_active == s.is_active
            },
{
}

/// The mappings that a caller sees are those of the shelves that the caller may
/// see, all of them and in their order.
pub proof fn mappings_are_of_shelves_seen(
    mappings: Seq<AllShelfProcessMappingItem>,
    current: CurrentUser,
)
    ensures
        mappings_seen(mappings, current) == mappings.filter(
            |m: AllShelfProcessMappingItem| current.sees_shelf(m.shelf_id),
        ),
    decreases mappings.len(),
{
    reveal(Seq::filter);
    if mappings.len() > 0 {
        mappings_are_of_shelves_seen(mappings.drop_last(), current);
    }
}

/// Everyone who is signed in gets the mappings of the shelves that the caller may
/// see.
pub proof fn all_mappings_of_shelves_seen_are_listed(
    current: CurrentUser,
    rows: Option<Vec<AllShelfProcessMappingItem>>,
    n: Next<ShelfAsk, AllShelfProcessMappingOut>,
)
    requires
        lists_all_mappings(current, rows, n),
    ensures
        n.is_refused(ErrorCode::Forbidden) <==> current.roles@.len() == 0,
        n matches Next::Ask(a) ==> rows is None && a is AllMappings,
        n.is_ok() <==> current.roles@.len() > 0 && rows is Some,
        n matches Next::Done(Ok(out)) ==> out.items@ == rows->0@.filter(
            |m: AllShelfProcessMappingItem| current.sees_shelf(m.shelf_id),
        ),
{
    if rows is Some {
        mappings_are_of_shelves_seen(rows->0@, current);
    }
}

/// The processes of a shelf are told to callers who are signed in and may see it,
/// as they were read.
pub proof fn processes_are_listed_as_read(
    shelf_id: i64,
    current: CurrentUser,
    f: ListProcessesFacts,
    n: Next<ShelfAsk, ShelfProcessMappingOut>,
)
    requires
        lists_processes(shelf_id, current, f, n),
    ensures
        n.is_refused(ErrorCode::Forbidden) <==> current.roles@.len() == 0,
        n.is_refused(ErrorCode::BizShelfNotFound) <==> current.roles@.len() > 0 && absent(f.shelf),
        n.is_refused(ErrorCode::ShelfMismatch) <==> current.roles@.len() > 0 && present(f.shelf)
            && !current.sees_shelf(f.shelf->0->0.id),
        n matches Next::Ask(a) ==> match a {
            ShelfAsk::ById { id } => id == shelf_id && f.shelf is None,
            ShelfAsk::MappingsOf { shelf_id: s } => s == f.shelf->0->0.id && f.rows is None,
            _ => false,
        },
        n.is_ok() <==> current.roles@.len() > 0 && present(f.shelf) && current.sees_shelf(
            f.shelf->0->0.id,
        ) && f.rows is Some,
        n matches Next::Done(Ok(out)) ==> out.items@ == f.rows->0@,
{
}

/// Setting the processes of a shelf: by a manager, for a shelf that is there, with
/// ids that are numbers and processes that are all there; then the mappings of the
/// shelf are deleted, and one is stored for each item.
pub proof fn set_checks_before_it_writes(
    shelf_id: i64,
    items: Seq<SetShelfProcessesItem>,
    current: CurrentUser,
    f: SetProcessesFacts,
    n: Next<ShelfAsk, ()>,
)
    requires
        sets_processes(shelf_id, items, current, f, n),
    ensures
        n.is_refused(ErrorCode::Forbidden) <==> !current.roles@.contains(Role::Manager),
        n.is_refused(ErrorCode::BizShelfNotFound) <==> current.roles@.contains(Role::Manager)
            && absent(f.shelf),
        n.is_refused(ErrorCode::BizInvalidValue) <==> current.roles@.contains(Role::Manager)
            && present(f.shelf) && exists|i: int|
            0 <= i < items.len() && parsed_i64((#[trigger] items[i]).process_id@) is None,
        n.is_refused(ErrorCode::BizShelfProcessProcessNotFound) ==> f.existing is Some
            && f.existing->0@.len() != items.len(),
        n matches Next::Ask(a) ==> match a {
            ShelfAsk::ById { id } => id == shelf_id && f.shelf is None,
            ShelfAsk::ExistingProcesses { ids } => f.existing is None && ids@.len() == items.len()
                && forall|i: int|
                0 <= i < items.len() ==> parsed_i64((#[trigger] items[i]).process_id@) == Some(
                    ids@[i],
                ),
            ShelfAsk::ClearMappings { shelf_id: s } => s == shelf_id && !f.cleared && (items.len()
                == 0 || (f.existing is Some && f.existing->0@.len() == items.len())),
            ShelfAsk::InsertMappings { rows, created_by } => {
                &&& f.cleared && !f.inserted && created_by == current.id
                &&& rows@.len() == items.len() && items.len() > 0
                &&& forall|i: int|
                    0 <= i < items.len() ==> parsed_i64((#[trigger] items[i]).process_id@) == Some(
                        rows@[i].process_id,
                    ) && rows@[i].sort_order == items[i].sort_order && rows@[i].shelf_id
                        == f.shelf->0->0.id
                &&& f.existing is Some && f.existing->0@.len() == items.len()
            },
            _ => false,
        },
        n.is_ok() ==> current.roles@.contains(Role::Manager) && present(f.shelf) && f.cleared && (
        items.len() == 0 || f.inserted),
{
    let raw = super::process_mapping::raw_ids(items);
    if crate::mapping::all_ids(raw) {
        assert forall|i: int| 0 <= i < items.len() implies parsed_i64(
            (#[trigger] items[i]).process_id@,
        ) == Some(crate::mapping::ids_in(raw)[i]) by {
            assert(raw[i] == items[i].process_id);
        }
    } else {
        let i = choose|i: int| 0 <= i < raw.len() && parsed_i64((#[trigger] raw[i])@) is None;
        assert(parsed_i64(items[i].process_id@) is None);
    }
}

// ---------------------------------------------------------------------------
// What a refusal names
// ---------------------------------------------------------------------------

/// A shelf that is not deleted for the parts on it is named with its code and id
/// and with how many parts there are.
pub proof fn shelves_in_use_are_named(
    id: i64,
    current: CurrentUser,
    f: DeleteShelfFacts,
    n: Next<ShelfAsk, ()>,
)
    requires
        deletes_shelf(id, current, f, n),
    ensures
        n.is_refused(ErrorCode::BizShelfInUse) ==> n.fails(
            ErrorCode::BizShelfInUse,
            "货架 "@ + f.current->0->0.code@ + " (id="@ + decimal(f.current->0->0.id as int)
                + ") 仍被 "@ + decimal(f.in_use->0 as int)
                + " 个 IN_PROCESS/INSPECTION/REPAIRING 零件引用，无法软删"@,
        ),
        n.is_refused(ErrorCode::VersionConflict) ==> n.fails(
            ErrorCode::VersionConflict,
            "数据已被他人修改，请刷新后重试"@,
        ),
{
}

/// The processes that do not exist are named, and so is the shelf.
pub proof fn processes_not_found_are_named(
    shelf_id: i64,
    items: Seq<SetShelfProcessesItem>,
    current: CurrentUser,
    f: SetProcessesFacts,
    n: Next<ShelfAsk, ()>,
)
    requires
        sets_processes(shelf_id, items, current, f, n),
    ensures
        n.is_refused(ErrorCode::BizShelfProcessProcessNotFound) ==> n.fails(
            ErrorCode::BizShelfProcessProcessNotFound,
            "process 不存在: "@ + list_text(missing_of(ids_in(raw_ids(items)), f.existing->0@)),
        ),
        absent(f.shelf) && current.is(Role::Manager) ==> n.fails(
            ErrorCode::BizShelfNotFound,
            "shelf "@ + decimal(shelf_id as int) + " 不存在"@,
        ),
{
}

} // verus!
