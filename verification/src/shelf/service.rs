//! The endpoints on shelves.
use super::dto::{
    AllShelfProcessMappingItem, AllShelfProcessMappingOut, ShelfCreateRequest,
    ShelfForInspectionItem, ShelfForInspectionOut, ShelfForReturnItem, ShelfForReturnOut,
    ShelfForReturnQuery, ShelfListOut, ShelfListQuery, ShelfOut, ShelfUpdateRequest,
};
use super::model::{TShelf, TShelfWithLoad};
use super::process_mapping::NewShelfProcessRow;
use super::repo::{ShelfInsert, ShelfPatch};
use crate::auth::{forbidden_text, CurrentUser, Role};
use crate::error::{
    about, conflict_text, fail_about, unique_violation, version_conflict, AppError, DbFault,
    ErrorCode, Problem,
};
use crate::flow::Next;
use crate::paging::{limit_of, offset_of, page_limit, page_offset, MAX_LIMIT};
use crate::patch::{change_required, change_text, is_blank, text_change, trimmed_opt};
use crate::text::{
    copy_opt, decimal, id_text, join3, keep_non_blank, non_blank, opt_view, parse_i64, parsed_i64,
    same, to_uppercase, trim, trimmed, unicode_uppercase,
};
use vstd::prelude::*;
use vstd::string::*;

verus! {

/// What an endpoint on shelves asks for.
pub enum ShelfAsk {
    /// A shelf that is not deleted.
    ById { id: i64 },
    /// The shelf that is about to be changed, not deleted.
    ToChange { id: i64 },
    List {
        code_like: Option<String>,
        zone: Option<String>,
        is_active: Option<bool>,
        limit: i64,
        offset: i64,
    },
    Count { code_like: Option<String>, zone: Option<String>, is_active: Option<bool> },
    /// How many shelf accounts are bound to each of these shelves.
    AccountCounts { ids: Vec<i64> },
    NewId,
    Create { insert: ShelfInsert },
    /// Changing a shelf of this version; the number of rows that changed.
    Update { id: i64, version: i32, patch: ShelfPatch, updated_by: i64 },
    /// How many parts in work are on a shelf.
    CountInUse { id: i64 },
    SoftDelete { id: i64, version: i32, updated_by: i64 },
    ProcessExists { process_id: i64 },
    /// The active production shelves, the emptiest first.
    ProductionShelves,
    /// The mappings of all active shelves.
    AllMappings,
    /// Those of these processes that exist, each once.
    ExistingProcesses { ids: Vec<i64> },
    /// Deleting all mappings of a shelf.
    ClearMappings { shelf_id: i64 },
    InsertMappings { rows: Vec<NewShelfProcessRow>, created_by: i64 },
    /// The mappings of a shelf, in order.
    MappingsOf { shelf_id: i64 },
}

// ---------------------------------------------------------------------------
// Small parts
// ---------------------------------------------------------------------------

/// The error about a shelf that is not there.
pub fn shelf_not_found() -> (r: AppError)
    ensures
        r.says(ErrorCode::BizShelfNotFound, "货架不存在"@),
{
    AppError::biz(ErrorCode::BizShelfNotFound, "货架不存在")
}

/// A shelf as the client gets it.
pub open spec fn shelf_out(s: TShelf, account_count: i64) -> ShelfOut {
    ShelfOut {
        id: s.id,
        code: s.code,
        name: s.name,
        zone: s.zone,
        location: s.location,
        is_active: s.is_active,
        display_order: s.display_order,
        account_count,
        version: s.version,
        created_at: s.created_at,
        updated_at: s.updated_at,
    }
}

/// A shelf as the client gets it.
pub fn to_shelf_out(s: &TShelf, account_count: i64) -> (r: ShelfOut)
    ensures
        r == shelf_out(*s, account_count),
{
    ShelfOut {
        id: s.id,
        code: s.code.clone(),
        name: s.name.clone(),
        zone: s.zone.clone(),
        location: copy_opt(&s.location),
        is_active: s.is_active,
        display_order: s.display_order,
        account_count,
        version: s.version,
        created_at: s.created_at,
        updated_at: s.updated_at,
    }
}

/// The zone that a text names, whatever the case of its letters.
pub open spec fn named_zone(s: Seq<char>) -> Option<Seq<char>> {
    let upper = unicode_uppercase(trimmed(s));
    if upper == "PRODUCTION"@ || upper == "INSPECTION"@ {
        Some(upper)
    } else {
        None
    }
}

/// The message about a zone that there is none of.
pub open spec fn bad_zone_text() -> Seq<char> {
    "zone 必须是 PRODUCTION 或 INSPECTION"@
}

/// The zone that a text names, in capitals.
pub fn check_zone(s: &str) -> (r: Result<String, AppError>)
    ensures
        match named_zone(s@) {
            Some(z) => r matches Ok(t) && t@ == z,
            None => r matches Err(e) && e.says(ErrorCode::BizInvalidValue, bad_zone_text()),
        },
{
    zone_in(to_uppercase(trim(s)))
}

/// The text, where it is the name of a zone.
pub fn zone_in(upper: String) -> (r: Result<String, AppError>)
    ensures
        if upper@ == "PRODUCTION"@ || upper@ == "INSPECTION"@ {
            r matches Ok(t) && t == upper
        } else {
            r matches Err(e) && e.says(ErrorCode::BizInvalidValue, bad_zone_text())
        },
{
    if same(upper.as_str(), "PRODUCTION") || same(upper.as_str(), "INSPECTION") {
        Ok(upper)
    } else {
        Err(AppError::biz(ErrorCode::BizInvalidValue, "zone 必须是 PRODUCTION 或 INSPECTION"))
    }
}

/// The number that goes with an id; of two rows the later counts, and none is
/// nothing.
pub open spec fn count_for(rows: Seq<(i64, i64)>, id: i64) -> i64
    decreases rows.len(),
{
    if rows.len() == 0 {
        0
    } else if rows.last().0 == id {
        rows.last().1
    } else {
        count_for(rows.drop_last(), id)
    }
}

fn find_count(rows: &Vec<(i64, i64)>, id: i64) -> (r: i64)
    ensures
        r == count_for(rows@, id),
{
    let mut k: usize = rows.len();
    assert(rows@.take(k as int) =~= rows@);
    while k > 0
        invariant
            k <= rows@.len(),
            count_for(rows@.take(k as int), id) == count_for(rows@, id),
        decreases k,
    {
        assert(rows@.take(k as int).last() == rows@[k - 1]);
        assert(rows@.take(k as int).drop_last() =~= rows@.take(k - 1));
        if rows[k - 1].0 == id {
            return rows[k - 1].1;
        }
        k = k - 1;
    }
    0
}

/// The message about a shelf that the caller may not see.
pub open spec fn hidden_text(id: i64) -> Seq<char> {
    about("无权访问 shelf "@, id, ""@)
}

pub(crate) fn hidden(id: i64) -> (r: AppError)
    ensures
        r.says(ErrorCode::ShelfMismatch, hidden_text(id)),
{
    fail_about(ErrorCode::ShelfMismatch, "无权访问 shelf ", id, "")
}

// ---------------------------------------------------------------------------
// Reading and writing shelves
// ---------------------------------------------------------------------------

pub struct ShelfService;

/// What is known while shelves are listed.
pub struct ListShelvesFacts {
    pub rows: Option<Vec<TShelf>>,
    pub total: Option<i64>,
    pub accounts: Option<Vec<(i64, i64)>>,
}

/// The ids of some shelves.
pub open spec fn ids_of(rows: Seq<TShelf>) -> Seq<i64> {
    rows.map_values(|s: TShelf| s.id)
}

/// The accounts of the listed shelves; there are none to count for no shelf.
pub open spec fn accounts_known(
    rows: Seq<TShelf>,
    accounts: Option<Vec<(i64, i64)>>,
) -> Option<Seq<(i64, i64)>> {
    if rows.len() == 0 {
        Some(Seq::empty())
    } else {
        match accounts {
            Some(a) => Some(a@),
            None => None,
        }
    }
}

/// How shelves are listed.
pub open spec fn lists_shelves(
    query: ShelfListQuery,
    current: CurrentUser,
    f: ListShelvesFacts,
    n: Next<ShelfAsk, ShelfListOut>,
) -> bool {
    let code = non_blank(opt_view(query.code_like));
    let zone = non_blank(opt_view(query.zone));
    let limit = page_limit(query.limit);
    let offset = page_offset(query.offset);
    if !current.has_some_role() {
        n.fails(ErrorCode::Forbidden, forbidden_text())
    } else {
        match (f.rows, f.total) {
            (None, _) => n matches Next::Ask(
                ShelfAsk::List { code_like, zone: z, is_active, limit: lim, offset: off },
            ) && opt_view(code_like) == code && opt_view(z) == zone && is_active
                == query.is_active && lim == limit && off == offset,
            (Some(_), None) => n matches Next::Ask(
                ShelfAsk::Count { code_like, zone: z, is_active },
            ) && opt_view(code_like) == code && opt_view(z) == zone && is_active
                == query.is_active,
            (Some(rows), Some(total)) => match accounts_known(rows@, f.accounts) {
                None => n matches Next::Ask(ShelfAsk::AccountCounts { ids }) && ids@ == ids_of(
                    rows@,
                ),
                Some(accounts) => {
                    &&& n matches Next::Done(Ok(out))
                    &&& out.total == total
                    &&& out.limit == limit
                    &&& out.offset == offset
                    &&& out.items@ == rows@.map_values(
                        |s: TShelf| shelf_out(s, count_for(accounts, s.id)),
                    )
                },
            },
        }
    }
}

/// How one shelf is read. Its accounts are not counted.
pub open spec fn gets_shelf(
    id: i64,
    current: CurrentUser,
    found: Option<Option<TShelf>>,
    n: Next<ShelfAsk, ShelfOut>,
) -> bool {
    if !current.has_some_role() {
        n.fails(ErrorCode::Forbidden, forbidden_text())
    } else {
        match found {
            None => n.asks(ShelfAsk::ById { id }),
            Some(None) => n.fails(ErrorCode::BizShelfNotFound, "货架不存在"@),
            Some(Some(s)) => if !current.sees_shelf(s.id) {
                n.fails(ErrorCode::ShelfMismatch, hidden_text(s.id))
            } else {
                n.succeeds(shelf_out(s, 0))
            },
        }
    }
}

/// What is known while a shelf is created.
pub struct CreateShelfFacts {
    pub id: Option<i64>,
    pub created: Option<Result<TShelf, DbFault>>,
}

/// What is wrong with a new shelf.
pub open spec fn create_problem(req: ShelfCreateRequest) -> Option<Problem> {
    if trimmed(req.code@).len() == 0 {
        Some((ErrorCode::BizInvalidValue, "code 不能为空"@))
    } else if trimmed(req.name@).len() == 0 {
        Some((ErrorCode::BizInvalidValue, "name 不能为空"@))
    } else if named_zone(req.zone@) is None {
        Some((ErrorCode::BizInvalidValue, bad_zone_text()))
    } else {
        None
    }
}

/// The shelf to be stored.
pub open spec fn inserts_shelf(
    insert: ShelfInsert,
    req: ShelfCreateRequest,
    id: i64,
    by: i64,
) -> bool {
    &&& insert.id == id
    &&& insert.code@ == trimmed(req.code@)
    &&& insert.name@ == trimmed(req.name@)
    &&& Some(insert.zone@) == named_zone(req.zone@)
    &&& opt_view(insert.location) == non_blank(opt_view(req.location))
    &&& insert.display_order == match req.display_order {
        Some(d) => d,
        None => 0,
    }
    &&& insert.created_by == by
}

/// How a shelf is created.
pub open spec fn creates_shelf(
    req: ShelfCreateRequest,
    current: CurrentUser,
    f: CreateShelfFacts,
    n: Next<ShelfAsk, ShelfOut>,
) -> bool {
    if !current.is(Role::Manager) {
        n.fails(ErrorCode::Forbidden, forbidden_text())
    } else {
        match create_problem(req) {
            Some(p) => n.fails(p.0, p.1),
            None => match (f.id, f.created) {
                (None, _) => n.asks(ShelfAsk::NewId),
                (Some(id), None) => n matches Next::Ask(ShelfAsk::Create { insert })
                    && inserts_shelf(insert, req, id, current.id),
                (Some(_), Some(Err(fault))) => if fault.has_state(unique_violation()) {
                    n.fails(
                        ErrorCode::BizShelfDuplicateCode,
                        "code '"@ + trimmed(req.code@) + "' 已被占用"@,
                    )
                } else {
                    n.fails_with(fault.error)
                },
                (Some(_), Some(Ok(s))) => n.succeeds(shelf_out(s, 0)),
            },
        }
    }
}

/// What is known while a shelf is changed.
pub struct UpdateShelfFacts {
    pub current: Option<Option<TShelf>>,
    pub affected: Option<Result<u64, DbFault>>,
    pub shelf: Option<Option<TShelf>>,
}

/// What of a shelf is changed.
pub open spec fn patches_shelf(patch: ShelfPatch, req: ShelfUpdateRequest) -> bool {
    &&& opt_view(patch.name) == trimmed_opt(req.name)
    &&& (patch.set_location, opt_view(patch.location)) == text_change(req.location)
    &&& patch.display_order == req.display_order
}

/// The SQLSTATE of a violated check.
pub open spec fn check_violation() -> Seq<char> {
    "23514"@
}

/// How a shelf is changed. Its code and its zone never are.
pub open spec fn updates_shelf(
    id: i64,
    req: ShelfUpdateRequest,
    current: CurrentUser,
    f: UpdateShelfFacts,
    n: Next<ShelfAsk, ShelfOut>,
) -> bool {
    if !current.is(Role::Manager) {
        n.fails(ErrorCode::Forbidden, forbidden_text())
    } else {
        match f.current {
            None => n.asks(ShelfAsk::ToChange { id }),
            Some(None) => n.fails(ErrorCode::BizShelfNotFound, "货架不存在"@),
            Some(Some(s)) => if is_blank(req.name) {
                n.fails(ErrorCode::BizInvalidValue, "name 不能为空"@)
            } else {
                match f.affected {
                    None => n matches Next::Ask(
                        ShelfAsk::Update { id: i, version, patch, updated_by },
                    ) && i == id && version == s.version && updated_by == current.id
                        && patches_shelf(patch, req),
                    Some(Err(fault)) => if fault.has_state(check_violation()) {
                        n.fails(ErrorCode::BizInvalidValue, bad_zone_text())
                    } else {
                        n.fails_with(fault.error)
                    },
                    Some(Ok(rows)) => if rows == 0 {
                        n.fails(ErrorCode::VersionConflict, conflict_text())
                    } else {
                        gets_shelf(id, current, f.shelf, n)
                    },
                }
            },
        }
    }
}

/// What is known while a shelf is deleted.
pub struct DeleteShelfFacts {
    pub current: Option<Option<TShelf>>,
    pub in_use: Option<i64>,
    pub affected: Option<u64>,
}

/// The message about a shelf with parts in work on it.
pub open spec fn shelf_in_use_text(s: TShelf, in_use: i64) -> Seq<char> {
    "货架 "@ + s.code@ + " (id="@ + decimal(s.id as int) + ") 仍被 "@ + decimal(in_use as int)
        + " 个 IN_PROCESS/INSPECTION/REPAIRING 零件引用，无法软删"@
}

/// How a shelf is deleted: only one with no part in work on it.
pub open spec fn deletes_shelf(
    id: i64,
    current: CurrentUser,
    f: DeleteShelfFacts,
    n: Next<ShelfAsk, ()>,
) -> bool {
    if !current.is(Role::Manager) {
        n.fails(ErrorCode::Forbidden, forbidden_text())
    } else {
        match (f.current, f.in_use, f.affected) {
            (None, _, _) => n.asks(ShelfAsk::ById { id }),
            (Some(None), _, _) => n.fails(ErrorCode::BizShelfNotFound, "货架不存在"@),
            (Some(Some(_)), None, _) => n.asks(ShelfAsk::CountInUse { id }),
            (Some(Some(s)), Some(count), affected) => if count > 0 {
                n.fails(ErrorCode::BizShelfInUse, shelf_in_use_text(s, count))
            } else {
                match affected {
                    None => n.asks(
                        ShelfAsk::SoftDelete { id, version: s.version, updated_by: current.id },
                    ),
                    Some(rows) => if rows == 0 {
                        n.fails(ErrorCode::VersionConflict, conflict_text())
                    } else {
                        n.succeeds(())
                    },
                }
            },
        }
    }
}

fn collect_ids(rows: &Vec<TShelf>) -> (r: Vec<i64>)
    ensures
        r@ == ids_of(rows@),
{
    let mut out: Vec<i64> = Vec::new();
    let mut i: usize = 0;
    while i < rows.len()
        invariant
            i <= rows@.len(),
            out@ == ids_of(rows@).take(i as int),
        decreases rows@.len() - i,
    {
        out.push(rows[i].id);
        i = i + 1;
        assert(out@ =~= ids_of(rows@).take(i as int));
    }
    assert(out@ =~= ids_of(rows@));
    out
}

impl ShelfService {
    /// A page of shelves with the number of accounts bound to each.
    pub fn list_shelves(query: &ShelfListQuery, current: &CurrentUser, f: &ListShelvesFacts) -> (n:
        Next<ShelfAsk, ShelfListOut>)
        ensures
            lists_shelves(*query, *current, *f, n),
    {
        match current.require_signed_in() {
            Err(e) => {
                return Next::Done(Err(e));
            },
            Ok(()) => {},
        }
        let limit: i64 = limit_of(query.limit);
        let offset: i64 = offset_of(query.offset);
        let code_like = keep_non_blank(&query.code_like);
        let zone = keep_non_blank(&query.zone);
        let rows = match &f.rows {
            None => {
                return Next::Ask(
                    ShelfAsk::List { code_like, zone, is_active: query.is_active, limit, offset },
                );
            },
            Some(r) => r,
        };
        let total: i64 = match f.total {
            None => {
                return Next::Ask(
                    ShelfAsk::Count { code_like, zone, is_active: query.is_active },
                );
            },
            Some(t) => t,
        };
        let none: Vec<(i64, i64)> = Vec::new();
        let accounts: &Vec<(i64, i64)> = if rows.len() == 0 {
            &none
        } else {
            match &f.accounts {
                None => {
                    return Next::Ask(ShelfAsk::AccountCounts { ids: collect_ids(rows) });
                },
                Some(a) => a,
            }
        };
        assert(accounts_known(rows@, f.accounts) == Some(accounts@));
        let ghost shown = rows@.map_values(
            |s: TShelf| shelf_out(s, count_for(accounts@, s.id)),
        );
        let mut items: Vec<ShelfOut> = Vec::new();
        let mut i: usize = 0;
        while i < rows.len()
            invariant
                i <= rows@.len(),
                shown == rows@.map_values(
                    |s: TShelf| shelf_out(s, count_for(accounts@, s.id)),
                ),
                items@ == shown.take(i as int),
            decreases rows@.len() - i,
        {
            let count: i64 = find_count(accounts, rows[i].id);
            items.push(to_shelf_out(&rows[i], count));
            i = i + 1;
            assert(items@ =~= shown.take(i as int));
        }
        assert(items@ =~= shown);
        Next::Done(Ok(ShelfListOut { items, total, limit, offset }))
    }

    /// One shelf that the caller may see.
    pub fn get_shelf(id: i64, current: &CurrentUser, found: &Option<Option<TShelf>>) -> (n: Next<
        ShelfAsk,
        ShelfOut,
    >)
        ensures
            gets_shelf(id, *current, *found, n),
    {
        match current.require_signed_in() {
            Err(e) => {
                return Next::Done(Err(e));
            },
            Ok(()) => {},
        }
        match found {
            None => Next::Ask(ShelfAsk::ById { id }),
            Some(None) => Next::Done(Err(shelf_not_found())),
            Some(Some(s)) => if !current.can_access_shelf(s.id) {
                Next::Done(Err(hidden(s.id)))
            } else {
                Next::Done(Ok(to_shelf_out(s, 0)))
            },
        }
    }

    /// Creates a shelf with a code of its own.
    pub fn create_shelf(
        req: &ShelfCreateRequest,
        current: &CurrentUser,
        f: &CreateShelfFacts,
    ) -> (n: Next<ShelfAsk, ShelfOut>)
        ensures
            creates_shelf(*req, *current, *f, n),
    {
        match current.require_role(Role::Manager) {
            Err(e) => {
                return Next::Done(Err(e));
            },
            Ok(()) => {},
        }
        let code = trim(req.code.as_str());
        if code.is_empty() {
            return Next::Done(Err(AppError::biz(ErrorCode::BizInvalidValue, "code 不能为空")));
        }
        let name = trim(req.name.as_str());
        if name.is_empty() {
            return Next::Done(Err(AppError::biz(ErrorCode::BizInvalidValue, "name 不能为空")));
        }
        let zone = match check_zone(req.zone.as_str()) {
            Err(e) => {
                return Next::Done(Err(e));
            },
            Ok(z) => z,
        };
        let location = keep_non_blank(&req.location);
        let display_order: i32 = match req.display_order {
            Some(d) => d,
            None => 0,
        };
        let id: i64 = match f.id {
            None => {
                return Next::Ask(ShelfAsk::NewId);
            },
            Some(id) => id,
        };
        match &f.created {
            None => Next::Ask(
                ShelfAsk::Create {
                    insert: ShelfInsert {
                        id,
                        code: code.to_owned(),
                        name: name.to_owned(),
                        zone,
                        location,
                        display_order,
                        created_by: current.id,
                    },
                },
            ),
            Some(Err(fault)) => if fault.is_state("23505") {
                let message = join3("code '", code, "' 已被占用");
                Next::Done(Err(AppError::biz(ErrorCode::BizShelfDuplicateCode, message.as_str())))
            } else {
                Next::Done(Err(fault.error.copy()))
            },
            Some(Ok(s)) => Next::Done(Ok(to_shelf_out(s, 0))),
        }
    }

    /// Changes the name, location or display order of a shelf.
    pub fn update_shelf(
        id: i64,
        req: &ShelfUpdateRequest,
        current: &CurrentUser,
        f: &UpdateShelfFacts,
    ) -> (n: Next<ShelfAsk, ShelfOut>)
        ensures
            updates_shelf(id, *req, *current, *f, n),
    {
        match current.require_role(Role::Manager) {
            Err(e) => {
                return Next::Done(Err(e));
            },
            Ok(()) => {},
        }
        let shelf = match &f.current {
            None => {
                return Next::Ask(ShelfAsk::ToChange { id });
            },
            Some(None) => {
                return Next::Done(Err(shelf_not_found()));
            },
            Some(Some(s)) => s,
        };
        let name = match change_required(&req.name) {
            Err(()) => {
                return Next::Done(
                    Err(AppError::biz(ErrorCode::BizInvalidValue, "name 不能为空")),
                );
            },
            Ok(v) => v,
        };
        let (set_location, location) = change_text(&req.location);
        match &f.affected {
            None => Next::Ask(
                ShelfAsk::Update {
                    id,
                    version: shelf.version,
                    patch: ShelfPatch {
                        name,
                        set_location,
                        location,
                        display_order: req.display_order,
                    },
                    updated_by: current.id,
                },
            ),
            Some(Err(fault)) => if fault.is_state("23514") {
                Next::Done(
                    Err(
                        AppError::biz(
                            ErrorCode::BizInvalidValue,
                            "zone 必须是 PRODUCTION 或 INSPECTION",
                        ),
                    ),
                )
            } else {
                Next::Done(Err(fault.error.copy()))
            },
            Some(Ok(rows)) => if *rows == 0 {
                Next::Done(Err(version_conflict()))
            } else {
                Self::get_shelf(id, current, &f.shelf)
            },
        }
    }

    /// Deletes a shelf with no part in work on it: the row is kept, marked as
    /// deleted and not active.
    pub fn soft_delete_shelf(id: i64, current: &CurrentUser, f: &DeleteShelfFacts) -> (n: Next<
        ShelfAsk,
        (),
    >)
        ensures
            deletes_shelf(id, *current, *f, n),
    {
        match current.require_role(Role::Manager) {
            Err(e) => {
                return Next::Done(Err(e));
            },
            Ok(()) => {},
        }
        let shelf = match &f.current {
            None => {
                return Next::Ask(ShelfAsk::ById { id });
            },
            Some(None) => {
                return Next::Done(Err(shelf_not_found()));
            },
            Some(Some(s)) => s,
        };
        match f.in_use {
            None => {
                return Next::Ask(ShelfAsk::CountInUse { id });
            },
            Some(count) => {
                if count > 0 {
                    let mut message = join3("货架 ", shelf.code.as_str(), " (id=");
                    message.append(id_text(shelf.id).as_str());
                    message.append(") 仍被 ");
                    message.append(id_text(count).as_str());
                    message.append(" 个 IN_PROCESS/INSPECTION/REPAIRING 零件引用，无法软删");
                    return Next::Done(
                        Err(AppError::biz(ErrorCode::BizShelfInUse, message.as_str())),
                    );
                }
            },
        }
        match f.affected {
            None => Next::Ask(
                ShelfAsk::SoftDelete { id, version: shelf.version, updated_by: current.id },
            ),
            Some(rows) => if rows == 0 {
                Next::Done(Err(version_conflict()))
            } else {
                Next::Done(Ok(()))
            },
        }
    }
}

// ---------------------------------------------------------------------------
// Choosing a shelf
// ---------------------------------------------------------------------------

/// Managers, clerks, shelf accounts and programmers may put batches back.
pub open spec fn may_return(current: CurrentUser) -> bool {
    current.is(Role::Manager) || current.is(Role::Clerk) || current.is(Role::ShelfAccount)
        || current.is(Role::CncProgrammer)
}

/// What is known while shelves to put a batch back on are listed.
pub struct ForReturnFacts {
    pub process_exists: Option<bool>,
    pub shelves: Option<Vec<TShelfWithLoad>>,
}

/// Those of the shelves that the caller may see, in their order.
pub open spec fn seen(rows: Seq<TShelfWithLoad>, current: CurrentUser) -> Seq<TShelfWithLoad>
    decreases rows.len(),
{
    if rows.len() == 0 {
        rows
    } else if current.sees_shelf(rows.last().id) {
        seen(rows.drop_last(), current).push(rows.last())
    } else {
        seen(rows.drop_last(), current)
    }
}

/// A shelf to put a batch back on; the first of the list is recommended.
pub open spec fn return_item(s: TShelfWithLoad, first: bool) -> ShelfForReturnItem {
    ShelfForReturnItem {
        id: s.id,
        code: s.code,
        name: s.name,
        zone: s.zone,
        location: s.location,
        current_load: s.current_load,
        is_recommended: first,
    }
}

/// The shelves to put a batch back on.
pub open spec fn return_items(rows: Seq<TShelfWithLoad>) -> Seq<ShelfForReturnItem> {
    rows.map(|i: int, s: TShelfWithLoad| return_item(s, i == 0))
}

/// The process that a batch waits for: none, one to be looked up, or no id.
pub enum Wanted {
    Nothing,
    Process(i64),
    NoId,
}

/// The process that is named.
pub open spec fn wanted_process(raw: Option<String>) -> Wanted {
    match non_blank(opt_view(raw)) {
        None => Wanted::Nothing,
        Some(t) => match parsed_i64(t) {
            None => Wanted::NoId,
            Some(id) => Wanted::Process(id),
        },
    }
}

/// The shelves once they are known.
pub open spec fn offers(
    current: CurrentUser,
    shelves: Option<Vec<TShelfWithLoad>>,
    n: Next<ShelfAsk, ShelfForReturnOut>,
) -> bool {
    match shelves {
        None => n.asks(ShelfAsk::ProductionShelves),
        Some(rows) => n matches Next::Done(Ok(out)) && out.items@ == return_items(
            seen(rows@, current),
        ),
    }
}

/// How shelves to put a batch back on are listed.
pub open spec fn lists_for_return(
    query: ShelfForReturnQuery,
    current: CurrentUser,
    f: ForReturnFacts,
    n: Next<ShelfAsk, ShelfForReturnOut>,
) -> bool {
    if !may_return(current) {
        n.fails(ErrorCode::Forbidden, forbidden_text())
    } else {
        match wanted_process(query.next_process_id) {
            Wanted::NoId => n.fails(
                ErrorCode::BizInvalidValue,
                "next_process_id 必须为雪花 ID 字符串"@,
            ),
            Wanted::Process(process_id) => match f.process_exists {
                None => n.asks(ShelfAsk::ProcessExists { process_id }),
                Some(false) => n.fails(
                    ErrorCode::BizProcessNotFound,
                    about("process "@, process_id, " 不存在"@),
                ),
                Some(true) => offers(current, f.shelves, n),
            },
            Wanted::Nothing => offers(current, f.shelves, n),
        }
    }
}

/// A shelf for inspection.
pub open spec fn inspection_item(s: TShelf) -> ShelfForInspectionItem {
    ShelfForInspectionItem {
        id: s.id,
        code: s.code,
        name: s.name,
        zone: s.zone,
        location: s.location,
        is_active: s.is_active,
    }
}

/// How shelves for inspection are listed: the active ones of the zone, for all
/// to see.
pub open spec fn lists_for_inspection(
    current: CurrentUser,
    rows: Option<Vec<TShelf>>,
    n: Next<ShelfAsk, ShelfForInspectionOut>,
) -> bool {
    if !current.has_some_role() {
        n.fails(ErrorCode::Forbidden, forbidden_text())
    } else {
        match rows {
            None => n matches Next::Ask(
                ShelfAsk::List { code_like, zone, is_active, limit, offset },
            ) && code_like is None && opt_view(zone) == Some("INSPECTION"@) && is_active == Some(
                true,
            ) && limit == MAX_LIMIT && offset == 0,
            Some(rows) => n matches Next::Done(Ok(out)) && out.items@ == rows@.map_values(
                |s: TShelf| inspection_item(s),
            ),
        }
    }
}

/// Those of the mappings whose shelf the caller may see, in their order.
pub open spec fn mappings_seen(
    rows: Seq<AllShelfProcessMappingItem>,
    current: CurrentUser,
) -> Seq<AllShelfProcessMappingItem>
    decreases rows.len(),
{
    if rows.len() == 0 {
        rows
    } else if current.sees_shelf(rows.last().shelf_id) {
        mappings_seen(rows.drop_last(), current).push(rows.last())
    } else {
        mappings_seen(rows.drop_last(), current)
    }
}

/// How the mappings of all shelves are listed.
pub open spec fn lists_all_mappings(
    current: CurrentUser,
    rows: Option<Vec<AllShelfProcessMappingItem>>,
    n: Next<ShelfAsk, AllShelfProcessMappingOut>,
) -> bool {
    if !current.has_some_role() {
        n.fails(ErrorCode::Forbidden, forbidden_text())
    } else {
        match rows {
            None => n.asks(ShelfAsk::AllMappings),
            Some(rows) => n matches Next::Done(Ok(out)) && out.items@ == mappings_seen(
                rows@,
                current,
            ),
        }
    }
}

fn offer(current: &CurrentUser, shelves: &Option<Vec<TShelfWithLoad>>) -> (n: Next<
    ShelfAsk,
    ShelfForReturnOut,
>)
    ensures
        offers(*current, *shelves, n),
{
    let rows = match shelves {
        None => {
            return Next::Ask(ShelfAsk::ProductionShelves);
        },
        Some(r) => r,
    };
    let mut items: Vec<ShelfForReturnItem> = Vec::new();
    let mut i: usize = 0;
    assert(rows@.take(0) =~= Seq::<TShelfWithLoad>::empty());
    assert(return_items(Seq::<TShelfWithLoad>::empty()) =~= Seq::<ShelfForReturnItem>::empty());
    while i < rows.len()
        invariant
            i <= rows@.len(),
            items@ == return_items(seen(rows@.take(i as int), *current)),
        decreases rows@.len() - i,
    {
        assert(rows@.take(i + 1).drop_last() =~= rows@.take(i as int));
        let s = &rows[i];
        if current.can_access_shelf(s.id) {
            let ghost before = seen(rows@.take(i as int), *current);
            let first: bool = items.len() == 0;
            let item = ShelfForReturnItem {
                id: s.id,
                code: s.code.clone(),
                name: s.name.clone(),
                zone: s.zone.clone(),
                location: copy_opt(&s.location),
                current_load: s.current_load,
                is_recommended: first,
            };
            items.push(item);
            assert(items@ =~= return_items(before.push(*s)));
        }
        i = i + 1;
    }
    assert(rows@.take(i as int) =~= rows@);
    Next::Done(Ok(ShelfForReturnOut { items }))
}

impl ShelfService {
    /// The production shelves that the caller may put a batch back on, the
    /// emptiest first. The process is checked to exist, and no more.
    pub fn list_for_return(
        query: &ShelfForReturnQuery,
        current: &CurrentUser,
        f: &ForReturnFacts,
    ) -> (n: Next<ShelfAsk, ShelfForReturnOut>)
        ensures
            lists_for_return(*query, *current, *f, n),
    {
        let allowed: [Role; 4] = [
            Role::Manager,
            Role::Clerk,
            Role::ShelfAccount,
            Role::CncProgrammer,
        ];
        proof {
            assert(allowed@[0] == Role::Manager);
            assert(allowed@[1] == Role::Clerk);
            assert(allowed@[2] == Role::ShelfAccount);
            assert(allowed@[3] == Role::CncProgrammer);
            if current.is(Role::Manager) {
                assert(current.is(allowed@[0]));
            }
            if current.is(Role::Clerk) {
                assert(current.is(allowed@[1]));
            }
            if current.is(Role::ShelfAccount) {
                assert(current.is(allowed@[2]));
            }
            if current.is(Role::CncProgrammer) {
                assert(current.is(allowed@[3]));
            }
        }
        match current.require_any_role(&allowed) {
            Err(e) => {
                return Next::Done(Err(e));
            },
            Ok(()) => {},
        }
        match keep_non_blank(&query.next_process_id) {
            None => {},
            Some(t) => match parse_i64(t.as_str()) {
                None => {
                    return Next::Done(
                        Err(
                            AppError::biz(
                                ErrorCode::BizInvalidValue,
                                "next_process_id 必须为雪花 ID 字符串",
                            ),
                        ),
                    );
                },
                Some(process_id) => match f.process_exists {
                    None => {
                        return Next::Ask(ShelfAsk::ProcessExists { process_id });
                    },
                    Some(false) => {
                        return Next::Done(
                            Err(
                                fail_about(
                                    ErrorCode::BizProcessNotFound,
                                    "process ",
                                    process_id,
                                    " 不存在",
                                ),
                            ),
                        );
                    },
                    Some(true) => {},
                },
            },
        }
        offer(current, &f.shelves)
    }

    /// The active shelves for inspection.
    pub fn list_for_inspection(current: &CurrentUser, rows: &Option<Vec<TShelf>>) -> (n: Next<
        ShelfAsk,
        ShelfForInspectionOut,
    >)
        ensures
            lists_for_inspection(*current, *rows, n),
    {
        match current.require_signed_in() {
            Err(e) => {
                return Next::Done(Err(e));
            },
            Ok(()) => {},
        }
        let shelves = match rows {
            None => {
                return Next::Ask(
                    ShelfAsk::List {
                        code_like: None,
                        zone: Some("INSPECTION".to_owned()),
                        is_active: Some(true),
                        limit: MAX_LIMIT,
                        offset: 0,
                    },
                );
            },
            Some(r) => r,
        };
        let ghost shown = shelves@.map_values(|s: TShelf| inspection_item(s));
        let mut items: Vec<ShelfForInspectionItem> = Vec::new();
        let mut i: usize = 0;
        while i < shelves.len()
            invariant
                i <= shelves@.len(),
                shown == shelves@.map_values(|s: TShelf| inspection_item(s)),
                items@ == shown.take(i as int),
            decreases shelves@.len() - i,
        {
            let s = &shelves[i];
            items.push(
                ShelfForInspectionItem {
                    id: s.id,
                    code: s.code.clone(),
                    name: s.name.clone(),
                    zone: s.zone.clone(),
                    location: copy_opt(&s.location),
                    is_active: s.is_active,
                },
            );
            i = i + 1;
            assert(items@ =~= shown.take(i as int));
        }
        assert(items@ =~= shown);
        Next::Done(Ok(ShelfForInspectionOut { items }))
    }

    /// The mappings of all active shelves that the caller may see.
    pub fn list_all_process_mappings(
        current: &CurrentUser,
        rows: &Option<Vec<AllShelfProcessMappingItem>>,
    ) -> (n: Next<ShelfAsk, AllShelfProcessMappingOut>)
        ensures
            lists_all_mappings(*current, *rows, n),
    {
        match current.require_signed_in() {
            Err(e) => {
                return Next::Done(Err(e));
            },
            Ok(()) => {},
        }
        let all = match rows {
            None => {
                return Next::Ask(ShelfAsk::AllMappings);
            },
            Some(r) => r,
        };
        let mut items: Vec<AllShelfProcessMappingItem> = Vec::new();
        let mut i: usize = 0;
        assert(all@.take(0) =~= Seq::<AllShelfProcessMappingItem>::empty());
        while i < all.len()
            invariant
                i <= all@.len(),
                items@ == mappings_seen(all@.take(i as int), *current),
            decreases all@.len() - i,
        {
            assert(all@.take(i + 1).drop_last() =~= all@.take(i as int));
            let m = &all[i];
            if current.can_access_shelf(m.shelf_id) {
                items.push(
                    AllShelfProcessMappingItem {
                        shelf_id: m.shelf_id,
                        shelf_code: m.shelf_code.clone(),
                        process_id: m.process_id,
                        process_code: m.process_code.clone(),
                    },
                );
            }
            i = i + 1;
        }
        assert(all@.take(i as int) =~= all@);
        Next::Done(Ok(AllShelfProcessMappingOut { items }))
    }
}

// ---------------------------------------------------------------------------
// Laws
// ---------------------------------------------------------------------------

/// The caller is offered only shelves that the caller may see; a manager, or a
/// caller bound to every shelf, is offered all of them.
pub proof fn offered_shelves_may_be_seen(rows: Seq<TShelfWithLoad>, current: CurrentUser)
    ensures
        forall|i: int|
            0 <= i < seen(rows, current).len() ==> current.sees_shelf(
                (#[trigger] seen(rows, current)[i]).id,
            ) && rows.contains(seen(rows, current)[i]),
        current.shelf_wildcard || current.is(Role::Manager) ==> seen(rows, current) == rows,
    decreases rows.len(),
{
    if rows.len() > 0 {
        let front = rows.drop_last();
        offered_shelves_may_be_seen(front, current);
        let out = seen(rows, current);
        assert forall|i: int| 0 <= i < out.len() implies current.sees_shelf((#[trigger] out[i]).id)
            && rows.contains(out[i]) by {
            if i < seen(front, current).len() {
                assert(out[i] == seen(front, current)[i]);
                let k = choose|k: int| 0 <= k < front.len() && front[k] == out[i];
                assert(rows[k] == out[i]);
            } else {
                assert(rows[rows.len() - 1] == out[i]);
            }
        }
        assert(front.push(rows.last()) =~= rows);
    }
}

/// Where shelves come by load, exactly one of those offered is recommended, and
/// none offered is emptier.
pub proof fn recommended_shelf_is_the_emptiest(rows: Seq<TShelfWithLoad>, current: CurrentUser)
    requires
        forall|i: int, j: int|
            0 <= i < j < rows.len() ==> (#[trigger] rows[i]).current_load <= (
            #[trigger] rows[j]).current_load,
        seen(rows, current).len() > 0,
    ensures
        ({
            let items = return_items(seen(rows, current));
            &&& items[0].is_recommended
            &&& forall|i: int|
                0 <= i < items.len() ==> items[0].current_load <= (#[trigger] items[i]).current_load
                    && (items[i].is_recommended <==> i == 0)
        }),
{
    lemma_seen_in_order(rows, current);
    let shelves = seen(rows, current);
    let items = return_items(shelves);
    assert forall|i: int| 0 <= i < items.len() implies items[0].current_load <= (
    #[trigger] items[i]).current_load && (items[i].is_recommended <==> i == 0) by {
        assert(items[i] == return_item(shelves[i], i == 0));
        if i > 0 {
            assert(shelves[0].current_load <= shelves[i].current_load);
        }
    }
}

proof fn lemma_seen_in_order(rows: Seq<TShelfWithLoad>, current: CurrentUser)
    requires
        forall|i: int, j: int|
            0 <= i < j < rows.len() ==> (#[trigger] rows[i]).current_load <= (
            #[trigger] rows[j]).current_load,
    ensures
        forall|i: int, j: int|
            0 <= i < j < seen(rows, current).len() ==> (#[trigger] seen(
                rows,
                current,
            )[i]).current_load <= (#[trigger] seen(rows, current)[j]).current_load,
    decreases rows.len(),
{
    if rows.len() > 0 {
        let front = rows.drop_last();
        assert forall|i: int, j: int| 0 <= i < j < front.len() implies (
        #[trigger] front[i]).current_load <= (#[trigger] front[j]).current_load by {
            assert(front[i] == rows[i] && front[j] == rows[j]);
        }
        lemma_seen_in_order(front, current);
        offered_shelves_may_be_seen(front, current);
        let before = seen(front, current);
        let out = seen(rows, current);
        assert forall|i: int, j: int| 0 <= i < j < out.len() implies (
        #[trigger] out[i]).current_load <= (#[trigger] out[j]).current_load by {
            assert(out[i] == before[i]);
            if j < before.len() {
                assert(out[j] == before[j]);
            } else {
                let k = choose|k: int| 0 <= k < front.len() && front[k] == before[i];
                assert(rows[k].current_load <= rows[rows.len() - 1].current_load);
            }
        }
    }
}

/// The caller is shown only mappings of shelves that the caller may see; a
/// manager, or a caller bound to every shelf, is shown all of them.
pub proof fn shown_mappings_may_be_seen(
    rows: Seq<AllShelfProcessMappingItem>,
    current: CurrentUser,
)
    ensures
        forall|i: int|
            0 <= i < mappings_seen(rows, current).len() ==> current.sees_shelf(
                (#[trigger] mappings_seen(rows, current)[i]).shelf_id,
            ) && rows.contains(mappings_seen(rows, current)[i]),
        current.shelf_wildcard || current.is(Role::Manager) ==> mappings_seen(rows, current)
            == rows,
    decreases rows.len(),
{
    if rows.len() > 0 {
        let front = rows.drop_last();
        shown_mappings_may_be_seen(front, current);
        let out = mappings_seen(rows, current);
        let inner = mappings_seen(front, current);
        assert forall|i: int| 0 <= i < out.len() implies current.sees_shelf(
            (#[trigger] out[i]).shelf_id,
        ) && rows.contains(out[i]) by {
            if i < inner.len() {
                assert(out[i] == inner[i]);
                let k = choose|k: int| 0 <= k < front.len() && front[k] == inner[i];
                assert(rows[k] == out[i]);
            } else {
                assert(rows[rows.len() - 1] == out[i]);
            }
        }
        assert(front.push(rows.last()) =~= rows);
    }
}

/// A shelf with parts in work on it is never deleted.
pub proof fn shelves_in_use_stay(
    id: i64,
    current: CurrentUser,
    f: DeleteShelfFacts,
    n: Next<ShelfAsk, ()>,
)
    requires
        deletes_shelf(id, current, f, n),
        f.in_use matches Some(count) && count > 0,
    ensures
        !(n matches Next::Ask(a) && a is SoftDelete),
        !(n matches Next::Done(Ok(_))),
{
}

/// Every shelf is stored in one of the two zones, under a code and a name.
pub proof fn shelves_are_stored_in_a_zone(
    req: ShelfCreateRequest,
    current: CurrentUser,
    f: CreateShelfFacts,
    n: Next<ShelfAsk, ShelfOut>,
)
    requires
        creates_shelf(req, current, f, n),
    ensures
        n matches Next::Ask(ShelfAsk::Create { insert }) ==> (insert.zone@ == "PRODUCTION"@
            || insert.zone@ == "INSPECTION"@) && insert.code@.len() > 0 && insert.name@.len() > 0
            && current.is(Role::Manager),
{
}

} // verus!
