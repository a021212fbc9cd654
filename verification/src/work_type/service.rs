//! The endpoints on work types.
use super::dto::{
    WorkTypeCreateRequest, WorkTypeListOut, WorkTypeListQuery, WorkTypeOut, WorkTypeUpdateRequest,
};
use super::model::TWorkType;
use super::process_mapping::NewWorkTypeProcessRow;
use super::repo::{WorkTypeInsert, WorkTypePatch};
use crate::auth::{forbidden_text, CurrentUser, Role};
use crate::error::{
    conflict_text, unique_violation, version_conflict, AppError, DbFault, ErrorCode, Problem,
};
use crate::flow::Next;
use crate::paging::{limit_of, offset_of, page_limit, page_offset};
use crate::patch::{change_required, change_text, is_blank, text_change, trimmed_opt};
use crate::text::{
    copy_opt, decimal, id_text, join3, keep_non_blank, non_blank, opt_view, trim, trimmed,
};
use crate::worker::service::work_type_not_found;
use vstd::prelude::*;
use vstd::string::*;

verus! {

/// What an endpoint on work types asks for.
pub enum WorkTypeAsk {
    /// A work type that is not deleted.
    ById { id: i64 },
    /// The work type that is about to be changed, not deleted.
    ToChange { id: i64 },
    List { code_like: Option<String>, limit: i64, offset: i64 },
    Count { code_like: Option<String> },
    /// The processes of these work types, by work type and in order.
    ProcessesOf { ids: Vec<i64> },
    NewId,
    Create { insert: WorkTypeInsert },
    /// Changing a work type of this version; the number of rows that changed.
    Update { id: i64, version: i32, patch: WorkTypePatch, updated_by: i64 },
    /// How many workers and processes refer to a work type.
    CountReferences { id: i64 },
    SoftDelete { id: i64, version: i32, updated_by: i64 },
    /// Those of these processes that exist, each once.
    ExistingProcesses { ids: Vec<i64> },
    /// Deleting all mappings of a work type.
    ClearMappings { work_type_id: i64 },
    InsertMappings { rows: Vec<NewWorkTypeProcessRow>, created_by: i64 },
    /// The mappings of a work type, in order.
    MappingsOf { work_type_id: i64 },
}

// ---------------------------------------------------------------------------
// Small parts
// ---------------------------------------------------------------------------

/// The id of a process as text.
pub fn pid_to_string(pid: i64) -> (r: String)
    ensures
        r@ == decimal(pid as int),
{
    id_text(pid)
}

/// The ids as texts, one by one.
pub open spec fn shows_ids(texts: Seq<String>, ids: Seq<i64>) -> bool {
    texts.len() == ids.len() && forall|i: int|
        0 <= i < ids.len() ==> (#[trigger] texts[i])@ == decimal(ids[i] as int)
}

fn id_texts(ids: &Vec<i64>) -> (r: Vec<String>)
    ensures
        shows_ids(r@, ids@),
{
    let mut out: Vec<String> = Vec::new();
    let mut i: usize = 0;
    while i < ids.len()
        invariant
            i <= ids@.len(),
            out@.len() == i,
            forall|j: int| 0 <= j < i ==> (#[trigger] out@[j])@ == decimal(ids@[j] as int),
        decreases ids@.len() - i,
    {
        out.push(pid_to_string(ids[i]));
        i = i + 1;
    }
    out
}

/// A work type as the client gets it, with its processes.
pub open spec fn shows_work_type(o: WorkTypeOut, wt: TWorkType, process_ids: Seq<i64>) -> bool {
    &&& o.id == wt.id
    &&& o.code == wt.code
    &&& o.name == wt.name
    &&& o.description == wt.description
    &&& o.sort_order == wt.sort_order
    &&& o.max_held_batches == wt.max_held_batches
    &&& shows_ids(o.process_ids@, process_ids)
    &&& o.version == wt.version
    &&& o.created_at == wt.created_at
    &&& o.updated_at == wt.updated_at
}

/// A work type as the client gets it.
pub fn to_work_type_out(wt: &TWorkType, process_ids: &Vec<i64>) -> (o: WorkTypeOut)
    ensures
        shows_work_type(o, *wt, process_ids@),
{
    WorkTypeOut {
        id: wt.id,
        code: wt.code.clone(),
        name: wt.name.clone(),
        description: copy_opt(&wt.description),
        sort_order: wt.sort_order,
        max_held_batches: wt.max_held_batches,
        process_ids: id_texts(process_ids),
        version: wt.version,
        created_at: wt.created_at,
        updated_at: wt.updated_at,
    }
}

/// The processes of a work type among rows of work type and process, in order.
pub open spec fn processes_of(rows: Seq<(i64, i64)>, id: i64) -> Seq<i64>
    decreases rows.len(),
{
    if rows.len() == 0 {
        Seq::empty()
    } else if rows.last().0 == id {
        processes_of(rows.drop_last(), id).push(rows.last().1)
    } else {
        processes_of(rows.drop_last(), id)
    }
}

fn collect_processes(rows: &Vec<(i64, i64)>, id: i64) -> (r: Vec<i64>)
    ensures
        r@ == processes_of(rows@, id),
{
    let mut out: Vec<i64> = Vec::new();
    let mut i: usize = 0;
    assert(rows@.take(0) =~= Seq::<(i64, i64)>::empty());
    while i < rows.len()
        invariant
            i <= rows@.len(),
            out@ == processes_of(rows@.take(i as int), id),
        decreases rows@.len() - i,
    {
        assert(rows@.take(i + 1).drop_last() =~= rows@.take(i as int));
        if rows[i].0 == id {
            out.push(rows[i].1);
        }
        i = i + 1;
    }
    assert(rows@.take(i as int) =~= rows@);
    out
}

/// All processes among rows of work type and process.
pub open spec fn all_processes(rows: Seq<(i64, i64)>) -> Seq<i64> {
    rows.map_values(|r: (i64, i64)| r.1)
}

fn collect_all(rows: &Vec<(i64, i64)>) -> (r: Vec<i64>)
    ensures
        r@ == all_processes(rows@),
{
    let mut out: Vec<i64> = Vec::new();
    let mut i: usize = 0;
    while i < rows.len()
        invariant
            i <= rows@.len(),
            out@ == all_processes(rows@).take(i as int),
        decreases rows@.len() - i,
    {
        out.push(rows[i].1);
        i = i + 1;
        assert(out@ =~= all_processes(rows@).take(i as int));
    }
    assert(out@ =~= all_processes(rows@));
    out
}

// ---------------------------------------------------------------------------
// The endpoints
// ---------------------------------------------------------------------------

pub struct WorkTypeService;

/// What is known while work types are listed.
pub struct ListWorkTypesFacts {
    pub rows: Option<Vec<TWorkType>>,
    pub total: Option<i64>,
    /// Work type and process, by work type and in order.
    pub processes: Option<Vec<(i64, i64)>>,
}

/// The ids of some work types.
pub open spec fn ids_of(rows: Seq<TWorkType>) -> Seq<i64> {
    rows.map_values(|wt: TWorkType| wt.id)
}

/// The processes of the listed work types; there are none for no work type.
pub open spec fn processes_known(
    rows: Seq<TWorkType>,
    processes: Option<Vec<(i64, i64)>>,
) -> Option<Seq<(i64, i64)>> {
    if rows.len() == 0 {
        Some(Seq::empty())
    } else {
        match processes {
            Some(p) => Some(p@),
            None => None,
        }
    }
}

/// The processes shown with the work type at an index. A work type that is listed
/// twice has them the first time.
pub open spec fn processes_at(
    rows: Seq<TWorkType>,
    processes: Seq<(i64, i64)>,
    i: int,
) -> Seq<i64> {
    if exists|j: int| 0 <= j < i && (#[trigger] rows[j]).id == rows[i].id {
        Seq::empty()
    } else {
        processes_of(processes, rows[i].id)
    }
}

/// How work types are listed.
pub open spec fn lists_work_types(
    query: WorkTypeListQuery,
    current: CurrentUser,
    f: ListWorkTypesFacts,
    n: Next<WorkTypeAsk, WorkTypeListOut>,
) -> bool {
    let code = non_blank(opt_view(query.code_like));
    let limit = page_limit(query.limit);
    let offset = page_offset(query.offset);
    if !current.has_some_role() {
        n.fails(ErrorCode::Forbidden, forbidden_text())
    } else {
        match (f.rows, f.total) {
            (None, _) => n matches Next::Ask(
                WorkTypeAsk::List { code_like, limit: lim, offset: off },
            ) && opt_view(code_like) == code && lim == limit && off == offset,
            (Some(_), None) => n matches Next::Ask(WorkTypeAsk::Count { code_like }) && opt_view(
                code_like,
            ) == code,
            (Some(rows), Some(total)) => match processes_known(rows@, f.processes) {
                None => n matches Next::Ask(WorkTypeAsk::ProcessesOf { ids }) && ids@ == ids_of(
                    rows@,
                ),
                Some(processes) => {
                    &&& n matches Next::Done(Ok(out))
                    &&& out.total == total
                    &&& out.limit == limit
                    &&& out.offset == offset
                    &&& out.items@.len() == rows@.len()
                    &&& forall|i: int|
                        0 <= i < rows@.len() ==> shows_work_type(
                            #[trigger] out.items@[i],
                            rows@[i],
                            processes_at(rows@, processes, i),
                        )
                },
            },
        }
    }
}

/// What is known while one work type is read.
pub struct GetWorkTypeFacts {
    pub work_type: Option<Option<TWorkType>>,
    pub processes: Option<Vec<(i64, i64)>>,
}

/// How one work type is read.
pub open spec fn gets_work_type(
    id: i64,
    current: CurrentUser,
    f: GetWorkTypeFacts,
    n: Next<WorkTypeAsk, WorkTypeOut>,
) -> bool {
    if !current.has_some_role() {
        n.fails(ErrorCode::Forbidden, forbidden_text())
    } else {
        match (f.work_type, f.processes) {
            (None, _) => n.asks(WorkTypeAsk::ById { id }),
            (Some(None), _) => n.fails(ErrorCode::BizWorkTypeNotFound, "工种不存在"@),
            (Some(Some(wt)), None) => n matches Next::Ask(WorkTypeAsk::ProcessesOf { ids })
                && ids@ == seq![wt.id],
            (Some(Some(wt)), Some(rows)) => n matches Next::Done(Ok(out)) && shows_work_type(
                out,
                wt,
                all_processes(rows@),
            ),
        }
    }
}

/// What is known while a work type is created.
pub struct CreateWorkTypeFacts {
    pub id: Option<i64>,
    pub created: Option<Result<TWorkType, DbFault>>,
}

/// A limit below one.
pub open spec fn bad_limit(max_held_batches: Option<i32>) -> bool {
    max_held_batches matches Some(v) && v < 1
}

/// The message about a limit below one.
pub open spec fn bad_limit_text() -> Seq<char> {
    "max_held_batches 必须 ≥ 1"@
}

/// What is wrong with a new work type.
pub open spec fn create_problem(req: WorkTypeCreateRequest) -> Option<Problem> {
    if trimmed(req.code@).len() == 0 {
        Some((ErrorCode::BizInvalidValue, "code 不能为空"@))
    } else if trimmed(req.name@).len() == 0 {
        Some((ErrorCode::BizInvalidValue, "name 不能为空"@))
    } else if bad_limit(req.max_held_batches) {
        Some((ErrorCode::BizInvalidValue, bad_limit_text()))
    } else {
        None
    }
}

/// The work type to be stored.
pub open spec fn inserts_work_type(
    insert: WorkTypeInsert,
    req: WorkTypeCreateRequest,
    id: i64,
    by: i64,
) -> bool {
    &&& insert.id == id
    &&& insert.code@ == trimmed(req.code@)
    &&& insert.name@ == trimmed(req.name@)
    &&& opt_view(insert.description) == non_blank(opt_view(req.description))
    &&& insert.sort_order == match req.sort_order {
        Some(o) => o,
        None => 0,
    }
    &&& insert.max_held_batches == req.max_held_batches
    &&& insert.created_by == by
}

/// How a work type is created.
pub open spec fn creates_work_type(
    req: WorkTypeCreateRequest,
    current: CurrentUser,
    f: CreateWorkTypeFacts,
    n: Next<WorkTypeAsk, WorkTypeOut>,
) -> bool {
    if !current.is(Role::Manager) {
        n.fails(ErrorCode::Forbidden, forbidden_text())
    } else {
        match create_problem(req) {
            Some(p) => n.fails(p.0, p.1),
            None => match (f.id, f.created) {
                (None, _) => n.asks(WorkTypeAsk::NewId),
                (Some(id), None) => n matches Next::Ask(WorkTypeAsk::Create { insert })
                    && inserts_work_type(insert, req, id, current.id),
                (Some(_), Some(Err(fault))) => if fault.has_state(unique_violation()) {
                    n.fails(
                        ErrorCode::BizWorkTypeDuplicateCode,
                        "code '"@ + trimmed(req.code@) + "' 已被占用"@,
                    )
                } else {
                    n.fails_with(fault.error)
                },
                (Some(_), Some(Ok(wt))) => n matches Next::Done(Ok(out)) && shows_work_type(
                    out,
                    wt,
                    Seq::empty(),
                ),
            },
        }
    }
}

/// What is known while a work type is changed.
pub struct UpdateWorkTypeFacts {
    pub existing: Option<Option<TWorkType>>,
    pub affected: Option<u64>,
    pub work_type: Option<Option<TWorkType>>,
    pub processes: Option<Vec<(i64, i64)>>,
}

/// What of a work type is changed.
pub open spec fn patches_work_type(patch: WorkTypePatch, req: WorkTypeUpdateRequest) -> bool {
    &&& opt_view(patch.name) == trimmed_opt(req.name)
    &&& (patch.set_description, opt_view(patch.description)) == text_change(req.description)
    &&& patch.sort_order == req.sort_order
    &&& patch.set_max_held_batches == (req.max_held_batches is Some)
    &&& patch.max_held_batches == match req.max_held_batches {
        Some(m) => m,
        None => None,
    }
}

/// How a work type is changed. Its code never is.
pub open spec fn updates_work_type(
    id: i64,
    req: WorkTypeUpdateRequest,
    current: CurrentUser,
    f: UpdateWorkTypeFacts,
    n: Next<WorkTypeAsk, WorkTypeOut>,
) -> bool {
    if !current.is(Role::Manager) {
        n.fails(ErrorCode::Forbidden, forbidden_text())
    } else if req.code is Some {
        n.fails(
            ErrorCode::BizInvalidValue,
            "本接口不支持修改 code（业务唯一键不可变）"@,
        )
    } else {
        match f.existing {
            None => n.asks(WorkTypeAsk::ToChange { id }),
            Some(None) => n.fails(ErrorCode::BizWorkTypeNotFound, "工种不存在"@),
            Some(Some(wt)) => if is_blank(req.name) {
                n.fails(ErrorCode::BizInvalidValue, "name 不能为空"@)
            } else if req.max_held_batches matches Some(m) && bad_limit(m) {
                n.fails(ErrorCode::BizInvalidValue, bad_limit_text())
            } else {
                match f.affected {
                    None => n matches Next::Ask(
                        WorkTypeAsk::Update { id: i, version, patch, updated_by },
                    ) && i == id && version == wt.version && updated_by == current.id
                        && patches_work_type(patch, req),
                    Some(rows) => if rows == 0 {
                        n.fails(ErrorCode::VersionConflict, conflict_text())
                    } else {
                        gets_work_type(
                            id,
                            current,
                            GetWorkTypeFacts { work_type: f.work_type, processes: f.processes },
                            n,
                        )
                    },
                }
            },
        }
    }
}

/// What is known while a work type is deleted.
pub struct DeleteWorkTypeFacts {
    pub work_type: Option<Option<TWorkType>>,
    pub references: Option<i64>,
    pub affected: Option<u64>,
}

/// The message about a work type that is referred to.
pub open spec fn in_use_text(wt: TWorkType, references: i64) -> Seq<char> {
    "工种 "@ + decimal(wt.id as int) + " (code="@ + wt.code@ + ") 仍被 "@ + decimal(
        references as int,
    ) + " 处引用（worker 或 process mapping），无法软删"@
}

/// How a work type is deleted: only one that nothing refers to.
pub open spec fn deletes_work_type(
    id: i64,
    current: CurrentUser,
    f: DeleteWorkTypeFacts,
    n: Next<WorkTypeAsk, ()>,
) -> bool {
    if !current.is(Role::Manager) {
        n.fails(ErrorCode::Forbidden, forbidden_text())
    } else {
        match (f.work_type, f.references, f.affected) {
            (None, _, _) => n.asks(WorkTypeAsk::ById { id }),
            (Some(None), _, _) => n.fails(ErrorCode::BizWorkTypeNotFound, "工种不存在"@),
            (Some(Some(_)), None, _) => n.asks(WorkTypeAsk::CountReferences { id }),
            (Some(Some(wt)), Some(count), affected) => if count > 0 {
                n.fails(ErrorCode::BizWorkTypeInUse, in_use_text(wt, count))
            } else {
                match affected {
                    None => n.asks(
                        WorkTypeAsk::SoftDelete {
                            id,
                            version: wt.version,
                            updated_by: current.id,
                        },
                    ),
                    Some(rows) => if rows == 0 {
                        n.fails(ErrorCode::VersionConflict, conflict_text())
                    } else {
                        n.succeeds(())
                    },
                }
            },
        }
    }
}

fn collect_ids(rows: &Vec<TWorkType>) -> (r: Vec<i64>)
    ensures
        r@ == ids_of(rows@),
{
    let mut out: Vec<i64> = Vec::new();
    let mut i: usize = 0;
    while i < rows.len()
        invariant
            i <= rows@.len(),
            out@ == ids_of(rows@).take(i as int),
        decreases rows@.len() - i,
    {
        out.push(rows[i].id);
        i = i + 1;
        assert(out@ =~= ids_of(rows@).take(i as int));
    }
    assert(out@ =~= ids_of(rows@));
    out
}

fn listed_before(rows: &Vec<TWorkType>, i: usize) -> (r: bool)
    requires
        i < rows@.len(),
    ensures
        r == exists|j: int| 0 <= j < i && (#[trigger] rows@[j]).id == rows@[i as int].id,
{
    let mut j: usize = 0;
    while j < i
        invariant
            j <= i < rows@.len(),
            forall|k: int| 0 <= k < j ==> (#[trigger] rows@[k]).id != rows@[i as int].id,
        decreases i - j,
    {
        if rows[j].id == rows[i].id {
            return true;
        }
        j = j + 1;
    }
    false
}

impl WorkTypeService {
    /// A page of work types with their processes.
    pub fn list_work_types(
        query: &WorkTypeListQuery,
        current: &CurrentUser,
        f: &ListWorkTypesFacts,
    ) -> (n: Next<WorkTypeAsk, WorkTypeListOut>)
        ensures
            lists_work_types(*query, *current, *f, n),
    {
        match current.require_signed_in() {
            Err(e) => {
                return Next::Done(Err(e));
            },
            Ok(()) => {},
        }
        let limit: i64 = limit_of(query.limit);
        let offset: i64 = offset_of(query.offset);
        let code_like = keep_non_blank(&query.code_like);
        let rows = match &f.rows {
            None => {
                return Next::Ask(WorkTypeAsk::List { code_like, limit, offset });
            },
            Some(r) => r,
        };
        let total: i64 = match f.total {
            None => {
                return Next::Ask(WorkTypeAsk::Count { code_like });
            },
            Some(t) => t,
        };
        let none: Vec<(i64, i64)> = Vec::new();
        let processes: &Vec<(i64, i64)> = if rows.len() == 0 {
            &none
        } else {
            match &f.processes {
                None => {
                    return Next::Ask(WorkTypeAsk::ProcessesOf { ids: collect_ids(rows) });
                },
                Some(p) => p,
            }
        };
        assert(processes_known(rows@, f.processes) == Some(processes@));
        let mut items: Vec<WorkTypeOut> = Vec::new();
        let mut i: usize = 0;
        while i < rows.len()
            invariant
                i <= rows@.len(),
                items@.len() == i,
                forall|j: int|
                    0 <= j < i ==> shows_work_type(
                        #[trigger] items@[j],
                        rows@[j],
                        processes_at(rows@, processes@, j),
                    ),
            decreases rows@.len() - i,
        {
            let ids: Vec<i64> = if listed_before(rows, i) {
                Vec::new()
            } else {
                collect_processes(processes, rows[i].id)
            };
            assert(ids@ =~= processes_at(rows@, processes@, i as int));
            items.push(to_work_type_out(&rows[i], &ids));
            i = i + 1;
        }
        Next::Done(Ok(WorkTypeListOut { items, total, limit, offset }))
    }

    /// One work type with its processes.
    pub fn get_work_type(id: i64, current: &CurrentUser, f: &GetWorkTypeFacts) -> (n: Next<
        WorkTypeAsk,
        WorkTypeOut,
    >)
        ensures
            gets_work_type(id, *current, *f, n),
    {
        match current.require_signed_in() {
            Err(e) => {
                return Next::Done(Err(e));
            },
            Ok(()) => {},
        }
        Self::read_back(id, &f.work_type, &f.processes)
    }

    fn read_back(
        id: i64,
        work_type: &Option<Option<TWorkType>>,
        processes: &Option<Vec<(i64, i64)>>,
    ) -> (n: Next<WorkTypeAsk, WorkTypeOut>)
        ensures
            match (*work_type, *processes) {
                (None, _) => n.asks(WorkTypeAsk::ById { id }),
                (Some(None), _) => n.fails(ErrorCode::BizWorkTypeNotFound, "工种不存在"@),
                (Some(Some(wt)), None) => n matches Next::Ask(WorkTypeAsk::ProcessesOf { ids })
                    && ids@ == seq![wt.id],
                (Some(Some(wt)), Some(rows)) => n matches Next::Done(Ok(out)) && shows_work_type(
                    out,
                    wt,
                    all_processes(rows@),
                ),
            },
    {
        let wt = match work_type {
            None => {
                return Next::Ask(WorkTypeAsk::ById { id });
            },
            Some(None) => {
                return Next::Done(Err(work_type_not_found()));
            },
            Some(Some(wt)) => wt,
        };
        match processes {
            None => {
                let mut ids: Vec<i64> = Vec::new();
                ids.push(wt.id);
                assert(ids@ =~= seq![wt.id]);
                Next::Ask(WorkTypeAsk::ProcessesOf { ids })
            },
            Some(rows) => Next::Done(Ok(to_work_type_out(wt, &collect_all(rows)))),
        }
    }

    /// Creates a work type with a code of its own.
    pub fn create_work_type(
        req: &WorkTypeCreateRequest,
        current: &CurrentUser,
        f: &CreateWorkTypeFacts,
    ) -> (n: Next<WorkTypeAsk, WorkTypeOut>)
        ensures
            creates_work_type(*req, *current, *f, n),
    {
        match current.require_role(Role::Manager) {
            Err(e) => {
                return Next::Done(Err(e));
            },
            Ok(()) => {},
        }
        let code = trim(req.code.as_str());
        if code.is_empty() {
            return Next::Done(Err(AppError::biz(ErrorCode::BizInvalidValue, "code 不能为空")));
        }
        let name = trim(req.name.as_str());
        if name.is_empty() {
            return Next::Done(Err(AppError::biz(ErrorCode::BizInvalidValue, "name 不能为空")));
        }
        let description = keep_non_blank(&req.description);
        let sort_order: i32 = match req.sort_order {
            Some(o) => o,
            None => 0,
        };
        if let Some(v) = req.max_held_batches {
            if v < 1 {
                return Next::Done(
                    Err(AppError::biz(ErrorCode::BizInvalidValue, "max_held_batches 必须 ≥ 1")),
                );
            }
        }
        let id: i64 = match f.id {
            None => {
                return Next::Ask(WorkTypeAsk::NewId);
            },
            Some(id) => id,
        };
        match &f.created {
            None => Next::Ask(
                WorkTypeAsk::Create {
                    insert: WorkTypeInsert {
                        id,
                        code: code.to_owned(),
                        name: name.to_owned(),
                        description,
                        sort_order,
                        max_held_batches: req.max_held_batches,
                        created_by: current.id,
                    },
                },
            ),
            Some(Err(fault)) => if fault.is_state("23505") {
                let message = join3("code '", code, "' 已被占用");
                Next::Done(
                    Err(AppError::biz(ErrorCode::BizWorkTypeDuplicateCode, message.as_str())),
                )
            } else {
                Next::Done(Err(fault.error.copy()))
            },
            Some(Ok(wt)) => {
                let none: Vec<i64> = Vec::new();
                Next::Done(Ok(to_work_type_out(wt, &none)))
            },
        }
    }

    /// Changes a work type. What is absent stays as it is; the code cannot be
    /// changed.
    pub fn update_work_type(
        id: i64,
        req: &WorkTypeUpdateRequest,
        current: &CurrentUser,
        f: &UpdateWorkTypeFacts,
    ) -> (n: Next<WorkTypeAsk, WorkTypeOut>)
        ensures
            updates_work_type(id, *req, *current, *f, n),
    {
        match current.require_role(Role::Manager) {
            Err(e) => {
                return Next::Done(Err(e));
            },
            Ok(()) => {},
        }
        if req.code.is_some() {
            return Next::Done(
                Err(
                    AppError::biz(
                        ErrorCode::BizInvalidValue,
                        "本接口不支持修改 code（业务唯一键不可变）",
                    ),
                ),
            );
        }
        let existing = match &f.existing {
            None => {
                return Next::Ask(WorkTypeAsk::ToChange { id });
            },
            Some(None) => {
                return Next::Done(Err(work_type_not_found()));
            },
            Some(Some(wt)) => wt,
        };
        let name = match change_required(&req.name) {
            Err(()) => {
                return Next::Done(
                    Err(AppError::biz(ErrorCode::BizInvalidValue, "name 不能为空")),
                );
            },
            Ok(v) => v,
        };
        let (set_description, description) = change_text(&req.description);
        let (set_max_held_batches, max_held_batches): (bool, Option<i32>) =
            match req.max_held_batches {
            None => (false, None),
            Some(None) => (true, None),
            Some(Some(v)) => {
                if v < 1 {
                    return Next::Done(
                        Err(
                            AppError::biz(
                                ErrorCode::BizInvalidValue,
                                "max_held_batches 必须 ≥ 1",
                            ),
                        ),
                    );
                }
                (true, Some(v))
            },
        };
        match f.affected {
            None => Next::Ask(
                WorkTypeAsk::Update {
                    id,
                    version: existing.version,
                    patch: WorkTypePatch {
                        name,
                        set_description,
                        description,
                        sort_order: req.sort_order,
                        set_max_held_batches,
                        max_held_batches,
                    },
                    updated_by: current.id,
                },
            ),
            Some(rows) => if rows == 0 {
                Next::Done(Err(version_conflict()))
            } else {
                assert(current.has_some_role());
                Self::read_back(id, &f.work_type, &f.processes)
            },
        }
    }

    /// Deletes a work type that nothing refers to: the row is kept, marked as
    /// deleted.
    pub fn soft_delete_work_type(id: i64, current: &CurrentUser, f: &DeleteWorkTypeFacts) -> (n:
        Next<WorkTypeAsk, ()>)
        ensures
            deletes_work_type(id, *current, *f, n),
    {
        match current.require_role(Role::Manager) {
            Err(e) => {
                return Next::Done(Err(e));
            },
            Ok(()) => {},
        }
        let wt = match &f.work_type {
            None => {
                return Next::Ask(WorkTypeAsk::ById { id });
            },
            Some(None) => {
                return Next::Done(Err(work_type_not_found()));
            },
            Some(Some(wt)) => wt,
        };
        match f.references {
            None => {
                return Next::Ask(WorkTypeAsk::CountReferences { id });
            },
            Some(count) => {
                if count > 0 {
                    let mut message = join3("工种 ", id_text(wt.id).as_str(), " (code=");
                    message.append(wt.code.as_str());
                    message.append(") 仍被 ");
                    message.append(id_text(count).as_str());
                    message.append(" 处引用（worker 或 process mapping），无法软删");
                    return Next::Done(
                        Err(AppError::biz(ErrorCode::BizWorkTypeInUse, message.as_str())),
                    );
                }
            },
        }
        match f.affected {
            None => Next::Ask(
                WorkTypeAsk::SoftDelete { id, version: wt.version, updated_by: current.id },
            ),
            Some(rows) => if rows == 0 {
                Next::Done(Err(version_conflict()))
            } else {
                Next::Done(Ok(()))
            },
        }
    }
}

// ---------------------------------------------------------------------------
// Laws
// ---------------------------------------------------------------------------

/// A work type never gets a limit below one, whether it is created or changed,
/// and a request that names a code changes nothing.
pub proof fn limits_are_at_least_one(
    id: i64,
    create: WorkTypeCreateRequest,
    update: WorkTypeUpdateRequest,
    current: CurrentUser,
    fc: CreateWorkTypeFacts,
    fu: UpdateWorkTypeFacts,
    c: Next<WorkTypeAsk, WorkTypeOut>,
    u: Next<WorkTypeAsk, WorkTypeOut>,
)
    requires
        creates_work_type(create, current, fc, c),
        updates_work_type(id, update, current, fu, u),
    ensures
        c matches Next::Ask(WorkTypeAsk::Create { insert }) ==> (insert.max_held_batches matches
            Some(m) ==> m >= 1),
        u matches Next::Ask(WorkTypeAsk::Update { id: _, version, patch, updated_by }) ==> (
        patch.max_held_batches matches Some(m) ==> m >= 1),
        update.code is Some ==> u is Done && u->Done_0 is Err,
{
}

/// A work type that is referred to is never deleted.
pub proof fn work_types_in_use_stay(
    id: i64,
    current: CurrentUser,
    f: DeleteWorkTypeFacts,
    n: Next<WorkTypeAsk, ()>,
)
    requires
        deletes_work_type(id, current, f, n),
        f.references matches Some(count) && count > 0,
    ensures
        !(n matches Next::Ask(a) && a is SoftDelete),
        !(n matches Next::Done(Ok(_))),
{
}

} // verus!
