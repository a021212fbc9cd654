//! Which processes a work type is mapped to.
use super::dto::{SetWorkTypeProcessesItem, WorkTypeProcessMappingItem, WorkTypeProcessMappingOut};
use super::model::TWorkType;
use super::service::WorkTypeAsk;
use crate::auth::{forbidden_text, CurrentUser, Role};
use crate::error::{about, fail_about, AppError, ErrorCode};
use crate::flow::Next;
use crate::mapping::{
    all_ids, as_many_found_as_named, copy_ids, find_missing, finds, ids_in, mapped_to, missing_of,
    parse_ids, replaced_mappings_are_the_wanted_ones, rows_for, tells_mappings, without_mappings,
    MappingRow,
};
use crate::text::{ids_text, join2, list_text};
use vstd::prelude::*;

verus! {

/// A mapping to be stored.
#[derive(Debug, Clone, Copy, PartialEq, Eq, Structural)]
pub struct NewWorkTypeProcessRow {
    pub work_type_id: i64,
    pub process_id: i64,
    pub sort_order: i32,
}

/// The table of mappings.
pub struct WorkTypeProcessRepo;

pub struct WorkTypeProcessService;

/// What is known while the processes of a work type are set.
pub struct SetProcessesFacts {
    pub work_type: Option<Option<TWorkType>>,
    /// Those of the named processes that exist, each once.
    pub existing: Option<Vec<i64>>,
    pub cleared: bool,
    pub inserted: bool,
}

/// The texts that name processes.
pub open spec fn raw_ids(items: Seq<SetWorkTypeProcessesItem>) -> Seq<String> {
    items.map_values(|it: SetWorkTypeProcessesItem| it.process_id)
}

/// The mappings to be stored, in the order of the request.
pub open spec fn new_rows(
    work_type_id: i64,
    items: Seq<SetWorkTypeProcessesItem>,
) -> Seq<NewWorkTypeProcessRow> {
    Seq::new(
        items.len(),
        |i: int|
            NewWorkTypeProcessRow {
                work_type_id,
                process_id: ids_in(raw_ids(items))[i],
                sort_order: items[i].sort_order,
            },
    )
}

/// How the mappings of a work type are replaced, once all named processes exist.
pub open spec fn replaces(
    work_type_id: i64,
    work_type: TWorkType,
    items: Seq<SetWorkTypeProcessesItem>,
    by: i64,
    f: SetProcessesFacts,
    n: Next<WorkTypeAsk, ()>,
) -> bool {
    if !f.cleared {
        n.asks(WorkTypeAsk::ClearMappings { work_type_id })
    } else if items.len() > 0 && !f.inserted {
        n matches Next::Ask(WorkTypeAsk::InsertMappings { rows, created_by }) && rows@ == new_rows(
            work_type.id,
            items,
        ) && created_by == by
    } else {
        n.succeeds(())
    }
}

/// How the processes of a work type are set.
pub open spec fn sets_processes(
    work_type_id: i64,
    items: Seq<SetWorkTypeProcessesItem>,
    current: CurrentUser,
    f: SetProcessesFacts,
    n: Next<WorkTypeAsk, ()>,
) -> bool {
    let ids = ids_in(raw_ids(items));
    if !current.is(Role::Manager) {
        n.fails(ErrorCode::Forbidden, forbidden_text())
    } else {
        match f.work_type {
            None => n.asks(WorkTypeAsk::ById { id: work_type_id }),
            Some(None) => n.fails(
                ErrorCode::BizWorkTypeNotFound,
                about("work_type "@, work_type_id, " 不存在"@),
            ),
            Some(Some(s)) => if !all_ids(raw_ids(items)) {
                n.fails(ErrorCode::BizInvalidValue, "process_id 必须为雪花 ID 字符串"@)
            } else if items.len() == 0 {
                replaces(work_type_id, s, items, current.id, f, n)
            } else {
                match f.existing {
                    None => n matches Next::Ask(WorkTypeAsk::ExistingProcesses { ids: asked })
                        && asked@ == ids,
                    Some(existing) => if existing@.len() != ids.len() {
                        n.fails(
                            ErrorCode::BizProcessNotFound,
                            "process 不存在: "@ + list_text(missing_of(ids, existing@)),
                        )
                    } else {
                        replaces(work_type_id, s, items, current.id, f, n)
                    },
                }
            },
        }
    }
}

/// A mapping of a work type, as stored.
#[derive(Debug, Clone)]
pub struct WorkTypeProcessRow {
    pub process_id: i64,
    pub sort_order: i32,
    pub process_code: String,
}

/// What is known while the processes of a work type are listed.
pub struct ListProcessesFacts {
    pub work_type: Option<Option<TWorkType>>,
    pub rows: Option<Vec<WorkTypeProcessRow>>,
}

/// A mapping as the client gets it.
pub open spec fn mapping_item(
    work_type_id: i64,
    row: WorkTypeProcessRow,
) -> WorkTypeProcessMappingItem {
    WorkTypeProcessMappingItem {
        work_type_id,
        process_id: row.process_id,
        process_code: row.process_code,
        sort_order: row.sort_order,
    }
}

/// How the processes of a work type are listed.
pub open spec fn lists_processes(
    work_type_id: i64,
    current: CurrentUser,
    f: ListProcessesFacts,
    n: Next<WorkTypeAsk, WorkTypeProcessMappingOut>,
) -> bool {
    if !current.has_some_role() {
        n.fails(ErrorCode::Forbidden, forbidden_text())
    } else {
        match f.work_type {
            None => n.asks(WorkTypeAsk::ById { id: work_type_id }),
            Some(None) => n.fails(
                ErrorCode::BizWorkTypeNotFound,
                about("work_type "@, work_type_id, " 不存在"@),
            ),
            Some(Some(wt)) => match f.rows {
                None => n.asks(WorkTypeAsk::MappingsOf { work_type_id: wt.id }),
                Some(rows) => n matches Next::Done(Ok(out)) && out.items@ == rows@.map_values(
                    |r: WorkTypeProcessRow| mapping_item(wt.id, r),
                ),
            },
        }
    }
}

fn collect_raw(items: &Vec<SetWorkTypeProcessesItem>) -> (r: Vec<String>)
    ensures
        r@ == raw_ids(items@),
{
    let mut out: Vec<String> = Vec::new();
    let mut i: usize = 0;
    while i < items.len()
        invariant
            i <= items@.len(),
            out@ == raw_ids(items@).take(i as int),
        decreases items@.len() - i,
    {
        out.push(items[i].process_id.clone());
        i = i + 1;
        assert(out@ =~= raw_ids(items@).take(i as int));
    }
    assert(out@ =~= raw_ids(items@));
    out
}

fn build_rows(work_type_id: i64, items: &Vec<SetWorkTypeProcessesItem>, ids: &Vec<i64>) -> (r: Vec<
    NewWorkTypeProcessRow,
>)
    requires
        ids@ == ids_in(raw_ids(items@)),
    ensures
        r@ == new_rows(work_type_id, items@),
{
    let mut out: Vec<NewWorkTypeProcessRow> = Vec::new();
    let mut i: usize = 0;
    while i < items.len()
        invariant
            i <= items@.len(),
            ids@ == ids_in(raw_ids(items@)),
            out@ == new_rows(work_type_id, items@).take(i as int),
        decreases items@.len() - i,
    {
        out.push(
            NewWorkTypeProcessRow {
                work_type_id,
                process_id: ids[i],
                sort_order: items[i].sort_order,
            },
        );
        i = i + 1;
        assert(out@ =~= new_rows(work_type_id, items@).take(i as int));
    }
    assert(out@ =~= new_rows(work_type_id, items@));
    out
}

impl WorkTypeProcessService {
    /// Sets the processes of a work type in place of those before. No item clears
    /// them.
    pub fn set_work_type_processes(
        work_type_id: i64,
        items: &Vec<SetWorkTypeProcessesItem>,
        current: &CurrentUser,
        f: &SetProcessesFacts,
    ) -> (n: Next<WorkTypeAsk, ()>)
        ensures
            sets_processes(work_type_id, items@, *current, *f, n),
    {
        match current.require_role(Role::Manager) {
            Err(e) => {
                return Next::Done(Err(e));
            },
            Ok(()) => {},
        }
        let work_type = match &f.work_type {
            None => {
                return Next::Ask(WorkTypeAsk::ById { id: work_type_id });
            },
            Some(None) => {
                return Next::Done(
                    Err(fail_about(ErrorCode::BizWorkTypeNotFound, "work_type ", work_type_id, " 不存在")),
                );
            },
            Some(Some(s)) => s,
        };
        let ids: Vec<i64> = match parse_ids(&collect_raw(items)) {
            None => {
                return Next::Done(
                    Err(
                        AppError::biz(
                            ErrorCode::BizInvalidValue,
                            "process_id 必须为雪花 ID 字符串",
                        ),
                    ),
                );
            },
            Some(v) => v,
        };
        if ids.len() > 0 {
            match &f.existing {
                None => {
                    return Next::Ask(WorkTypeAsk::ExistingProcesses { ids: copy_ids(&ids) });
                },
                Some(existing) => {
                    if existing.len() != ids.len() {
                        let missing = find_missing(&ids, existing);
                        let message = join2("process 不存在: ", ids_text(&missing).as_str());
                        return Next::Done(
                            Err(
                                AppError::biz(
                                    ErrorCode::BizProcessNotFound,
                                    message.as_str(),
                                ),
                            ),
                        );
                    }
                },
            }
        }
        if !f.cleared {
            return Next::Ask(WorkTypeAsk::ClearMappings { work_type_id });
        }
        if items.len() > 0 && !f.inserted {
            return Next::Ask(
                WorkTypeAsk::InsertMappings {
                    rows: build_rows(work_type.id, items, &ids),
                    created_by: current.id,
                },
            );
        }
        Next::Done(Ok(()))
    }

    /// The processes of a work type.
    pub fn list_work_type_processes(
        work_type_id: i64,
        current: &CurrentUser,
        f: &ListProcessesFacts,
    ) -> (n: Next<WorkTypeAsk, WorkTypeProcessMappingOut>)
        ensures
            lists_processes(work_type_id, *current, *f, n),
    {
        match current.require_signed_in() {
            Err(e) => {
                return Next::Done(Err(e));
            },
            Ok(()) => {},
        }
        let wt = match &f.work_type {
            None => {
                return Next::Ask(WorkTypeAsk::ById { id: work_type_id });
            },
            Some(None) => {
                return Next::Done(
                    Err(
                        fail_about(
                            ErrorCode::BizWorkTypeNotFound,
                            "work_type ",
                            work_type_id,
                            " 不存在",
                        ),
                    ),
                );
            },
            Some(Some(wt)) => wt,
        };
        let rows = match &f.rows {
            None => {
                return Next::Ask(WorkTypeAsk::MappingsOf { work_type_id: wt.id });
            },
            Some(r) => r,
        };
        let ghost shown = rows@.map_values(|r: WorkTypeProcessRow| mapping_item(wt.id, r));
        let mut items: Vec<WorkTypeProcessMappingItem> = Vec::new();
        let mut i: usize = 0;
        while i < rows.len()
            invariant
                i <= rows@.len(),
                shown == rows@.map_values(|r: WorkTypeProcessRow| mapping_item(wt.id, r)),
                items@ == shown.take(i as int),
            decreases rows@.len() - i,
        {
            let m = &rows[i];
            items.push(
                WorkTypeProcessMappingItem {
                    work_type_id: wt.id,
                    process_id: m.process_id,
                    process_code: m.process_code.clone(),
                    sort_order: m.sort_order,
                },
            );
            i = i + 1;
            assert(items@ =~= shown.take(i as int));
        }
        assert(items@ =~= shown);
        Next::Done(Ok(WorkTypeProcessMappingOut { items }))
    }
}

// ---------------------------------------------------------------------------
// Laws
// ---------------------------------------------------------------------------

/// Setting processes replaces the whole list: nothing is deleted before every
/// named process was found, and what is stored afterwards is one row for each
/// item, in order; where some process was not found, nothing is deleted at all.
pub proof fn processes_are_replaced_as_a_whole(
    work_type_id: i64,
    items: Seq<SetWorkTypeProcessesItem>,
    current: CurrentUser,
    f: SetProcessesFacts,
    n: Next<WorkTypeAsk, ()>,
)
    requires
        sets_processes(work_type_id, items, current, f, n),
    ensures
        n matches Next::Ask(a) && (a is ClearMappings || a is InsertMappings) ==> all_ids(
            raw_ids(items),
        ) && (items.len() == 0 || (f.existing matches Some(e) && e@.len() == items.len())),
        n matches Next::Ask(WorkTypeAsk::InsertMappings { rows, created_by }) ==> f.cleared
            && rows@.len() == items.len() && forall|i: int|
            0 <= i < items.len() ==> (#[trigger] rows@[i]).sort_order == items[i].sort_order,
        n matches Next::Done(Ok(_)) ==> f.cleared && (items.len() == 0 || f.inserted),
{
}

/// The processes of a request with their places, in its order.
pub open spec fn wanted(items: Seq<SetWorkTypeProcessesItem>) -> Seq<(i64, i32)> {
    Seq::new(items.len(), |i: int| (ids_in(raw_ids(items))[i], items[i].sort_order))
}

/// The table of mappings once it was asked for this.
pub open spec fn table_after(table: Seq<MappingRow>, ask: WorkTypeAsk) -> Seq<MappingRow> {
    match ask {
        WorkTypeAsk::ClearMappings { work_type_id } => without_mappings(table, work_type_id),
        WorkTypeAsk::InsertMappings { rows, created_by } => table + rows@.map_values(
            |r: NewWorkTypeProcessRow|
                MappingRow {
                    owner: r.work_type_id,
                    process_id: r.process_id,
                    sort_order: r.sort_order,
                    live: true,
                },
        ),
        _ => table,
    }
}

/// `g` is what is known once the reply to what `n` asks for is noted in `f`. A
/// work type is found under its own id, and processes are found among those named.
pub open spec fn notes_reply(
    f: SetProcessesFacts,
    n: Next<WorkTypeAsk, ()>,
    g: SetProcessesFacts,
) -> bool {
    match n {
        Next::Ask(WorkTypeAsk::ById { id }) => g == (SetProcessesFacts { work_type: g.work_type, ..f })
            && g.work_type is Some && (g.work_type->0 matches Some(x) ==> x.id == id),
        Next::Ask(WorkTypeAsk::ExistingProcesses { ids }) => g == (SetProcessesFacts {
            existing: g.existing,
            ..f
        }) && g.existing is Some && finds(ids@, g.existing->0@),
        Next::Ask(WorkTypeAsk::ClearMappings { work_type_id }) => g == (SetProcessesFacts {
            cleared: true,
            ..f
        }),
        Next::Ask(WorkTypeAsk::InsertMappings { rows, created_by }) => g == (SetProcessesFacts {
            inserted: true,
            ..f
        }),
        _ => false,
    }
}

/// A run of setting the processes of a work type: it begins with nothing known, each
/// reply is noted, and the table of mappings changes as it is asked to.
pub open spec fn is_set_run(
    work_type_id: i64,
    items: Seq<SetWorkTypeProcessesItem>,
    current: CurrentUser,
    known: Seq<SetProcessesFacts>,
    answers: Seq<Next<WorkTypeAsk, ()>>,
    tables: Seq<Seq<MappingRow>>,
) -> bool {
    &&& known.len() == answers.len() && known.len() == tables.len() && known.len() > 0
    &&& known[0].work_type is None && known[0].existing is None
    &&& !known[0].cleared && !known[0].inserted
    &&& forall|i: int|
        0 <= i < known.len() ==> sets_processes(
            work_type_id,
            items,
            current,
            known[i],
            #[trigger] answers[i],
        )
    &&& forall|i: int|
        0 <= i < known.len() - 1 ==> notes_reply(known[i], #[trigger] answers[i], known[i + 1])
            && tables[i + 1] == table_after(tables[i], answers[i]->Ask_0)
}

/// What holds at every point of such a run: the table is as it was, or without
/// the mappings of the work type, or with those of the request in their place; and it
/// is touched only once the request was found to be in order.
spec fn on_the_way(
    work_type_id: i64,
    items: Seq<SetWorkTypeProcessesItem>,
    current: CurrentUser,
    f: SetProcessesFacts,
    before: Seq<MappingRow>,
    table: Seq<MappingRow>,
) -> bool {
    &&& f.work_type matches Some(Some(x)) ==> x.id == work_type_id
    &&& f.existing matches Some(e) ==> finds(ids_in(raw_ids(items)), e@)
    &&& f.inserted ==> f.cleared
    &&& f.cleared ==> {
        &&& current.is(Role::Manager)
        &&& f.work_type matches Some(Some(_))
        &&& all_ids(raw_ids(items))
        &&& items.len() == 0 || (f.existing matches Some(e) && e@.len() == items.len())
    }
    &&& table == if f.inserted {
        without_mappings(before, work_type_id) + rows_for(work_type_id, wanted(items))
    } else if f.cleared {
        without_mappings(before, work_type_id)
    } else {
        before
    }
}

proof fn lemma_on_the_way(
    work_type_id: i64,
    items: Seq<SetWorkTypeProcessesItem>,
    current: CurrentUser,
    known: Seq<SetProcessesFacts>,
    answers: Seq<Next<WorkTypeAsk, ()>>,
    tables: Seq<Seq<MappingRow>>,
    k: int,
)
    requires
        is_set_run(work_type_id, items, current, known, answers, tables),
        0 <= k < known.len(),
    ensures
        on_the_way(work_type_id, items, current, known[k], tables[0], tables[k]),
    decreases k,
{
    if k > 0 {
        lemma_on_the_way(work_type_id, items, current, known, answers, tables, k - 1);
        let n = answers[k - 1];
        assert(sets_processes(work_type_id, items, current, known[k - 1], n));
        assert(notes_reply(known[k - 1], n, known[k - 1 + 1]));
        if let Next::Ask(WorkTypeAsk::InsertMappings { rows, created_by }) = n {
            assert(table_after(tables[k - 1], n->Ask_0) =~= tables[k - 1] + rows_for(
                work_type_id,
                wanted(items),
            ));
        }
    }
}

/// Setting the processes of a work type leaves it mapped to exactly the processes of
/// the request, none of them twice, whatever it was mapped to before; what all
/// others are mapped to stays as it is. A request that is refused changes
/// nothing.
pub proof fn set_replaces_all_mappings(
    work_type_id: i64,
    items: Seq<SetWorkTypeProcessesItem>,
    current: CurrentUser,
    known: Seq<SetProcessesFacts>,
    answers: Seq<Next<WorkTypeAsk, ()>>,
    tables: Seq<Seq<MappingRow>>,
    other: i64,
)
    requires
        is_set_run(work_type_id, items, current, known, answers, tables),
    ensures
        answers.last() matches Next::Done(Ok(_)) ==> {
            &&& mapped_to(tables.last(), work_type_id) == wanted(items)
            &&& ids_in(raw_ids(items)).no_duplicates()
            &&& other != work_type_id ==> mapped_to(tables.last(), other) == mapped_to(tables[0], other)
        },
        answers.last() matches Next::Done(Err(_)) ==> tables.last() == tables[0],
{
    let last = known.len() - 1;
    let f = known[last];
    lemma_on_the_way(work_type_id, items, current, known, answers, tables, last);
    assert(sets_processes(work_type_id, items, current, f, answers[last]));
    if answers.last() matches Next::Done(Ok(_)) {
        let before = tables[0];
        if items.len() == 0 {
            assert(without_mappings(before, work_type_id) + rows_for(work_type_id, wanted(items))
                =~= without_mappings(before, work_type_id));
        } else {
            as_many_found_as_named(ids_in(raw_ids(items)), f.existing->0@);
        }
        replaced_mappings_are_the_wanted_ones(before, work_type_id, wanted(items), work_type_id);
        replaced_mappings_are_the_wanted_ones(before, work_type_id, wanted(items), other);
    }
}

/// The processes of a list with their places.
pub open spec fn listed(items: Seq<WorkTypeProcessMappingItem>) -> Seq<(i64, i32)> {
    items.map_values(|i: WorkTypeProcessMappingItem| (i.process_id, i.sort_order))
}

/// After two requests that set the processes of a work type, a list shows exactly
/// those of the second, by place.
pub proof fn list_shows_the_last_set(
    work_type_id: i64,
    first: Seq<SetWorkTypeProcessesItem>,
    first_by: CurrentUser,
    first_known: Seq<SetProcessesFacts>,
    first_answers: Seq<Next<WorkTypeAsk, ()>>,
    first_tables: Seq<Seq<MappingRow>>,
    second: Seq<SetWorkTypeProcessesItem>,
    second_by: CurrentUser,
    second_known: Seq<SetProcessesFacts>,
    second_answers: Seq<Next<WorkTypeAsk, ()>>,
    second_tables: Seq<Seq<MappingRow>>,
    reader: CurrentUser,
    f: ListProcessesFacts,
    n: Next<WorkTypeAsk, WorkTypeProcessMappingOut>,
)
    requires
        is_set_run(work_type_id, first, first_by, first_known, first_answers, first_tables),
        first_answers.last() matches Next::Done(Ok(_)),
        is_set_run(work_type_id, second, second_by, second_known, second_answers, second_tables),
        second_answers.last() matches Next::Done(Ok(_)),
        second_tables[0] == first_tables.last(),
        lists_processes(work_type_id, reader, f, n),
        n matches Next::Done(Ok(_)),
        tells_mappings(
            f.rows->0@.map_values(|r: WorkTypeProcessRow| (r.process_id, r.sort_order)),
            second_tables.last(),
            work_type_id,
        ),
    ensures
        ({
            let shown = listed(n->Done_0->Ok_0.items@);
            &&& shown.to_multiset() == wanted(second).to_multiset()
            &&& forall|i: int, j: int|
                0 <= i <= j < shown.len() ==> (#[trigger] shown[i]).1 <= (#[trigger] shown[j]).1
        }),
{
    set_replaces_all_mappings(
        work_type_id,
        second,
        second_by,
        second_known,
        second_answers,
        second_tables,
        work_type_id,
    );
    assert(listed(n->Done_0->Ok_0.items@) =~= f.rows->0@.map_values(
        |r: WorkTypeProcessRow| (r.process_id, r.sort_order),
    ));
}

} // verus!
