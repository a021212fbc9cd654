//! Which processes a shelf serves.
use super::dto::{SetShelfProcessesItem, ShelfProcessMappingItem, ShelfProcessMappingOut};
use super::model::TShelf;
use super::service::{hidden, hidden_text, ShelfAsk};
use crate::auth::{forbidden_text, CurrentUser, Role};
use crate::error::{about, fail_about, AppError, ErrorCode};
use crate::flow::Next;
use crate::mapping::{
    all_ids, as_many_found_as_named, copy_ids, find_missing, finds, ids_in, mapped_to, missing_of,
    parse_ids, replaced_mappings_are_the_wanted_ones, rows_for, tells_mappings, without_mappings,
    MappingRow,
};
use crate::text::{ids_text, join2, list_text};
use vstd::prelude::*;

verus! {

/// A mapping to be stored.
#[derive(Debug, Clone, Copy, PartialEq, Eq, Structural)]
pub struct NewShelfProcessRow {
    pub shelf_id: i64,
    pub process_id: i64,
    pub sort_order: i32,
}

/// The table of mappings.
pub struct ShelfProcessRepo;

pub struct ShelfProcessService;

/// What is known while the processes of a shelf are set.
pub struct SetProcessesFacts {
    pub shelf: Option<Option<TShelf>>,
    /// Those of the named processes that exist, each once.
    pub existing: Option<Vec<i64>>,
    pub cleared: bool,
    pub inserted: bool,
}

/// The texts that name processes.
pub open spec fn raw_ids(items: Seq<SetShelfProcessesItem>) -> Seq<String> {
    items.map_values(|it: SetShelfProcessesItem| it.process_id)
}

/// The mappings to be stored, in the order of the request.
pub open spec fn new_rows(
    shelf_id: i64,
    items: Seq<SetShelfProcessesItem>,
) -> Seq<NewShelfProcessRow> {
    Seq::new(
        items.len(),
        |i: int|
            NewShelfProcessRow {
                shelf_id,
                process_id: ids_in(raw_ids(items))[i],
                sort_order: items[i].sort_order,
            },
    )
}

/// How the mappings of a shelf are replaced, once all named processes exist.
pub open spec fn replaces(
    shelf_id: i64,
    shelf: TShelf,
    items: Seq<SetShelfProcessesItem>,
    by: i64,
    f: SetProcessesFacts,
    n: Next<ShelfAsk, ()>,
) -> bool {
    if !f.cleared {
        n.asks(ShelfAsk::ClearMappings { shelf_id })
    } else if items.len() > 0 && !f.inserted {
        n matches Next::Ask(ShelfAsk::InsertMappings { rows, created_by }) && rows@ == new_rows(
            shelf.id,
            items,
        ) && created_by == by
    } else {
        n.succeeds(())
    }
}

/// How the processes of a shelf are set.
pub open spec fn sets_processes(
    shelf_id: i64,
    items: Seq<SetShelfProcessesItem>,
    current: CurrentUser,
    f: SetProcessesFacts,
    n: Next<ShelfAsk, ()>,
) -> bool {
    let ids = ids_in(raw_ids(items));
    if !current.is(Role::Manager) {
        n.fails(ErrorCode::Forbidden, forbidden_text())
    } else {
        match f.shelf {
            None => n.asks(ShelfAsk::ById { id: shelf_id }),
            Some(None) => n.fails(
                ErrorCode::BizShelfNotFound,
                about("shelf "@, shelf_id, " 不存在"@),
            ),
            Some(Some(s)) => if !all_ids(raw_ids(items)) {
                n.fails(ErrorCode::BizInvalidValue, "process_id 必须为雪花 ID 字符串"@)
            } else if items.len() == 0 {
                replaces(shelf_id, s, items, current.id, f, n)
            } else {
                match f.existing {
                    None => n matches Next::Ask(ShelfAsk::ExistingProcesses { ids: asked })
                        && asked@ == ids,
                    Some(existing) => if existing@.len() != ids.len() {
                        n.fails(
                            ErrorCode::BizShelfProcessProcessNotFound,
                            "process 不存在: "@ + list_text(missing_of(ids, existing@)),
                        )
                    } else {
                        replaces(shelf_id, s, items, current.id, f, n)
                    },
                }
            },
        }
    }
}

/// What is known while the processes of a shelf are listed.
pub struct ListProcessesFacts {
    pub shelf: Option<Option<TShelf>>,
    pub rows: Option<Vec<ShelfProcessMappingItem>>,
}

/// How the processes of a shelf are listed.
pub open spec fn lists_processes(
    shelf_id: i64,
    current: CurrentUser,
    f: ListProcessesFacts,
    n: Next<ShelfAsk, ShelfProcessMappingOut>,
) -> bool {
    if !current.has_some_role() {
        n.fails(ErrorCode::Forbidden, forbidden_text())
    } else {
        match f.shelf {
            None => n.asks(ShelfAsk::ById { id: shelf_id }),
            Some(None) => n.fails(
                ErrorCode::BizShelfNotFound,
                about("shelf "@, shelf_id, " 不存在"@),
            ),
            Some(Some(s)) => if !current.sees_shelf(s.id) {
                n.fails(ErrorCode::ShelfMismatch, hidden_text(shelf_id))
            } else {
                match f.rows {
                    None => n.asks(ShelfAsk::MappingsOf { shelf_id: s.id }),
                    Some(rows) => n matches Next::Done(Ok(out)) && out.items@ == rows@,
                }
            },
        }
    }
}

fn collect_raw(items: &Vec<SetShelfProcessesItem>) -> (r: Vec<String>)
    ensures
        r@ == raw_ids(items@),
{
    let mut out: Vec<String> = Vec::new();
    let mut i: usize = 0;
    while i < items.len()
        invariant
            i <= items@.len(),
            out@ == raw_ids(items@).take(i as int),
        decreases items@.len() - i,
    {
        out.push(items[i].process_id.clone());
        i = i + 1;
        assert(out@ =~= raw_ids(items@).take(i as int));
    }
    assert(out@ =~= raw_ids(items@));
    out
}

fn build_rows(shelf_id: i64, items: &Vec<SetShelfProcessesItem>, ids: &Vec<i64>) -> (r: Vec<
    NewShelfProcessRow,
>)
    requires
        ids@ == ids_in(raw_ids(items@)),
    ensures
        r@ == new_rows(shelf_id, items@),
{
    let mut out: Vec<NewShelfProcessRow> = Vec::new();
    let mut i: usize = 0;
    while i < items.len()
        invariant
            i <= items@.len(),
            ids@ == ids_in(raw_ids(items@)),
            out@ == new_rows(shelf_id, items@).take(i as int),
        decreases items@.len() - i,
    {
        out.push(
            NewShelfProcessRow {
                shelf_id,
                process_id: ids[i],
                sort_order: items[i].sort_order,
            },
        );
        i = i + 1;
        assert(out@ =~= new_rows(shelf_id, items@).take(i as int));
    }
    assert(out@ =~= new_rows(shelf_id, items@));
    out
}

impl ShelfProcessService {
    /// Sets the processes of a shelf in place of those before. No item clears
    /// them.
    pub fn set_shelf_processes(
        shelf_id: i64,
        items: &Vec<SetShelfProcessesItem>,
        current: &CurrentUser,
        f: &SetProcessesFacts,
    ) -> (n: Next<ShelfAsk, ()>)
        ensures
            sets_processes(shelf_id, items@, *current, *f, n),
    {
        match current.require_role(Role::Manager) {
            Err(e) => {
                return Next::Done(Err(e));
            },
            Ok(()) => {},
        }
        let shelf = match &f.shelf {
            None => {
                return Next::Ask(ShelfAsk::ById { id: shelf_id });
            },
            Some(None) => {
                return Next::Done(
                    Err(fail_about(ErrorCode::BizShelfNotFound, "shelf ", shelf_id, " 不存在")),
                );
            },
            Some(Some(s)) => s,
        };
        let ids: Vec<i64> = match parse_ids(&collect_raw(items)) {
            None => {
                return Next::Done(
                    Err(
                        AppError::biz(
                            ErrorCode::BizInvalidValue,
                            "process_id 必须为雪花 ID 字符串",
                        ),
                    ),
                );
            },
            Some(v) => v,
        };
        if ids.len() > 0 {
            match &f.existing {
                None => {
                    return Next::Ask(ShelfAsk::ExistingProcesses { ids: copy_ids(&ids) });
                },
                Some(existing) => {
                    if existing.len() != ids.len() {
                        let missing = find_missing(&ids, existing);
                        let message = join2("process 不存在: ", ids_text(&missing).as_str());
                        return Next::Done(
                            Err(
                                AppError::biz(
                                    ErrorCode::BizShelfProcessProcessNotFound,
                                    message.as_str(),
                                ),
                            ),
                        );
                    }
                },
            }
        }
        if !f.cleared {
            return Next::Ask(ShelfAsk::ClearMappings { shelf_id });
        }
        if items.len() > 0 && !f.inserted {
            return Next::Ask(
                ShelfAsk::InsertMappings {
                    rows: build_rows(shelf.id, items, &ids),
                    created_by: current.id,
                },
            );
        }
        Next::Done(Ok(()))
    }

    /// The processes of a shelf that the caller may see.
    pub fn list_shelf_processes(shelf_id: i64, current: &CurrentUser, f: &ListProcessesFacts) -> (n:
        Next<ShelfAsk, ShelfProcessMappingOut>)
        ensures
            lists_processes(shelf_id, *current, *f, n),
    {
        match current.require_signed_in() {
            Err(e) => {
                return Next::Done(Err(e));
            },
            Ok(()) => {},
        }
        let shelf = match &f.shelf {
            None => {
                return Next::Ask(ShelfAsk::ById { id: shelf_id });
            },
            Some(None) => {
                return Next::Done(
                    Err(fail_about(ErrorCode::BizShelfNotFound, "shelf ", shelf_id, " 不存在")),
                );
            },
            Some(Some(s)) => s,
        };
        if !current.can_access_shelf(shelf.id) {
            return Next::Done(Err(hidden(shelf_id)));
        }
        let rows = match &f.rows {
            None => {
                return Next::Ask(ShelfAsk::MappingsOf { shelf_id: shelf.id });
            },
            Some(r) => r,
        };
        let mut items: Vec<ShelfProcessMappingItem> = Vec::new();
        let mut i: usize = 0;
        while i < rows.len()
            invariant
                i <= rows@.len(),
                items@ == rows@.take(i as int),
            decreases rows@.len() - i,
        {
            let m = &rows[i];
            items.push(
                ShelfProcessMappingItem {
                    shelf_id: m.shelf_id,
                    shelf_code: m.shelf_code.clone(),
                    process_id: m.process_id,
                    process_code: m.process_code.clone(),
                    sort_order: m.sort_order,
                },
            );
            i = i + 1;
        }
        assert(items@ =~= rows@);
        Next::Done(Ok(ShelfProcessMappingOut { items }))
    }
}

// ---------------------------------------------------------------------------
// Laws
// ---------------------------------------------------------------------------

/// Setting processes replaces the whole list: nothing is deleted before every
/// named process was found, and what is stored afterwards is one row for each
/// item, in order; where some process was not found, nothing is deleted at all.
pub proof fn processes_are_replaced_as_a_whole(
    shelf_id: i64,
    items: Seq<SetShelfProcessesItem>,
    current: CurrentUser,
    f: SetProcessesFacts,
    n: Next<ShelfAsk, ()>,
)
    requires
        sets_processes(shelf_id, items, current, f, n),
    ensures
        n matches Next::Ask(a) && (a is ClearMappings || a is InsertMappings) ==> all_ids(
            raw_ids(items),
        ) && (items.len() == 0 || (f.existing matches Some(e) && e@.len() == items.len())),
        n matches Next::Ask(ShelfAsk::InsertMappings { rows, created_by }) ==> f.cleared
            && rows@.len() == items.len() && forall|i: int|
            0 <= i < items.len() ==> (#[trigger] rows@[i]).sort_order == items[i].sort_order,
        n matches Next::Done(Ok(_)) ==> f.cleared && (items.len() == 0 || f.inserted),
{
}

/// The processes of a request with their places, in its order.
pub open spec fn wanted(items: Seq<SetShelfProcessesItem>) -> Seq<(i64, i32)> {
    Seq::new(items.len(), |i: int| (ids_in(raw_ids(items))[i], items[i].sort_order))
}

/// The table of mappings once it was asked for this.
pub open spec fn table_after(table: Seq<MappingRow>, ask: ShelfAsk) -> Seq<MappingRow> {
    match ask {
        ShelfAsk::ClearMappings { shelf_id } => without_mappings(table, shelf_id),
        ShelfAsk::InsertMappings { rows, created_by } => table + rows@.map_values(
            |r: NewShelfProcessRow|
                MappingRow {
                    owner: r.shelf_id,
                    process_id: r.process_id,
                    sort_order: r.sort_order,
                    live: true,
                },
        ),
        _ => table,
    }
}

/// `g` is what is known once the reply to what `n` asks for is noted in `f`. A
/// shelf is found under its own id, and processes are found among those named.
pub open spec fn notes_reply(
    f: SetProcessesFacts,
    n: Next<ShelfAsk, ()>,
    g: SetProcessesFacts,
) -> bool {
    match n {
        Next::Ask(ShelfAsk::ById { id }) => g == (SetProcessesFacts { shelf: g.shelf, ..f })
            && g.shelf is Some && (g.shelf->0 matches Some(x) ==> x.id == id),
        Next::Ask(ShelfAsk::ExistingProcesses { ids }) => g == (SetProcessesFacts {
            existing: g.existing,
            ..f
        }) && g.existing is Some && finds(ids@, g.existing->0@),
        Next::Ask(ShelfAsk::ClearMappings { shelf_id }) => g == (SetProcessesFacts {
            cleared: true,
            ..f
        }),
        Next::Ask(ShelfAsk::InsertMappings { rows, created_by }) => g == (SetProcessesFacts {
            inserted: true,
            ..f
        }),
        _ => false,
    }
}

/// A run of setting the processes of a shelf: it begins with nothing known, each
/// reply is noted, and the table of mappings changes as it is asked to.
pub open spec fn is_set_run(
    shelf_id: i64,
    items: Seq<SetShelfProcessesItem>,
    current: CurrentUser,
    known: Seq<SetProcessesFacts>,
    answers: Seq<Next<ShelfAsk, ()>>,
    tables: Seq<Seq<MappingRow>>,
) -> bool {
    &&& known.len() == answers.len() && known.len() == tables.len() && known.len() > 0
    &&& known[0].shelf is None && known[0].existing is None
    &&& !known[0].cleared && !known[0].inserted
    &&& forall|i: int|
        0 <= i < known.len() ==> sets_processes(
            shelf_id,
            items,
            current,
            known[i],
            #[trigger] answers[i],
        )
    &&& forall|i: int|
        0 <= i < known.len() - 1 ==> notes_reply(known[i], #[trigger] answers[i], known[i + 1])
            && tables[i + 1] == table_after(tables[i], answers[i]->Ask_0)
}

/// What holds at every point of such a run: the table is as it was, or without
/// the mappings of the shelf, or with those of the request in their place; and it
/// is touched only once the request was found to be in order.
spec fn on_the_way(
    shelf_id: i64,
    items: Seq<SetShelfProcessesItem>,
    current: CurrentUser,
    f: SetProcessesFacts,
    before: Seq<MappingRow>,
    table: Seq<MappingRow>,
) -> bool {
    &&& f.shelf matches Some(Some(x)) ==> x.id == shelf_id
    &&& f.existing matches Some(e) ==> finds(ids_in(raw_ids(items)), e@)
    &&& f.inserted ==> f.cleared
    &&& f.cleared ==> {
        &&& current.is(Role::Manager)
        &&& f.shelf matches Some(Some(_))
        &&& all_ids(raw_ids(items))
        &&& items.len() == 0 || (f.existing matches Some(e) && e@.len() == items.len())
    }
    &&& table == if f.inserted {
        without_mappings(before, shelf_id) + rows_for(shelf_id, wanted(items))
    } else if f.cleared {
        without_mappings(before, shelf_id)
    } else {
        before
    }
}

proof fn lemma_on_the_way(
    shelf_id: i64,
    items: Seq<SetShelfProcessesItem>,
    current: CurrentUser,
    known: Seq<SetProcessesFacts>,
    answers: Seq<Next<ShelfAsk, ()>>,
    tables: Seq<Seq<MappingRow>>,
    k: int,
)
    requires
        is_set_run(shelf_id, items, current, known, answers, tables),
        0 <= k < known.len(),
    ensures
        on_the_way(shelf_id, items, current, known[k], tables[0], tables[k]),
    decreases k,
{
    if k > 0 {
        lemma_on_the_way(shelf_id, items, current, known, answers, tables, k - 1);
        let n = answers[k - 1];
        assert(sets_processes(shelf_id, items, current, known[k - 1], n));
        assert(notes_reply(known[k - 1], n, known[k - 1 + 1]));
        if let Next::Ask(ShelfAsk::InsertMappings { rows, created_by }) = n {
            assert(table_after(tables[k - 1], n->Ask_0) =~= tables[k - 1] + rows_for(
                shelf_id,
                wanted(items),
            ));
        }
    }
}

/// Setting the processes of a shelf leaves it mapped to exactly the processes of
/// the request, none of them twice, whatever it was mapped to before; what all
/// others are mapped to stays as it is. A request that is refused changes
/// nothing.
pub proof fn set_replaces_all_mappings(
    shelf_id: i64,
    items: Seq<SetShelfProcessesItem>,
    current: CurrentUser,
    known: Seq<SetProcessesFacts>,
    answers: Seq<Next<ShelfAsk, ()>>,
    tables: Seq<Seq<MappingRow>>,
    other: i64,
)
    requires
        is_set_run(shelf_id, items, current, known, answers, tables),
    ensures
        answers.last() matches Next::Done(Ok(_)) ==> {
            &&& mapped_to(tables.last(), shelf_id) == wanted(items)
            &&& ids_in(raw_ids(items)).no_duplicates()
            &&& other != shelf_id ==> mapped_to(tables.last(), other) == mapped_to(tables[0], other)
        },
        answers.last() matches Next::Done(Err(_)) ==> tables.last() == tables[0],
{
    let last = known.len() - 1;
    let f = known[last];
    lemma_on_the_way(shelf_id, items, current, known, answers, tables, last);
    assert(sets_processes(shelf_id, items, current, f, answers[last]));
    if answers.last() matches Next::Done(Ok(_)) {
        let before = tables[0];
        if items.len() == 0 {
            assert(without_mappings(before, shelf_id) + rows_for(shelf_id, wanted(items))
                =~= without_mappings(before, shelf_id));
        } else {
            as_many_found_as_named(ids_in(raw_ids(items)), f.existing->0@);
        }
        replaced_mappings_are_the_wanted_ones(before, shelf_id, wanted(items), shelf_id);
        replaced_mappings_are_the_wanted_ones(before, shelf_id, wanted(items), other);
    }
}

/// The processes of a list with their places.
pub open spec fn listed(items: Seq<ShelfProcessMappingItem>) -> Seq<(i64, i32)> {
    items.map_values(|i: ShelfProcessMappingItem| (i.process_id, i.sort_order))
}

/// After two requests that set the processes of a shelf, a list shows exactly
/// those of the second, by place.
pub proof fn list_shows_the_last_set(
    shelf_id: i64,
    first: Seq<SetShelfProcessesItem>,
    first_by: CurrentUser,
    first_known: Seq<SetProcessesFacts>,
    first_answers: Seq<Next<ShelfAsk, ()>>,
    first_tables: Seq<Seq<MappingRow>>,
    second: Seq<SetShelfProcessesItem>,
    second_by: CurrentUser,
    second_known: Seq<SetProcessesFacts>,
    second_answers: Seq<Next<ShelfAsk, ()>>,
    second_tables: Seq<Seq<MappingRow>>,
    reader: CurrentUser,
    f: ListProcessesFacts,
    n: Next<ShelfAsk, ShelfProcessMappingOut>,
)
    requires
        is_set_run(shelf_id, first, first_by, first_known, first_answers, first_tables),
        first_answers.last() matches Next::Done(Ok(_)),
        is_set_run(shelf_id, second, second_by, second_known, second_answers, second_tables),
        second_answers.last() matches Next::Done(Ok(_)),
        second_tables[0] == first_tables.last(),
        lists_processes(shelf_id, reader, f, n),
        n matches Next::Done(Ok(_)),
        tells_mappings(
            f.rows->0@.map_values(|r: ShelfProcessMappingItem| (r.process_id, r.sort_order)),
            second_tables.last(),
            shelf_id,
        ),
    ensures
        ({
            let shown = listed(n->Done_0->Ok_0.items@);
            &&& shown.to_multiset() == wanted(second).to_multiset()
            &&& forall|i: int, j: int|
                0 <= i <= j < shown.len() ==> (#[trigger] shown[i]).1 <= (#[trigger] shown[j]).1
        }),
{
    set_replaces_all_mappings(
        shelf_id,
        second,
        second_by,
        second_known,
        second_answers,
        second_tables,
        shelf_id,
    );
    assert(listed(n->Done_0->Ok_0.items@) =~= f.rows->0@.map_values(
        |r: ShelfProcessMappingItem| (r.process_id, r.sort_order),
    ));
}

} // verus!
