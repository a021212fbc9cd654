//! Lists of processes that shelves and work types are mapped to.
use crate::text::{parse_i64, parsed_i64};
use vstd::prelude::*;

verus! {

/// Every text is the id of a process, as far as its form goes.
pub open spec fn all_ids(raw: Seq<String>) -> bool {
    forall|i: int| 0 <= i < raw.len() ==> parsed_i64((#[trigger] raw[i])@) is Some
}

/// The ids that the texts stand for.
pub open spec fn ids_in(raw: Seq<String>) -> Seq<i64> {
    raw.map_values(|s: String| parsed_i64(s@)->0)
}

/// The ids that the texts stand for; nothing where one of them is no id.
pub fn parse_ids(raw: &Vec<String>) -> (r: Option<Vec<i64>>)
    ensures
        r is Some <==> all_ids(raw@),
        r matches Some(ids) ==> ids@ == ids_in(raw@),
{
    let mut out: Vec<i64> = Vec::new();
    let mut i: usize = 0;
    while i < raw.len()
        invariant
            i <= raw@.len(),
            out@.len() == i,
            forall|j: int|
                0 <= j < i ==> parsed_i64((#[trigger] raw@[j])@) is Some && out@[j] == parsed_i64(
                    raw@[j]@,
                )->0,
        decreases raw@.len() - i,
    {
        match parse_i64(raw[i].as_str()) {
            None => {
                return None;
            },
            Some(id) => {
                out.push(id);
            },
        }
        i = i + 1;
    }
    assert(out@ =~= ids_in(raw@));
    Some(out)
}

/// Those of the ids that are not there, in their order.
pub open spec fn missing_of(ids: Seq<i64>, existing: Seq<i64>) -> Seq<i64>
    decreases ids.len(),
{
    if ids.len() == 0 {
        ids
    } else if existing.contains(ids.last()) {
        missing_of(ids.drop_last(), existing)
    } else {
        missing_of(ids.drop_last(), existing).push(ids.last())
    }
}

/// A copy of a list of ids.
pub fn copy_ids(v: &Vec<i64>) -> (r: Vec<i64>)
    ensures
        r@ == v@,
{
    let r = v.clone();
    assert(r@ =~= v@);
    r
}

fn is_in(ids: &Vec<i64>, id: i64) -> (r: bool)
    ensures
        r == ids@.contains(id),
{
    let mut i: usize = 0;
    while i < ids.len()
        invariant
            i <= ids@.len(),
            forall|j: int| 0 <= j < i ==> ids@[j] != id,
        decreases ids@.len() - i,
    {
        if ids[i] == id {
            assert(ids@[i as int] == id);
            return true;
        }
        i = i + 1;
    }
    false
}

/// Those of the ids that are not there, in their order.
pub fn find_missing(ids: &Vec<i64>, existing: &Vec<i64>) -> (r: Vec<i64>)
    ensures
        r@ == missing_of(ids@, existing@),
{
    let mut out: Vec<i64> = Vec::new();
    let mut i: usize = 0;
    assert(ids@.take(0) =~= Seq::<i64>::empty());
    while i < ids.len()
        invariant
            i <= ids@.len(),
            out@ == missing_of(ids@.take(i as int), existing@),
        decreases ids@.len() - i,
    {
        assert(ids@.take(i + 1).drop_last() =~= ids@.take(i as int));
        if !is_in(existing, ids[i]) {
            out.push(ids[i]);
        }
        i = i + 1;
    }
    assert(ids@.take(i as int) =~= ids@);
    out
}

/// The processes that were found, each once, are as many as were named: then
/// every named one is there and none is named twice.
pub proof fn as_many_found_as_named(ids: Seq<i64>, existing: Seq<i64>)
    requires
        existing.no_duplicates(),
        forall|i: int| 0 <= i < existing.len() ==> ids.contains(#[trigger] existing[i]),
        existing.len() == ids.len(),
    ensures
        ids.no_duplicates(),
        forall|i: int| 0 <= i < ids.len() ==> existing.contains(#[trigger] ids[i]),
        missing_of(ids, existing).len() == 0,
{
    existing.unique_seq_to_set();
    ids.lemma_cardinality_of_set();
    vstd::seq_lib::seq_to_set_is_finite(ids);
    vstd::seq_lib::seq_to_set_is_finite(existing);
    assert(existing.to_set().subset_of(ids.to_set())) by {
        assert forall|x: i64| existing.to_set().contains(x) implies ids.to_set().contains(x) by {
            let i = choose|i: int| 0 <= i < existing.len() && existing[i] == x;
            assert(ids.contains(existing[i]));
        }
    }
    vstd::set_lib::lemma_len_subset(existing.to_set(), ids.to_set());
    vstd::set_lib::lemma_subset_equality(existing.to_set(), ids.to_set());
    ids.lemma_no_dup_set_cardinality();
    assert forall|i: int| 0 <= i < ids.len() implies existing.contains(#[trigger] ids[i]) by {
        assert(ids.to_set().contains(ids[i]));
        assert(existing.to_set().contains(ids[i]));
    }
    lemma_none_missing(ids, existing);
}

proof fn lemma_none_missing(ids: Seq<i64>, existing: Seq<i64>)
    requires
        forall|i: int| 0 <= i < ids.len() ==> existing.contains(#[trigger] ids[i]),
    ensures
        missing_of(ids, existing).len() == 0,
    decreases ids.len(),
{
    if ids.len() > 0 {
        assert(existing.contains(ids[ids.len() - 1]));
        assert forall|i: int| 0 <= i < ids.drop_last().len() implies existing.contains(
            #[trigger] ids.drop_last()[i],
        ) by {
            assert(ids.drop_last()[i] == ids[i]);
        }
        lemma_none_missing(ids.drop_last(), existing);
    }
}

// ---------------------------------------------------------------------------
// The table of mappings
// ---------------------------------------------------------------------------

/// A row of a table of mappings: the shelf or the work type that it belongs to,
/// the process, its place, and whether it has not been deleted.
pub struct MappingRow {
    pub owner: i64,
    pub process_id: i64,
    pub sort_order: i32,
    pub live: bool,
}

/// The table once the mappings of an owner are deleted: the rows are kept, marked
/// as deleted.
pub open spec fn without_mappings(table: Seq<MappingRow>, owner: i64) -> Seq<MappingRow> {
    table.map_values(
        |r: MappingRow|
            if r.owner == owner {
                MappingRow { live: false, ..r }
            } else {
                r
            },
    )
}

/// New rows of an owner, one for each process and place.
pub open spec fn rows_for(owner: i64, wanted: Seq<(i64, i32)>) -> Seq<MappingRow> {
    wanted.map_values(
        |w: (i64, i32)| MappingRow { owner, process_id: w.0, sort_order: w.1, live: true },
    )
}

/// The processes that an owner is mapped to, with their places: the rows of the
/// owner that are not deleted.
pub open spec fn mapped_to(table: Seq<MappingRow>, owner: i64) -> Seq<(i64, i32)> {
    table.filter(|r: MappingRow| r.live && r.owner == owner).map_values(
        |r: MappingRow| (r.process_id, r.sort_order),
    )
}

/// The named processes that exist, each once.
pub open spec fn finds(ids: Seq<i64>, existing: Seq<i64>) -> bool {
    &&& existing.no_duplicates()
    &&& forall|i: int| 0 <= i < existing.len() ==> ids.contains(#[trigger] existing[i])
}

/// `rows` tells what an owner is mapped to, by place.
pub open spec fn tells_mappings(
    rows: Seq<(i64, i32)>,
    table: Seq<MappingRow>,
    owner: i64,
) -> bool {
    &&& rows.to_multiset() == mapped_to(table, owner).to_multiset()
    &&& forall|i: int, j: int|
        0 <= i <= j < rows.len() ==> (#[trigger] rows[i]).1 <= (#[trigger] rows[j]).1
}

proof fn lemma_cleared(table: Seq<MappingRow>, owner: i64, other: i64)
    ensures
        mapped_to(without_mappings(table, owner), other) == if other == owner {
            Seq::empty()
        } else {
            mapped_to(table, other)
        },
    decreases table.len(),
{
    reveal(Seq::filter);
    let after = without_mappings(table, owner);
    if table.len() == 0 {
        assert(mapped_to(after, other) =~= Seq::empty());
        assert(mapped_to(table, other) =~= Seq::empty());
    } else {
        let front = table.drop_last();
        lemma_cleared(front, owner, other);
        assert(after.drop_last() =~= without_mappings(front, owner));
        let row = table.last();
        if row.live && row.owner == other {
            assert(mapped_to(table, other) =~= mapped_to(front, other).push(
                (row.process_id, row.sort_order),
            ));
        } else {
            assert(mapped_to(table, other) =~= mapped_to(front, other));
        }
        if row.live && row.owner == other && other != owner {
            assert(mapped_to(after, other) =~= mapped_to(after.drop_last(), other).push(
                (row.process_id, row.sort_order),
            ));
        } else {
            assert(mapped_to(after, other) =~= mapped_to(after.drop_last(), other));
        }
    }
}

proof fn lemma_rows_for(owner: i64, wanted: Seq<(i64, i32)>, other: i64)
    ensures
        mapped_to(rows_for(owner, wanted), other) == if other == owner {
            wanted
        } else {
            Seq::empty()
        },
    decreases wanted.len(),
{
    reveal(Seq::filter);
    let rows = rows_for(owner, wanted);
    if wanted.len() == 0 {
        assert(mapped_to(rows, other) =~= Seq::empty());
        assert(wanted =~= Seq::empty());
    } else {
        lemma_rows_for(owner, wanted.drop_last(), other);
        assert(rows.drop_last() =~= rows_for(owner, wanted.drop_last()));
        if other == owner {
            assert(mapped_to(rows, other) =~= mapped_to(rows.drop_last(), other).push(
                wanted.last(),
            ));
            assert(wanted =~= wanted.drop_last().push(wanted.last()));
        } else {
            assert(mapped_to(rows, other) =~= mapped_to(rows.drop_last(), other));
        }
    }
}

/// Deleting the mappings of an owner and entering others leaves the owner mapped
/// to those alone, and every other owner to the same processes as before.
pub proof fn replaced_mappings_are_the_wanted_ones(
    table: Seq<MappingRow>,
    owner: i64,
    wanted: Seq<(i64, i32)>,
    other: i64,
)
    ensures
        mapped_to(without_mappings(table, owner) + rows_for(owner, wanted), other) == if other
            == owner {
            wanted
        } else {
            mapped_to(table, other)
        },
{
    let cleared = without_mappings(table, owner);
    let new = rows_for(owner, wanted);
    lemma_cleared(table, owner, other);
    lemma_rows_for(owner, wanted, other);
    Seq::filter_distributes_over_add(
        cleared,
        new,
        |r: MappingRow| r.live && r.owner == other,
    );
    assert(mapped_to(cleared + new, other) =~= mapped_to(cleared, other) + mapped_to(new, other));
    assert(Seq::<(i64, i32)>::empty() + wanted =~= wanted);
    assert(mapped_to(table, other) + Seq::<(i64, i32)>::empty() =~= mapped_to(table, other));
}

} // verus!
