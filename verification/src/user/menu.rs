//! The menu tree: flat menu entries put below their parents, in order.
use super::dto::MenuNodeOut;
use super::model::Menu;
use crate::text::{chars_of, copy_opt, decimal, id_text, opt_view};
use vstd::prelude::*;

verus! {

// ---------------------------------------------------------------------------
// The model
// ---------------------------------------------------------------------------

/// There is an entry with this id.
pub open spec fn is_visible(menus: Seq<Menu>, id: i64) -> bool {
    exists|i: int| 0 <= i < menus.len() && (#[trigger] menus[i]).id == id
}

/// The entry that a row is put below: its parent, where that is another entry and
/// there is one; else the row stands at the top.
pub open spec fn anchor(menus: Seq<Menu>, row: Menu) -> Option<i64> {
    match row.parent_id {
        Some(p) => if p != row.id && is_visible(menus, p) {
            Some(p)
        } else {
            None
        },
        None => None,
    }
}

/// The ids of those of `rows` that are put below `p`, in their order.
pub open spec fn ids_under(menus: Seq<Menu>, rows: Seq<Menu>, p: Option<i64>) -> Seq<i64>
    decreases rows.len(),
{
    if rows.len() == 0 {
        Seq::empty()
    } else {
        let before = ids_under(menus, rows.drop_last(), p);
        if anchor(menus, rows.last()) == p {
            before.push(rows.last().id)
        } else {
            before
        }
    }
}

/// The entry with an id; of two the later counts.
pub open spec fn row_of(menus: Seq<Menu>, id: i64) -> Menu
    decreases menus.len(),
{
    if menus.len() == 0 {
        arbitrary()
    } else if menus.last().id == id {
        menus.last()
    } else {
        row_of(menus.drop_last(), id)
    }
}

/// One text comes before the other or is the same, character by character.
pub open spec fn text_le(a: Seq<char>, b: Seq<char>) -> bool
    decreases a.len(),
{
    if a.len() == 0 {
        true
    } else if b.len() == 0 {
        false
    } else if a[0] != b[0] {
        a[0] < b[0]
    } else {
        text_le(a.drop_first(), b.drop_first())
    }
}

/// One entry comes before another or on a par with it: by sort order, then by
/// code.
pub open spec fn row_le(a: Menu, b: Menu) -> bool {
    a.sort_order < b.sort_order || (a.sort_order == b.sort_order && text_le(a.code@, b.code@))
}

/// `id` put into an ordered list, behind everything that does not come after it.
pub open spec fn inserted(menus: Seq<Menu>, ids: Seq<i64>, id: i64) -> Seq<i64>
    decreases ids.len(),
{
    if ids.len() == 0 || row_le(row_of(menus, ids.last()), row_of(menus, id)) {
        ids.push(id)
    } else {
        inserted(menus, ids.drop_last(), id).push(ids.last())
    }
}

/// The ids in the order of their entries; those on a par keep their order.
pub open spec fn ordered(menus: Seq<Menu>, ids: Seq<i64>) -> Seq<i64>
    decreases ids.len(),
{
    if ids.len() == 0 {
        ids
    } else {
        inserted(menus, ordered(menus, ids.drop_last()), ids.last())
    }
}

/// A list without an id.
pub open spec fn without(ids: Seq<i64>, id: i64) -> Seq<i64>
    decreases ids.len(),
{
    if ids.len() == 0 {
        ids
    } else if ids.last() == id {
        without(ids.drop_last(), id)
    } else {
        without(ids.drop_last(), id).push(ids.last())
    }
}

/// An entry with the entries below it.
pub struct Tree {
    pub row: Menu,
    pub children: Seq<Tree>,
}

/// The entry with an id and all below it, and the ids that are left to place
/// after that. An id that is placed already gives nothing.
pub open spec fn grown(menus: Seq<Menu>, id: i64, left: Seq<i64>) -> (Option<Tree>, Seq<i64>)
    decreases left.len(), 0nat,
{
    if !left.contains(id) {
        (None, left)
    } else {
        proof {
            lemma_without(left, id);
        }
        let below = grown_all(
            menus,
            ordered(menus, ids_under(menus, menus, Some(id))),
            without(left, id),
        );
        (Some(Tree { row: row_of(menus, id), children: below.0 }), below.1)
    }
}

/// The entries with these ids, one after the other, each with all below it.
pub open spec fn grown_all(menus: Seq<Menu>, ids: Seq<i64>, left: Seq<i64>) -> (
    Seq<Tree>,
    Seq<i64>,
)
    decreases left.len(), ids.len() + 1,
{
    if ids.len() == 0 {
        (Seq::empty(), left)
    } else {
        let front = grown_all(menus, ids.drop_last(), left);
        // Placing entries never adds to what is left, so this always holds.
        if front.1.len() <= left.len() {
            let last = grown(menus, ids.last(), front.1);
            match last.0 {
                Some(t) => (front.0.push(t), last.1),
                None => (front.0, last.1),
            }
        } else {
            front
        }
    }
}

/// All ids.
pub open spec fn ids_of(menus: Seq<Menu>) -> Seq<i64> {
    menus.map_values(|m: Menu| m.id)
}

/// The tree of the entries: those without a visible parent at the top, each with
/// the entries below it, all in order.
pub open spec fn menu_tree(menus: Seq<Menu>) -> Seq<Tree> {
    grown_all(menus, ordered(menus, ids_under(menus, menus, None)), ids_of(menus)).0
}

/// A node shows an entry and what is below it.
pub open spec fn shows_node(n: MenuNodeOut, t: Tree) -> bool
    decreases t,
{
    &&& n.id == t.row.id
    &&& n.version == t.row.version
    &&& opt_view(n.parent_id) == match t.row.parent_id {
        Some(p) => Some(decimal(p as int)),
        None => None,
    }
    &&& n.code == t.row.code
    &&& n.title == t.row.title
    &&& n.path == t.row.path
    &&& n.icon == t.row.icon
    &&& n.sort_order == t.row.sort_order
    &&& shows_nodes(n.children@, t.children)
}

/// Nodes show entries one by one.
pub open spec fn shows_nodes(ns: Seq<MenuNodeOut>, ts: Seq<Tree>) -> bool
    decreases ts,
{
    &&& ns.len() == ts.len()
    &&& ts.len() > 0 ==> shows_nodes(ns.drop_last(), ts.drop_last()) && shows_node(
        ns.last(),
        ts.last(),
    )
}

// ---------------------------------------------------------------------------
// Lemmas on the model
// ---------------------------------------------------------------------------

/// Taking an id out takes out that id alone.
pub proof fn lemma_without(ids: Seq<i64>, id: i64)
    ensures
        without(ids, id).len() <= ids.len(),
        ids.contains(id) ==> without(ids, id).len() < ids.len(),
        forall|x: i64| #[trigger]
            without(ids, id).contains(x) <==> ids.contains(x) && x != id,
    decreases ids.len(),
{
    if ids.len() > 0 {
        let rest = ids.drop_last();
        lemma_without(rest, id);
        assert forall|x: i64| ids.contains(x) <==> rest.contains(x) || x == ids.last() by {
            if ids.contains(x) {
                let i = choose|i: int| 0 <= i < ids.len() && ids[i] == x;
                if i < rest.len() {
                    assert(rest[i] == x);
                }
            }
            if rest.contains(x) {
                let i = choose|i: int| 0 <= i < rest.len() && rest[i] == x;
                assert(ids[i] == x);
            }
            assert(ids[ids.len() - 1] == ids.last());
        }
        let out = without(ids, id);
        assert forall|x: i64| #[trigger] out.contains(x) <==> ids.contains(x) && x != id by {
            if ids.last() != id {
                let inner = without(rest, id);
                if out.contains(x) {
                    let i = choose|i: int| 0 <= i < out.len() && out[i] == x;
                    if i < inner.len() {
                        assert(inner[i] == x);
                    }
                }
                if inner.contains(x) {
                    let i = choose|i: int| 0 <= i < inner.len() && inner[i] == x;
                    assert(out[i] == x);
                }
                assert(out[out.len() - 1] == ids.last());
            }
        }
    }
}

/// Placing entries never adds to what is left.
proof fn lemma_grown_shrinks(menus: Seq<Menu>, id: i64, left: Seq<i64>)
    ensures
        grown(menus, id, left).1.len() <= left.len(),
        forall|x: i64| #[trigger] grown(menus, id, left).1.contains(x) ==> left.contains(x),
    decreases left.len(), 0nat,
{
    if left.contains(id) {
        lemma_without(left, id);
        lemma_grown_all_shrinks(
            menus,
            ordered(menus, ids_under(menus, menus, Some(id))),
            without(left, id),
        );
    }
}

proof fn lemma_grown_all_shrinks(menus: Seq<Menu>, ids: Seq<i64>, left: Seq<i64>)
    ensures
        grown_all(menus, ids, left).1.len() <= left.len(),
        forall|x: i64| #[trigger] grown_all(menus, ids, left).1.contains(x) ==> left.contains(x),
    decreases left.len(), ids.len() + 1,
{
    if ids.len() > 0 {
        lemma_grown_all_shrinks(menus, ids.drop_last(), left);
        lemma_grown_shrinks(menus, ids.last(), grown_all(menus, ids.drop_last(), left).1);
    }
}

// ---------------------------------------------------------------------------
// Code
// ---------------------------------------------------------------------------

fn text_before_or_same(a: &str, b: &str) -> (r: bool)
    ensures
        r == text_le(a@, b@),
{
    let x: Vec<char> = chars_of(a);
    let y: Vec<char> = chars_of(b);
    let mut i: usize = 0;
    assert(a@.skip(0) =~= a@);
    assert(b@.skip(0) =~= b@);
    while i < x.len() && i < y.len() && x[i] == y[i]
        invariant
            i <= x@.len(),
            i <= y@.len(),
            x@ == a@,
            y@ == b@,
            text_le(a@, b@) == text_le(a@.skip(i as int), b@.skip(i as int)),
        decreases x@.len() - i,
    {
        assert(a@.skip(i as int).drop_first() =~= a@.skip(i + 1));
        assert(b@.skip(i as int).drop_first() =~= b@.skip(i + 1));
        i = i + 1;
    }
    if i == x.len() {
        true
    } else if i == y.len() {
        false
    } else {
        x[i] < y[i]
    }
}

fn find_row(menus: &Vec<Menu>, id: i64) -> (r: usize)
    requires
        is_visible(menus@, id),
    ensures
        r < menus@.len(),
        menus@[r as int] == row_of(menus@, id),
        menus@[r as int].id == id,
{
    let mut k: usize = menus.len();
    assert(menus@.take(k as int) =~= menus@);
    while k > 0
        invariant
            k <= menus@.len(),
            is_visible(menus@.take(k as int), id),
            row_of(menus@.take(k as int), id) == row_of(menus@, id),
        decreases k,
    {
        let ghost cut = menus@.take(k as int);
        assert(cut.last() == menus@[k - 1]);
        assert(cut.drop_last() =~= menus@.take(k - 1));
        if menus[k - 1].id == id {
            return k - 1;
        }
        proof {
            let i = choose|i: int| 0 <= i < cut.len() && (#[trigger] cut[i]).id == id;
            assert(menus@.take(k - 1)[i].id == id);
        }
        k = k - 1;
    }
    assert(false);
    0
}

fn visible(menus: &Vec<Menu>, id: i64) -> (r: bool)
    ensures
        r == is_visible(menus@, id),
{
    let mut i: usize = 0;
    while i < menus.len()
        invariant
            i <= menus@.len(),
            forall|j: int| 0 <= j < i ==> (#[trigger] menus@[j]).id != id,
        decreases menus@.len() - i,
    {
        if menus[i].id == id {
            return true;
        }
        i = i + 1;
    }
    false
}

fn same_place(a: Option<i64>, b: Option<i64>) -> (r: bool)
    ensures
        r == (a == b),
{
    match (a, b) {
        (Some(x), Some(y)) => x == y,
        (None, None) => true,
        _ => false,
    }
}

fn collect_under(menus: &Vec<Menu>, p: Option<i64>) -> (r: Vec<i64>)
    ensures
        r@ == ids_under(menus@, menus@, p),
{
    let mut out: Vec<i64> = Vec::new();
    let mut i: usize = 0;
    assert(menus@.take(0) =~= Seq::<Menu>::empty());
    while i < menus.len()
        invariant
            i <= menus@.len(),
            out@ == ids_under(menus@, menus@.take(i as int), p),
        decreases menus@.len() - i,
    {
        assert(menus@.take(i + 1).drop_last() =~= menus@.take(i as int));
        let row = &menus[i];
        let place: Option<i64> = match row.parent_id {
            Some(q) => if q != row.id && visible(menus, q) {
                Some(q)
            } else {
                None
            },
            None => None,
        };
        if same_place(place, p) {
            out.push(row.id);
        }
        i = i + 1;
    }
    assert(menus@.take(i as int) =~= menus@);
    out
}

/// All these ids have entries.
pub open spec fn all_visible(menus: Seq<Menu>, ids: Seq<i64>) -> bool {
    forall|i: int| 0 <= i < ids.len() ==> is_visible(menus, #[trigger] ids[i])
}

proof fn lemma_under_visible(menus: Seq<Menu>, rows: Seq<Menu>, p: Option<i64>)
    requires
        forall|i: int| 0 <= i < rows.len() ==> menus.contains(#[trigger] rows[i]),
    ensures
        all_visible(menus, ids_under(menus, rows, p)),
    decreases rows.len(),
{
    if rows.len() > 0 {
        let front = rows.drop_last();
        assert forall|i: int| 0 <= i < front.len() implies menus.contains(#[trigger] front[i]) by {
            assert(front[i] == rows[i]);
        }
        lemma_under_visible(menus, front, p);
        assert(menus.contains(rows[rows.len() - 1]));
        let k = choose|k: int| 0 <= k < menus.len() && menus[k] == rows.last();
        assert(menus[k].id == rows.last().id);
    }
}

proof fn lemma_inserted(menus: Seq<Menu>, ids: Seq<i64>, id: i64)
    ensures
        inserted(menus, ids, id).len() == ids.len() + 1,
        inserted(menus, ids, id).to_multiset() == ids.to_multiset().insert(id),
        forall|x: i64| #[trigger]
            inserted(menus, ids, id).contains(x) <==> ids.contains(x) || x == id,
    decreases ids.len(),
{
    broadcast use vstd::seq_lib::group_to_multiset_ensures;

    let out = inserted(menus, ids, id);
    if ids.len() == 0 || row_le(row_of(menus, ids.last()), row_of(menus, id)) {
        assert(out == ids.push(id));
    } else {
        lemma_inserted(menus, ids.drop_last(), id);
        assert(ids.drop_last().push(ids.last()) =~= ids);
        let inner = inserted(menus, ids.drop_last(), id);
        assert(out == inner.push(ids.last()));
        assert(out.to_multiset() =~= ids.to_multiset().insert(id));
    }
    assert forall|x: i64| #[trigger] out.contains(x) <==> ids.contains(x) || x == id by {
        assert(out.to_multiset().count(x) > 0 <==> out.contains(x));
        assert(ids.to_multiset().count(x) > 0 <==> ids.contains(x));
    }
}

proof fn lemma_ordered(menus: Seq<Menu>, ids: Seq<i64>)
    ensures
        ordered(menus, ids).len() == ids.len(),
        ordered(menus, ids).to_multiset() == ids.to_multiset(),
        forall|x: i64| #[trigger] ordered(menus, ids).contains(x) <==> ids.contains(x),
        all_visible(menus, ids) ==> all_visible(menus, ordered(menus, ids)),
    decreases ids.len(),
{
    broadcast use vstd::seq_lib::group_to_multiset_ensures;

    if ids.len() > 0 {
        let front = ids.drop_last();
        lemma_ordered(menus, front);
        lemma_inserted(menus, ordered(menus, front), ids.last());
        assert(front.push(ids.last()) =~= ids);
        assert forall|x: i64| #[trigger] ordered(menus, ids).contains(x) <==> ids.contains(x) by {
            assert(ids.to_multiset().count(x) > 0 <==> ids.contains(x));
            assert(ordered(menus, ids).to_multiset().count(x) > 0 <==> ordered(
                menus,
                ids,
            ).contains(x));
        }
    }
    let out = ordered(menus, ids);
    if all_visible(menus, ids) {
        assert forall|i: int| 0 <= i < out.len() implies is_visible(menus, #[trigger] out[i]) by {
            assert(out.contains(out[i]));
            let k = choose|k: int| 0 <= k < ids.len() && ids[k] == out[i];
            assert(is_visible(menus, ids[k]));
        }
    }
}

/// Puts ids in the order of their entries: by sort order, then by code; those on
/// a par keep their order.
pub fn sort_ids(ids: Vec<i64>, menus: &Vec<Menu>) -> (r: Vec<i64>)
    requires
        all_visible(menus@, ids@),
    ensures
        r@ == ordered(menus@, ids@),
{
    let mut out: Vec<i64> = Vec::new();
    let mut k: usize = 0;
    assert(ids@.take(0) =~= Seq::<i64>::empty());
    while k < ids.len()
        invariant
            k <= ids@.len(),
            all_visible(menus@, ids@),
            out@ == ordered(menus@, ids@.take(k as int)),
        decreases ids@.len() - k,
    {
        let id: i64 = ids[k];
        assert(is_visible(menus@, ids@[k as int]));
        assert(ids@.take(k + 1).drop_last() =~= ids@.take(k as int));
        proof {
            lemma_ordered(menus@, ids@.take(k as int));
            assert(all_visible(menus@, ids@.take(k as int)));
        }
        let ghost start = out@;
        let mut at: usize = out.len();
        let ghost mut behind: Seq<i64> = Seq::empty();
        assert(start.take(at as int) =~= start);
        assert(inserted(menus@, start, id) =~= inserted(menus@, start.take(at as int), id)
            + behind);
        let new_row: usize = find_row(menus, id);
        while at > 0 && !row_before_or_same(menus, out[at - 1], new_row)
            invariant
                at <= start.len(),
                out@ == start,
                all_visible(menus@, start),
                new_row < menus@.len(),
                menus@[new_row as int] == row_of(menus@, id),
                behind == start.skip(at as int),
                inserted(menus@, start, id) == inserted(menus@, start.take(at as int), id)
                    + behind,
            decreases at,
        {
            proof {
                let cut = start.take(at as int);
                assert(cut.last() == start[at - 1]);
                assert(cut.drop_last() =~= start.take(at - 1));
                behind = start.skip(at - 1);
                assert(inserted(menus@, cut.drop_last(), id).push(cut.last()) + start.skip(
                    at as int,
                ) =~= inserted(menus@, start.take(at - 1), id) + behind);
            }
            at = at - 1;
        }
        proof {
            let cut = start.take(at as int);
            if at > 0 {
                assert(cut.last() == start[at - 1]);
            }
            assert(inserted(menus@, cut, id) == cut.push(id));
            assert(start.insert(at as int, id) =~= cut.push(id) + behind);
        }
        out.insert(at, id);
        k = k + 1;
    }
    assert(ids@.take(k as int) =~= ids@);
    out
}

fn row_before_or_same(menus: &Vec<Menu>, id: i64, other: usize) -> (r: bool)
    requires
        is_visible(menus@, id),
        other < menus@.len(),
    ensures
        r == row_le(row_of(menus@, id), menus@[other as int]),
{
    let a: usize = find_row(menus, id);
    let x: i32 = menus[a].sort_order;
    let y: i32 = menus[other].sort_order;
    x < y || (x == y && text_before_or_same(menus[a].code.as_str(), menus[other].code.as_str()))
}

fn drop_id(ids: &Vec<i64>, id: i64) -> (r: Vec<i64>)
    ensures
        r@ == without(ids@, id),
{
    let mut out: Vec<i64> = Vec::new();
    let mut i: usize = 0;
    assert(ids@.take(0) =~= Seq::<i64>::empty());
    while i < ids.len()
        invariant
            i <= ids@.len(),
            out@ == without(ids@.take(i as int), id),
        decreases ids@.len() - i,
    {
        assert(ids@.take(i + 1).drop_last() =~= ids@.take(i as int));
        if ids[i] != id {
            out.push(ids[i]);
        }
        i = i + 1;
    }
    assert(ids@.take(i as int) =~= ids@);
    out
}

fn holds(ids: &Vec<i64>, id: i64) -> (r: bool)
    ensures
        r == ids@.contains(id),
{
    let mut i: usize = 0;
    while i < ids.len()
        invariant
            i <= ids@.len(),
            forall|j: int| 0 <= j < i ==> ids@[j] != id,
        decreases ids@.len() - i,
    {
        if ids[i] == id {
            assert(ids@[i as int] == id);
            return true;
        }
        i = i + 1;
    }
    false
}

/// Everything that is left to place has an entry.
pub open spec fn placeable(menus: Seq<Menu>, left: Seq<i64>) -> bool {
    forall|x: i64| #[trigger] left.contains(x) ==> is_visible(menus, x)
}

/// Takes the entry with an id out of what is left to place, with all below it.
/// An id that is placed already gives nothing, so no ring of parents is followed
/// round.
pub fn assemble_node(id: i64, menus: &Vec<Menu>, left: &mut Vec<i64>) -> (r: Option<MenuNodeOut>)
    requires
        placeable(menus@, old(left)@),
    ensures
        final(left)@ == grown(menus@, id, old(left)@).1,
        match grown(menus@, id, old(left)@).0 {
            Some(t) => r matches Some(n) && shows_node(n, t),
            None => r is None,
        },
    decreases old(left)@.len(),
{
    if !holds(left, id) {
        return None;
    }
    let ghost start = left@;
    proof {
        lemma_without(start, id);
        lemma_under_visible(menus@, menus@, Some(id));
    }
    *left = drop_id(left, id);
    let at: usize = find_row(menus, id);
    let kids: Vec<i64> = sort_ids(collect_under(menus, Some(id)), menus);
    let ghost rest = left@;
    let mut children: Vec<MenuNodeOut> = Vec::new();
    let mut k: usize = 0;
    assert(kids@.take(0) =~= Seq::<i64>::empty());
    while k < kids.len()
        invariant
            k <= kids@.len(),
            placeable(menus@, start),
            rest == without(start, id),
            rest.len() < start.len(),
            start == old(left)@,
            left@ == grown_all(menus@, kids@.take(k as int), rest).1,
            shows_nodes(children@, grown_all(menus@, kids@.take(k as int), rest).0),
        decreases kids@.len() - k,
    {
        proof {
            lemma_grown_all_shrinks(menus@, kids@.take(k as int), rest);
            lemma_without(start, id);
            assert(placeable(menus@, left@));
            assert(kids@.take(k + 1).drop_last() =~= kids@.take(k as int));
        }
        let ghost before = children@;
        match assemble_node(kids[k], menus, left) {
            Some(n) => {
                children.push(n);
                assert(children@.drop_last() =~= before);
                proof {
                    let ts = grown_all(menus@, kids@.take(k + 1), rest).0;
                    assert(ts.drop_last() =~= grown_all(menus@, kids@.take(k as int), rest).0);
                }
            },
            None => {},
        }
        k = k + 1;
    }
    assert(kids@.take(k as int) =~= kids@);
    let row = &menus[at];
    let parent_id: Option<String> = match row.parent_id {
        Some(p) => Some(id_text(p)),
        None => None,
    };
    Some(
        MenuNodeOut {
            id: row.id,
            version: row.version,
            parent_id,
            code: row.code.clone(),
            title: row.title.clone(),
            path: copy_opt(&row.path),
            icon: copy_opt(&row.icon),
            sort_order: row.sort_order,
            children,
        },
    )
}

/// Puts flat menu entries below their parents. Entries without a visible parent
/// stand at the top; entries at one level are in order of sort order and code.
pub fn build_menu_tree(menus: Vec<Menu>) -> (r: Vec<MenuNodeOut>)
    ensures
        shows_nodes(r@, menu_tree(menus@)),
{
    let mut left: Vec<i64> = Vec::new();
    let mut i: usize = 0;
    while i < menus.len()
        invariant
            i <= menus@.len(),
            left@ == ids_of(menus@).take(i as int),
        decreases menus@.len() - i,
    {
        left.push(menus[i].id);
        i = i + 1;
        assert(left@ =~= ids_of(menus@).take(i as int));
    }
    assert(left@ =~= ids_of(menus@));
    let ghost start = left@;
    proof {
        lemma_under_visible(menus@, menus@, None);
        lemma_all_placeable(menus@);
    }
    let tops: Vec<i64> = sort_ids(collect_under(&menus, None), &menus);
    let mut out: Vec<MenuNodeOut> = Vec::new();
    let mut k: usize = 0;
    assert(tops@.take(0) =~= Seq::<i64>::empty());
    while k < tops.len()
        invariant
            k <= tops@.len(),
            start == ids_of(menus@),
            placeable(menus@, start),
            left@ == grown_all(menus@, tops@.take(k as int), start).1,
            shows_nodes(out@, grown_all(menus@, tops@.take(k as int), start).0),
        decreases tops@.len() - k,
    {
        proof {
            lemma_grown_all_shrinks(menus@, tops@.take(k as int), start);
            assert(tops@.take(k + 1).drop_last() =~= tops@.take(k as int));
        }
        let ghost before = out@;
        match assemble_node(tops[k], &menus, &mut left) {
            Some(n) => {
                out.push(n);
                assert(out@.drop_last() =~= before);
                proof {
                    let ts = grown_all(menus@, tops@.take(k + 1), start).0;
                    assert(ts.drop_last() =~= grown_all(menus@, tops@.take(k as int), start).0);
                }
            },
            None => {},
        }
        k = k + 1;
    }
    assert(tops@.take(k as int) =~= tops@);
    out
}

proof fn lemma_all_placeable(menus: Seq<Menu>)
    ensures
        placeable(menus, ids_of(menus)),
        forall|x: i64| is_visible(menus, x) <==> #[trigger] ids_of(menus).contains(x),
{
    assert forall|x: i64| is_visible(menus, x) <==> #[trigger] ids_of(menus).contains(x) by {
        if ids_of(menus).contains(x) {
            let i = choose|i: int| 0 <= i < ids_of(menus).len() && ids_of(menus)[i] == x;
            assert(menus[i].id == x);
        }
        if is_visible(menus, x) {
            let i = choose|i: int| 0 <= i < menus.len() && (#[trigger] menus[i]).id == x;
            assert(ids_of(menus)[i] == x);
        }
    }
}

// ---------------------------------------------------------------------------
// Laws
// ---------------------------------------------------------------------------

proof fn lemma_row_of(menus: Seq<Menu>, id: i64)
    requires
        is_visible(menus, id),
    ensures
        row_of(menus, id).id == id,
        menus.contains(row_of(menus, id)),
    decreases menus.len(),
{
    let i = choose|i: int| 0 <= i < menus.len() && (#[trigger] menus[i]).id == id;
    if menus.last().id == id {
        assert(menus[menus.len() - 1] == menus.last());
    } else {
        let rest = menus.drop_last();
        assert(rest[i].id == id);
        lemma_row_of(rest, id);
        let k = choose|k: int| 0 <= k < rest.len() && rest[k] == row_of(rest, id);
        assert(menus[k] == row_of(menus, id));
    }
}

proof fn lemma_text_total(a: Seq<char>, b: Seq<char>)
    ensures
        text_le(a, b) || text_le(b, a),
    decreases a.len(),
{
    if a.len() > 0 && b.len() > 0 && a[0] == b[0] {
        lemma_text_total(a.drop_first(), b.drop_first());
    }
}

proof fn lemma_text_transitive(a: Seq<char>, b: Seq<char>, c: Seq<char>)
    requires
        text_le(a, b),
        text_le(b, c),
    ensures
        text_le(a, c),
    decreases a.len(),
{
    if a.len() > 0 && a[0] == b[0] && b[0] == c[0] {
        lemma_text_transitive(a.drop_first(), b.drop_first(), c.drop_first());
    }
}

proof fn lemma_row_le(a: Menu, b: Menu, c: Menu)
    ensures
        row_le(a, b) || row_le(b, a),
        row_le(a, b) && row_le(b, c) ==> row_le(a, c),
{
    lemma_text_total(a.code@, b.code@);
    if row_le(a, b) && row_le(b, c) && a.sort_order == c.sort_order {
        lemma_text_transitive(a.code@, b.code@, c.code@);
    }
}

/// No id comes before an earlier one.
pub open spec fn ids_in_order(menus: Seq<Menu>, ids: Seq<i64>) -> bool {
    forall|i: int, j: int|
        0 <= i < j < ids.len() ==> row_le(
            row_of(menus, #[trigger] ids[i]),
            row_of(menus, #[trigger] ids[j]),
        )
}

proof fn lemma_inserted_in_order(menus: Seq<Menu>, ids: Seq<i64>, id: i64)
    requires
        ids_in_order(menus, ids),
    ensures
        ids_in_order(menus, inserted(menus, ids, id)),
    decreases ids.len(),
{
    let out = inserted(menus, ids, id);
    if ids.len() == 0 || row_le(row_of(menus, ids.last()), row_of(menus, id)) {
        assert forall|i: int, j: int| 0 <= i < j < out.len() implies row_le(
            row_of(menus, #[trigger] out[i]),
            row_of(menus, #[trigger] out[j]),
        ) by {
            if j == ids.len() {
                lemma_row_le(row_of(menus, ids[i]), row_of(menus, ids.last()), row_of(menus, id));
                if i < ids.len() - 1 {
                    assert(row_le(row_of(menus, ids[i]), row_of(menus, ids[ids.len() - 1])));
                }
            } else {
                assert(out[i] == ids[i] && out[j] == ids[j]);
            }
        }
    } else {
        let front = ids.drop_last();
        assert(ids_in_order(menus, front)) by {
            assert forall|i: int, j: int| 0 <= i < j < front.len() implies row_le(
                row_of(menus, #[trigger] front[i]),
                row_of(menus, #[trigger] front[j]),
            ) by {
                assert(front[i] == ids[i] && front[j] == ids[j]);
            }
        }
        lemma_inserted_in_order(menus, front, id);
        lemma_inserted(menus, front, id);
        let inner = inserted(menus, front, id);
        assert forall|i: int, j: int| 0 <= i < j < out.len() implies row_le(
            row_of(menus, #[trigger] out[i]),
            row_of(menus, #[trigger] out[j]),
        ) by {
            if j < inner.len() {
                assert(out[i] == inner[i] && out[j] == inner[j]);
            } else {
                assert(out[i] == inner[i]);
                assert(inner.contains(inner[i]));
                lemma_row_le(row_of(menus, ids.last()), row_of(menus, id), row_of(menus, id));
                if inner[i] != id {
                    let m = choose|m: int| 0 <= m < front.len() && front[m] == inner[i];
                    assert(ids[m] == inner[i]);
                    assert(row_le(row_of(menus, ids[m]), row_of(menus, ids[ids.len() - 1])));
                }
            }
        }
    }
}

proof fn lemma_ordered_in_order(menus: Seq<Menu>, ids: Seq<i64>)
    ensures
        ids_in_order(menus, ordered(menus, ids)),
    decreases ids.len(),
{
    if ids.len() > 0 {
        lemma_ordered_in_order(menus, ids.drop_last());
        lemma_inserted_in_order(menus, ordered(menus, ids.drop_last()), ids.last());
    }
}

/// At this level and at every level below, entries are in order.
pub open spec fn forest_in_order(ts: Seq<Tree>) -> bool
    decreases ts,
{
    &&& forall|i: int, j: int|
        0 <= i < j < ts.len() ==> row_le((#[trigger] ts[i]).row, (#[trigger] ts[j]).row)
    &&& ts.len() > 0 ==> forest_in_order(ts.drop_last()) && forest_in_order(ts.last().children)
}

proof fn lemma_grown_in_order(menus: Seq<Menu>, id: i64, left: Seq<i64>)
    ensures
        grown(menus, id, left).0 matches Some(t) ==> t.row == row_of(menus, id) && forest_in_order(
            t.children,
        ),
    decreases left.len(), 0nat,
{
    if left.contains(id) {
        lemma_without(left, id);
        let kids = ids_under(menus, menus, Some(id));
        lemma_ordered_in_order(menus, kids);
        lemma_grown_all_in_order(menus, ordered(menus, kids), without(left, id));
    }
}

proof fn lemma_grown_all_in_order(menus: Seq<Menu>, ids: Seq<i64>, left: Seq<i64>)
    requires
        ids_in_order(menus, ids),
    ensures
        forest_in_order(grown_all(menus, ids, left).0),
        forall|k: int|
            0 <= k < grown_all(menus, ids, left).0.len() ==> exists|i: int|
                0 <= i < ids.len() && (#[trigger] grown_all(menus, ids, left).0[k]).row == row_of(
                    menus,
                    #[trigger] ids[i],
                ),
    decreases left.len(), ids.len() + 1,
{
    if ids.len() > 0 {
        let front = ids.drop_last();
        assert(ids_in_order(menus, front)) by {
            assert forall|i: int, j: int| 0 <= i < j < front.len() implies row_le(
                row_of(menus, #[trigger] front[i]),
                row_of(menus, #[trigger] front[j]),
            ) by {
                assert(front[i] == ids[i] && front[j] == ids[j]);
            }
        }
        lemma_grown_all_in_order(menus, front, left);
        lemma_grown_all_shrinks(menus, front, left);
        let before = grown_all(menus, front, left);
        lemma_grown_in_order(menus, ids.last(), before.1);
        let ts = grown_all(menus, ids, left).0;
        assert forall|k: int| 0 <= k < ts.len() implies exists|i: int|
            0 <= i < ids.len() && (#[trigger] ts[k]).row == row_of(menus, #[trigger] ids[i]) by {
            if k < before.0.len() {
                assert(ts[k] == before.0[k]);
                let i = choose|i: int|
                    0 <= i < front.len() && before.0[k].row == row_of(menus, #[trigger] front[i]);
                assert(ids[i] == front[i]);
            } else {
                assert(ts[k].row == row_of(menus, ids[ids.len() - 1]));
            }
        }
        if grown(menus, ids.last(), before.1).0 is Some {
            assert(ts.drop_last() =~= before.0);
            assert forall|i: int, j: int| 0 <= i < j < ts.len() implies row_le(
                (#[trigger] ts[i]).row,
                (#[trigger] ts[j]).row,
            ) by {
                assert(ts[i] == before.0[i]);
                if j < before.0.len() {
                    assert(ts[j] == before.0[j]);
                } else {
                    let m = choose|m: int|
                        0 <= m < front.len() && before.0[i].row == row_of(
                            menus,
                            #[trigger] front[m],
                        );
                    assert(row_le(row_of(menus, ids[m]), row_of(menus, ids[ids.len() - 1])));
                }
            }
        }
    }
}

/// At every level of the tree, entries are in order of sort order and code.
pub proof fn tree_is_in_order(menus: Seq<Menu>)
    ensures
        forest_in_order(menu_tree(menus)),
{
    let tops = ids_under(menus, menus, None);
    lemma_ordered_in_order(menus, tops);
    lemma_grown_all_in_order(menus, ordered(menus, tops), ids_of(menus));
}

/// The ids in a tree, from the top down.
pub open spec fn tree_ids(t: Tree) -> Seq<i64>
    decreases t,
{
    seq![t.row.id] + forest_ids(t.children)
}

/// The ids in some trees.
pub open spec fn forest_ids(ts: Seq<Tree>) -> Seq<i64>
    decreases ts,
{
    if ts.len() == 0 {
        Seq::empty()
    } else {
        forest_ids(ts.drop_last()) + tree_ids(ts.last())
    }
}

/// `out` holds each of its ids once, and they are what is in `left` and no more
/// in `rest`.
pub open spec fn accounts_for(out: Seq<i64>, left: Seq<i64>, rest: Seq<i64>) -> bool {
    &&& out.no_duplicates()
    &&& forall|x: i64| #[trigger] out.contains(x) <==> left.contains(x) && !rest.contains(x)
}

proof fn lemma_contains_concat(a: Seq<i64>, b: Seq<i64>)
    ensures
        forall|x: i64| #[trigger] (a + b).contains(x) <==> a.contains(x) || b.contains(x),
{
    assert forall|x: i64| #[trigger] (a + b).contains(x) <==> a.contains(x) || b.contains(x) by {
        if a.contains(x) {
            let i = choose|i: int| 0 <= i < a.len() && a[i] == x;
            assert((a + b)[i] == x);
        }
        if b.contains(x) {
            let i = choose|i: int| 0 <= i < b.len() && b[i] == x;
            assert((a + b)[a.len() + i] == x);
        }
        if (a + b).contains(x) {
            let i = choose|i: int| 0 <= i < (a + b).len() && (a + b)[i] == x;
            if i < a.len() {
                assert(a[i] == x);
            } else {
                assert(b[i - a.len()] == x);
            }
        }
    }
}

proof fn lemma_no_duplicates_concat(a: Seq<i64>, b: Seq<i64>)
    requires
        a.no_duplicates(),
        b.no_duplicates(),
        forall|x: i64| #[trigger] a.contains(x) ==> !b.contains(x),
    ensures
        (a + b).no_duplicates(),
{
    let c = a + b;
    assert forall|i: int, j: int| 0 <= i < c.len() && 0 <= j < c.len() && i != j implies c[i]
        != c[j] by {
        if i < a.len() && j >= a.len() {
            assert(a.contains(c[i]));
            assert(c[j] == b[j - a.len()]);
            assert(b.contains(c[j]));
        }
        if j < a.len() && i >= a.len() {
            assert(a.contains(c[j]));
            assert(c[i] == b[i - a.len()]);
            assert(b.contains(c[i]));
        }
    }
}

proof fn lemma_grown_accounts(menus: Seq<Menu>, id: i64, left: Seq<i64>)
    requires
        placeable(menus, left),
    ensures
        match grown(menus, id, left).0 {
            Some(t) => accounts_for(tree_ids(t), left, grown(menus, id, left).1),
            None => grown(menus, id, left).1 == left && !left.contains(id),
        },
    decreases left.len(), 0nat,
{
    if left.contains(id) {
        lemma_without(left, id);
        lemma_row_of(menus, id);
        let kids = ordered(menus, ids_under(menus, menus, Some(id)));
        let rest = without(left, id);
        lemma_grown_all_accounts(menus, kids, rest);
        lemma_grown_all_shrinks(menus, kids, rest);
        let below = grown_all(menus, kids, rest);
        let t = grown(menus, id, left).0->0;
        let head = seq![id];
        assert(head[0] == id);
        assert forall|x: i64| #[trigger] head.contains(x) <==> x == id by {}
        lemma_contains_concat(head, forest_ids(below.0));
        lemma_no_duplicates_concat(head, forest_ids(below.0));
        assert(tree_ids(t) == head + forest_ids(below.0));
    }
}

proof fn lemma_grown_all_accounts(menus: Seq<Menu>, ids: Seq<i64>, left: Seq<i64>)
    requires
        placeable(menus, left),
    ensures
        accounts_for(
            forest_ids(grown_all(menus, ids, left).0),
            left,
            grown_all(menus, ids, left).1,
        ),
        forall|i: int|
            0 <= i < ids.len() ==> !grown_all(menus, ids, left).1.contains(#[trigger] ids[i]),
    decreases left.len(), ids.len() + 1,
{
    if ids.len() > 0 {
        let front = ids.drop_last();
        let before = grown_all(menus, front, left);
        lemma_grown_all_accounts(menus, front, left);
        lemma_grown_all_shrinks(menus, front, left);
        lemma_grown_accounts(menus, ids.last(), before.1);
        lemma_grown_shrinks(menus, ids.last(), before.1);
        let after = grown_all(menus, ids, left);
        let last = grown(menus, ids.last(), before.1);
        match last.0 {
            Some(t) => {
                assert(after.0.drop_last() =~= before.0);
                assert(forest_ids(after.0) == forest_ids(before.0) + tree_ids(t));
                lemma_contains_concat(forest_ids(before.0), tree_ids(t));
                lemma_no_duplicates_concat(forest_ids(before.0), tree_ids(t));
                assert(tree_ids(t)[0] == t.row.id);
                assert(tree_ids(t).contains(t.row.id));
                lemma_row_of(menus, ids.last());
            },
            None => {},
        }
        assert forall|i: int| 0 <= i < ids.len() implies !after.1.contains(#[trigger] ids[i]) by {
            if i < front.len() {
                assert(front[i] == ids[i]);
                assert(!before.1.contains(front[i]));
            }
        }
    }
}

/// Every entry of the tree is a visible one, and none stands in it twice.
pub proof fn tree_holds_each_entry_once(menus: Seq<Menu>)
    ensures
        forest_ids(menu_tree(menus)).no_duplicates(),
        forall|x: i64| #[trigger]
            forest_ids(menu_tree(menus)).contains(x) ==> is_visible(menus, x),
{
    lemma_all_placeable(menus);
    lemma_grown_all_accounts(
        menus,
        ordered(menus, ids_under(menus, menus, None)),
        ids_of(menus),
    );
}

/// No two rows share an id.
pub open spec fn distinct_ids(menus: Seq<Menu>) -> bool {
    forall|i: int, j: int|
        0 <= i < j < menus.len() ==> (#[trigger] menus[i]).id != (#[trigger] menus[j]).id
}

proof fn lemma_distinct_row(menus: Seq<Menu>, row: Menu)
    requires
        distinct_ids(menus),
        menus.contains(row),
    ensures
        row_of(menus, row.id) == row,
{
    let k = choose|k: int| 0 <= k < menus.len() && menus[k] == row;
    assert(menus[k].id == row.id);
    lemma_row_of(menus, row.id);
    let m = choose|m: int| 0 <= m < menus.len() && menus[m] == row_of(menus, row.id);
    if k < m {
        assert(menus[k].id != menus[m].id);
    } else if m < k {
        assert(menus[m].id != menus[k].id);
    }
}

/// An id is put below a place exactly where it is that of a row put there.
proof fn lemma_under(menus: Seq<Menu>, rows: Seq<Menu>, p: Option<i64>, x: i64)
    ensures
        ids_under(menus, rows, p).contains(x) <==> exists|i: int|
            0 <= i < rows.len() && (#[trigger] rows[i]).id == x && anchor(menus, rows[i]) == p,
    decreases rows.len(),
{
    let out = ids_under(menus, rows, p);
    if rows.len() > 0 {
        let front = rows.drop_last();
        let before = ids_under(menus, front, p);
        lemma_under(menus, front, p, x);
        if out.contains(x) {
            let k = choose|k: int| 0 <= k < out.len() && out[k] == x;
            if k < before.len() {
                assert(before[k] == x);
                let i = choose|i: int|
                    0 <= i < front.len() && (#[trigger] front[i]).id == x && anchor(menus, front[i])
                        == p;
                assert(rows[i].id == x && anchor(menus, rows[i]) == p);
            } else {
                assert(rows[rows.len() - 1].id == x && anchor(menus, rows[rows.len() - 1]) == p);
            }
        }
        if exists|i: int|
            0 <= i < rows.len() && (#[trigger] rows[i]).id == x && anchor(menus, rows[i]) == p {
            let i = choose|i: int|
                0 <= i < rows.len() && (#[trigger] rows[i]).id == x && anchor(menus, rows[i]) == p;
            if i < front.len() {
                assert(front[i].id == x);
                let k = choose|k: int| 0 <= k < before.len() && before[k] == x;
                assert(out[k] == x);
            } else {
                assert(out[out.len() - 1] == x);
            }
        }
    }
}

/// The trees hang below `p`, and what is below each of them hangs below it.
pub open spec fn hangs(menus: Seq<Menu>, ts: Seq<Tree>, p: Option<i64>) -> bool
    decreases ts,
{
    ts.len() > 0 ==> {
        &&& hangs(menus, ts.drop_last(), p)
        &&& anchor(menus, ts.last().row) == p
        &&& hangs(menus, ts.last().children, Some(ts.last().row.id))
    }
}

proof fn lemma_grown_hangs(menus: Seq<Menu>, id: i64, left: Seq<i64>)
    requires
        distinct_ids(menus),
        placeable(menus, left),
    ensures
        grown(menus, id, left).0 matches Some(t) ==> t.row == row_of(menus, id) && hangs(
            menus,
            t.children,
            Some(id),
        ),
    decreases left.len(), 0nat,
{
    if left.contains(id) {
        lemma_without(left, id);
        let under = ids_under(menus, menus, Some(id));
        let kids = ordered(menus, under);
        lemma_ordered(menus, under);
        assert forall|i: int| 0 <= i < kids.len() implies anchored(
            menus,
            #[trigger] kids[i],
            Some(id),
        ) by {
            assert(kids.contains(kids[i]));
            lemma_anchored(menus, Some(id), kids[i]);
        }
        lemma_grown_all_hangs(menus, kids, without(left, id), Some(id));
    }
}

/// The entry with this id is put below `p`.
spec fn anchored(menus: Seq<Menu>, x: i64, p: Option<i64>) -> bool {
    is_visible(menus, x) && anchor(menus, row_of(menus, x)) == p
}

proof fn lemma_anchored(menus: Seq<Menu>, p: Option<i64>, x: i64)
    requires
        distinct_ids(menus),
    ensures
        ids_under(menus, menus, p).contains(x) <==> anchored(menus, x, p),
{
    lemma_under(menus, menus, p, x);
    if ids_under(menus, menus, p).contains(x) {
        let i = choose|i: int|
            0 <= i < menus.len() && (#[trigger] menus[i]).id == x && anchor(menus, menus[i]) == p;
        assert(menus.contains(menus[i]));
        lemma_distinct_row(menus, menus[i]);
    }
    if anchored(menus, x, p) {
        lemma_row_of(menus, x);
        let k = choose|k: int| 0 <= k < menus.len() && menus[k] == row_of(menus, x);
        assert(menus[k].id == x && anchor(menus, menus[k]) == p);
    }
}

proof fn lemma_grown_all_hangs(menus: Seq<Menu>, ids: Seq<i64>, left: Seq<i64>, p: Option<i64>)
    requires
        distinct_ids(menus),
        placeable(menus, left),
        forall|i: int| 0 <= i < ids.len() ==> anchored(menus, #[trigger] ids[i], p),
    ensures
        hangs(menus, grown_all(menus, ids, left).0, p),
    decreases left.len(), ids.len() + 1,
{
    if ids.len() > 0 {
        let front = ids.drop_last();
        assert forall|i: int| 0 <= i < front.len() implies anchored(
            menus,
            #[trigger] front[i],
            p,
        ) by {
            assert(front[i] == ids[i]);
        }
        lemma_grown_all_hangs(menus, front, left, p);
        lemma_grown_all_shrinks(menus, front, left);
        let before = grown_all(menus, front, left);
        lemma_grown_hangs(menus, ids.last(), before.1);
        assert(anchored(menus, ids[ids.len() - 1], p));
        lemma_row_of(menus, ids.last());
        let ts = grown_all(menus, ids, left).0;
        if grown(menus, ids.last(), before.1).0 is Some {
            assert(ts.drop_last() =~= before.0);
        }
    }
}

proof fn lemma_tops_anchored(menus: Seq<Menu>)
    requires
        distinct_ids(menus),
    ensures
        forall|i: int|
            0 <= i < ordered(menus, ids_under(menus, menus, None)).len() ==> anchored(
                menus,
                #[trigger] ordered(menus, ids_under(menus, menus, None))[i],
                None,
            ),
        forall|x: i64|
            anchored(menus, x, None) ==> #[trigger] ordered(
                menus,
                ids_under(menus, menus, None),
            ).contains(x),
{
    let under = ids_under(menus, menus, None);
    let tops = ordered(menus, under);
    lemma_ordered(menus, under);
    assert forall|i: int| 0 <= i < tops.len() implies anchored(
        menus,
        #[trigger] tops[i],
        None,
    ) by {
        assert(tops.contains(tops[i]));
        lemma_anchored(menus, None, tops[i]);
    }
    assert forall|x: i64| anchored(menus, x, None) implies #[trigger] tops.contains(x) by {
        lemma_anchored(menus, None, x);
    }
}

/// Where ids are distinct, each entry stands where it belongs: at the top where
/// it has no visible parent, else below its parent.
pub proof fn tree_follows_the_parents(menus: Seq<Menu>)
    requires
        distinct_ids(menus),
    ensures
        hangs(menus, menu_tree(menus), None),
{
    lemma_all_placeable(menus);
    lemma_tops_anchored(menus);
    lemma_grown_all_hangs(
        menus,
        ordered(menus, ids_under(menus, menus, None)),
        ids_of(menus),
        None,
    );
}

/// What was placed has everything below it placed too.
proof fn lemma_grown_closed(menus: Seq<Menu>, id: i64, left: Seq<i64>, x: i64, y: i64)
    requires
        distinct_ids(menus),
        placeable(menus, left),
        left.contains(x),
        !grown(menus, id, left).1.contains(x),
        anchored(menus, y, Some(x)),
    ensures
        !grown(menus, id, left).1.contains(y),
    decreases left.len(), 0nat,
{
    if left.contains(id) {
        lemma_without(left, id);
        let under = ids_under(menus, menus, Some(id));
        let kids = ordered(menus, under);
        let rest = without(left, id);
        lemma_ordered(menus, under);
        lemma_grown_all_accounts(menus, kids, rest);
        if x == id {
            lemma_anchored(menus, Some(id), y);
            assert(kids.contains(y));
            let k = choose|k: int| 0 <= k < kids.len() && kids[k] == y;
            assert(!grown_all(menus, kids, rest).1.contains(kids[k]));
        } else {
            lemma_grown_all_closed(menus, kids, rest, x, y);
        }
    }
}

proof fn lemma_grown_all_closed(menus: Seq<Menu>, ids: Seq<i64>, left: Seq<i64>, x: i64, y: i64)
    requires
        distinct_ids(menus),
        placeable(menus, left),
        left.contains(x),
        !grown_all(menus, ids, left).1.contains(x),
        anchored(menus, y, Some(x)),
    ensures
        !grown_all(menus, ids, left).1.contains(y),
    decreases left.len(), ids.len() + 1,
{
    if ids.len() > 0 {
        let front = ids.drop_last();
        let before = grown_all(menus, front, left);
        lemma_grown_all_shrinks(menus, front, left);
        lemma_grown_shrinks(menus, ids.last(), before.1);
        if before.1.contains(x) {
            lemma_grown_closed(menus, ids.last(), before.1, x, y);
        } else {
            lemma_grown_all_closed(menus, front, left, x, y);
        }
    }
}

/// Where ids are distinct and parents form no ring, every entry is in the tree.
/// That they form none is said by a number for each entry, larger than that of
/// its parent.
pub proof fn tree_holds_every_entry(menus: Seq<Menu>, rank: spec_fn(i64) -> nat, id: i64)
    requires
        distinct_ids(menus),
        forall|i: int|
            0 <= i < menus.len() ==> (anchor(menus, #[trigger] menus[i]) matches Some(p) ==> rank(
                p,
            ) < rank(menus[i].id)),
        is_visible(menus, id),
    ensures
        forest_ids(menu_tree(menus)).contains(id),
{
    lemma_all_placeable(menus);
    let tops = ordered(menus, ids_under(menus, menus, None));
    lemma_grown_all_accounts(menus, tops, ids_of(menus));
    lemma_reached(menus, rank, id);
}

proof fn lemma_reached(menus: Seq<Menu>, rank: spec_fn(i64) -> nat, id: i64)
    requires
        distinct_ids(menus),
        forall|i: int|
            0 <= i < menus.len() ==> (anchor(menus, #[trigger] menus[i]) matches Some(p) ==> rank(
                p,
            ) < rank(menus[i].id)),
        is_visible(menus, id),
    ensures
        !grown_all(
            menus,
            ordered(menus, ids_under(menus, menus, None)),
            ids_of(menus),
        ).1.contains(id),
    decreases rank(id),
{
    lemma_all_placeable(menus);
    lemma_tops_anchored(menus);
    let tops = ordered(menus, ids_under(menus, menus, None));
    let left = ids_of(menus);
    lemma_grown_all_accounts(menus, tops, left);
    lemma_row_of(menus, id);
    let row = row_of(menus, id);
    let k = choose|k: int| 0 <= k < menus.len() && menus[k] == row;
    match anchor(menus, menus[k]) {
        None => {
            assert(anchored(menus, id, None));
            assert(tops.contains(id));
            let i = choose|i: int| 0 <= i < tops.len() && tops[i] == id;
            assert(!grown_all(menus, tops, left).1.contains(tops[i]));
        },
        Some(p) => {
            assert(is_visible(menus, p));
            lemma_reached(menus, rank, p);
            assert(left.contains(p));
            assert(anchored(menus, id, Some(p)));
            lemma_grown_all_closed(menus, tops, left, p, id);
        },
    }
}

/// Where ids are distinct, entries whose parents form a ring are left out, with
/// all below them: a set of entries whose parents are all in the set has none in
/// the tree.
pub proof fn rings_are_left_out(menus: Seq<Menu>, ring: Set<i64>)
    requires
        distinct_ids(menus),
        forall|i: int|
            0 <= i < menus.len() && ring.contains((#[trigger] menus[i]).id) ==> (anchor(
                menus,
                menus[i],
            ) matches Some(p) && ring.contains(p)),
    ensures
        forall|x: i64| #[trigger]
            forest_ids(menu_tree(menus)).contains(x) ==> !ring.contains(x),
{
    tree_follows_the_parents(menus);
    tree_holds_each_entry_once(menus);
    lemma_all_placeable(menus);
    lemma_rows_of_tree(
        menus,
        ordered(menus, ids_under(menus, menus, None)),
        ids_of(menus),
    );
    lemma_ring(menus, ring, menu_tree(menus), None);
}

/// Every row in the trees is one of the menus.
spec fn rows_known(menus: Seq<Menu>, ts: Seq<Tree>) -> bool
    decreases ts,
{
    ts.len() > 0 ==> rows_known(menus, ts.drop_last()) && menus.contains(ts.last().row)
        && rows_known(menus, ts.last().children)
}

proof fn lemma_rows_of_node(menus: Seq<Menu>, id: i64, left: Seq<i64>)
    requires
        placeable(menus, left),
    ensures
        grown(menus, id, left).0 matches Some(t) ==> menus.contains(t.row) && rows_known(
            menus,
            t.children,
        ),
    decreases left.len(), 0nat,
{
    if left.contains(id) {
        lemma_without(left, id);
        lemma_row_of(menus, id);
        lemma_rows_of_tree(
            menus,
            ordered(menus, ids_under(menus, menus, Some(id))),
            without(left, id),
        );
    }
}

proof fn lemma_rows_of_tree(menus: Seq<Menu>, ids: Seq<i64>, left: Seq<i64>)
    requires
        placeable(menus, left),
    ensures
        rows_known(menus, grown_all(menus, ids, left).0),
    decreases left.len(), ids.len() + 1,
{
    if ids.len() > 0 {
        let front = ids.drop_last();
        lemma_rows_of_tree(menus, front, left);
        lemma_grown_all_shrinks(menus, front, left);
        let before = grown_all(menus, front, left);
        lemma_rows_of_node(menus, ids.last(), before.1);
        if grown(menus, ids.last(), before.1).0 is Some {
            assert(grown_all(menus, ids, left).0.drop_last() =~= before.0);
        }
    }
}

proof fn lemma_ring(menus: Seq<Menu>, ring: Set<i64>, ts: Seq<Tree>, p: Option<i64>)
    requires
        forall|i: int|
            0 <= i < menus.len() && ring.contains((#[trigger] menus[i]).id) ==> (anchor(
                menus,
                menus[i],
            ) matches Some(q) && ring.contains(q)),
        hangs(menus, ts, p),
        rows_known(menus, ts),
        p matches Some(q) ==> !ring.contains(q),
    ensures
        forall|x: i64| #[trigger] forest_ids(ts).contains(x) ==> !ring.contains(x),
    decreases ts,
{
    if ts.len() > 0 {
        let last = ts.last();
        lemma_ring(menus, ring, ts.drop_last(), p);
        assert(!ring.contains(last.row.id)) by {
            let k = choose|k: int| 0 <= k < menus.len() && menus[k] == last.row;
            assert(menus[k].id == last.row.id);
        }
        lemma_ring(menus, ring, last.children, Some(last.row.id));
        lemma_contains_concat(forest_ids(ts.drop_last()), tree_ids(last));
        lemma_contains_concat(seq![last.row.id], forest_ids(last.children));
        assert forall|x: i64| #[trigger] forest_ids(ts).contains(x) implies !ring.contains(x) by {
            if seq![last.row.id].contains(x) {
                assert(x == last.row.id);
            }
        }
    }
}

// ---------------------------------------------------------------------------
// Laws on the nodes that are given back
// ---------------------------------------------------------------------------

/// The node that a path of places leads to, the place at the top first.
pub open spec fn node_at(ns: Seq<MenuNodeOut>, path: Seq<int>) -> Option<MenuNodeOut>
    decreases path.len(),
{
    if path.len() == 0 {
        None
    } else {
        let level = if path.len() == 1 {
            ns
        } else {
            match node_at(ns, path.drop_last()) {
                Some(n) => n.children@,
                None => Seq::empty(),
            }
        };
        if 0 <= path.last() < level.len() {
            Some(level[path.last()])
        } else {
            None
        }
    }
}

/// There is a node with this id, at whatever level.
pub open spec fn is_shown(ns: Seq<MenuNodeOut>, id: i64) -> bool {
    exists|path: Seq<int>| (#[trigger] node_at(ns, path)) matches Some(n) && n.id == id
}

/// The entry at `i` has no parent, is its own, or has one that is not there.
pub open spec fn is_top(menus: Seq<Menu>, i: int) -> bool {
    match menus[i].parent_id {
        None => true,
        Some(p) => p == menus[i].id || forall|j: int|
            0 <= j < menus.len() ==> (#[trigger] menus[j]).id != p,
    }
}

/// From the entry at `i`, at most `k` steps from parent to parent lead to the top.
/// From an entry on a ring of parents, or below one, no number of steps does.
pub open spec fn climbs(menus: Seq<Menu>, i: int, k: nat) -> bool
    decreases k,
{
    is_top(menus, i) || (k > 0 && exists|j: int|
        0 <= j < menus.len() && Some((#[trigger] menus[j]).id) == menus[i].parent_id && climbs(
            menus,
            j,
            (k - 1) as nat,
        ))
}

/// The node has the data of the entry.
pub open spec fn has_data_of(n: MenuNodeOut, m: Menu) -> bool {
    &&& n.id == m.id && n.version == m.version && n.sort_order == m.sort_order
    &&& n.code == m.code && n.title == m.title && n.path == m.path && n.icon == m.icon
    &&& n.parent_id is Some <==> m.parent_id is Some
    &&& m.parent_id matches Some(p) ==> n.parent_id->0@ == decimal(p as int)
}

spec fn tree_at(ts: Seq<Tree>, path: Seq<int>) -> Option<Tree>
    decreases path.len(),
{
    if path.len() == 0 {
        None
    } else {
        let level = if path.len() == 1 {
            ts
        } else {
            match tree_at(ts, path.drop_last()) {
                Some(t) => t.children,
                None => Seq::empty(),
            }
        };
        if 0 <= path.last() < level.len() {
            Some(level[path.last()])
        } else {
            None
        }
    }
}

proof fn lemma_shown(ns: Seq<MenuNodeOut>, ts: Seq<Tree>, i: int)
    requires
        shows_nodes(ns, ts),
        0 <= i < ts.len(),
    ensures
        ns.len() == ts.len(),
        shows_node(ns[i], ts[i]),
    decreases ts.len(),
{
    if i < ts.len() - 1 {
        lemma_shown(ns.drop_last(), ts.drop_last(), i);
    }
}

proof fn lemma_node_at(ns: Seq<MenuNodeOut>, ts: Seq<Tree>, path: Seq<int>)
    requires
        shows_nodes(ns, ts),
    ensures
        node_at(ns, path) is Some <==> tree_at(ts, path) is Some,
        node_at(ns, path) is Some ==> shows_node(node_at(ns, path)->0, tree_at(ts, path)->0),
    decreases path.len(),
{
    if path.len() == 1 {
        if 0 <= path.last() < ts.len() {
            lemma_shown(ns, ts, path.last());
        }
    } else if path.len() > 1 {
        let up = path.drop_last();
        lemma_node_at(ns, ts, up);
        if tree_at(ts, up) is Some {
            let t = tree_at(ts, up)->0;
            let n = node_at(ns, up)->0;
            assert(shows_nodes(n.children@, t.children));
            if 0 <= path.last() < t.children.len() {
                lemma_shown(n.children@, t.children, path.last());
            }
        }
    }
}

proof fn lemma_hangs_at(menus: Seq<Menu>, ts: Seq<Tree>, p: Option<i64>, i: int)
    requires
        hangs(menus, ts, p),
        rows_known(menus, ts),
        0 <= i < ts.len(),
    ensures
        anchor(menus, ts[i].row) == p,
        menus.contains(ts[i].row),
        hangs(menus, ts[i].children, Some(ts[i].row.id)),
        rows_known(menus, ts[i].children),
    decreases ts.len(),
{
    if i < ts.len() - 1 {
        lemma_hangs_at(menus, ts.drop_last(), p, i);
    }
}

proof fn lemma_in_order_at(ts: Seq<Tree>, i: int)
    requires
        forest_in_order(ts),
        0 <= i < ts.len(),
    ensures
        forest_in_order(ts[i].children),
    decreases ts.len(),
{
    if i < ts.len() - 1 {
        lemma_in_order_at(ts.drop_last(), i);
    }
}

proof fn lemma_once_at(ts: Seq<Tree>, i: int)
    requires
        forest_ids(ts).no_duplicates(),
        0 <= i < ts.len(),
    ensures
        forest_ids(ts).contains(ts[i].row.id),
        forest_ids(ts[i].children).no_duplicates(),
        forall|x: i64| #[trigger]
            forest_ids(ts[i].children).contains(x) ==> forest_ids(ts).contains(x),
        forall|j: int| 0 <= j < ts.len() && j != i ==> (#[trigger] ts[j]).row.id != ts[i].row.id,
    decreases ts.len(),
{
    let front = ts.drop_last();
    let last = ts.last();
    let a = forest_ids(front);
    let b = tree_ids(last);
    let c = forest_ids(last.children);
    assert(forest_ids(ts) == a + b);
    assert(b == seq![last.row.id] + c);
    assert(a.no_duplicates()) by {
        assert forall|x: int, y: int| 0 <= x < a.len() && 0 <= y < a.len() && x != y implies a[x]
            != a[y] by {
            assert((a + b)[x] == a[x] && (a + b)[y] == a[y]);
        }
    }
    assert(c.no_duplicates()) by {
        assert forall|x: int, y: int| 0 <= x < c.len() && 0 <= y < c.len() && x != y implies c[x]
            != c[y] by {
            assert((a + b)[a.len() + 1 + x] == c[x] && (a + b)[a.len() + 1 + y] == c[y]);
        }
    }
    lemma_contains_concat(a, b);
    lemma_contains_concat(seq![last.row.id], c);
    assert(b[0] == last.row.id);
    assert(b.contains(last.row.id));
    assert(!a.contains(last.row.id)) by {
        if a.contains(last.row.id) {
            let x = choose|x: int| 0 <= x < a.len() && a[x] == last.row.id;
            assert((a + b)[x] == a[x]);
            assert((a + b)[a.len() as int] == b[0]);
        }
    }
    if i < front.len() {
        lemma_once_at(front, i);
        assert(front[i] == ts[i]);
        assert forall|j: int| 0 <= j < ts.len() && j != i implies (#[trigger] ts[j]).row.id
            != ts[i].row.id by {
            if j < front.len() {
                assert(front[j] == ts[j]);
            }
        }
    } else {
        assert forall|j: int| 0 <= j < ts.len() && j != i implies (#[trigger] ts[j]).row.id
            != ts[i].row.id by {
            lemma_once_at(front, j);
            assert(front[j] == ts[j]);
        }
    }
}

/// What holds of the tree that a path leads to.
proof fn lemma_tree_at(menus: Seq<Menu>, ts: Seq<Tree>, path: Seq<int>)
    requires
        hangs(menus, ts, None),
        rows_known(menus, ts),
        forest_in_order(ts),
        forest_ids(ts).no_duplicates(),
        tree_at(ts, path) is Some,
    ensures
        ({
            let t = tree_at(ts, path)->0;
            &&& menus.contains(t.row)
            &&& path.len() > 1 ==> tree_at(ts, path.drop_last()) is Some
            &&& anchor(menus, t.row) == if path.len() == 1 {
                None
            } else {
                Some(tree_at(ts, path.drop_last())->0.row.id)
            }
            &&& hangs(menus, t.children, Some(t.row.id))
            &&& rows_known(menus, t.children)
            &&& forest_in_order(t.children)
            &&& forest_ids(t.children).no_duplicates()
            &&& forest_ids(ts).contains(t.row.id)
            &&& forall|x: i64| #[trigger]
                forest_ids(t.children).contains(x) ==> forest_ids(ts).contains(x)
        }),
    decreases path.len(),
{
    let i = path.last();
    if path.len() == 1 {
        lemma_hangs_at(menus, ts, None, i);
        lemma_in_order_at(ts, i);
        lemma_once_at(ts, i);
    } else {
        lemma_tree_at(menus, ts, path.drop_last());
        let up = tree_at(ts, path.drop_last())->0;
        lemma_hangs_at(menus, up.children, Some(up.row.id), i);
        lemma_in_order_at(up.children, i);
        lemma_once_at(up.children, i);
    }
}

proof fn lemma_one_path(menus: Seq<Menu>, ts: Seq<Tree>, a: Seq<int>, b: Seq<int>)
    requires
        distinct_ids(menus),
        hangs(menus, ts, None),
        rows_known(menus, ts),
        forest_in_order(ts),
        forest_ids(ts).no_duplicates(),
        tree_at(ts, a) is Some,
        tree_at(ts, b) is Some,
        tree_at(ts, a)->0.row.id == tree_at(ts, b)->0.row.id,
    ensures
        a == b,
    decreases a.len(),
{
    lemma_tree_at(menus, ts, a);
    lemma_tree_at(menus, ts, b);
    let s = tree_at(ts, a)->0;
    let t = tree_at(ts, b)->0;
    lemma_distinct_row(menus, s.row);
    lemma_distinct_row(menus, t.row);
    assert(s.row == t.row);
    if a.len() == 1 {
        assert(b.len() == 1);
        if a.last() != b.last() {
            lemma_once_at(ts, a.last());
            assert(ts[b.last()].row.id != ts[a.last()].row.id);
        }
    } else {
        lemma_one_path(menus, ts, a.drop_last(), b.drop_last());
        let up = tree_at(ts, a.drop_last())->0;
        lemma_tree_at(menus, ts, a.drop_last());
        if a.last() != b.last() {
            lemma_once_at(up.children, a.last());
            assert(up.children[b.last()].row.id != up.children[a.last()].row.id);
        }
    }
    assert(a =~= a.drop_last().push(a.last()));
    assert(b =~= b.drop_last().push(b.last()));
    assert(a.drop_last() =~= b.drop_last());
}

proof fn lemma_tree_at_front(ts: Seq<Tree>, path: Seq<int>)
    requires
        ts.len() > 0,
        tree_at(ts.drop_last(), path) is Some,
    ensures
        tree_at(ts, path) == tree_at(ts.drop_last(), path),
    decreases path.len(),
{
    if path.len() > 1 {
        lemma_tree_at_front(ts, path.drop_last());
    }
}

proof fn lemma_tree_at_below(ts: Seq<Tree>, i: int, path: Seq<int>)
    requires
        0 <= i < ts.len(),
        tree_at(ts[i].children, path) is Some,
    ensures
        tree_at(ts, seq![i] + path) == tree_at(ts[i].children, path),
    decreases path.len(),
{
    let whole = seq![i] + path;
    assert(whole.last() == path.last());
    if path.len() == 1 {
        assert(whole.drop_last() =~= seq![i]);
        assert(tree_at(ts, seq![i]) == Some(ts[i]));
    } else {
        assert(whole.drop_last() =~= seq![i] + path.drop_last());
        lemma_tree_at_below(ts, i, path.drop_last());
    }
}

proof fn lemma_path_to(ts: Seq<Tree>, x: i64) -> (path: Seq<int>)
    requires
        forest_ids(ts).contains(x),
    ensures
        tree_at(ts, path) is Some,
        tree_at(ts, path)->0.row.id == x,
    decreases ts,
{
    let front = ts.drop_last();
    let last = ts.last();
    lemma_contains_concat(forest_ids(front), tree_ids(last));
    lemma_contains_concat(seq![last.row.id], forest_ids(last.children));
    if forest_ids(front).contains(x) {
        let path = lemma_path_to(front, x);
        lemma_tree_at_front(ts, path);
        path
    } else if x == last.row.id {
        seq![ts.len() - 1]
    } else {
        if seq![last.row.id].contains(x) {
            assert(x == last.row.id);
        }
        let below = lemma_path_to(last.children, x);
        lemma_tree_at_below(ts, ts.len() - 1, below);
        seq![ts.len() - 1] + below
    }
}

proof fn lemma_climbs_to_the_top(menus: Seq<Menu>, i: int, k: nat)
    requires
        distinct_ids(menus),
        0 <= i < menus.len(),
        climbs(menus, i, k),
    ensures
        !grown_all(
            menus,
            ordered(menus, ids_under(menus, menus, None)),
            ids_of(menus),
        ).1.contains(menus[i].id),
    decreases k,
{
    lemma_all_placeable(menus);
    lemma_tops_anchored(menus);
    let tops = ordered(menus, ids_under(menus, menus, None));
    let left = ids_of(menus);
    let id = menus[i].id;
    lemma_grown_all_accounts(menus, tops, left);
    lemma_distinct_row(menus, menus[i]);
    assert(is_visible(menus, id));
    match anchor(menus, menus[i]) {
        None => {
            assert(anchored(menus, id, None));
            assert(tops.contains(id));
            let m = choose|m: int| 0 <= m < tops.len() && tops[m] == id;
            assert(!grown_all(menus, tops, left).1.contains(tops[m]));
        },
        Some(p) => {
            assert(!is_top(menus, i));
            let j = choose|j: int|
                0 <= j < menus.len() && Some((#[trigger] menus[j]).id) == menus[i].parent_id
                    && climbs(menus, j, (k - 1) as nat);
            lemma_climbs_to_the_top(menus, j, (k - 1) as nat);
            assert(left.contains(p));
            assert(anchored(menus, id, Some(p)));
            lemma_grown_all_closed(menus, tops, left, p, id);
        },
    }
}

proof fn lemma_placed_climbs(menus: Seq<Menu>, ts: Seq<Tree>, path: Seq<int>) -> (i: int)
    requires
        distinct_ids(menus),
        hangs(menus, ts, None),
        rows_known(menus, ts),
        forest_in_order(ts),
        forest_ids(ts).no_duplicates(),
        tree_at(ts, path) is Some,
    ensures
        0 <= i < menus.len(),
        menus[i] == tree_at(ts, path)->0.row,
        climbs(menus, i, path.len()),
    decreases path.len(),
{
    lemma_tree_at(menus, ts, path);
    let row = tree_at(ts, path)->0.row;
    let i = choose|i: int| 0 <= i < menus.len() && menus[i] == row;
    if path.len() == 1 {
        assert(is_top(menus, i));
    } else {
        let j = lemma_placed_climbs(menus, ts, path.drop_last());
        assert(Some(menus[j].id) == menus[i].parent_id);
        assert(climbs(menus, j, (path.len() - 1) as nat));
    }
    i
}

proof fn lemma_menu_tree(menus: Seq<Menu>)
    requires
        distinct_ids(menus),
    ensures
        hangs(menus, menu_tree(menus), None),
        rows_known(menus, menu_tree(menus)),
        forest_in_order(menu_tree(menus)),
        forest_ids(menu_tree(menus)).no_duplicates(),
{
    tree_follows_the_parents(menus);
    tree_holds_each_entry_once(menus);
    tree_is_in_order(menus);
    lemma_all_placeable(menus);
    lemma_rows_of_tree(menus, ordered(menus, ids_under(menus, menus, None)), ids_of(menus));
}

/// Where ids are distinct, the nodes given back for the menus hold, at all levels
/// together, exactly the menus from which parents lead to the top, that is, all
/// but those on a ring of parents or below one.
pub proof fn nodes_are_the_menus_that_climb(menus: Seq<Menu>, ns: Seq<MenuNodeOut>, i: int)
    requires
        forall|a: int, b: int|
            0 <= a < b < menus.len() ==> (#[trigger] menus[a]).id != (#[trigger] menus[b]).id,
        shows_nodes(ns, menu_tree(menus)),
        0 <= i < menus.len(),
    ensures
        is_shown(ns, menus[i].id) <==> exists|k: nat| #[trigger] climbs(menus, i, k),
{
    let ts = menu_tree(menus);
    lemma_menu_tree(menus);
    if is_shown(ns, menus[i].id) {
        let path = choose|path: Seq<int>|
            (#[trigger] node_at(ns, path)) matches Some(n) && n.id == menus[i].id;
        lemma_node_at(ns, ts, path);
        let j = lemma_placed_climbs(menus, ts, path);
        assert(menus[j].id == menus[i].id);
        assert(j == i);
        assert(climbs(menus, i, path.len()));
    }
    if exists|k: nat| #[trigger] climbs(menus, i, k) {
        let k = choose|k: nat| #[trigger] climbs(menus, i, k);
        lemma_climbs_to_the_top(menus, i, k);
        lemma_all_placeable(menus);
        let tops = ordered(menus, ids_under(menus, menus, None));
        lemma_grown_all_accounts(menus, tops, ids_of(menus));
        assert(is_visible(menus, menus[i].id));
        let path = lemma_path_to(ts, menus[i].id);
        lemma_node_at(ns, ts, path);
        assert(node_at(ns, path)->0.id == menus[i].id);
    }
}

/// Where ids are distinct, every node, at whatever level, has the data of its own
/// menu. At the top stand menus without a parent that is there; below a node
/// stand menus whose parent is that node's menu.
pub proof fn nodes_stand_below_their_parents(
    menus: Seq<Menu>,
    ns: Seq<MenuNodeOut>,
    path: Seq<int>,
)
    requires
        forall|a: int, b: int|
            0 <= a < b < menus.len() ==> (#[trigger] menus[a]).id != (#[trigger] menus[b]).id,
        shows_nodes(ns, menu_tree(menus)),
        node_at(ns, path) is Some,
    ensures
        exists|i: int|
            {
                &&& 0 <= i < menus.len()
                &&& has_data_of(node_at(ns, path)->0, #[trigger] menus[i])
                &&& if path.len() == 1 {
                    is_top(menus, i)
                } else {
                    &&& node_at(ns, path.drop_last()) is Some
                    &&& menus[i].parent_id == Some(node_at(ns, path.drop_last())->0.id)
                }
            },
{
    let ts = menu_tree(menus);
    lemma_menu_tree(menus);
    lemma_node_at(ns, ts, path);
    lemma_tree_at(menus, ts, path);
    let i = lemma_placed_climbs(menus, ts, path);
    assert(has_data_of(node_at(ns, path)->0, menus[i]));
    if path.len() > 1 {
        lemma_node_at(ns, ts, path.drop_last());
    } else {
        assert(is_top(menus, i));
    }
}

/// Where ids are distinct, no menu is shown twice, at whatever levels.
pub proof fn no_node_is_shown_twice(
    menus: Seq<Menu>,
    ns: Seq<MenuNodeOut>,
    a: Seq<int>,
    b: Seq<int>,
)
    requires
        forall|i: int, j: int|
            0 <= i < j < menus.len() ==> (#[trigger] menus[i]).id != (#[trigger] menus[j]).id,
        shows_nodes(ns, menu_tree(menus)),
        node_at(ns, a) is Some,
        node_at(ns, b) is Some,
        node_at(ns, a)->0.id == node_at(ns, b)->0.id,
    ensures
        a == b,
{
    let ts = menu_tree(menus);
    lemma_menu_tree(menus);
    lemma_node_at(ns, ts, a);
    lemma_node_at(ns, ts, b);
    lemma_one_path(menus, ts, a, b);
}

/// One text is the other or comes before it: it is a beginning of it, or has the
/// smaller character where the two first differ.
pub open spec fn comes_first(a: Seq<char>, b: Seq<char>) -> bool {
    exists|k: int|
        {
            &&& 0 <= k <= a.len() && k <= b.len()
            &&& #[trigger] a.take(k) == b.take(k)
            &&& k == a.len() || (k < b.len() && a[k] < b[k])
        }
}

proof fn lemma_text_le(a: Seq<char>, b: Seq<char>)
    requires
        text_le(a, b),
    ensures
        comes_first(a, b),
    decreases a.len(),
{
    if a.len() == 0 || a[0] != b[0] {
        assert(a.take(0) =~= b.take(0));
    } else {
        lemma_text_le(a.drop_first(), b.drop_first());
        let x = a.drop_first();
        let y = b.drop_first();
        let k = choose|k: int|
            {
                &&& 0 <= k <= x.len() && k <= y.len()
                &&& #[trigger] x.take(k) == y.take(k)
                &&& k == x.len() || (k < y.len() && x[k] < y[k])
            };
        assert forall|i: int| 0 <= i < k + 1 implies a[i] == b[i] by {
            if i > 0 {
                assert(x.take(k)[i - 1] == y.take(k)[i - 1]);
            }
        }
        assert(a.take(k + 1) =~= b.take(k + 1));
    }
}

/// Of two nodes side by side, at whatever level, the one before has the smaller
/// sort order, or the same and a code that does not come after.
pub proof fn nodes_side_by_side_are_in_order(
    menus: Seq<Menu>,
    ns: Seq<MenuNodeOut>,
    a: Seq<int>,
    b: Seq<int>,
)
    requires
        forall|i: int, j: int|
            0 <= i < j < menus.len() ==> (#[trigger] menus[i]).id != (#[trigger] menus[j]).id,
        shows_nodes(ns, menu_tree(menus)),
        node_at(ns, a) is Some,
        node_at(ns, b) is Some,
        a.len() == b.len(),
        a.drop_last() == b.drop_last(),
        a.last() < b.last(),
    ensures
        node_at(ns, a)->0.sort_order < node_at(ns, b)->0.sort_order || (node_at(ns, a)->0.sort_order
            == node_at(ns, b)->0.sort_order && comes_first(
            node_at(ns, a)->0.code@,
            node_at(ns, b)->0.code@,
        )),
{
    let ts = menu_tree(menus);
    lemma_menu_tree(menus);
    lemma_node_at(ns, ts, a);
    lemma_node_at(ns, ts, b);
    let level = if a.len() == 1 {
        ts
    } else {
        tree_at(ts, a.drop_last())->0.children
    };
    if a.len() > 1 {
        lemma_tree_at(menus, ts, a.drop_last());
    }
    assert(forest_in_order(level));
    assert(row_le(level[a.last()].row, level[b.last()].row));
    if level[a.last()].row.sort_order == level[b.last()].row.sort_order {
        lemma_text_le(level[a.last()].row.code@, level[b.last()].row.code@);
    }
}

} // verus!
