//! Keyed rendering: rows are identified by id, not by position, so a
//! new row sequence is diffed against the one on screen and only the
//! deltas are applied. `plan_rows` says, for every new row, whether its
//! rendered handle is reused untouched, reused and patched, or freshly
//! mounted, and which old rows are unmounted.

use vstd::prelude::*;

use crate::todo::{
    contains_id, flip_if, ids_increasing, items_of, lemma_filter_none_kept,
    lemma_filter_singleton, lemma_without_at_index, toggled, without, ItemModel, TodoItem,
};

verus! {

/// What happens to the rendered row at one position of the new
/// sequence.
#[derive(Clone, Copy, PartialEq, Eq, Structural, Debug)]
pub enum RowOp {
    /// The old row with this id is reused untouched.
    Keep,
    /// The old row with this id is reused and its display patched.
    Patch,
    /// No old row has this id: a new row is mounted.
    Mount,
}

/// The whole plan: one op per new row, in order, and the ids of the
/// old rows that are unmounted, in their old order.
pub struct RowPlan {
    pub ops: Vec<RowOp>,
    pub removed: Vec<u64>,
}

/// The op at position `k` of the new sequence is the right one: a row
/// is mounted exactly when its id is new, kept exactly when an old row
/// is identical to it, and patched exactly when its id survives with a
/// changed display.
pub open spec fn row_op_ok(
    old_items: Seq<ItemModel>,
    new_items: Seq<ItemModel>,
    op: RowOp,
    k: int,
) -> bool {
    let it = new_items[k];
    &&& (op == RowOp::Mount <==> !contains_id(old_items, it.id))
    &&& (op == RowOp::Keep <==> exists|j: int|
        0 <= j < old_items.len() && #[trigger] old_items[j] == it)
    &&& (op == RowOp::Patch <==> contains_id(old_items, it.id) && !(exists|j: int|
        0 <= j < old_items.len() && #[trigger] old_items[j] == it))
}

/// The predicate an old row meets when its id is gone from the new
/// sequence.
pub open spec fn gone_from(new_items: Seq<ItemModel>) -> spec_fn(ItemModel) -> bool {
    |it: ItemModel| !contains_id(new_items, it.id)
}

/// The ids of a row sequence, in order.
pub open spec fn ids_of(items: Seq<ItemModel>) -> Seq<u64> {
    items.map(|i: int, it: ItemModel| it.id)
}

/// In a strictly id-increasing sequence an id pins its position.
proof fn lemma_id_pins_index(items: Seq<ItemModel>, j1: int, j2: int)
    requires
        ids_increasing(items),
        0 <= j1 < items.len(),
        0 <= j2 < items.len(),
        items[j1].id == items[j2].id,
    ensures
        j1 == j2,
{
    if j1 < j2 {
        assert(items[j1].id < items[j2].id);
    }
    if j2 < j1 {
        assert(items[j2].id < items[j1].id);
    }
}

/// Stable keying across a toggle: when the new sequence is the old one
/// with the entry of one id flipped, every row whose id differs is
/// reused untouched, and the flipped row itself is patched, never
/// rebuilt. Only the changed row is touched.
pub proof fn lemma_toggle_patches_only_its_row(
    items: Seq<ItemModel>,
    id: u64,
    k: int,
    op: RowOp,
)
    requires
        ids_increasing(items),
        0 <= k < items.len(),
        row_op_ok(items, toggled(items, id), op, k),
    ensures
        items[k].id != id ==> op == RowOp::Keep,
        items[k].id == id ==> op == RowOp::Patch,
{
    let new_items = toggled(items, id);
    assert(new_items[k] == flip_if(items[k], id));
    if items[k].id != id {
        assert(items[k] == new_items[k]);
    } else {
        assert(contains_id(items, new_items[k].id)) by {
            assert(items[k].id == new_items[k].id);
        }
        assert forall|j: int|
            0 <= j < items.len() implies !(#[trigger] items[j] == new_items[k]) by {
            if items[j] == new_items[k] {
                lemma_id_pins_index(items, j, k);
            }
        }
    }
}

/// Stable keying across a delete: when the new sequence is the old one
/// without the entry at index `idx`, every surviving row is reused
/// untouched, and exactly that one id is unmounted.
#[verifier::rlimit(50)]
pub proof fn lemma_delete_unmounts_only_its_row(items: Seq<ItemModel>, id: u64, idx: int)
    requires
        ids_increasing(items),
        0 <= idx < items.len(),
        items[idx].id == id,
    ensures
        forall|k: int, op: RowOp|
            0 <= k < without(items, id).len() && row_op_ok(items, without(items, id), op, k)
                ==> op == RowOp::Keep,
        ids_of(items.filter(gone_from(without(items, id)))) == seq![id],
{
    lemma_without_at_index(items, id, idx);
    let new_items = without(items, id);
    assert(new_items =~= items.take(idx) + items.skip(idx + 1));
    assert forall|k: int, op: RowOp|
        0 <= k < new_items.len() && row_op_ok(items, new_items, op, k) implies op
        == RowOp::Keep by {
        let oj = if k < idx { k } else { k + 1 };
        assert(items[oj] == new_items[k]);
    }
    let gone = gone_from(new_items);
    assert forall|j: int| 0 <= j < items.len() && j != idx implies !gone(items[j]) by {
        let nk = if j < idx { j } else { j - 1 };
        assert(new_items[nk] == items[j]);
        assert(new_items[nk].id == items[j].id);
    }
    assert(gone(items[idx])) by {
        assert forall|m: int| 0 <= m < new_items.len() implies new_items[m].id != id by {
            let oj = if m < idx { m } else { m + 1 };
            assert(new_items[m] == items[oj]);
            if items[oj].id == id {
                lemma_id_pins_index(items, oj, idx);
            }
        }
    }
    let pre = items.take(idx);
    let post = items.skip(idx + 1);
    assert(items =~= (pre + seq![items[idx]]) + post);
    Seq::filter_distributes_over_add(pre + seq![items[idx]], post, gone);
    Seq::filter_distributes_over_add(pre, seq![items[idx]], gone);
    assert forall|i: int| 0 <= i < pre.len() implies !(#[trigger] gone(pre[i])) by {
        assert(!gone(items[i]));
    }
    lemma_filter_none_kept(pre, gone);
    assert forall|i: int| 0 <= i < post.len() implies !(#[trigger] gone(post[i])) by {
        assert(!gone(items[idx + 1 + i]));
    }
    lemma_filter_none_kept(post, gone);
    lemma_filter_singleton(items[idx], gone);
    assert(items.filter(gone) =~= seq![items[idx]]);
    assert(ids_of(seq![items[idx]]) =~= seq![id]);
}

/// The position of the row with this id, if any.
fn find_by_id(rows: &Vec<TodoItem>, id: u64) -> (r: Option<usize>)
    ensures
        match r {
            Some(j) => j < rows@.len() && items_of(rows@)[j as int].id == id,
            None => !contains_id(items_of(rows@), id),
        },
{
    let n = rows.len();
    let mut i: usize = 0;
    while i < n
        invariant
            n == rows@.len(),
            i <= n,
            forall|k: int| 0 <= k < i ==> items_of(rows@)[k].id != id,
        decreases n - i,
    {
        if rows[i].id == id {
            return Some(i);
        }
        i = i + 1;
    }
    None
}

/// Whether two rows display the same: same id, same text, same flag.
fn rows_equal(a: &TodoItem, b: &TodoItem) -> (r: bool)
    ensures
        r == (a@ == b@),
{
    let same = a.id == b.id && a.completed == b.completed && a.text == b.text;
    proof {
        if same {
            assert(a@ == b@);
        }
    }
    same
}

/// Diff the new row sequence against the one on screen, by id. Old ids
/// must be unique (they are, in every reachable list state: ids only
/// grow); the plan then reuses every surviving row, patches exactly the
/// changed ones, mounts exactly the new ids and unmounts exactly the
/// vanished ones.
pub fn plan_rows(old_rows: &Vec<TodoItem>, new_rows: &Vec<TodoItem>) -> (r: RowPlan)
    requires
        ids_increasing(items_of(old_rows@)),
    ensures
        r.ops@.len() == new_rows@.len(),
        forall|k: int|
            0 <= k < new_rows@.len() ==> row_op_ok(
                items_of(old_rows@),
                items_of(new_rows@),
                r.ops@[k],
                k,
            ),
        r.removed@ == ids_of(items_of(old_rows@).filter(gone_from(items_of(new_rows@)))),
{
    let ghost old_items = items_of(old_rows@);
    let ghost new_items = items_of(new_rows@);
    let n_new = new_rows.len();
    let mut ops: Vec<RowOp> = Vec::new();
    let mut k: usize = 0;
    while k < n_new
        invariant
            ids_increasing(old_items),
            old_items == items_of(old_rows@),
            new_items == items_of(new_rows@),
            n_new == new_rows@.len(),
            k <= n_new,
            ops@.len() == k,
            forall|q: int| 0 <= q < k ==> row_op_ok(old_items, new_items, ops@[q], q),
        decreases n_new - k,
    {
        let op = match find_by_id(old_rows, new_rows[k].id) {
            None => RowOp::Mount,
            Some(j) => {
                if rows_equal(&old_rows[j], &new_rows[k]) {
                    RowOp::Keep
                } else {
                    RowOp::Patch
                }
            },
        };
        proof {
            let it = new_items[k as int];
            if op == RowOp::Patch {
                assert forall|j2: int|
                    0 <= j2 < old_items.len() implies !(#[trigger] old_items[j2] == it) by {
                    let j = choose|j: int|
                        0 <= j < old_items.len() && #[trigger] old_items[j].id == it.id
                            && old_items[j] != it;
                    if old_items[j2] == it {
                        lemma_id_pins_index(old_items, j, j2);
                    }
                }
            }
            assert(row_op_ok(old_items, new_items, op, k as int));
        }
        ops.push(op);
        k = k + 1;
    }
    let ghost gone = gone_from(new_items);
    let n_old = old_rows.len();
    let mut removed: Vec<u64> = Vec::new();
    let mut j: usize = 0;
    while j < n_old
        invariant
            old_items == items_of(old_rows@),
            new_items == items_of(new_rows@),
            gone == gone_from(new_items),
            n_old == old_rows@.len(),
            j <= n_old,
            removed@ == ids_of(old_items.take(j as int).filter(gone)),
        decreases n_old - j,
    {
        proof {
            let pre = old_items.take(j as int);
            assert(old_items.take(j as int + 1) =~= pre + seq![old_items[j as int]]);
            Seq::filter_distributes_over_add(pre, seq![old_items[j as int]], gone);
            lemma_filter_singleton(old_items[j as int], gone);
        }
        match find_by_id(new_rows, old_rows[j].id) {
            None => {
                removed.push(old_rows[j].id);
                proof {
                    let pre = old_items.take(j as int);
                    assert(ids_of(pre.filter(gone).push(old_items[j as int])) =~= ids_of(
                        pre.filter(gone),
                    ).push(old_items[j as int].id));
                }
            },
            Some(_) => {
                proof {
                    let pre = old_items.take(j as int);
                    assert(pre.filter(gone) + Seq::<ItemModel>::empty() =~= pre.filter(gone));
                }
            },
        }
        j = j + 1;
    }
    proof {
        assert(old_items.take(n_old as int) =~= old_items);
    }
    RowPlan { ops, removed }
}

} // verus!
