//! The todo-list component's state: an ordered sequence of items keyed
//! by a monotonically assigned id, a pending input buffer, and the
//! counts its views derive. Adding ignores blank text; toggling and
//! deleting are no-ops on an absent id.

use vstd::prelude::*;
use vstd::string::StrSliceExecFns;

verus! {

/// One todo entry as held and displayed.
#[derive(Debug, Clone)]
pub struct TodoItem {
    pub id: u64,
    pub text: String,
    pub completed: bool,
}

/// The mathematical image of one entry.
pub struct ItemModel {
    pub id: u64,
    pub text: Seq<char>,
    pub completed: bool,
}

impl View for TodoItem {
    type V = ItemModel;

    open spec fn view(&self) -> ItemModel {
        ItemModel { id: self.id, text: self.text@, completed: self.completed }
    }
}

/// The image of a whole row of entries.
pub open spec fn items_of(v: Seq<TodoItem>) -> Seq<ItemModel> {
    v.map(|i: int, t: TodoItem| t@)
}

/// Whether some entry carries the given id.
pub open spec fn contains_id(items: Seq<ItemModel>, id: u64) -> bool {
    exists|i: int| 0 <= i < items.len() && items[i].id == id
}

/// The entry with its `completed` flag flipped when the id matches,
/// unchanged otherwise.
pub open spec fn flip_if(it: ItemModel, id: u64) -> ItemModel {
    if it.id == id {
        ItemModel { id: it.id, text: it.text, completed: !it.completed }
    } else {
        it
    }
}

/// The row after `toggle(id)`: the matching entry's flag flips, every
/// other entry and the order stay.
pub open spec fn toggled(items: Seq<ItemModel>, id: u64) -> Seq<ItemModel> {
    items.map(|i: int, it: ItemModel| flip_if(it, id))
}

/// The predicate an entry must meet to survive `delete(id)`.
pub open spec fn keeps(id: u64) -> spec_fn(ItemModel) -> bool {
    |it: ItemModel| it.id != id
}

/// The row after `delete(id)`: every entry but the matching one, in
/// order.
pub open spec fn without(items: Seq<ItemModel>, id: u64) -> Seq<ItemModel> {
    items.filter(keeps(id))
}

/// The predicate behind the completed count.
pub open spec fn is_done() -> spec_fn(ItemModel) -> bool {
    |it: ItemModel| it.completed
}

/// How many entries are completed.
pub open spec fn completed_of(items: Seq<ItemModel>) -> int {
    items.filter(is_done()).len() as int
}

/// Ids grow strictly along the row; in particular they are unique.
pub open spec fn ids_increasing(items: Seq<ItemModel>) -> bool {
    forall|i: int, j: int| 0 <= i < j < items.len() ==> items[i].id < items[j].id
}

/// A white-space character: the Unicode set that trimming removes, so
/// text of these alone counts as empty input.
pub open spec fn is_space(c: char) -> bool {
    ||| c == ' '
    ||| c == '\t'
    ||| c == '\n'
    ||| c == '\u{0b}'
    ||| c == '\u{0c}'
    ||| c == '\r'
    ||| c == '\u{85}'
    ||| c == '\u{a0}'
    ||| c == '\u{1680}'
    ||| ('\u{2000}' <= c && c <= '\u{200a}')
    ||| c == '\u{2028}'
    ||| c == '\u{2029}'
    ||| c == '\u{202f}'
    ||| c == '\u{205f}'
    ||| c == '\u{3000}'
}

/// Text that trims to nothing: every character is whitespace.
pub open spec fn blank(text: Seq<char>) -> bool {
    forall|i: int| 0 <= i < text.len() ==> is_space(text[i])
}

/// The mathematical image of the whole component state.
pub struct TodoModel {
    pub items: Seq<ItemModel>,
    pub input: Seq<char>,
    pub next_id: u64,
}

/// The todo list's state: the ordered entries, the pending input text,
/// and the id the next entry will receive.
pub struct TodoList {
    items: Vec<TodoItem>,
    input: String,
    next_id: u64,
}

impl View for TodoList {
    type V = TodoModel;

    closed spec fn view(&self) -> TodoModel {
        TodoModel { items: items_of(self.items@), input: self.input@, next_id: self.next_id }
    }
}

impl TodoList {
    /// Every held id was assigned before `next_id`, in ascending order.
    pub open spec fn wf(self) -> bool {
        &&& ids_increasing(self@.items)
        &&& forall|i: int| 0 <= i < self@.items.len() ==> self@.items[i].id < self@.next_id
    }

    /// A fresh, empty list.
    pub fn new() -> (l: TodoList)
        ensures
            l.wf(),
            l@.items.len() == 0,
            l@.input.len() == 0,
            l@.next_id == 0,
    {
        TodoList { items: Vec::new(), input: String::new(), next_id: 0 }
    }

    /// The entries, in order.
    pub fn items(&self) -> (r: &Vec<TodoItem>)
        ensures
            items_of(r@) == self@.items,
    {
        &self.items
    }

    /// One entry, by position.
    pub fn item_at(&self, i: usize) -> (r: &TodoItem)
        requires
            i < self@.items.len(),
        ensures
            r@ == self@.items[i as int],
    {
        &self.items[i]
    }

    /// The pending input text.
    pub fn input_value(&self) -> (r: &String)
        ensures
            r@ == self@.input,
    {
        &self.input
    }

    /// The id the next added entry will get.
    pub fn next_id(&self) -> (r: u64)
        ensures
            r == self@.next_id,
    {
        self.next_id
    }

    /// Replace the pending input text (the input field changed).
    pub fn set_input(&mut self, text: String)
        ensures
            final(self)@.items == old(self)@.items,
            final(self)@.input == text@,
            final(self)@.next_id == old(self)@.next_id,
            old(self).wf() ==> final(self).wf(),
    {
        self.input = text;
    }

    /// Append an entry for `text`, unless the text trims to nothing.
    /// A blank text changes nothing at all; otherwise the new entry
    /// gets the next id and starts uncompleted, the id counter moves
    /// on, and the input buffer is cleared.
    pub fn add(&mut self, text: String)
        requires
            old(self).wf(),
            old(self)@.next_id < u64::MAX,
        ensures
            final(self).wf(),
            blank(text@) ==> final(self)@ == old(self)@,
            !blank(text@) ==> final(self)@.items == old(self)@.items.push(
                ItemModel { id: old(self)@.next_id, text: text@, completed: false },
            ),
            !blank(text@) ==> final(self)@.next_id == old(self)@.next_id + 1,
            !blank(text@) ==> final(self)@.input.len() == 0,
    {
        if text_is_blank(text.as_str()) {
            return ;
        }
        let ghost pre = self.items@;
        let item = TodoItem { id: self.next_id, text, completed: false };
        self.items.push(item);
        self.next_id = self.next_id + 1;
        self.input = String::new();
        proof {
            assert(items_of(self.items@) =~= items_of(pre).push(item@));
            assert forall|i: int, j: int|
                0 <= i < j < self@.items.len() implies self@.items[i].id < self@.items[j].id by {
                if j < self@.items.len() - 1 {
                    assert(old(self)@.items[i].id < old(self)@.items[j].id);
                }
            }
        }
    }

    /// Flip the `completed` flag of the entry with this id; with no
    /// such entry nothing changes.
    pub fn toggle(&mut self, id: u64)
        requires
            old(self).wf(),
        ensures
            final(self).wf(),
            final(self)@.items == toggled(old(self)@.items, id),
            final(self)@.input == old(self)@.input,
            final(self)@.next_id == old(self)@.next_id,
    {
        let n = self.items.len();
        let mut i: usize = 0;
        while i < n
            invariant
                *self == *old(self),
                old(self).wf(),
                n == self.items@.len(),
                i <= n,
                forall|k: int| 0 <= k < i ==> self@.items[k].id != id,
            decreases n - i,
        {
            if self.items[i].id == id {
                let cur = self.items[i].completed;
                self.items[i].completed = !cur;
                proof {
                    let m0 = old(self)@.items;
                    let m1 = items_of(self.items@);
                    assert forall|k: int| 0 <= k < m0.len() implies m1[k] == toggled(m0, id)[k] by {
                        if k != i as int {
                            if k > i as int {
                                assert(m0[i as int].id < m0[k].id);
                            }
                            assert(m0[k].id != id);
                        }
                    }
                    assert(m1 =~= toggled(m0, id));
                }
                return ;
            }
            i = i + 1;
        }
        proof {
            let m0 = old(self)@.items;
            assert(toggled(m0, id) =~= m0);
        }
    }

    /// Remove the entry with this id; with no such entry nothing
    /// changes.
    pub fn delete(&mut self, id: u64)
        requires
            old(self).wf(),
        ensures
            final(self).wf(),
            final(self)@.items == without(old(self)@.items, id),
            final(self)@.input == old(self)@.input,
            final(self)@.next_id == old(self)@.next_id,
    {
        let n = self.items.len();
        let mut i: usize = 0;
        while i < n
            invariant
                *self == *old(self),
                old(self).wf(),
                n == self.items@.len(),
                i <= n,
                forall|k: int| 0 <= k < i ==> self@.items[k].id != id,
            decreases n - i,
        {
            if self.items[i].id == id {
                let ghost m0 = old(self)@.items;
                self.items.remove(i);
                proof {
                    lemma_without_at_index(m0, id, i as int);
                    assert(items_of(self.items@) =~= m0.take(i as int) + m0.skip(i as int + 1));
                    assert(items_of(self.items@) =~= without(m0, id));
                    let m1 = self@.items;
                    assert forall|a: int, b: int|
                        0 <= a < b < m1.len() implies m1[a].id < m1[b].id by {
                        let oa = if a < i as int { a } else { a + 1 };
                        let ob = if b < i as int { b } else { b + 1 };
                        assert(m0[oa].id < m0[ob].id);
                    }
                }
                return ;
            }
            i = i + 1;
        }
        proof {
            let m0 = old(self)@.items;
            lemma_delete_absent(m0, id);
        }
    }

    /// How many entries there are.
    pub fn total_count(&self) -> (r: usize)
        ensures
            r == self@.items.len(),
    {
        self.items.len()
    }

    /// How many entries are completed; never more than the total.
    pub fn completed_count(&self) -> (r: usize)
        ensures
            r == completed_of(self@.items),
            r <= self@.items.len(),
    {
        let n = self.items.len();
        let mut count: usize = 0;
        let mut i: usize = 0;
        while i < n
            invariant
                n == self@.items.len(),
                i <= n,
                count == completed_of(self@.items.take(i as int)),
                count <= i,
            decreases n - i,
        {
            proof {
                let m = self@.items;
                assert(m.take(i as int + 1) =~= m.take(i as int) + seq![m[i as int]]);
                Seq::filter_distributes_over_add(m.take(i as int), seq![m[i as int]], is_done());
                lemma_filter_singleton(m[i as int], is_done());
            }
            if self.items[i].completed {
                count = count + 1;
            }
            i = i + 1;
        }
        proof {
            assert(self@.items.take(n as int) =~= self@.items);
        }
        count
    }

    /// Whether the empty-state message is shown: exactly when the list
    /// holds nothing.
    pub fn empty_state_visible(&self) -> (r: bool)
        ensures
            r <==> self@.items.len() == 0,
    {
        self.items.len() == 0
    }

    /// What pressing Enter or the Add button does: feed the pending
    /// input to `add`. Blank input leaves everything, the buffer
    /// included, as it was.
    pub fn submit_input(&mut self)
        requires
            old(self).wf(),
            old(self)@.next_id < u64::MAX,
        ensures
            final(self).wf(),
            blank(old(self)@.input) ==> final(self)@ == old(self)@,
            !blank(old(self)@.input) ==> final(self)@.items == old(self)@.items.push(
                ItemModel { id: old(self)@.next_id, text: old(self)@.input, completed: false },
            ),
            !blank(old(self)@.input) ==> final(self)@.next_id == old(self)@.next_id + 1,
            !blank(old(self)@.input) ==> final(self)@.input.len() == 0,
    {
        let text = self.input.clone();
        self.add(text);
    }
}

/// A filter that keeps every element returns the row unchanged.
pub(crate) proof fn lemma_filter_all_kept<A>(s: Seq<A>, p: spec_fn(A) -> bool)
    requires
        forall|i: int| 0 <= i < s.len() ==> #[trigger] p(s[i]),
    ensures
        s.filter(p) == s,
    decreases s.len(),
{
    reveal(Seq::filter);
    if s.len() != 0 {
        assert forall|i: int| 0 <= i < s.drop_last().len() implies #[trigger] p(
            s.drop_last()[i],
        ) by {
            assert(p(s[i]));
        }
        lemma_filter_all_kept(s.drop_last(), p);
        assert(p(s[s.len() - 1]));
        assert(s.drop_last().push(s.last()) =~= s);
    }
}

/// A filter that keeps no element returns the empty row.
pub(crate) proof fn lemma_filter_none_kept<A>(s: Seq<A>, p: spec_fn(A) -> bool)
    requires
        forall|i: int| 0 <= i < s.len() ==> !(#[trigger] p(s[i])),
    ensures
        s.filter(p) == Seq::<A>::empty(),
    decreases s.len(),
{
    reveal(Seq::filter);
    if s.len() == 0 {
        assert(s =~= Seq::<A>::empty());
    } else {
        assert forall|i: int| 0 <= i < s.drop_last().len() implies !(#[trigger] p(
            s.drop_last()[i],
        )) by {
            assert(!p(s[i]));
        }
        lemma_filter_none_kept(s.drop_last(), p);
        assert(!p(s[s.len() - 1]));
    }
}

/// Filtering a one-element row keeps or drops that element alone.
pub(crate) proof fn lemma_filter_singleton<A>(x: A, p: spec_fn(A) -> bool)
    ensures
        p(x) ==> seq![x].filter(p) == seq![x],
        !p(x) ==> seq![x].filter(p) == Seq::<A>::empty(),
{
    reveal(Seq::filter);
    let s = seq![x];
    assert(s.last() == x);
    assert(s.drop_last() =~= Seq::<A>::empty());
    assert(Seq::<A>::empty().filter(p) == Seq::<A>::empty());
    if p(x) {
        assert(Seq::<A>::empty().push(x) =~= seq![x]);
    }
}

/// Toggling an id that no entry carries changes nothing.
pub proof fn lemma_toggle_absent(items: Seq<ItemModel>, id: u64)
    requires
        !contains_id(items, id),
    ensures
        toggled(items, id) == items,
{
    assert(toggled(items, id) =~= items);
}

/// Deleting an id that no entry carries changes nothing.
pub proof fn lemma_delete_absent(items: Seq<ItemModel>, id: u64)
    requires
        !contains_id(items, id),
    ensures
        without(items, id) == items,
{
    assert forall|i: int| 0 <= i < items.len() implies #[trigger] keeps(id)(items[i]) by {
        assert(items[i].id != id);
    }
    lemma_filter_all_kept(items, keeps(id));
}

/// Deleting the id held at index `idx` of a strictly id-increasing row
/// removes exactly that entry: everything before and after survives in
/// order, the length drops by one, and the id is gone.
pub proof fn lemma_without_at_index(items: Seq<ItemModel>, id: u64, idx: int)
    requires
        ids_increasing(items),
        0 <= idx < items.len(),
        items[idx].id == id,
    ensures
        without(items, id) == items.take(idx) + items.skip(idx + 1),
        without(items, id).len() == items.len() - 1,
        !contains_id(without(items, id), id),
{
    let p = keeps(id);
    let pre = items.take(idx);
    let mid = seq![items[idx]];
    let post = items.skip(idx + 1);
    assert(items =~= (pre + mid) + post);
    Seq::filter_distributes_over_add(pre + mid, post, p);
    Seq::filter_distributes_over_add(pre, mid, p);
    assert forall|i: int| 0 <= i < pre.len() implies #[trigger] p(pre[i]) by {
        assert(items[i].id < items[idx].id);
    }
    lemma_filter_all_kept(pre, p);
    assert forall|i: int| 0 <= i < post.len() implies #[trigger] p(post[i]) by {
        assert(items[idx].id < items[idx + 1 + i].id);
    }
    lemma_filter_all_kept(post, p);
    lemma_filter_singleton(items[idx], p);
    assert(without(items, id) =~= pre + post);
    assert forall|i: int| 0 <= i < (pre + post).len() implies (pre + post)[i].id != id by {
        if i < pre.len() {
            assert(p(pre[i]));
        } else {
            assert(p(post[i - pre.len()]));
        }
    }
}

/// The completed count never exceeds the total count.
pub proof fn lemma_completed_le_total(items: Seq<ItemModel>)
    ensures
        0 <= completed_of(items) <= items.len(),
{
    items.lemma_filter_len(is_done());
}

/// Toggling the same id twice restores every entry's flag, hence the
/// whole row.
pub proof fn lemma_toggle_twice_restores(items: Seq<ItemModel>, id: u64)
    ensures
        toggled(toggled(items, id), id) == items,
{
    let once = toggled(items, id);
    let twice = toggled(once, id);
    assert forall|k: int| 0 <= k < items.len() implies twice[k] == items[k] by {
        assert(once[k] == flip_if(items[k], id));
        assert(twice[k] == flip_if(once[k], id));
    }
    assert(twice =~= items);
}

/// Deleting the same id a second time changes nothing more.
pub proof fn lemma_delete_idempotent(items: Seq<ItemModel>, id: u64)
    ensures
        without(without(items, id), id) == without(items, id),
{
    let once = without(items, id);
    assert forall|i: int| 0 <= i < once.len() implies #[trigger] keeps(id)(once[i]) by {
        items.lemma_filter_pred(keeps(id), i);
    }
    lemma_filter_all_kept(once, keeps(id));
}

/// Whether the text consists of whitespace alone (so `add` ignores it).
fn text_is_blank(s: &str) -> (r: bool)
    ensures
        r == blank(s@),
{
    let n = s.unicode_len();
    let mut i: usize = 0;
    while i < n
        invariant
            n == s@.len(),
            i <= n,
            forall|k: int| 0 <= k < i ==> is_space(s@[k]),
        decreases n - i,
    {
        let c = s.get_char(i);
        let space = c == ' ' || c == '\t' || c == '\n' || c == '\u{0b}' || c == '\u{0c}' || c
            == '\r' || c == '\u{85}' || c == '\u{a0}' || c == '\u{1680}' || ('\u{2000}' <= c && c
            <= '\u{200a}') || c == '\u{2028}' || c == '\u{2029}' || c == '\u{202f}' || c
            == '\u{3000}' || c == '\u{205f}';
        if !space {
            assert(!is_space(s@[i as int]));
            return false;
        }
        i = i + 1;
    }
    true
}

} // verus!
