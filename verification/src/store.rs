//! The item store: an ordered collection of to-do rows keyed by an
//! auto-assigned integer id, mirroring a relational table
//! `todos(id, description, done)` kept in ascending-id order.

use vstd::prelude::*;

use crate::Error;

verus! {

/// The mathematical model of one persisted row.
pub struct ItemModel {
    pub id: int,
    pub description: Seq<char>,
    pub done: bool,
}

/// One persisted to-do row.
pub struct Todo {
    pub id: i64,
    pub description: String,
    pub done: bool,
}

impl View for Todo {
    type V = ItemModel;

    open spec fn view(&self) -> ItemModel {
        ItemModel { id: self.id as int, description: self.description@, done: self.done }
    }
}

impl Clone for Todo {
    fn clone(&self) -> (r: Self)
        ensures
            r == *self,
    {
        Todo { id: self.id, description: self.description.clone(), done: self.done }
    }
}

/// The rows after `UPDATE todos SET description = d WHERE id = i`: every
/// row whose id matches gets the new description; ids and done flags are
/// untouched; nothing happens when no row matches.
pub open spec fn spec_update(items: Seq<ItemModel>, id: int, description: Seq<char>) -> Seq<
    ItemModel,
> {
    Seq::new(
        items.len(),
        |i: int|
            if items[i].id == id {
                ItemModel { id: items[i].id, description, done: items[i].done }
            } else {
                items[i]
            },
    )
}

/// The rows after `UPDATE todos SET done = b WHERE id = i`: every row whose
/// id matches gets the new done flag; ids and descriptions are untouched;
/// nothing happens when no row matches.
pub open spec fn spec_set_done(items: Seq<ItemModel>, id: int, done: bool) -> Seq<ItemModel> {
    Seq::new(
        items.len(),
        |i: int|
            if items[i].id == id {
                ItemModel { id: items[i].id, description: items[i].description, done }
            } else {
                items[i]
            },
    )
}

/// The rows after `DELETE FROM todos WHERE id = i`: every row whose id
/// matches is removed, the rest keep their order; nothing happens when no
/// row matches.
pub open spec fn spec_delete(items: Seq<ItemModel>, id: int) -> Seq<ItemModel>
    decreases items.len(),
{
    if items.len() == 0 {
        Seq::<ItemModel>::empty()
    } else {
        let rest = spec_delete(items.drop_last(), id);
        if items.last().id == id {
            rest
        } else {
            rest.push(items.last())
        }
    }
}

/// The in-memory store: rows in ascending-id order plus the next id the
/// store will assign, as a relational sequence would.
pub struct TodoStore {
    items: Vec<Todo>,
    next_id: i64,
}

impl View for TodoStore {
    type V = Seq<ItemModel>;

    closed spec fn view(&self) -> Seq<ItemModel> {
        self.items@.map_values(|t: Todo| t@)
    }
}

impl TodoStore {
    /// The id the store will assign to the next created row.
    pub closed spec fn spec_next_id(&self) -> int {
        self.next_id as int
    }

    /// Well-formedness: ids are at least 1, strictly ascending, and all
    /// below the next id to be assigned.
    pub open spec fn wf(&self) -> bool {
        &&& 1 <= self.spec_next_id() <= i64::MAX
        &&& forall|i: int| 0 <= i < self@.len() ==> 1 <= (#[trigger] self@[i].id) < self.spec_next_id()
        &&& forall|i: int, j: int| 0 <= i < j < self@.len() ==> self@[i].id < self@[j].id
    }

    /// An empty store; the first created row receives id 1.
    pub fn new() -> (r: TodoStore)
        ensures
            r.wf(),
            r@ == Seq::<ItemModel>::empty(),
            r.spec_next_id() == 1,
    {
        TodoStore { items: Vec::new(), next_id: 1 }
    }

    /// Whether a sequence of rows can back a store: ids at least 1 and
    /// strictly ascending, with room left to assign the next id.
    pub open spec fn spec_valid_rows(items: Seq<ItemModel>) -> bool {
        &&& forall|i: int| 0 <= i < items.len() ==> 1 <= (#[trigger] items[i].id)
        &&& forall|i: int, j: int| 0 <= i < j < items.len() ==> items[i].id < items[j].id
        &&& items.len() > 0 ==> items.last().id < i64::MAX
    }

    /// Builds a store from rows read back from a relational table, in the
    /// order the table returns them; the next id to assign is one above the
    /// highest. Refuses rows that no table of this schema could hold.
    pub fn from_rows(rows: Vec<Todo>) -> (r: Option<TodoStore>)
        ensures
            r is Some <==> Self::spec_valid_rows(rows@.map_values(|t: Todo| t@)),
            r matches Some(s) ==> {
                &&& s.wf()
                &&& s@ == rows@.map_values(|t: Todo| t@)
                &&& s.spec_next_id() == if rows@.len() == 0 {
                    1int
                } else {
                    rows@.map_values(|t: Todo| t@).last().id + 1
                }
            },
    {
        let ghost items = rows@.map_values(|t: Todo| t@);
        let n = rows.len();
        let mut next: i64 = 1;
        for i in 0..n
            invariant
                n == rows.len(),
                items == rows@.map_values(|t: Todo| t@),
                1 <= next <= i64::MAX,
                forall|k: int| 0 <= k < i ==> 1 <= (#[trigger] items[k].id),
                forall|k: int, l: int| 0 <= k < l < i ==> items[k].id < items[l].id,
                i > 0 ==> next == items[i - 1].id + 1 && items[i - 1].id < i64::MAX,
                i == 0 ==> next == 1,
        {
            let id = rows[i].id;
            if id < next {
                proof {
                    if i == 0 {
                        assert(items[0].id < 1);
                    } else {
                        assert(!(items[i - 1].id < items[i as int].id));
                    }
                }
                return None;
            }
            if id == i64::MAX {
                proof {
                    assert(items.last().id == i64::MAX || !(items[i as int].id < items.last().id));
                }
                return None;
            }
            next = id + 1;
        }
        let s = TodoStore { items: rows, next_id: next };
        proof {
            assert(s@ =~= items);
            if n > 0 {
                assert(items.last() == items[n - 1]);
            }
        }
        Some(s)
    }

    /// Whether the store invariant holds, decided at run time: lets an
    /// unverified caller test it before relying on it.
    pub fn is_well_formed(&self) -> (r: bool)
        ensures
            r == self.wf(),
    {
        if self.next_id < 1 {
            return false;
        }
        let n = self.items.len();
        let mut i: usize = 0;
        while i < n
            invariant
                n == self.items.len(),
                i <= n,
                1 <= self.next_id,
                forall|k: int| 0 <= k < i ==> 1 <= (#[trigger] self@[k].id) < self.spec_next_id(),
                forall|k: int, l: int| 0 <= k < l < i ==> self@[k].id < self@[l].id,
            decreases n - i,
        {
            let t = &self.items[i];
            if t.id < 1 || t.id >= self.next_id {
                proof {
                    assert(self@[i as int] == self.items@[i as int]@);
                    assert(self@[i as int].id == t.id as int);
                    assert(!(1 <= self@[i as int].id < self.spec_next_id()));
                }
                return false;
            }
            if i > 0 && self.items[i - 1].id >= t.id {
                proof {
                    assert(self@[i - 1] == self.items@[i - 1]@);
                    assert(self@[i as int] == self.items@[i as int]@);
                }
                return false;
            }
            proof {
                assert forall|k: int, l: int| 0 <= k < l < i + 1 implies self@[k].id
                    < self@[l].id by {
                    if l < i {
                    } else {
                        assert(self@[l] == self.items@[i as int]@);
                        if k < i - 1 {
                            assert(self@[k].id < self@[i - 1].id);
                        }
                    }
                }
            }
            i = i + 1;
        }
        true
    }

    /// Inserts a new row with the next id, the given description, and
    /// `done` false. Fails only when the id space is exhausted.
    pub fn create_todo(&mut self, description: String) -> (r: Result<(), Error>)
        requires
            old(self).wf(),
        ensures
            final(self).wf(),
            old(self).spec_next_id() < i64::MAX ==> {
                &&& r is Ok
                &&& final(self)@ == old(self)@.push(
                    ItemModel {
                        id: old(self).spec_next_id(),
                        description: description@,
                        done: false,
                    },
                )
                &&& final(self).spec_next_id() == old(self).spec_next_id() + 1
            },
            old(self).spec_next_id() == i64::MAX ==> {
                &&& r matches Err(e) && e is Storage
                &&& final(self)@ == old(self)@
                &&& final(self).spec_next_id() == old(self).spec_next_id()
            },
    {
        if self.next_id == i64::MAX {
            return Err(Error::Storage);
        }
        let id = self.next_id;
        self.next_id = self.next_id + 1;
        self.items.push(Todo { id, description, done: false });
        assert(self@ =~= old(self)@.push(
            ItemModel { id: id as int, description: description@, done: false },
        ));
        Ok(())
    }

    /// Returns all rows in ascending-id order.
    pub fn list_todo(&self) -> (r: Vec<Todo>)
        ensures
            r@.map_values(|t: Todo| t@) == self@,
    {
        let mut out: Vec<Todo> = Vec::new();
        let n = self.items.len();
        for i in 0..n
            invariant
                n == self.items.len(),
                out@.len() == i,
                forall|k: int| 0 <= k < i ==> #[trigger] out@[k] == self.items@[k],
        {
            out.push(self.items[i].clone());
        }
        assert(out@.map_values(|t: Todo| t@) =~= self@);
        out
    }

    /// Sets the description of the row matching `id`; a silent no-op when
    /// no row matches.
    pub fn update_todo(&mut self, id: i64, description: String)
        requires
            old(self).wf(),
        ensures
            final(self).wf(),
            final(self)@ == spec_update(old(self)@, id as int, description@),
            final(self).spec_next_id() == old(self).spec_next_id(),
    {
        let mut out: Vec<Todo> = Vec::new();
        let n = self.items.len();
        for i in 0..n
            invariant
                n == self.items.len(),
                out@.len() == i,
                forall|k: int| #![trigger out@[k]]
                    0 <= k < i ==> out@[k]@ == (if self.items@[k]@.id == id as int {
                        ItemModel {
                            id: self.items@[k]@.id,
                            description: description@,
                            done: self.items@[k]@.done,
                        }
                    } else {
                        self.items@[k]@
                    }),
        {
            let t = &self.items[i];
            if t.id == id {
                out.push(Todo { id: t.id, description: description.clone(), done: t.done });
            } else {
                out.push(t.clone());
            }
        }
        self.items = out;
        assert(self@ =~= spec_update(old(self)@, id as int, description@));
    }

    /// Sets the done flag of the row matching `id`; a silent no-op when no
    /// row matches.
    pub fn done_todo(&mut self, id: i64, done: bool)
        requires
            old(self).wf(),
        ensures
            final(self).wf(),
            final(self)@ == spec_set_done(old(self)@, id as int, done),
            final(self).spec_next_id() == old(self).spec_next_id(),
    {
        let mut out: Vec<Todo> = Vec::new();
        let n = self.items.len();
        for i in 0..n
            invariant
                n == self.items.len(),
                out@.len() == i,
                forall|k: int| #![trigger out@[k]]
                    0 <= k < i ==> out@[k]@ == (if self.items@[k]@.id == id as int {
                        ItemModel {
                            id: self.items@[k]@.id,
                            description: self.items@[k]@.description,
                            done,
                        }
                    } else {
                        self.items@[k]@
                    }),
        {
            let t = &self.items[i];
            if t.id == id {
                out.push(Todo { id: t.id, description: t.description.clone(), done });
            } else {
                out.push(t.clone());
            }
        }
        self.items = out;
        assert(self@ =~= spec_set_done(old(self)@, id as int, done));
    }

    /// Removes the row matching `id`; a silent no-op when no row matches.
    pub fn delete_todo(&mut self, id: i64)
        requires
            old(self).wf(),
        ensures
            final(self).wf(),
            final(self)@ == spec_delete(old(self)@, id as int),
            final(self).spec_next_id() == old(self).spec_next_id(),
    {
        let mut out: Vec<Todo> = Vec::new();
        let n = self.items.len();
        for i in 0..n
            invariant
                n == self.items.len(),
                out@.map_values(|t: Todo| t@) == spec_delete(
                    self.items@.subrange(0, i as int).map_values(|t: Todo| t@),
                    id as int,
                ),
        {
            proof {
                let pre = self.items@.subrange(0, i as int).map_values(|t: Todo| t@);
                let post = self.items@.subrange(0, i as int + 1).map_values(|t: Todo| t@);
                assert(post.drop_last() =~= pre);
                assert(post.last() == self.items@[i as int]@);
            }
            let t = &self.items[i];
            if t.id != id {
                out.push(t.clone());
            }
            assert(out@.map_values(|t: Todo| t@) =~= spec_delete(
                self.items@.subrange(0, i as int + 1).map_values(|t: Todo| t@),
                id as int,
            ));
        }
        proof {
            assert(self.items@.subrange(0, n as int) =~= self.items@);
            lemma_delete_sorted(self@, id as int);
        }
        self.items = out;
        assert(self@ == spec_delete(old(self)@, id as int));
    }
}

/// Creation assigns a fresh id: when every existing id is below the assigned
/// one, the sequence after a create holds exactly one new row — at the end,
/// with the given description and `done` false — and the old rows unchanged.
pub proof fn lemma_create_fresh(items: Seq<ItemModel>, next: int, description: Seq<char>)
    requires
        forall|i: int| 0 <= i < items.len() ==> (#[trigger] items[i].id) < next,
    ensures
        ({
            let res = items.push(ItemModel { id: next, description, done: false });
            &&& res.len() == items.len() + 1
            &&& res[items.len() as int] == (ItemModel { id: next, description, done: false })
            &&& forall|k: int| 0 <= k < items.len() ==> #[trigger] res[k] == items[k]
            &&& forall|k: int| 0 <= k < items.len() ==> (#[trigger] res[k].id) != next
        }),
{
}

/// In a well-formed store the listed rows stand in strictly ascending id
/// order, which is creation order, since each create appends a row whose id
/// is above every earlier one.
pub proof fn lemma_list_ascending(s: &TodoStore)
    requires
        s.wf(),
    ensures
        forall|i: int, j: int| 0 <= i < j < s@.len() ==> s@[i].id < s@[j].id,
{
}

/// Updating a description changes only that: ids and done flags are kept
/// pointwise, rows that do not match are kept whole, and matching rows get
/// exactly the new description.
pub proof fn lemma_update_pointwise(items: Seq<ItemModel>, id: int, description: Seq<char>)
    ensures
        ({
            let res = spec_update(items, id, description);
            &&& res.len() == items.len()
            &&& forall|k: int| #![trigger res[k]]
                0 <= k < items.len() ==> {
                    &&& res[k].id == items[k].id
                    &&& res[k].done == items[k].done
                    &&& (items[k].id == id ==> res[k].description == description)
                    &&& (items[k].id != id ==> res[k].description == items[k].description)
                }
        }),
{
}

/// Setting the done flag changes only that: ids and descriptions are kept
/// pointwise, rows that do not match are kept whole. Setting it a second
/// time overwrites the first: the flag reverts when set back.
pub proof fn lemma_set_done_pointwise(items: Seq<ItemModel>, id: int, done: bool)
    ensures
        ({
            let res = spec_set_done(items, id, done);
            &&& res.len() == items.len()
            &&& forall|k: int| #![trigger res[k]]
                0 <= k < items.len() ==> {
                    &&& res[k].id == items[k].id
                    &&& res[k].description == items[k].description
                    &&& (items[k].id == id ==> res[k].done == done)
                    &&& (items[k].id != id ==> res[k].done == items[k].done)
                }
        }),
        forall|b: bool|
            spec_set_done(spec_set_done(items, id, b), id, done) =~= spec_set_done(
                items,
                id,
                done,
            ),
{
}

/// Deletion keeps the others: every row of the result is a row of the
/// input, no row of the result matches the deleted id, every input row with
/// another id survives, and strictly ascending id order is preserved.
pub proof fn lemma_delete_sorted(items: Seq<ItemModel>, id: int)
    requires
        forall|i: int, j: int| 0 <= i < j < items.len() ==> items[i].id < items[j].id,
    ensures
        ({
            let res = spec_delete(items, id);
            &&& forall|k: int| 0 <= k < res.len() ==> items.contains(#[trigger] res[k])
            &&& forall|k: int| 0 <= k < res.len() ==> (#[trigger] res[k].id) != id
            &&& forall|j: int| #![trigger items[j]]
                0 <= j < items.len() && items[j].id != id ==> res.contains(items[j])
            &&& forall|i: int, j: int| 0 <= i < j < res.len() ==> res[i].id < res[j].id
        }),
    decreases items.len(),
{
    let res = spec_delete(items, id);
    if items.len() == 0 {
    } else {
        let head = items.drop_last();
        let last = items.last();
        lemma_delete_sorted(head, id);
        let hres = spec_delete(head, id);
        assert forall|k: int| 0 <= k < hres.len() implies items.contains(#[trigger] hres[k]) by {
            let j = choose|j: int| 0 <= j < head.len() && head[j] == hres[k];
            assert(items[j] == hres[k]);
        }
        assert forall|j: int| #![trigger items[j]]
            0 <= j < items.len() && items[j].id != id implies res.contains(items[j]) by {
            if j < items.len() - 1 {
                assert(head.contains(head[j]));
                assert(hres.contains(items[j]));
                let k = choose|k: int| 0 <= k < hres.len() && hres[k] == items[j];
                assert(res[k] == items[j]);
            } else {
                if last.id != id {
                    assert(res.last() == last);
                }
            }
        }
        if last.id != id {
            assert forall|i: int, j: int| 0 <= i < j < res.len() implies res[i].id
                < res[j].id by {
                if j < res.len() - 1 {
                } else {
                    let m = choose|m: int| 0 <= m < head.len() && head[m] == res[i];
                    assert(items[m].id < last.id);
                }
            }
        }
    }
}

/// When no row matches, deletion is the identity.
pub proof fn lemma_delete_absent(items: Seq<ItemModel>, id: int)
    requires
        forall|k: int| 0 <= k < items.len() ==> (#[trigger] items[k].id) != id,
    ensures
        spec_delete(items, id) =~= items,
    decreases items.len(),
{
    if items.len() == 0 {
    } else {
        lemma_delete_absent(items.drop_last(), id);
    }
}

/// When ids are strictly ascending and row `j` is the match, deletion
/// removes exactly that row: the result is the input with index `j` gone.
pub proof fn lemma_delete_present(items: Seq<ItemModel>, id: int, j: int)
    requires
        forall|a: int, b: int| 0 <= a < b < items.len() ==> items[a].id < items[b].id,
        0 <= j < items.len(),
        items[j].id == id,
    ensures
        spec_delete(items, id) =~= items.remove(j),
    decreases items.len(),
{
    let head = items.drop_last();
    let last = items.last();
    if j == items.len() - 1 {
        assert forall|k: int| 0 <= k < head.len() implies (#[trigger] head[k].id) != id by {
            assert(items[k].id < items[j].id);
        }
        lemma_delete_absent(head, id);
    } else {
        assert(last.id != id) by {
            assert(items[j].id < items[items.len() - 1].id);
        }
        lemma_delete_present(head, id, j);
        assert(spec_delete(items, id) =~= items.remove(j));
    }
}

} // verus!
