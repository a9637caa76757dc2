//! The view-model mapper: converts persisted rows into display-ready
//! structures, marking at most one row — the one whose id equals the
//! request's active id — as being edited inline.

use vstd::prelude::*;

use crate::store::{ItemModel, Todo};

verus! {

/// The mathematical model of one display-ready row.
pub struct ViewModel {
    pub id: int,
    pub description: Seq<char>,
    pub done: bool,
    pub edit: bool,
}

/// One display-ready row: the persisted fields plus a transient flag that
/// says whether this row renders as an inline edit form.
pub struct TodoView {
    pub id: i64,
    pub description: String,
    pub done: bool,
    pub edit: bool,
}

impl View for TodoView {
    type V = ViewModel;

    open spec fn view(&self) -> ViewModel {
        ViewModel {
            id: self.id as int,
            description: self.description@,
            done: self.done,
            edit: self.edit,
        }
    }
}

impl From<Todo> for TodoView {
    fn from(value: Todo) -> (r: TodoView) {
        TodoView { id: value.id, description: value.description, done: value.done, edit: false }
    }
}

impl vstd::std_specs::convert::FromSpecImpl<Todo> for TodoView {
    open spec fn obeys_from_spec() -> bool {
        true
    }

    open spec fn from_spec(value: Todo) -> TodoView {
        TodoView { id: value.id, description: value.description, done: value.done, edit: false }
    }
}

/// The display-ready rows for a listing: the persisted fields carried over
/// in order, with `edit` set exactly on the rows whose id equals the active
/// id, if one was given.
pub open spec fn spec_to_views(items: Seq<ItemModel>, active: Option<i64>) -> Seq<ViewModel> {
    Seq::new(
        items.len(),
        |i: int|
            ViewModel {
                id: items[i].id,
                description: items[i].description,
                done: items[i].done,
                edit: match active {
                    Option::Some(a) => items[i].id == a as int,
                    Option::None => false,
                },
            },
    )
}

/// Maps the persisted rows to view models, marking the row whose id equals
/// `active` (if any) for inline editing.
pub fn to_view_models(todos: &Vec<Todo>, active: Option<i64>) -> (r: Vec<TodoView>)
    ensures
        r@.map_values(|v: TodoView| v@) == spec_to_views(
            todos@.map_values(|t: Todo| t@),
            active,
        ),
{
    let ghost items = todos@.map_values(|t: Todo| t@);
    let mut out: Vec<TodoView> = Vec::new();
    let n = todos.len();
    for i in 0..n
        invariant
            n == todos.len(),
            items == todos@.map_values(|t: Todo| t@),
            out@.len() == i,
            forall|k: int| #![trigger out@[k]]
                0 <= k < i ==> out@[k]@ == spec_to_views(items, active)[k],
    {
        let mut v = TodoView::from(todos[i].clone());
        let is_active = match active {
            Option::Some(a) => v.id == a,
            Option::None => false,
        };
        if is_active {
            v.edit = true;
        }
        out.push(v);
    }
    assert(out@.map_values(|v: TodoView| v@) =~= spec_to_views(items, active));
    out
}

/// At most one row is marked for editing: with no active id, or an active id
/// matching no row, no view model has `edit` set; with an active id equal to
/// the id of row `j` of a sequence with strictly ascending ids, exactly the
/// view model at `j` has `edit` set.
pub proof fn lemma_edit_unique(items: Seq<ItemModel>, active: Option<i64>)
    requires
        forall|i: int, j: int| 0 <= i < j < items.len() ==> items[i].id < items[j].id,
    ensures
        active is None ==> forall|k: int|
            0 <= k < items.len() ==> !(#[trigger] spec_to_views(items, active)[k].edit),
        active matches Some(a) && (forall|j: int|
            0 <= j < items.len() ==> (#[trigger] items[j].id) != a as int) ==> forall|k: int|
            0 <= k < items.len() ==> !(#[trigger] spec_to_views(items, active)[k].edit),
        forall|j: int|
            0 <= j < items.len() && (active matches Some(a) && items[j].id == a as int)
                ==> (#[trigger] spec_to_views(items, active)[j].edit) && (forall|k: int|
                0 <= k < items.len() && k != j ==> !(#[trigger] spec_to_views(
                    items,
                    active,
                )[k].edit)),
{
    let vs = spec_to_views(items, active);
    if active is Some {
        let a = active->0;
        assert forall|j: int|
            0 <= j < items.len() && items[j].id == a as int implies (#[trigger] vs[j].edit) && (
        forall|k: int| 0 <= k < items.len() && k != j ==> !(#[trigger] vs[k].edit)) by {
            assert forall|k: int| 0 <= k < items.len() && k != j implies !(#[trigger] vs[k].edit) by {
                if k < j {
                    assert(items[k].id < items[j].id);
                } else {
                    assert(items[j].id < items[k].id);
                }
            }
        }
    }
}

} // verus!
