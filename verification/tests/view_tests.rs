use todos::store::Todo;
use todos::view::{to_view_models, TodoView};

fn row(id: i64, description: &str, done: bool) -> Todo {
    Todo { id, description: description.to_string(), done }
}

#[test]
fn from_row_carries_fields_and_clears_edit() {
    let v = TodoView::from(row(3, "a", true));
    assert_eq!(v.id, 3);
    assert_eq!(v.description, "a");
    assert!(v.done);
    assert!(!v.edit);
}

#[test]
fn active_id_marks_exactly_one() {
    let rows = vec![row(1, "a", false), row(2, "b", true), row(3, "c", false)];
    let vs = to_view_models(&rows, Some(2));
    assert_eq!(vs.len(), 3);
    assert!(!vs[0].edit);
    assert!(vs[1].edit);
    assert!(!vs[2].edit);
    assert_eq!(vs[1].id, 2);
    assert_eq!(vs[1].description, "b");
    assert!(vs[1].done);
}

#[test]
fn no_active_id_marks_none() {
    let rows = vec![row(1, "a", false), row(2, "b", false)];
    let vs = to_view_models(&rows, None);
    assert!(vs.iter().all(|v| !v.edit));
}

#[test]
fn unmatched_active_id_marks_none() {
    let rows = vec![row(1, "a", false), row(2, "b", false)];
    let vs = to_view_models(&rows, Some(9));
    assert!(vs.iter().all(|v| !v.edit));
}

#[test]
fn mapper_preserves_order_and_fields() {
    let rows = vec![row(4, "x", true), row(9, "y", false)];
    let vs = to_view_models(&rows, None);
    assert_eq!(vs.len(), 2);
    assert_eq!(vs[0].id, 4);
    assert_eq!(vs[0].description, "x");
    assert!(vs[0].done);
    assert_eq!(vs[1].id, 9);
    assert_eq!(vs[1].description, "y");
    assert!(!vs[1].done);
}
