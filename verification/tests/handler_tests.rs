use todos::handler::{handle, todos, Response};
use todos::route::Method;
use todos::store::{Todo, TodoStore};

fn desc(s: &str) -> Option<String> {
    Some(s.to_string())
}

#[test]
fn post_creates_and_redirects() {
    let mut s = TodoStore::new();
    let r = handle(&mut s, Method::Post, "/todos", false, desc("buy milk"));
    assert!(matches!(r, Response::Redirect(loc) if loc == "/todos"));
    let items = s.list_todo();
    assert_eq!(items.len(), 1);
    assert_eq!(items[0].description, "buy milk");
    assert!(!items[0].done);
}

#[test]
fn get_renders_full_page() {
    let mut s = TodoStore::new();
    handle(&mut s, Method::Post, "/todos", false, desc("a"));
    let r = handle(&mut s, Method::Get, "/todos", false, None);
    match r {
        Response::Html(body) => {
            assert!(body.starts_with("<!DOCTYPE html>"));
            assert!(body.ends_with("</body></html>"));
            assert!(body.contains("<li id=\"todo-1\">a"));
        }
        _ => panic!("expected a rendered page"),
    }
}

#[test]
fn partial_update_signal_renders_fragment_only() {
    let mut s = TodoStore::new();
    handle(&mut s, Method::Post, "/todos", false, desc("a"));
    let r = handle(&mut s, Method::Get, "/todos", true, None);
    match r {
        Response::Html(body) => {
            assert!(body.starts_with("<ul id=\"todos\">"));
            assert!(body.ends_with("</ul>"));
        }
        _ => panic!("expected a rendered fragment"),
    }
}

#[test]
fn get_item_renders_edit_form() {
    let mut s = TodoStore::new();
    handle(&mut s, Method::Post, "/todos", false, desc("a"));
    handle(&mut s, Method::Post, "/todos", false, desc("b"));
    let r = handle(&mut s, Method::Get, "/todos/2", false, None);
    match r {
        Response::Html(body) => {
            assert!(body.contains("<form method=\"post\" action=\"/todos/2\">"));
            assert!(!body.contains("<form method=\"post\" action=\"/todos/1\">"));
        }
        _ => panic!("expected a rendered page"),
    }
}

#[test]
fn done_and_undo_routes_flip_the_flag() {
    let mut s = TodoStore::new();
    handle(&mut s, Method::Post, "/todos", false, desc("a"));
    let r = handle(&mut s, Method::Get, "/todos/1/done", false, None);
    assert!(matches!(r, Response::Redirect(loc) if loc == "/todos"));
    assert!(s.list_todo()[0].done);
    handle(&mut s, Method::Get, "/todos/1/undo", false, None);
    assert!(!s.list_todo()[0].done);
}

#[test]
fn update_route_changes_description() {
    let mut s = TodoStore::new();
    handle(&mut s, Method::Post, "/todos", false, desc("a"));
    let r = handle(&mut s, Method::Put, "/todos/1", false, desc("b"));
    assert!(matches!(r, Response::Redirect(_)));
    assert_eq!(s.list_todo()[0].description, "b");
}

#[test]
fn delete_routes_remove_the_row() {
    let mut s = TodoStore::new();
    handle(&mut s, Method::Post, "/todos", false, desc("a"));
    handle(&mut s, Method::Post, "/todos", false, desc("b"));
    handle(&mut s, Method::Delete, "/todos/1", false, None);
    assert_eq!(s.list_todo().len(), 1);
    handle(&mut s, Method::Get, "/todos/2/delete", false, None);
    assert_eq!(s.list_todo().len(), 0);
}

#[test]
fn mutation_under_partial_update_signal_rerenders_fragment() {
    let mut s = TodoStore::new();
    let r = handle(&mut s, Method::Post, "/todos", true, desc("a"));
    match r {
        Response::Html(body) => {
            assert_eq!(body, todos(&s, None, true));
            assert!(body.starts_with("<ul id=\"todos\">"));
            assert!(body.contains("todo-1"));
        }
        _ => panic!("expected a re-rendered fragment"),
    }
}

#[test]
fn missing_form_field_is_refused() {
    let mut s = TodoStore::new();
    let r = handle(&mut s, Method::Post, "/todos", false, None);
    assert!(matches!(r, Response::BadRequest));
    assert_eq!(s.list_todo().len(), 0);
    handle(&mut s, Method::Post, "/todos", false, desc("a"));
    let r = handle(&mut s, Method::Post, "/todos/1", false, None);
    assert!(matches!(r, Response::BadRequest));
    assert_eq!(s.list_todo()[0].description, "a");
}

#[test]
fn wrong_verb_is_refused() {
    let mut s = TodoStore::new();
    let r = handle(&mut s, Method::Put, "/todos", false, desc("a"));
    assert!(matches!(r, Response::MethodNotAllowed));
    assert_eq!(s.list_todo().len(), 0);
}

#[test]
fn unmatched_path_redirects_to_collection() {
    let mut s = TodoStore::new();
    let r = handle(&mut s, Method::Get, "/elsewhere", false, None);
    assert!(matches!(r, Response::Redirect(loc) if loc == "/todos"));
}

#[test]
fn exhausted_store_answers_opaque_failure() {
    let rows = vec![Todo { id: i64::MAX - 1, description: "a".to_string(), done: false }];
    let mut s = TodoStore::from_rows(rows).unwrap();
    let r = handle(&mut s, Method::Post, "/todos", false, desc("b"));
    match r {
        Response::Failure { status, message } => {
            assert_eq!(status, 500);
            assert_eq!(message, "oops something went wrong");
        }
        _ => panic!("expected the opaque failure"),
    }
    assert_eq!(s.list_todo().len(), 1);
}

#[test]
fn fragment_and_page_agree_for_same_views() {
    let mut s = TodoStore::new();
    handle(&mut s, Method::Post, "/todos", false, desc("x"));
    handle(&mut s, Method::Post, "/todos", false, desc("y"));
    handle(&mut s, Method::Get, "/todos/1/done", false, None);
    let fragment = todos(&s, Some(2), true);
    let page = todos(&s, Some(2), false);
    assert!(page.contains(&fragment));
}
