use todos::route::{parse_id, route, Action, Method};

#[test]
fn parse_id_accepts_decimal() {
    assert_eq!(parse_id("5"), Some(5));
    assert_eq!(parse_id("0"), Some(0));
    assert_eq!(parse_id("0012"), Some(12));
    assert_eq!(parse_id("42"), Some(42));
    assert_eq!(parse_id("-5"), Some(-5));
    assert_eq!(parse_id("9223372036854775807"), Some(i64::MAX));
    assert_eq!(parse_id("-9223372036854775808"), Some(i64::MIN));
}

#[test]
fn parse_id_rejects_other_text() {
    assert_eq!(parse_id(""), None);
    assert_eq!(parse_id("-"), None);
    assert_eq!(parse_id("abc"), None);
    assert_eq!(parse_id("12x"), None);
    assert_eq!(parse_id("+5"), None);
    assert_eq!(parse_id("5.0"), None);
    assert_eq!(parse_id(" 5"), None);
    assert_eq!(parse_id("9223372036854775808"), None);
    assert_eq!(parse_id("-9223372036854775809"), None);
    assert_eq!(parse_id("99999999999999999999999"), None);
}

#[test]
fn collection_routes() {
    assert_eq!(route(Method::Get, "/todos"), Action::List { active: None });
    assert_eq!(route(Method::Post, "/todos"), Action::Create);
    assert_eq!(route(Method::Put, "/todos"), Action::MethodNotAllowed);
    assert_eq!(route(Method::Delete, "/todos"), Action::MethodNotAllowed);
    assert_eq!(route(Method::Other, "/todos"), Action::MethodNotAllowed);
}

#[test]
fn item_routes() {
    assert_eq!(route(Method::Get, "/todos/5"), Action::List { active: Some(5) });
    assert_eq!(route(Method::Post, "/todos/5"), Action::Update { id: 5 });
    assert_eq!(route(Method::Put, "/todos/5"), Action::Update { id: 5 });
    assert_eq!(route(Method::Delete, "/todos/5"), Action::Delete { id: 5 });
    assert_eq!(route(Method::Other, "/todos/5"), Action::MethodNotAllowed);
    assert_eq!(route(Method::Get, "/todos/-3"), Action::List { active: Some(-3) });
}

#[test]
fn flag_routes() {
    assert_eq!(route(Method::Get, "/todos/5/done"), Action::SetDone { id: 5, done: true });
    assert_eq!(route(Method::Get, "/todos/5/undo"), Action::SetDone { id: 5, done: false });
    assert_eq!(route(Method::Get, "/todos/5/delete"), Action::Delete { id: 5 });
    assert_eq!(route(Method::Post, "/todos/5/done"), Action::MethodNotAllowed);
    assert_eq!(route(Method::Post, "/todos/5/delete"), Action::MethodNotAllowed);
}

#[test]
fn unmatched_paths_redirect() {
    assert_eq!(route(Method::Get, "/"), Action::Redirect);
    assert_eq!(route(Method::Get, ""), Action::Redirect);
    assert_eq!(route(Method::Get, "/todos/"), Action::Redirect);
    assert_eq!(route(Method::Get, "/todoss"), Action::Redirect);
    assert_eq!(route(Method::Get, "/todos/abc"), Action::Redirect);
    assert_eq!(route(Method::Get, "/todos/5/other"), Action::Redirect);
    assert_eq!(route(Method::Get, "/todos/abc/done"), Action::Redirect);
    assert_eq!(route(Method::Get, "/todos/5/done/extra"), Action::Redirect);
    assert_eq!(route(Method::Get, "/assets/style.css"), Action::Redirect);
}
