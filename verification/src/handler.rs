//! The request handlers: apply a routed action to the store and build the
//! response. A listing renders the full page, or only the list fragment
//! when the request carries the partial-update signal; a mutation redirects
//! to the collection, or re-renders the fragment under that signal, so that
//! a refresh never resubmits.

use vstd::prelude::*;
use vstd::string::*;

use crate::render::{render_list, render_page, spec_render_list, spec_render_page};
use crate::route::{route, spec_route, Action, Method};
use crate::store::{spec_delete, spec_set_done, spec_update, ItemModel, TodoStore};
use crate::view::{spec_to_views, to_view_models};

verus! {

/// What the application answers: a rendered body, a redirect, or one of
/// the two refusals.
pub enum Response {
    /// A rendered full page or list fragment.
    Html(String),
    /// A redirect to the given location.
    Redirect(String),
    /// The path matched a route, the verb did not.
    MethodNotAllowed,
    /// A mutating request without the required form field.
    BadRequest,
    /// An internal failure, collapsed to one opaque status and message.
    Failure { status: u16, message: String },
}

/// The body of a listing: the full page, or only the list fragment when
/// the request carries the partial-update signal `hx`.
pub open spec fn spec_listing(items: Seq<ItemModel>, active: Option<i64>, hx: bool) -> Seq<char> {
    if hx {
        spec_render_list(spec_to_views(items, active))
    } else {
        spec_render_page(spec_to_views(items, active))
    }
}

/// Lists all items: fetches the rows, marks the active one for editing,
/// and renders the page or the fragment.
pub fn todos(store: &TodoStore, active: Option<i64>, hx: bool) -> (r: String)
    ensures
        r@ == spec_listing(store@, active, hx),
{
    let items = store.list_todo();
    let views = to_view_models(&items, active);
    if hx {
        render_list(&views)
    } else {
        render_page(&views)
    }
}

/// The normalized answer to a successful mutation over the rows `items`:
/// a redirect to the collection, or the re-rendered fragment when the
/// request carries the partial-update signal.
pub open spec fn spec_mutated(r: Response, items: Seq<ItemModel>, hx: bool) -> bool {
    if hx {
        r matches Response::Html(body) && body@ == spec_render_list(spec_to_views(items, None))
    } else {
        r matches Response::Redirect(loc) && loc@ == "/todos"@
    }
}

fn mutated(store: &TodoStore, hx: bool) -> (r: Response)
    ensures
        spec_mutated(r, store@, hx),
{
    if hx {
        Response::Html(todos(store, None, true))
    } else {
        Response::Redirect("/todos".to_owned())
    }
}

/// Handles one request: routes it, applies the action to the store, and
/// builds the response. `hx` is the partial-update signal; `description`
/// is the submitted form field, if any.
pub fn handle(
    store: &mut TodoStore,
    method: Method,
    path: &str,
    hx: bool,
    description: Option<String>,
) -> (r: Response)
    requires
        old(store).wf(),
    ensures
        final(store).wf(),
        ({
            let action = spec_route(method, path@);
            match action {
                Action::List { active } => {
                    &&& final(store)@ == old(store)@
                    &&& final(store).spec_next_id() == old(store).spec_next_id()
                    &&& r matches Response::Html(body) && body@ == spec_listing(
                        old(store)@,
                        active,
                        hx,
                    )
                },
                Action::Create => match description {
                    Some(d) => {
                        if old(store).spec_next_id() < i64::MAX {
                            &&& final(store)@ == old(store)@.push(
                                ItemModel {
                                    id: old(store).spec_next_id(),
                                    description: d@,
                                    done: false,
                                },
                            )
                            &&& final(store).spec_next_id() == old(store).spec_next_id() + 1
                            &&& spec_mutated(r, final(store)@, hx)
                        } else {
                            &&& final(store)@ == old(store)@
                            &&& r matches Response::Failure { status, message } && status == 500
                                && message@ == "oops something went wrong"@
                        }
                    },
                    None => {
                        &&& final(store)@ == old(store)@
                        &&& final(store).spec_next_id() == old(store).spec_next_id()
                        &&& r is BadRequest
                    },
                },
                Action::Update { id } => match description {
                    Some(d) => {
                        &&& final(store)@ == spec_update(old(store)@, id as int, d@)
                        &&& final(store).spec_next_id() == old(store).spec_next_id()
                        &&& spec_mutated(r, final(store)@, hx)
                    },
                    None => {
                        &&& final(store)@ == old(store)@
                        &&& final(store).spec_next_id() == old(store).spec_next_id()
                        &&& r is BadRequest
                    },
                },
                Action::Delete { id } => {
                    &&& final(store)@ == spec_delete(old(store)@, id as int)
                    &&& final(store).spec_next_id() == old(store).spec_next_id()
                    &&& spec_mutated(r, final(store)@, hx)
                },
                Action::SetDone { id, done } => {
                    &&& final(store)@ == spec_set_done(old(store)@, id as int, done)
                    &&& final(store).spec_next_id() == old(store).spec_next_id()
                    &&& spec_mutated(r, final(store)@, hx)
                },
                Action::MethodNotAllowed => {
                    &&& final(store)@ == old(store)@
                    &&& final(store).spec_next_id() == old(store).spec_next_id()
                    &&& r is MethodNotAllowed
                },
                Action::Redirect => {
                    &&& final(store)@ == old(store)@
                    &&& final(store).spec_next_id() == old(store).spec_next_id()
                    &&& r matches Response::Redirect(loc) && loc@ == "/todos"@
                },
            }
        }),
{
    let action = route(method, path);
    match action {
        Action::List { active } => Response::Html(todos(store, active, hx)),
        Action::Create => match description {
            Some(d) => match store.create_todo(d) {
                Ok(()) => mutated(store, hx),
                Err(e) => {
                    let (status, message) = e.into_response();
                    Response::Failure { status, message }
                },
            },
            None => Response::BadRequest,
        },
        Action::Update { id } => match description {
            Some(d) => {
                store.update_todo(id, d);
                mutated(store, hx)
            },
            None => Response::BadRequest,
        },
        Action::Delete { id } => {
            store.delete_todo(id);
            mutated(store, hx)
        },
        Action::SetDone { id, done } => {
            store.done_todo(id, done);
            mutated(store, hx)
        },
        Action::MethodNotAllowed => Response::MethodNotAllowed,
        Action::Redirect => Response::Redirect("/todos".to_owned()),
    }
}

} // verus!
