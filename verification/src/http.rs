//! Request handling: from a method, a path and a body to the store's next
//! state and the response, with the cross-origin headers on every response.

use vstd::prelude::*;
use vstd::string::StringExecFns;
use crate::json::{
    fields_of, json_string_map, month_json, month_text, named_fields, read_task_fields, task_json,
    task_text, FieldsView, TaskFields,
};
use crate::model::StoreView;
use crate::store::{ApiError, Store};
use crate::text::{
    id_of, last_segment, last_segment_of, parse_id, same_header_name, same_name, same_text,
    starts_with,
};

verus! {

/// The request methods that the routing tells apart.
#[derive(Clone, Copy, Debug, PartialEq, Eq, Structural)]
pub enum Method {
    Get,
    Post,
    Put,
    Delete,
    Options,
    Other,
}

/// What a request asks for.
#[derive(Clone, Copy, Debug, PartialEq, Eq, Structural)]
pub enum Route {
    /// A cross-origin preflight: any path with the method OPTIONS.
    Preflight,
    /// Listing every day with its tasks.
    Month,
    /// Creating a task.
    Create,
    /// Replacing the text of the task that the path names.
    Update,
    /// Removing the task that the path names.
    Delete,
    /// Nothing that is served.
    Unknown,
}

/// One response header.
#[derive(Debug)]
pub struct Header {
    pub name: String,
    pub value: String,
}

/// A response: status code, headers in order, and body.
#[derive(Debug)]
pub struct Response {
    pub status: u16,
    pub headers: Vec<Header>,
    pub body: String,
}

/// A response as contracts see it.
pub struct ResponseView {
    pub status: nat,
    pub headers: Seq<(Seq<char>, Seq<char>)>,
    pub body: Seq<char>,
}

impl View for Header {
    type V = (Seq<char>, Seq<char>);

    open spec fn view(&self) -> (Seq<char>, Seq<char>) {
        (self.name@, self.value@)
    }
}

impl View for Response {
    type V = ResponseView;

    open spec fn view(&self) -> ResponseView {
        ResponseView {
            status: self.status as nat,
            headers: header_views(self.headers@),
            body: self.body@,
        }
    }
}

/// The views of a sequence of headers.
pub open spec fn header_views(headers: Seq<Header>) -> Seq<(Seq<char>, Seq<char>)> {
    Seq::new(headers.len(), |i: int| headers[i]@)
}

/// The name is that of one of the three cross-origin headers, in any case.
pub open spec fn is_cors_name(name: Seq<char>) -> bool {
    same_name(name, "Access-Control-Allow-Origin"@) || same_name(
        name,
        "Access-Control-Allow-Methods"@,
    ) || same_name(name, "Access-Control-Allow-Headers"@)
}

/// The test for a header that setting the cross-origin headers leaves alone:
/// its name is none of theirs.
pub open spec fn not_cors() -> spec_fn((Seq<char>, Seq<char>)) -> bool {
    |h: (Seq<char>, Seq<char>)| !is_cors_name(h.0)
}

/// The three headers that let any origin call the API.
pub open spec fn cors_headers() -> Seq<(Seq<char>, Seq<char>)> {
    seq![
        ("Access-Control-Allow-Origin"@, "*"@),
        ("Access-Control-Allow-Methods"@, "GET, POST, PUT, DELETE, OPTIONS"@),
        ("Access-Control-Allow-Headers"@, "Content-Type"@),
    ]
}

/// A response without headers.
pub open spec fn plain(status: nat, body: Seq<char>) -> ResponseView {
    ResponseView { status, headers: Seq::empty(), body }
}

/// A response with the cross-origin headers set: whatever headers it had
/// under one of their names are gone, the others stay in their order, and
/// the three follow.
pub open spec fn with_cors(r: ResponseView) -> ResponseView {
    ResponseView {
        status: r.status,
        headers: r.headers.filter(not_cors()) + cors_headers(),
        body: r.body,
    }
}

/// The body of a 500 response for a failure with this description.
pub open spec fn server_error_text(description: Seq<char>) -> Seq<char> {
    "Server Error: "@ + description
}

/// The response to a request that failed in this way.
pub open spec fn error_view(e: ApiError) -> ResponseView {
    match e {
        ApiError::InvalidInput => plain(400, "Bad Request"@),
        ApiError::NotFound => plain(404, "Not Found"@),
        ApiError::OperationFailed => plain(200, "Failed"@),
        ApiError::InternalError => plain(500, server_error_text("internal error"@)),
    }
}

/// The route of a request. OPTIONS is a preflight on any path; the month and
/// the create route match their path exactly; update and delete match every
/// path under the task prefix.
pub open spec fn route_of(method: Method, path: Seq<char>) -> Route {
    if method == Method::Options {
        Route::Preflight
    } else if method == Method::Get && path == "/api/calendar/month"@ {
        Route::Month
    } else if method == Method::Post && path == "/api/calendar/task"@ {
        Route::Create
    } else if method == Method::Put && "/api/calendar/task/"@.is_prefix_of(path) {
        Route::Update
    } else if method == Method::Delete && "/api/calendar/task/"@.is_prefix_of(path) {
        Route::Delete
    } else {
        Route::Unknown
    }
}

/// Both fields are there, as a request to update needs them.
pub open spec fn complete(parsed: Option<FieldsView>) -> bool {
    parsed is Some && parsed->Some_0.date is Some && parsed->Some_0.text is Some
}

/// Both fields are there and neither is empty, as a request to create needs
/// them.
pub open spec fn creatable(parsed: Option<FieldsView>) -> bool {
    complete(parsed) && parsed->Some_0.date->Some_0.len() > 0 && parsed->Some_0.text->Some_0.len()
        > 0
}

/// The response to listing the month: the month as JSON.
pub open spec fn month_outcome(s: StoreView) -> ResponseView {
    plain(200, month_text(s.days))
}

/// The store and the response after a request to create. Missing or empty
/// fields give a 400 and a used-up counter a 500, both without a change;
/// otherwise the task is created and the answer is the task as JSON.
pub open spec fn post_outcome(s: StoreView, parsed: Option<FieldsView>) -> (
    StoreView,
    ResponseView,
) {
    if !creatable(parsed) {
        (s, error_view(ApiError::InvalidInput))
    } else if s.next_id >= u32::MAX {
        (s, error_view(ApiError::InternalError))
    } else {
        let date = parsed->Some_0.date->Some_0;
        let text = parsed->Some_0.text->Some_0;
        (s.create(date, text), plain(200, task_text(s.next_task(text))))
    }
}

/// The store and the response after a request to update. No id or a missing
/// field gives a 400 without a change; otherwise the answer is 200, with
/// `OK` where the task stood under the date and `Failed` where it did not.
pub open spec fn put_outcome(s: StoreView, id: Option<u32>, parsed: Option<FieldsView>) -> (
    StoreView,
    ResponseView,
) {
    if id is None || !complete(parsed) {
        (s, error_view(ApiError::InvalidInput))
    } else {
        let date = parsed->Some_0.date->Some_0;
        let text = parsed->Some_0.text->Some_0;
        let n = id->Some_0 as nat;
        if s.has_task_under(n, date) {
            (s.update(n, date, text), plain(200, "OK"@))
        } else {
            (s, error_view(ApiError::OperationFailed))
        }
    }
}

/// The store and the response after a request to delete. No id gives a 400
/// without a change; otherwise the answer is `OK`, whether or not a task had
/// the id.
pub open spec fn delete_outcome(s: StoreView, id: Option<u32>) -> (StoreView, ResponseView) {
    match id {
        Some(id) => (s.delete(id as nat), plain(200, "OK"@)),
        None => (s, error_view(ApiError::InvalidInput)),
    }
}

/// The store and the response after any request: the outcome of its route,
/// with the cross-origin headers on the response.
pub open spec fn respond(s: StoreView, method: Method, path: Seq<char>, body: Seq<u8>) -> (
    StoreView,
    ResponseView,
) {
    let fields = named_fields(json_string_map(body), "date"@, "text"@);
    let id = id_of(last_segment_of(path));
    let (after, response) = match route_of(method, path) {
        Route::Preflight => (s, plain(204, Seq::empty())),
        Route::Month => (s, month_outcome(s)),
        Route::Create => post_outcome(s, fields),
        Route::Update => put_outcome(s, id, fields),
        Route::Delete => delete_outcome(s, id),
        Route::Unknown => (s, error_view(ApiError::NotFound)),
    };
    (after, with_cors(response))
}

/// A response with this status and body and no headers.
fn respond_plain(status: u16, body: &str) -> (r: Response)
    ensures
        r@ == plain(status as nat, body@),
{
    let r = Response { status, headers: Vec::new(), body: String::from_str(body) };
    assert(r@.headers =~= Seq::empty());
    r
}

/// The 404 response.
pub fn not_found() -> (r: Response)
    ensures
        r@ == plain(404, "Not Found"@),
{
    respond_plain(404, "Not Found")
}

/// The 500 response for a failure with this description.
pub fn server_error(description: &str) -> (r: Response)
    ensures
        r@ == plain(500, server_error_text(description@)),
{
    let mut body = String::from_str("Server Error: ");
    body.append(description);
    respond_plain(500, body.as_str())
}

/// The response to a request that failed in this way: 400 for invalid input,
/// 404 for an unknown route, 200 with `Failed` for a task that is not there,
/// and 500 for an internal error.
pub fn error_response(e: ApiError) -> (r: Response)
    ensures
        r@ == error_view(e),
{
    match e {
        ApiError::InvalidInput => respond_plain(400, "Bad Request"),
        ApiError::NotFound => not_found(),
        ApiError::OperationFailed => respond_plain(200, "Failed"),
        ApiError::InternalError => server_error("internal error"),
    }
}

/// Whether the name is that of one of the three cross-origin headers.
fn is_cors(name: &str) -> (r: bool)
    ensures
        r == is_cors_name(name@),
{
    same_header_name(name, "Access-Control-Allow-Origin") || same_header_name(
        name,
        "Access-Control-Allow-Methods",
    ) || same_header_name(name, "Access-Control-Allow-Headers")
}

/// Sets the three cross-origin headers on a response: headers that it has
/// under one of their names, in any case, are replaced; its other headers,
/// its status and its body stay.
pub fn add_cors_headers(response: Response) -> (r: Response)
    ensures
        r@ == with_cors(response@),
{
    let ghost before = response@.headers;
    let mut headers: Vec<Header> = Vec::new();
    let mut i: usize = 0;
    proof {
        reveal(Seq::filter);
        assert(before.take(0) =~= Seq::empty());
        assert(header_views(headers@) =~= before.take(0).filter(not_cors()));
    }
    while i < response.headers.len()
        invariant
            i <= response.headers.len(),
            before == header_views(response.headers@),
            header_views(headers@) == before.take(i as int).filter(not_cors()),
        decreases response.headers.len() - i,
    {
        let ghost kept = header_views(headers@);
        proof {
            reveal(Seq::filter);
            assert(before.take(i + 1).drop_last() =~= before.take(i as int));
            assert(before.take(i + 1).last() == response.headers[i as int]@);
        }
        if !is_cors(response.headers[i].name.as_str()) {
            headers.push(
                Header {
                    name: response.headers[i].name.clone(),
                    value: response.headers[i].value.clone(),
                },
            );
            assert(header_views(headers@) =~= kept.push(response.headers[i as int]@));
        }
        i += 1;
    }
    assert(before.take(i as int) =~= before);
    let ghost kept = header_views(headers@);
    headers.push(
        Header {
            name: String::from_str("Access-Control-Allow-Origin"),
            value: String::from_str("*"),
        },
    );
    headers.push(
        Header {
            name: String::from_str("Access-Control-Allow-Methods"),
            value: String::from_str("GET, POST, PUT, DELETE, OPTIONS"),
        },
    );
    headers.push(
        Header {
            name: String::from_str("Access-Control-Allow-Headers"),
            value: String::from_str("Content-Type"),
        },
    );
    assert(header_views(headers@) =~= kept + cors_headers());
    Response { status: response.status, headers, body: response.body }
}

/// Finds the route of a request.
pub fn route(method: Method, path: &str) -> (r: Route)
    ensures
        r == route_of(method, path@),
{
    match method {
        Method::Options => Route::Preflight,
        Method::Get => if same_text(path, "/api/calendar/month") {
            Route::Month
        } else {
            Route::Unknown
        },
        Method::Post => if same_text(path, "/api/calendar/task") {
            Route::Create
        } else {
            Route::Unknown
        },
        Method::Put => if starts_with(path, "/api/calendar/task/") {
            Route::Update
        } else {
            Route::Unknown
        },
        Method::Delete => if starts_with(path, "/api/calendar/task/") {
            Route::Delete
        } else {
            Route::Unknown
        },
        Method::Other => Route::Unknown,
    }
}

/// Answers a request for the month with every day and its tasks as JSON.
pub fn handle_get_month(store: &Store) -> (r: Response)
    ensures
        r@ == month_outcome(store@),
{
    let days = store.list_all();
    let json = month_json(&days);
    respond_plain(200, json.as_str())
}

/// Creates the task that the fields of a request body describe and answers
/// with it as JSON.
pub fn post_task(store: &mut Store, parsed: Option<TaskFields>) -> (r: Response)
    requires
        old(store).wf(),
    ensures
        final(store).wf(),
        (final(store)@, r@) == post_outcome(old(store)@, fields_of(parsed)),
{
    match parsed {
        Some(TaskFields { date: Some(date), text: Some(text) }) => {
            match store.create_task(date.as_str(), text.as_str()) {
                Ok(task) => {
                    let json = task_json(&task);
                    respond_plain(200, json.as_str())
                },
                Err(e) => error_response(e),
            }
        },
        _ => error_response(ApiError::InvalidInput),
    }
}

/// Updates the task with this id as the fields of a request body say and
/// answers `OK` or `Failed`.
pub fn put_task(store: &mut Store, id: Option<u32>, parsed: Option<TaskFields>) -> (r: Response)
    requires
        old(store).wf(),
    ensures
        final(store).wf(),
        (final(store)@, r@) == put_outcome(old(store)@, id, fields_of(parsed)),
{
    match (id, parsed) {
        (Some(id), Some(TaskFields { date: Some(date), text: Some(text) })) => {
            if store.update_task(id, date.as_str(), text.as_str()) {
                respond_plain(200, "OK")
            } else {
                error_response(ApiError::OperationFailed)
            }
        },
        _ => error_response(ApiError::InvalidInput),
    }
}

/// Deletes the task with this id and answers `OK`.
pub fn delete_task(store: &mut Store, id: Option<u32>) -> (r: Response)
    requires
        old(store).wf(),
    ensures
        final(store).wf(),
        (final(store)@, r@) == delete_outcome(old(store)@, id),
{
    match id {
        Some(id) => {
            store.delete_task(id);
            respond_plain(200, "OK")
        },
        None => error_response(ApiError::InvalidInput),
    }
}

/// Answers a request to create a task from its body.
pub fn handle_post_task(store: &mut Store, body: &[u8]) -> (r: Response)
    requires
        old(store).wf(),
    ensures
        final(store).wf(),
        (final(store)@, r@) == post_outcome(
            old(store)@,
            named_fields(json_string_map(body@), "date"@, "text"@),
        ),
{
    post_task(store, read_task_fields(body))
}

/// Answers a request to update the task that the last segment of the path
/// names, from its body.
pub fn handle_put_task(store: &mut Store, path: &str, body: &[u8]) -> (r: Response)
    requires
        old(store).wf(),
    ensures
        final(store).wf(),
        (final(store)@, r@) == put_outcome(
            old(store)@,
            id_of(last_segment_of(path@)),
            named_fields(json_string_map(body@), "date"@, "text"@),
        ),
{
    let id = parse_id(last_segment(path));
    put_task(store, id, read_task_fields(body))
}

/// Answers a request to delete the task that the last segment of the path
/// names.
pub fn handle_delete_task(store: &mut Store, path: &str) -> (r: Response)
    requires
        old(store).wf(),
    ensures
        final(store).wf(),
        (final(store)@, r@) == delete_outcome(old(store)@, id_of(last_segment_of(path@))),
{
    delete_task(store, parse_id(last_segment(path)))
}

/// Answers any request: routes it, applies the operation to the store, and
/// puts the cross-origin headers on the response, whatever it is.
pub fn handle_request(store: &mut Store, method: Method, path: &str, body: &[u8]) -> (r: Response)
    requires
        old(store).wf(),
    ensures
        final(store).wf(),
        (final(store)@, r@) == respond(old(store)@, method, path@, body@),
        r@.headers == cors_headers(),
{
    proof {
        reveal_strlit("");
        assert(""@ =~= Seq::<char>::empty());
    }
    let response = match route(method, path) {
        Route::Preflight => respond_plain(204, ""),
        Route::Month => handle_get_month(store),
        Route::Create => handle_post_task(store, body),
        Route::Update => handle_put_task(store, path, body),
        Route::Delete => handle_delete_task(store, path),
        Route::Unknown => not_found(),
    };
    assert(response@.headers =~= Seq::empty());
    let r = add_cors_headers(response);
    proof {
        reveal(Seq::filter);
        assert(r@.headers =~= cors_headers());
    }
    r
}

} // verus!
