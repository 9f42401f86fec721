//! Routing of the request/response interface behind a gateway: which
//! operation a method and a path ask for, and the status of the answer.

use crate::text::{same_text, skip_chars, starts_with};
use vstd::prelude::*;
use vstd::string::{StrSliceExecFns, StringExecFns};

verus! {

/// The place of the first `/` of a path at or after `from`, or the length
/// of the path where there is none.
pub open spec fn next_slash(path: Seq<char>, from: int) -> int
    decreases path.len() - from,
{
    if from < 0 || from >= path.len() {
        path.len() as int
    } else if path[from] == '/' {
        from
    } else {
        next_slash(path, from + 1)
    }
}

/// A path without the name of the deployment stage that the gateway puts
/// before it: `/beta/chat/messages` becomes `/chat/messages`. A path of one
/// segment, and one that does not begin with `/`, stays as it is.
pub open spec fn without_stage(path: Seq<char>) -> Seq<char> {
    if path.len() > 0 && path[0] == '/' && next_slash(path, 1) < path.len() {
        path.skip(next_slash(path, 1))
    } else {
        path
    }
}

/// The path under which the messages of a room are read.
pub open spec fn messages_prefix() -> Seq<char> {
    "/chat/messages/"@
}

/// A path without the prefix of the messages, however often it is repeated
/// at the start of the path.
pub open spec fn without_messages_prefix(path: Seq<char>) -> Seq<char>
    decreases path.len(),
{
    if messages_prefix().len() > 0 && messages_prefix().is_prefix_of(path) {
        without_messages_prefix(path.skip(messages_prefix().len() as int))
    } else {
        path
    }
}

/// The operation that a request asks for.
#[derive(Debug)]
pub enum Route {
    /// `GET /health`
    Health,
    /// `POST /chat/messages`
    PostMessage,
    /// `GET /chat/messages/` and the room
    GetMessages { room_id: String },
    /// Anything else.
    NotFound,
}

/// A route as contracts speak of it.
pub enum RouteView {
    Health,
    PostMessage,
    GetMessages { room_id: Seq<char> },
    NotFound,
}

impl View for Route {
    type V = RouteView;

    open spec fn view(&self) -> RouteView {
        match self {
            Route::Health => RouteView::Health,
            Route::PostMessage => RouteView::PostMessage,
            Route::GetMessages { room_id } => RouteView::GetMessages { room_id: room_id@ },
            Route::NotFound => RouteView::NotFound,
        }
    }
}

/// The operation that a method and a path, the stage already taken off,
/// ask for.
pub open spec fn route_of_clean(method: Seq<char>, path: Seq<char>) -> RouteView {
    if method == "GET"@ && path == "/health"@ {
        RouteView::Health
    } else if method == "POST"@ && path == "/chat/messages"@ {
        RouteView::PostMessage
    } else if method == "GET"@ && messages_prefix().is_prefix_of(path) {
        RouteView::GetMessages { room_id: without_messages_prefix(path) }
    } else {
        RouteView::NotFound
    }
}

/// The operation that a method and a path ask for.
pub open spec fn route_of(method: Seq<char>, path: Seq<char>) -> RouteView {
    route_of_clean(method, without_stage(path))
}

/// Takes the name of the stage off a path.
pub fn strip_stage(path: &str) -> (clean: String)
    ensures
        clean@ == without_stage(path@),
{
    let length = path.unicode_len();
    if length == 0 || path.get_char(0) != '/' {
        return String::from_str(path);
    }
    let mut i: usize = 1;
    while i < length
        invariant
            1 <= i <= length,
            length == path@.len(),
            path@[0] == '/',
            next_slash(path@, 1) == next_slash(path@, i as int),
        decreases length - i,
    {
        if path.get_char(i) == '/' {
            proof {
                assert(next_slash(path@, i as int) == i);
            }
            return String::from_str(skip_chars(path, i));
        }
        i = i + 1;
    }
    String::from_str(path)
}

/// Takes the prefix of the messages off a path, as often as it is there.
fn strip_messages_prefix(path: &str) -> (rest: String)
    ensures
        rest@ == without_messages_prefix(path@),
{
    let prefix_length = "/chat/messages/".unicode_len();
    proof {
        reveal_strlit("/chat/messages/");
    }
    let mut rest: &str = path;
    while starts_with(rest, "/chat/messages/")
        invariant
            prefix_length == messages_prefix().len(),
            prefix_length == 15,
            without_messages_prefix(rest@) == without_messages_prefix(path@),
        decreases rest@.len(),
    {
        rest = skip_chars(rest, prefix_length);
    }
    String::from_str(rest)
}

/// Finds the operation that a request asks for.
pub fn route(method: &str, path: &str) -> (found: Route)
    ensures
        found@ == route_of(method@, path@),
{
    let clean = strip_stage(path);
    if same_text(method, "GET") && same_text(clean.as_str(), "/health") {
        Route::Health
    } else if same_text(method, "POST") && same_text(clean.as_str(), "/chat/messages") {
        Route::PostMessage
    } else if same_text(method, "GET") && starts_with(clean.as_str(), "/chat/messages/") {
        Route::GetMessages { room_id: strip_messages_prefix(clean.as_str()) }
    } else {
        Route::NotFound
    }
}

/// The body of an answer.
#[derive(Debug)]
pub enum ResponseBody {
    Empty,
    Text(String),
}

/// An answer of the interface.
#[derive(Debug)]
pub struct RestResponse {
    pub status: u16,
    /// Whether the body is JSON and is labelled so.
    pub json: bool,
    pub body: ResponseBody,
}

/// An answer as contracts speak of it.
pub struct RestResponseView {
    pub status: int,
    pub json: bool,
    pub body: Option<Seq<char>>,
}

impl View for RestResponse {
    type V = RestResponseView;

    open spec fn view(&self) -> RestResponseView {
        RestResponseView {
            status: self.status as int,
            json: self.json,
            body: match self.body {
                ResponseBody::Empty => None,
                ResponseBody::Text(text) => Some(text@),
            },
        }
    }
}

/// The status of the answer to an operation that succeeded: 201 where
/// something was created, 200 otherwise.
pub open spec fn success_status(route: RouteView) -> int {
    match route {
        RouteView::PostMessage => 201,
        _ => 200,
    }
}

/// The answer to a request, given the JSON that its operation produced or
/// that the operation failed: the JSON with the status of success; a plain
/// server error for every failure; and an empty 404 where the request asks
/// for no operation, whatever is given as the outcome.
pub open spec fn response_for(route: RouteView, outcome: Option<Seq<char>>) -> RestResponseView {
    match route {
        RouteView::NotFound => RestResponseView { status: 404, json: false, body: None },
        _ => match outcome {
            Some(json) => RestResponseView {
                status: success_status(route),
                json: true,
                body: Some(json),
            },
            None => RestResponseView {
                status: 500,
                json: false,
                body: Some("Internal server error"@),
            },
        },
    }
}

/// Answers a request.
pub fn respond(route: &Route, outcome: Option<String>) -> (response: RestResponse)
    ensures
        response@ == response_for(route@, crate::text::option_text(outcome)),
{
    match route {
        Route::NotFound => RestResponse { status: 404, json: false, body: ResponseBody::Empty },
        _ => match outcome {
            Some(json) => {
                let status: u16 = match route {
                    Route::PostMessage => 201,
                    _ => 200,
                };
                RestResponse { status, json: true, body: ResponseBody::Text(json) }
            },
            None => RestResponse {
                status: 500,
                json: false,
                body: ResponseBody::Text(String::from_str("Internal server error")),
            },
        },
    }
}

} // verus!
