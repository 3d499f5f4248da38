//! What each operation decides: the store statement a request calls for, or the
//! reply it gets at once; and the reply once the store has answered.
//!
//! The store itself is reached by the caller: it runs the statement of a
//! `Plan::Run` on a fresh connection and hands the `Outcome` back to `finish`.
use vstd::prelude::*;
use vstd::string::*;
use crate::record::{Videogame, json_of, json_list, encode_videogame, encode_videogames};
use crate::request::{id_value, id_token, get_id, parse_id};
use crate::router::{Operation, route, route_of};

verus! {

/// The three statuses a client can see.
#[derive(PartialEq, Eq, Structural, Clone, Copy, Debug)]
pub enum Status {
    Success,
    NotFound,
    InternalError,
}

/// A status with its body text.
#[derive(Clone, Debug)]
pub struct Response {
    pub status: Status,
    pub body: String,
}

/// A statement for the store, with its parameters.
#[derive(Clone, Debug)]
pub enum Statement {
    /// Insert every field of the record but its id; the store assigns the id.
    Insert(Videogame),
    SelectById(i32),
    SelectAll,
    /// Overwrite every field but the id of the row with this id.
    UpdateById(i32, Videogame),
    DeleteById(i32),
}

/// What the store answered to a statement.
#[derive(Clone, Debug)]
pub enum Outcome {
    /// The statement was rejected or the store could not be reached.
    Failed,
    /// A statement that changes rows ran; the number of rows it touched.
    Affected(u64),
    /// A query ran; the rows it returned, in the store's order.
    Rows(Vec<Videogame>),
}

/// The next step for a request: answer at once, or run a statement first.
#[derive(Clone, Debug)]
pub enum Plan {
    Reply(Response),
    Run(Statement),
}

pub open spec fn answers(r: Response, status: Status, body: Seq<char>) -> bool {
    r.status == status && r.body@ == body
}

pub open spec fn is_reply(p: Plan, status: Status, body: Seq<char>) -> bool {
    p is Reply && answers(p->Reply_0, status, body)
}

/// Creating needs a record decoded from the body.
pub open spec fn post_planned(record: Option<Videogame>, p: Plan) -> bool {
    match record {
        Some(v) => p == Plan::Run(Statement::Insert(v)),
        None => is_reply(p, Status::InternalError, "Error adding videogame"@),
    }
}

/// Reading one record needs an id token that reads as an `i32`.
pub open spec fn get_planned(request: Seq<char>, p: Plan) -> bool {
    match id_value(id_token(request)) {
        Some(id) => p == Plan::Run(Statement::SelectById(id)),
        None => is_reply(p, Status::InternalError, "Error parsing id"@),
    }
}

/// Updating needs both an id and a decoded record.
pub open spec fn put_planned(request: Seq<char>, record: Option<Videogame>, p: Plan) -> bool {
    match (id_value(id_token(request)), record) {
        (Some(id), Some(v)) => p == Plan::Run(Statement::UpdateById(id, v)),
        _ => is_reply(p, Status::InternalError, "Error updating videogame"@),
    }
}

/// Deleting needs an id.
pub open spec fn delete_planned(request: Seq<char>, p: Plan) -> bool {
    match id_value(id_token(request)) {
        Some(id) => p == Plan::Run(Statement::DeleteById(id)),
        None => is_reply(p, Status::InternalError, "Error deleting videogame"@),
    }
}

/// The plan for a request, by the operation its text routes to.
pub open spec fn planned(request: Seq<char>, record: Option<Videogame>, p: Plan) -> bool {
    match route_of(request) {
        Operation::Create => post_planned(record, p),
        Operation::ReadAll => p == Plan::Run(Statement::SelectAll),
        Operation::ReadOne => get_planned(request, p),
        Operation::Update => put_planned(request, record, p),
        Operation::Delete => delete_planned(request, p),
        Operation::Unknown => is_reply(p, Status::NotFound, "Not Found"@),
    }
}

/// The body of the server error for a statement that could not be carried out.
pub open spec fn failure_body(st: Statement) -> Seq<char> {
    match st {
        Statement::Insert(_) => "Error adding videogame"@,
        Statement::SelectById(_) => "Error parsing id"@,
        Statement::SelectAll => "Error getting videogames"@,
        Statement::UpdateById(_, _) => "Error updating videogame"@,
        Statement::DeleteById(_) => "Error deleting videogame"@,
    }
}

/// The reply once the store has answered `st` with `o`. An outcome of the wrong kind
/// for the statement counts as a failure. An update succeeds whatever number of rows
/// it touched; a delete that touched none answers not found.
pub open spec fn finished(st: Statement, o: Outcome, r: Response) -> bool {
    match st {
        Statement::Insert(_) => match o {
            Outcome::Affected(_) => answers(r, Status::Success, "Videogame added"@),
            _ => answers(r, Status::InternalError, failure_body(st)),
        },
        Statement::SelectById(_) => match o {
            Outcome::Rows(rows) => if rows@.len() > 0 {
                answers(r, Status::Success, json_of(rows@[0]))
            } else {
                answers(r, Status::NotFound, "Videogame not found"@)
            },
            _ => answers(r, Status::NotFound, "Videogame not found"@),
        },
        Statement::SelectAll => match o {
            Outcome::Rows(rows) => answers(r, Status::Success, json_list(rows@)),
            _ => answers(r, Status::InternalError, failure_body(st)),
        },
        Statement::UpdateById(_, _) => match o {
            Outcome::Affected(_) => answers(r, Status::Success, "Videogame updated"@),
            _ => answers(r, Status::InternalError, failure_body(st)),
        },
        Statement::DeleteById(_) => match o {
            Outcome::Affected(n) => if n == 0 {
                answers(r, Status::NotFound, "Video Game not found"@)
            } else {
                answers(r, Status::Success, "Videogame deleted"@)
            },
            _ => answers(r, Status::InternalError, failure_body(st)),
        },
    }
}

/// The status line and headers that precede the body.
pub open spec fn status_text(s: Status) -> Seq<char> {
    match s {
        Status::Success => "HTTP/1.1 200 OK\r\nContent-Type: application/json\r\n"@,
        Status::NotFound => "HTTP/1.1 404 NOT FOUND\r\n\r\n"@,
        Status::InternalError => "HTTP/1.1 500 INTERNAL SERVER ERROR\r\n\r\n"@,
    }
}

fn reply(status: Status, text: &str) -> (r: Response)
    ensures
        answers(r, status, text@),
{
    Response { status, body: String::from_str(text) }
}

fn reply_plan(status: Status, text: &str) -> (r: Plan)
    ensures
        is_reply(r, status, text@),
{
    Plan::Reply(reply(status, text))
}

/// Create: insert the decoded record, or a server error when there is none.
pub fn handle_post_request(record: Option<Videogame>) -> (r: Plan)
    ensures
        post_planned(record, r),
{
    match record {
        Some(v) => Plan::Run(Statement::Insert(v)),
        None => reply_plan(Status::InternalError, "Error adding videogame"),
    }
}

/// Read one: select by the request's id, or a server error when it has none.
pub fn handle_get_request(request: &str) -> (r: Plan)
    ensures
        get_planned(request@, r),
{
    match parse_id(get_id(request)) {
        Some(id) => Plan::Run(Statement::SelectById(id)),
        None => reply_plan(Status::InternalError, "Error parsing id"),
    }
}

/// Read all: select every row; the request text plays no part.
pub fn handle_get_all_request(request: &str) -> (r: Plan)
    ensures
        r == Plan::Run(Statement::SelectAll),
{
    Plan::Run(Statement::SelectAll)
}

/// Update: overwrite the row of the request's id with the decoded record.
pub fn handle_put_request(request: &str, record: Option<Videogame>) -> (r: Plan)
    ensures
        put_planned(request@, record, r),
{
    match (parse_id(get_id(request)), record) {
        (Some(id), Some(v)) => Plan::Run(Statement::UpdateById(id, v)),
        _ => reply_plan(Status::InternalError, "Error updating videogame"),
    }
}

/// Delete: remove the row of the request's id.
pub fn handle_delete_request(request: &str) -> (r: Plan)
    ensures
        delete_planned(request@, r),
{
    match parse_id(get_id(request)) {
        Some(id) => Plan::Run(Statement::DeleteById(id)),
        None => reply_plan(Status::InternalError, "Error deleting videogame"),
    }
}

/// Routes a request and plans it. `record` is the body decoded as a record, where it
/// decoded; only create and update read it.
pub fn plan_request(request: &str, record: Option<Videogame>) -> (r: Plan)
    ensures
        planned(request@, record, r),
{
    match route(request) {
        Operation::Create => handle_post_request(record),
        Operation::ReadAll => handle_get_all_request(request),
        Operation::ReadOne => handle_get_request(request),
        Operation::Update => handle_put_request(request, record),
        Operation::Delete => handle_delete_request(request),
        Operation::Unknown => reply_plan(Status::NotFound, "Not Found"),
    }
}

/// The reply when no connection to the store could be opened for `st`.
pub fn connect_failed(st: &Statement) -> (r: Response)
    ensures
        answers(r, Status::InternalError, failure_body(*st)),
{
    match st {
        Statement::Insert(_) => reply(Status::InternalError, "Error adding videogame"),
        Statement::SelectById(_) => reply(Status::InternalError, "Error parsing id"),
        Statement::SelectAll => reply(Status::InternalError, "Error getting videogames"),
        Statement::UpdateById(_, _) => reply(Status::InternalError, "Error updating videogame"),
        Statement::DeleteById(_) => reply(Status::InternalError, "Error deleting videogame"),
    }
}

/// The reply once the store has answered (see `finished`).
pub fn finish(st: &Statement, o: &Outcome) -> (r: Response)
    ensures
        finished(*st, *o, r),
{
    match st {
        Statement::Insert(_) => match o {
            Outcome::Affected(_) => reply(Status::Success, "Videogame added"),
            _ => connect_failed(st),
        },
        Statement::SelectById(_) => match o {
            Outcome::Rows(rows) => if rows.len() > 0 {
                Response { status: Status::Success, body: encode_videogame(&rows[0]) }
            } else {
                reply(Status::NotFound, "Videogame not found")
            },
            _ => reply(Status::NotFound, "Videogame not found"),
        },
        Statement::SelectAll => match o {
            Outcome::Rows(rows) => Response { status: Status::Success, body: encode_videogames(rows) },
            _ => connect_failed(st),
        },
        Statement::UpdateById(_, _) => match o {
            Outcome::Affected(_) => reply(Status::Success, "Videogame updated"),
            _ => connect_failed(st),
        },
        Statement::DeleteById(_) => match o {
            Outcome::Affected(n) => if *n == 0 {
                reply(Status::NotFound, "Video Game not found")
            } else {
                reply(Status::Success, "Videogame deleted")
            },
            _ => connect_failed(st),
        },
    }
}

/// The text sent back to the client: status line and headers, then the body.
pub fn encode_response(r: &Response) -> (s: String)
    ensures
        s@ == status_text(r.status) + r.body@,
{
    let mut out = match r.status {
        Status::Success => String::from_str("HTTP/1.1 200 OK\r\nContent-Type: application/json\r\n"),
        Status::NotFound => String::from_str("HTTP/1.1 404 NOT FOUND\r\n\r\n"),
        Status::InternalError => String::from_str("HTTP/1.1 500 INTERNAL SERVER ERROR\r\n\r\n"),
    };
    out.append(r.body.as_str());
    out
}

} // verus!
