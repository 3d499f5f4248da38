//! Properties that hold across the operations.
use vstd::prelude::*;
use crate::handlers::{
    Outcome, Plan, Response, Statement, Status, delete_planned, finished, get_planned, planned,
    post_planned, put_planned,
};
use crate::record::{Videogame, json_items, json_list, json_of};
use crate::request::{id_token, id_value};
use crate::router::{Operation, route_of};

verus! {

pub open spec fn occurs_in(part: Seq<char>, whole: Seq<char>) -> bool {
    exists|a: int|
        0 <= a && a + part.len() <= whole.len() && #[trigger] whole.subrange(a, a + part.len())
            == part
}

/// A request whose id token does not read as an `i32` gets a server error from every
/// operation that needs an id: never a success, never a not-found.
pub proof fn lemma_bad_id_is_server_error(request: Seq<char>, record: Option<Videogame>, p: Plan)
    requires
        id_value(id_token(request)) is None,
    ensures
        get_planned(request, p) ==> p is Reply && p->Reply_0.status == Status::InternalError,
        put_planned(request, record, p) ==> p is Reply && p->Reply_0.status
            == Status::InternalError,
        delete_planned(request, p) ==> p is Reply && p->Reply_0.status == Status::InternalError,
        planned(request, record, p) && (route_of(request) == Operation::Update || route_of(request)
            == Operation::Delete) ==> p is Reply && p->Reply_0.status == Status::InternalError,
{
}

/// A created record goes to the store whole: the insert carries every field submitted.
pub proof fn lemma_create_sends_record(v: Videogame, p: Plan)
    requires
        post_planned(Some(v), p),
    ensures
        p == Plan::Run(Statement::Insert(v)),
{
}

/// An update succeeds whatever number of rows it touched, none included.
pub proof fn lemma_update_succeeds_without_row(id: i32, v: Videogame, n: u64, r: Response)
    requires
        finished(Statement::UpdateById(id, v), Outcome::Affected(n), r),
    ensures
        r.status == Status::Success,
        r.body@ == "Videogame updated"@,
{
}

/// A delete that removed a row succeeds; one that removed none, as when the same id
/// is deleted a second time, answers not found.
pub proof fn lemma_delete_reports_missing_row(id: i32, n: u64, r: Response)
    requires
        finished(Statement::DeleteById(id), Outcome::Affected(n), r),
    ensures
        n == 0 ==> r.status == Status::NotFound && r.body@ == "Video Game not found"@,
        n > 0 ==> r.status == Status::Success && r.body@ == "Videogame deleted"@,
{
}

/// Listing an empty store succeeds with an empty JSON array.
pub proof fn lemma_empty_listing(rows: Vec<Videogame>, r: Response)
    requires
        rows@.len() == 0,
        finished(Statement::SelectAll, Outcome::Rows(rows), r),
    ensures
        r.status == Status::Success,
        r.body@ == "[]"@,
{
    reveal_strlit("[");
    reveal_strlit("]");
    reveal_strlit("[]");
    assert(r.body@ =~= "[]"@);
}

proof fn lemma_subrange_of_concat(x: Seq<char>, y: Seq<char>, a: int, b: int)
    requires
        0 <= a <= b <= x.len(),
    ensures
        (x + y).subrange(a, b) == x.subrange(a, b),
        (y + x).subrange(y.len() + a, y.len() + b) == x.subrange(a, b),
{
    assert((x + y).subrange(a, b) =~= x.subrange(a, b));
    assert((y + x).subrange(y.len() + a, y.len() + b) =~= x.subrange(a, b));
}

proof fn lemma_items_hold_each(rows: Seq<Videogame>, k: int)
    requires
        0 <= k < rows.len(),
    ensures
        occurs_in(json_of(rows[k]), json_items(rows)),
    decreases rows.len(),
{
    let part = json_of(rows[k]);
    if rows.len() == 1 {
        let a: int = 0;
        assert(json_items(rows).subrange(a, a + part.len()) =~= part);
    } else {
        let front = json_items(rows.drop_last()) + ","@;
        assert(json_items(rows) == front + json_of(rows.last()));
        if k == rows.len() - 1 {
            lemma_subrange_of_concat(part, front, 0, part.len() as int);
            assert(part.subrange(0, part.len() as int) =~= part);
            let a: int = front.len() as int;
            assert(json_items(rows).subrange(a, a + part.len()) == part);
        } else {
            assert(rows.drop_last()[k] == rows[k]);
            lemma_items_hold_each(rows.drop_last(), k);
            let a = choose|a: int|
                0 <= a && a + part.len() <= json_items(rows.drop_last()).len()
                    && #[trigger] json_items(rows.drop_last()).subrange(a, a + part.len()) == part;
            lemma_subrange_of_concat(json_items(rows.drop_last()), ","@, a, a + part.len());
            lemma_subrange_of_concat(front, json_of(rows.last()), a, a + part.len());
            assert(json_items(rows).subrange(a, a + part.len()) == part);
        }
    }
}

/// The listing of the store shows the JSON object of every row it was given.
pub proof fn lemma_listing_shows_every_row(rows: Seq<Videogame>, k: int)
    requires
        0 <= k < rows.len(),
    ensures
        occurs_in(json_of(rows[k]), json_list(rows)),
{
    let part = json_of(rows[k]);
    lemma_items_hold_each(rows, k);
    let a = choose|a: int|
        0 <= a && a + part.len() <= json_items(rows).len() && #[trigger] json_items(rows).subrange(
            a,
            a + part.len(),
        ) == part;
    lemma_subrange_of_concat(json_items(rows), "]"@, a, a + part.len());
    lemma_subrange_of_concat(json_items(rows), "["@, a, a + part.len());
    let open = "["@;
    assert(json_list(rows) == open + json_items(rows) + "]"@);
    lemma_subrange_of_concat(open + json_items(rows), "]"@, open.len() + a, open.len() + a + part.len());
    assert(json_list(rows).subrange(open.len() + a, open.len() + a + part.len()) == part);
}

} // verus!
