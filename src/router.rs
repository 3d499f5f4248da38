//! First-match routing of a request on the literal prefix of its text.
use vstd::prelude::*;
use vstd::string::*;

verus! {

/// The operation that a request is dispatched to.
#[derive(PartialEq, Eq, Structural, Clone, Copy, Debug)]
pub enum Operation {
    Create,
    ReadAll,
    ReadOne,
    Update,
    Delete,
    Unknown,
}

pub open spec fn starts_with(s: Seq<char>, p: Seq<char>) -> bool {
    p.len() <= s.len() && s.subrange(0, p.len() as int) == p
}

/// Whether the text `s` begins with the text `p`.
pub fn text_starts_with(s: &str, p: &str) -> (r: bool)
    ensures
        r == starts_with(s@, p@),
{
    let n = s.unicode_len();
    let m = p.unicode_len();
    if m > n {
        return false;
    }
    let mut i: usize = 0;
    while i < m
        invariant
            m <= n,
            n == s@.len(),
            m == p@.len(),
            i <= m,
            forall|j: int| 0 <= j < i ==> s@[j] == p@[j],
        decreases m - i,
    {
        if s.get_char(i) != p.get_char(i) {
            assert(s@.subrange(0, m as int)[i as int] != p@[i as int]);
            return false;
        }
        i = i + 1;
    }
    assert(s@.subrange(0, m as int) =~= p@);
    true
}

/// The routing rules, tried in order; the first whose prefix the request text has wins.
/// Every `GET /videogames...` request meets the second rule, so the third never fires.
pub open spec fn route_of(s: Seq<char>) -> Operation {
    if starts_with(s, "POST /videogames"@) {
        Operation::Create
    } else if starts_with(s, "GET /videogames"@) {
        Operation::ReadAll
    } else if starts_with(s, "GET /videogames/"@) {
        Operation::ReadOne
    } else if starts_with(s, "PUT /videogames"@) {
        Operation::Update
    } else if starts_with(s, "DELETE /videogames"@) {
        Operation::Delete
    } else {
        Operation::Unknown
    }
}

/// Picks the operation for a request (see `route_of`).
pub fn route(request: &str) -> (r: Operation)
    ensures
        r == route_of(request@),
{
    if text_starts_with(request, "POST /videogames") {
        Operation::Create
    } else if text_starts_with(request, "GET /videogames") {
        Operation::ReadAll
    } else if text_starts_with(request, "GET /videogames/") {
        Operation::ReadOne
    } else if text_starts_with(request, "PUT /videogames") {
        Operation::Update
    } else if text_starts_with(request, "DELETE /videogames") {
        Operation::Delete
    } else {
        Operation::Unknown
    }
}

} // verus!
