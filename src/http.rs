//! Routing for a small HTTPS test server: which reply a request gets.

use vstd::prelude::*;
use vstd::string::StrSliceExecFns;

verus! {

/// The reply the test server gives.
#[derive(PartialEq, Eq, Structural, Clone, Copy, Debug)]
pub enum Reply {
    /// 200 with the handler's text as body.
    Text,
    /// 200, and the server is asked to close.
    Close,
    /// 400 with an empty body.
    BadRequest,
    /// 404 with an empty body.
    NotFound,
}

pub open spec fn route_spec(path: Seq<char>, is_post: bool) -> Reply {
    if path == "/"@ {
        Reply::Text
    } else if path == "/close"@ {
        if is_post {
            Reply::Close
        } else {
            Reply::BadRequest
        }
    } else {
        Reply::NotFound
    }
}

/// Whether two strings hold the same characters.
pub fn same_text(a: &str, b: &str) -> (r: bool)
    ensures
        r == (a@ == b@),
{
    let n = a.unicode_len();
    if n != b.unicode_len() {
        return false;
    }
    let mut i: usize = 0;
    while i < n
        invariant
            n == a@.len(),
            n == b@.len(),
            i <= n,
            forall|j: int| 0 <= j < i ==> a@[j] == b@[j],
        decreases n - i,
    {
        if a.get_char(i) != b.get_char(i) {
            return false;
        }
        i = i + 1;
    }
    assert(a@ =~= b@);
    true
}

/// `/` gets the text, a POST to `/close` closes the server and any other
/// method there is a bad request; every other path is not found.
pub fn route(path: &str, is_post: bool) -> (r: Reply)
    ensures
        r == route_spec(path@, is_post),
{
    if same_text(path, "/") {
        Reply::Text
    } else if same_text(path, "/close") {
        if is_post {
            Reply::Close
        } else {
            Reply::BadRequest
        }
    } else {
        Reply::NotFound
    }
}

} // verus!
