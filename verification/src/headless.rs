//! The decisions of the non-interactive mode: which request to run and the
//! exit code that reports the outcome.

use vstd::prelude::*;
use crate::model::{Collection, Request};
use crate::text::{chars_eq, chars_of, join_strings, join_with, string_views};

verus! {

/// Exit code: response received, status below 400.
pub const EXIT_OK: i32 = 0;

/// Exit code: response received, status 400 or above.
pub const EXIT_HTTP_ERROR: i32 = 1;

/// Exit code: no collection file given.
pub const EXIT_NO_COLLECTION: i32 = 2;

/// Exit code: no request of that name.
pub const EXIT_NOT_FOUND: i32 = 3;

/// Exit code: the request could not be sent (DNS, TLS, refused, timeout).
pub const EXIT_TRANSPORT: i32 = 4;

/// The index of the first request of the collection named `name`.
pub fn find_request(coll: &Collection, name: &str) -> (r: Option<usize>)
    ensures
        r matches Some(i) ==> i < coll.requests@.len() && coll.requests@[i as int].name@ == name@
            && forall|j: int| 0 <= j < i ==> (#[trigger] coll.requests@[j]).name@ != name@,
        r is None ==> forall|j: int|
            0 <= j < coll.requests@.len() ==> (#[trigger] coll.requests@[j]).name@ != name@,
{
    let nc = chars_of(name);
    let mut i: usize = 0;
    while i < coll.requests.len()
        invariant
            i <= coll.requests@.len(),
            nc@ == name@,
            forall|j: int| 0 <= j < i ==> (#[trigger] coll.requests@[j]).name@ != name@,
        decreases coll.requests@.len() - i,
    {
        let rc = chars_of(coll.requests[i].name.as_str());
        if chars_eq(rc.as_slice(), nc.as_slice()) {
            return Some(i);
        }
        i += 1;
    }
    None
}

/// The names of the requests, in order.
pub open spec fn request_name_list(reqs: Seq<Request>) -> Seq<Seq<char>> {
    reqs.map_values(|q: Request| q.name@)
}

/// The names of the collection's requests, joined by `, `.
pub fn request_names(coll: &Collection) -> (r: String)
    ensures
        r@ == join_with(request_name_list(coll.requests@), ", "@),
{
    let mut names: Vec<String> = Vec::new();
    let mut i: usize = 0;
    while i < coll.requests.len()
        invariant
            i <= coll.requests@.len(),
            string_views(names@) == request_name_list(coll.requests@).take(i as int),
        decreases coll.requests@.len() - i,
    {
        let nm = coll.requests[i].name.clone();
        let ghost before = string_views(names@);
        names.push(nm);
        proof {
            assert(string_views(names@) =~= before.push(nm@));
            assert(nm@ == request_name_list(coll.requests@)[i as int]);
        }
        i += 1;
        proof {
            assert(string_views(names@) =~= request_name_list(coll.requests@).take(i as int));
        }
    }
    proof {
        assert(request_name_list(coll.requests@).take(
            coll.requests@.len() as int,
        ) =~= request_name_list(coll.requests@));
    }
    join_strings(names.as_slice(), ", ")
}

/// The exit code for a received response: success below 400, HTTP error
/// from 400 on.
pub fn exit_code_for_status(status: u16) -> (code: i32)
    ensures
        code == if status < 400 {
            EXIT_OK
        } else {
            EXIT_HTTP_ERROR
        },
{
    if status < 400 {
        EXIT_OK
    } else {
        EXIT_HTTP_ERROR
    }
}

/// How a non-interactive run ended.
#[derive(Clone, Copy, Debug, PartialEq, Eq, Structural)]
pub enum HeadlessOutcome {
    /// No collection file was given.
    NoCollection,
    /// The collection has no request of that name.
    NotFound,
    /// The request could not be sent.
    Transport,
    /// A response arrived with this status.
    Status(u16),
}

/// The exit code that reports how a non-interactive run ended.
pub open spec fn outcome_exit_code(o: HeadlessOutcome) -> i32 {
    match o {
        HeadlessOutcome::NoCollection => EXIT_NO_COLLECTION,
        HeadlessOutcome::NotFound => EXIT_NOT_FOUND,
        HeadlessOutcome::Transport => EXIT_TRANSPORT,
        HeadlessOutcome::Status(s) => if s < 400 {
            EXIT_OK
        } else {
            EXIT_HTTP_ERROR
        },
    }
}

/// The exit code for how a non-interactive run ended (see
/// [`outcome_exit_code`]).
pub fn exit_code_for_outcome(o: HeadlessOutcome) -> (code: i32)
    ensures
        code == outcome_exit_code(o),
{
    match o {
        HeadlessOutcome::NoCollection => EXIT_NO_COLLECTION,
        HeadlessOutcome::NotFound => EXIT_NOT_FOUND,
        HeadlessOutcome::Transport => EXIT_TRANSPORT,
        HeadlessOutcome::Status(s) => exit_code_for_status(s),
    }
}

} // verus!
