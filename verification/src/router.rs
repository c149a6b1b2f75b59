//! What the router of a service is made of, and where it is mounted.

use vstd::prelude::*;
use vstd::string::{StrSliceExecFns, StringExecFns};

verus! {

/// The paths of the SSE transport inside the router of a service.
#[derive(Debug, Clone, PartialEq, Eq)]
pub struct SseEndpoints {
    /// Where a client opens the event stream.
    pub sse_path: String,
    /// Where the router takes the client's messages.
    pub post_path: String,
    /// The path for messages as it is told to clients: with the service's
    /// name in front.
    pub advertised_post_path: String,
}

/// What the router of a service is composed of.
#[derive(Debug, Clone, PartialEq, Eq)]
pub struct RouterPlan {
    /// The SSE transport, where the gateway was started with it.
    pub sse: Option<SseEndpoints>,
    /// The path of the streamable-HTTP transport. It is always there, at the
    /// root of the router.
    pub streamable_path: String,
}

/// The path for messages that is told to the clients of `name`.
pub open spec fn advertised_path(name: Seq<char>) -> Seq<char> {
    "/"@ + name + "/message"@
}

/// The plan of the router of the service `name`. The streamable-HTTP
/// endpoint is always part of it; the SSE endpoints, `/sse` and `/message`,
/// are part of it where `sse` is set.
pub fn plan_router(name: &str, sse: bool) -> (r: RouterPlan)
    ensures
        r.streamable_path@ == "/"@,
        r.sse is Some <==> sse,
        r.sse matches Some(endpoints) ==> endpoints.sse_path@ == "/sse"@ && endpoints.post_path@
            == "/message"@ && endpoints.advertised_post_path@ == advertised_path(name@),
{
    let endpoints = if sse {
        let mut advertised = "/".to_owned();
        advertised.append(name);
        advertised.append("/message");
        Some(
            SseEndpoints {
                sse_path: "/sse".to_owned(),
                post_path: "/message".to_owned(),
                advertised_post_path: advertised,
            },
        )
    } else {
        None
    };
    RouterPlan { sse: endpoints, streamable_path: "/".to_owned() }
}

/// Whether `service` stands in `path` at position `at`.
pub open spec fn occurs_at(path: Seq<char>, service: Seq<char>, at: int) -> bool {
    0 <= at && at + service.len() <= path.len() && path.subrange(at, at + service.len())
        == service
}

/// Whether `at` is the first position at which `service` stands in `path`.
pub open spec fn first_occurrence(path: Seq<char>, service: Seq<char>, at: int) -> bool {
    occurs_at(path, service, at) && forall|earlier: int|
        0 <= earlier < at ==> !occurs_at(path, service, earlier)
}

fn matches_at(path: &str, service: &str, at: usize, length: usize, total: usize) -> (r: bool)
    requires
        length == service@.len(),
        total == path@.len(),
        at + length <= total,
    ensures
        r == occurs_at(path@, service@, at as int),
{
    let mut k: usize = 0;
    while k < length
        invariant
            k <= length,
            length == service@.len(),
            total == path@.len(),
            at + length <= total,
            forall|j: int| 0 <= j < k ==> path@[at + j] == service@[j],
        decreases length - k,
    {
        if path.get_char(at + k) != service.get_char(k) {
            proof {
                assert(path@.subrange(at as int, at + length)[k as int] == path@[at + k]);
            }
            return false;
        }
        k += 1;
    }
    proof {
        assert(path@.subrange(at as int, at + length) =~= service@);
    }
    true
}

/// The prefix under which the router of `service` is mounted for a request
/// to `path`: the path up to and including the first place at which the
/// service's name stands in it. `None` where the name does not stand in the
/// path.
pub fn mount_prefix(path: &str, service: &str) -> (r: Option<String>)
    ensures
        match r {
            Some(prefix) => exists|at: int| #[trigger]
                first_occurrence(path@, service@, at) && prefix@ == path@.take(
                    at + service@.len(),
                ),
            None => forall|at: int| !occurs_at(path@, service@, at),
        },
{
    let total = path.unicode_len();
    let length = service.unicode_len();
    if length > total {
        return None;
    }
    let last = total - length;
    let mut at: usize = 0;
    loop
        invariant
            total == path@.len(),
            length == service@.len(),
            length <= total,
            last == total - length,
            at <= last,
            forall|earlier: int| 0 <= earlier < at ==> !occurs_at(path@, service@, earlier),
        decreases last - at,
    {
        if matches_at(path, service, at, length, total) {
            let prefix = path.substring_char(0, at + length).to_owned();
            proof {
                assert(first_occurrence(path@, service@, at as int));
            }
            return Some(prefix);
        }
        if at == last {
            return None;
        }
        at += 1;
    }
}

} // verus!
