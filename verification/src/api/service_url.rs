//! The base of the service URLs on a server.
use vstd::prelude::*;

verus! {

/// The server URL with exactly one `/` added when it does not end with one.
pub open spec fn service_base(url: Seq<char>) -> Seq<char> {
    if url.last() == '/' {
        url
    } else {
        url + "/"@
    }
}

} // verus!
