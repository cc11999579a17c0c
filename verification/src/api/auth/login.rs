use vstd::prelude::*;

verus! {

/// A login answer that could not be read: the reason and the body as received.
#[derive(Debug, Clone)]
pub struct LoginError {
    pub message: String,
    pub ret_body: String,
}

} // verus!
