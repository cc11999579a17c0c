use vstd::prelude::*;

verus! {

/// The credentials of an ERP user.
#[derive(Debug, Clone)]
pub struct AccessData {
    pub username: String,
    pub password: String,
}

} // verus!
