use vstd::prelude::*;

verus! {

/// Body of the `MobileLoginSP.logout` service call.
#[derive(Debug, Clone)]
pub struct LogoutRequestBody {
    pub service_name: String,
    pub status: String,
    pub pending_printing: String,
}

impl LogoutRequestBody {
    /// The logout request: service `MobileLoginSP.logout`, status `1`, no pending printing.
    pub fn new() -> (res: Self)
        ensures
            res.service_name@ == "MobileLoginSP.logout"@,
            res.status@ == "1"@,
            res.pending_printing@ == "false"@,
    {
        LogoutRequestBody {
            service_name: String::from_str("MobileLoginSP.logout"),
            status: String::from_str("1"),
            pending_printing: String::from_str("false"),
        }
    }
}

} // verus!
