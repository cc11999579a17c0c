use vstd::prelude::*;

verus! {

/// Body of the `MobileLoginSP.login` service call.
#[derive(Debug, Clone)]
pub struct LoginRequestBody {
    pub service_name: String,
    pub request_body: RequestBody,
}

/// The credentials part of a login request; each field is serialized as `{"$": field}`.
#[derive(Debug, Clone)]
pub struct RequestBody {
    pub nomusu: Nomusu,
    pub interno: Interno,
    pub keepconnected: Keepconnected,
}

/// The user name (`NOMUSU`).
#[derive(Debug, Clone)]
pub struct Nomusu {
    pub field: String,
}

/// The password (`INTERNO`).
#[derive(Debug, Clone)]
pub struct Interno {
    pub field: String,
}

/// Whether the session is kept open (`KEEPCONNECTED`).
#[derive(Debug, Clone)]
pub struct Keepconnected {
    pub field: String,
}

} // verus!
