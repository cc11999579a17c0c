use vstd::prelude::*;

use crate::schemas::api::auth::login_req_schema::AccessData;
use crate::schemas::login_req_schema::{Interno, Keepconnected, LoginRequestBody, Nomusu, RequestBody};

verus! {

/// The URL of the `MobileLoginSP.login` service on the server `url`.
pub fn login_url(url: &str) -> (res: String)
    ensures
        res@ == url@ + "/mge/service.sbr?serviceName=MobileLoginSP.login&outputType=json"@,
{
    let mut post_url = String::from_str(url);
    post_url.append("/mge/service.sbr?serviceName=MobileLoginSP.login&outputType=json");
    post_url
}

/// The login request for a user: name and password, every other field empty.
pub fn login_request_body(access_data: AccessData) -> (res: LoginRequestBody)
    ensures
        res.service_name@ == Seq::<char>::empty(),
        res.request_body.nomusu.field@ == access_data.username@,
        res.request_body.interno.field@ == access_data.password@,
        res.request_body.keepconnected.field@ == Seq::<char>::empty(),
{
    let AccessData { username, password } = access_data;
    LoginRequestBody {
        service_name: String::new(),
        request_body: RequestBody {
            nomusu: Nomusu { field: username },
            interno: Interno { field: password },
            keepconnected: Keepconnected { field: String::new() },
        },
    }
}

} // verus!
