use vstd::prelude::*;

use crate::api::service_url::service_base;
use crate::text::ends_with_char;

verus! {

/// The URL of the `MobileLoginSP.logout` service, relative to the server.
pub open spec fn logout_url_spec(url: Seq<char>) -> Seq<char> {
    service_base(url) + "mge/service.sbr?serviceName=MobileLoginSP.logout&outputType=json"@
}

/// The logout URL does not depend on whether the server URL ends with `/`:
/// adding one to a URL that has none gives the same URL.
pub proof fn law_logout_url_trailing_slash(url: Seq<char>)
    requires
        url.len() > 0,
        url.last() != '/',
    ensures
        logout_url_spec(url + "/"@) == logout_url_spec(url),
{
    reveal_strlit("/");
    assert((url + "/"@).last() == '/');
}

/// The logout URL is the server URL, one `/` if it has none at its end, and
/// the logout service path.
pub proof fn law_logout_url_parts(url: Seq<char>)
    requires
        url.len() > 0,
    ensures
        logout_url_spec(url) == (if url.last() == '/' {
            url
        } else {
            url + "/"@
        }) + "mge/service.sbr?serviceName=MobileLoginSP.logout&outputType=json"@,
        logout_url_spec(url).subrange(0, url.len() as int) == url,
{
    let head = if url.last() == '/' {
        url
    } else {
        url + "/"@
    };
    assert(logout_url_spec(url).subrange(0, url.len() as int) =~= url);
}

/// The URL of the logout service on the server `url` (with or without a final `/`).
pub fn logout_url(url: &str) -> (res: String)
    requires
        url@.len() > 0,
    ensures
        res@ == logout_url_spec(url@),
{
    let endpoint = "mge/service.sbr?serviceName=MobileLoginSP.logout&outputType=json";
    let mut post_url = String::from_str(url);
    if !ends_with_char(url, '/') {
        post_url.append("/");
    }
    post_url.append(endpoint);
    post_url
}

} // verus!
