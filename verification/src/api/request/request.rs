use vstd::prelude::*;

use crate::api::service_url::service_base;
use crate::text::ends_with_char;

verus! {

/// The URL of the `CRUDServiceProvider.saveRecord` service for a session, relative to the server.
pub open spec fn save_record_url_spec(url: Seq<char>, jsessionid: Seq<char>) -> Seq<char> {
    service_base(url)
        + "mge/service.sbr?serviceName=CRUDServiceProvider.saveRecord&outputType=json&jsessionid="@
        + jsessionid
}

/// The `saveRecord` URL does not depend on whether the server URL ends with
/// `/`: adding one to a URL that has none gives the same URL.
pub proof fn law_save_record_url_trailing_slash(url: Seq<char>, jsessionid: Seq<char>)
    requires
        url.len() > 0,
        url.last() != '/',
    ensures
        save_record_url_spec(url + "/"@, jsessionid) == save_record_url_spec(url, jsessionid),
{
    reveal_strlit("/");
    assert((url + "/"@).last() == '/');
}

/// The `saveRecord` URL is the server URL, one `/` if it has none at its end,
/// the service path, and then the whole session id: it starts with the server
/// URL and ends with the session id.
pub proof fn law_save_record_url_parts(url: Seq<char>, jsessionid: Seq<char>)
    requires
        url.len() > 0,
    ensures
        save_record_url_spec(url, jsessionid) == (if url.last() == '/' {
            url
        } else {
            url + "/"@
        }) + "mge/service.sbr?serviceName=CRUDServiceProvider.saveRecord&outputType=json&jsessionid="@
            + jsessionid,
        save_record_url_spec(url, jsessionid).len() >= url.len() + jsessionid.len(),
        save_record_url_spec(url, jsessionid).subrange(0, url.len() as int) == url,
        save_record_url_spec(url, jsessionid).subrange(
            save_record_url_spec(url, jsessionid).len() - jsessionid.len(),
            save_record_url_spec(url, jsessionid).len() as int,
        ) == jsessionid,
{
    let res = save_record_url_spec(url, jsessionid);
    let head = if url.last() == '/' {
        url
    } else {
        url + "/"@
    };
    let mid = head + "mge/service.sbr?serviceName=CRUDServiceProvider.saveRecord&outputType=json&jsessionid="@;
    assert(res == mid + jsessionid);
    assert(res.subrange(0, url.len() as int) =~= url);
    assert(res.subrange(res.len() - jsessionid.len(), res.len() as int) =~= jsessionid);
}

/// The URL of the `saveRecord` service on the server `url` (with or without a
/// final `/`) for the session `jsessionid`.
pub fn save_record_url(url: &str, jsessionid: &str) -> (res: String)
    requires
        url@.len() > 0,
    ensures
        res@ == save_record_url_spec(url@, jsessionid@),
{
    let endpoint = "mge/service.sbr?serviceName=CRUDServiceProvider.saveRecord&outputType=json&jsessionid=";
    let mut post_url = String::from_str(url);
    if !ends_with_char(url, '/') {
        post_url.append("/");
    }
    post_url.append(endpoint);
    post_url.append(jsessionid);
    post_url
}

/// The answers that came (the `Some`s), in order; a send that failed has none.
pub open spec fn received<T>(responses: Seq<Option<T>>) -> Seq<T>
    decreases responses.len(),
{
    if responses.len() == 0 {
        Seq::empty()
    } else {
        match responses.last() {
            Some(r) => received(responses.drop_last()).push(r),
            None => received(responses.drop_last()),
        }
    }
}

/// The answers that came are taken in order: a send with an answer gives it,
/// a failed send gives nothing, and two runs of sends give the answers of the
/// first followed by those of the second.
pub proof fn law_received_in_order<T>(s1: Seq<Option<T>>, s2: Seq<Option<T>>, x: T)
    ensures
        received(seq![Some(x)]) == seq![x],
        received(seq![None::<T>]) == Seq::<T>::empty(),
        received(s1 + s2) == received(s1) + received(s2),
    decreases s2.len(),
{
    assert(seq![Some(x)].drop_last() =~= Seq::<Option<T>>::empty());
    assert(seq![None::<T>].drop_last() =~= Seq::<Option<T>>::empty());
    assert(Seq::<T>::empty().push(x) =~= seq![x]);
    assert(received(Seq::<Option<T>>::empty()) == Seq::<T>::empty());
    assert(seq![Some(x)].last() == Some(x));
    assert(seq![None::<T>].last() == None::<T>);
    assert(received(seq![Some(x)]) == received(Seq::<Option<T>>::empty()).push(x));
    assert(received(seq![None::<T>]) == received(Seq::<Option<T>>::empty()));
    if s2.len() == 0 {
        assert(s1 + s2 =~= s1);
        assert(received(s1) + received(s2) =~= received(s1));
    } else {
        let init = s2.drop_last();
        law_received_in_order(s1, init, x);
        assert((s1 + s2).drop_last() =~= s1 + init);
        assert((s1 + s2).last() == s2.last());
        match s2.last() {
            Some(r) => {
                assert(received(s1) + received(init).push(r) =~= (received(s1) + received(init)).push(r));
            },
            None => {},
        }
    }
}

/// Fewer answers come than sends were made.
proof fn lemma_received_prefix<T>(responses: Seq<Option<T>>, i: int)
    requires
        0 <= i <= responses.len(),
    ensures
        received(responses.take(i)).len() <= received(responses).len(),
    decreases responses.len() - i,
{
    if i < responses.len() {
        lemma_received_prefix(responses, i + 1);
        assert(responses.take(i + 1).drop_last() =~= responses.take(i));
    } else {
        assert(responses.take(i) =~= responses);
    }
}

/// The answers that came, numbered from 1 in the order they came; the sends
/// that got no answer (`None`) are left out and take no number.
pub fn number_responses<T>(responses: Vec<Option<T>>) -> (res: Vec<(i32, T)>)
    requires
        received(responses@).len() < i32::MAX,
    ensures
        res@.len() == received(responses@).len(),
        forall|k: int|
            0 <= k < res@.len() ==> #[trigger] res@[k] == ((k + 1) as i32, received(responses@)[k]),
{
    let mut res: Vec<(i32, T)> = Vec::new();
    let mut count: i32 = 1;
    let ghost all = responses@;
    for ele in it: responses
        invariant
            it.seq() == all,
            it.index() <= all.len(),
            received(all).len() < i32::MAX,
            res@.len() == received(all.take(it.index() as int)).len(),
            count == res@.len() + 1,
            forall|k: int|
                0 <= k < res@.len() ==> #[trigger] res@[k] == (
                    (k + 1) as i32,
                    received(all.take(it.index() as int))[k],
                ),
    {
        let ghost i = it.index() as int;
        proof {
            assert(all.take(i + 1).drop_last() =~= all.take(i));
            assert(all.take(i + 1).last() == all[i]);
            lemma_received_prefix(all, i + 1);
        }
        match ele {
            Some(r) => {
                res.push((count, r));
                count = count + 1;
            },
            None => {},
        }
    }
    assert(all.take(all.len() as int) =~= all);
    res
}

} // verus!
