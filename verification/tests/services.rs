use import_csv::api::auth::logout::logout_url;
use import_csv::api::post_login::{login_request_body, login_url};
use import_csv::api::request::request::{number_responses, save_record_url};
use import_csv::import_core::import_log::log_rows;
use import_csv::import_core::spreedsheet::{CountResult, SpreedsheetWorker, Types};
use import_csv::schemas::api::auth::login_req_schema::AccessData;
use import_csv::schemas::api::auth::logout_req_schema::LogoutRequestBody;

#[test]
fn save_record_url_adds_one_slash() {
    let endpoint = "mge/service.sbr?serviceName=CRUDServiceProvider.saveRecord&outputType=json&jsessionid=";
    assert_eq!(
        save_record_url("http://erp:8180", "ABC"),
        format!("http://erp:8180/{}ABC", endpoint)
    );
    assert_eq!(
        save_record_url("http://erp:8180/", "ABC"),
        format!("http://erp:8180/{}ABC", endpoint)
    );
}

#[test]
fn save_record_url_same_with_or_without_final_slash() {
    assert_eq!(save_record_url("h", "t"), save_record_url("h/", "t"));
}

#[test]
fn logout_url_adds_one_slash() {
    let expected = "http://erp/mge/service.sbr?serviceName=MobileLoginSP.logout&outputType=json";
    assert_eq!(logout_url("http://erp"), expected);
    assert_eq!(logout_url("http://erp/"), expected);
}

#[test]
fn login_url_always_adds_a_slash() {
    assert_eq!(
        login_url("http://erp"),
        "http://erp/mge/service.sbr?serviceName=MobileLoginSP.login&outputType=json"
    );
    assert_eq!(
        login_url("http://erp/"),
        "http://erp//mge/service.sbr?serviceName=MobileLoginSP.login&outputType=json"
    );
}

#[test]
fn login_body_carries_the_credentials() {
    let body = login_request_body(AccessData { username: "ana".to_string(), password: "pw".to_string() });
    assert_eq!(body.service_name, "");
    assert_eq!(body.request_body.nomusu.field, "ana");
    assert_eq!(body.request_body.interno.field, "pw");
    assert_eq!(body.request_body.keepconnected.field, "");
}

#[test]
fn logout_body_is_fixed() {
    let body = LogoutRequestBody::new();
    assert_eq!(body.service_name, "MobileLoginSP.logout");
    assert_eq!(body.status, "1");
    assert_eq!(body.pending_printing, "false");
}

#[test]
fn responses_are_numbered_from_one() {
    let numbered = number_responses(vec![Some("a"), Some("b"), Some("c")]);
    assert_eq!(numbered, vec![(1, "a"), (2, "b"), (3, "c")]);
    assert!(number_responses(Vec::<Option<u8>>::new()).is_empty());
}

#[test]
fn failed_sends_take_no_number() {
    let numbered = number_responses(vec![None, Some("a"), None, None, Some("b")]);
    assert_eq!(numbered, vec![(1, "a"), (2, "b")]);
    assert!(number_responses(vec![None::<u8>, None]).is_empty());
}

#[test]
fn log_rows_keeps_messages_and_counts_the_rest() {
    let results = vec![(1, None), (2, Some("erro".to_string())), (3, None), (4, Some("aviso".to_string()))];
    let (rows, ok) = log_rows(&results);
    assert_eq!(rows, vec![(2, "erro".to_string()), (4, "aviso".to_string())]);
    assert_eq!(ok, 2);
    assert_eq!(ok + rows.len(), results.len());
}

#[test]
fn count_reads_headers_and_rows() {
    let w = SpreedsheetWorker::new("x.csv", "E", Types::GENERIC);
    let data = b"A;B;C\n1;2;3\n4;5\n6;7;8;9\n";
    assert_eq!(w.count(data), Some(CountResult { headers_count: 3, rows_count: 3 }));
    assert_eq!(w.count(b""), Some(CountResult { headers_count: 0, rows_count: 0 }));
    // a comma is no delimiter here
    assert_eq!(w.count(b"A,B\n1,2\n"), Some(CountResult { headers_count: 1, rows_count: 1 }));
}

#[test]
fn count_refuses_unreadable_headers() {
    let w = SpreedsheetWorker::new("x.csv", "E", Types::GENERIC);
    assert_eq!(w.count(&[0xff, 0xfe, b';', b'a', b'\n']), None);
}
