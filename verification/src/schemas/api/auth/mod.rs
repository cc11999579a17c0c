pub mod login_req_schema;
pub mod logout_req_schema;
