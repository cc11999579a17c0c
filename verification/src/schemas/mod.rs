//! The shapes of the request and response bodies the importer exchanges with
//! the ERP, and of the spreadsheet rows it reads.
pub mod api;
pub mod login_req_schema;
pub mod spreedsheet_schema;
