//! The importer's own logic: building request bodies from spreadsheet rows.
pub mod body_laws;
pub mod generate_body;
pub mod csv_reader;
pub mod spreedsheet;
pub mod import_log;
