//! Verified core of the CSV importer for the Sankhya ERP: the request bodies
//! built from spreadsheet rows, the grouping of order rows, the service URLs
//! and the bookkeeping of the import results.
pub mod keyed_map;
pub mod schemas;
pub mod text;
pub mod import_core;
pub mod api;
pub mod cli;
