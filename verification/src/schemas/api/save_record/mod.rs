pub mod save_record_ret_schema;
pub mod save_record_schema;
