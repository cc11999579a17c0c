use vstd::prelude::*;

verus! {

/// The error code and level that a failed `saveRecord` call reports.
#[derive(Debug, Clone)]
pub struct TsError {
    pub ts_error_code: String,
    pub ts_error_level: String,
}

} // verus!
