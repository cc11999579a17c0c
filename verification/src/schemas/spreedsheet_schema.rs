use vstd::prelude::*;

verus! {

/// A spreadsheet cell, as the CSV reader types it: a number (held as the text
/// it prints as), a text, or a boolean (`true` / `false`).
#[derive(Debug)]
pub enum CellValue {
    Number(String),
    Text(String),
    Bool(bool),
}

impl Clone for CellValue {
    fn clone(&self) -> (res: Self)
        ensures
            res == *self,
    {
        match self {
            CellValue::Number(s) => CellValue::Number(s.clone()),
            CellValue::Text(s) => CellValue::Text(s.clone()),
            CellValue::Bool(b) => CellValue::Bool(*b),
        }
    }
}

/// One spreadsheet row: its column names with their cells, in the order the
/// reader gives them (the program reads them in column-name order). The order
/// matters only for orders: a column named `@` closes the item being filled.
#[derive(Debug, Clone)]
pub struct Spreedsheet {
    pub local_fields: Vec<(String, CellValue)>,
}

} // verus!
