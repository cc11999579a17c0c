use vstd::prelude::*;
use crate::keyed_map::KeyedMap;

verus! {

/// Body of the `CRUDServiceProvider.saveRecord` service call, which inserts one record.
#[derive(Debug)]
pub struct SaveRecord {
    pub service_name: String,
    pub request_body: RequestBody,
}

#[derive(Debug)]
pub struct RequestBody {
    pub data_set: DataSet,
}

/// The record to save: the entity it belongs to, its field values and the field list.
#[derive(Debug)]
pub struct DataSet {
    pub root_entity: String,
    pub include_presentation_fields: String,
    pub data_row: DataRow,
    pub entity: Entity,
}

/// `{"localFields": {field: {"$": value}}}`.
#[derive(Debug)]
pub struct DataRow {
    pub local_fields: KeyedMap<KeyedMap<KeyedMap<String>>>,
}

#[derive(Debug)]
pub struct Entity {
    pub fieldset: Fieldset,
}

/// The names of the saved fields, separated by commas.
#[derive(Debug)]
pub struct Fieldset {
    pub list: String,
}

} // verus!
