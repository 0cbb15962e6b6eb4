use vstd::prelude::*;
use std::collections::HashMap;

verus! {

/// Argument map of a request: field name to value.
pub type Args = HashMap<String, String>;

/// Name of the table a request addresses.
pub type Table = String;

#[verifier::external_type_specification]
#[verifier::external_body]
pub struct ExValue(serde_json::Value);

/// A generic database request: the table it addresses, the data a write
/// carries, and the condition a lookup filters by. Each constructor fills
/// exactly the parts its query kind needs.
pub struct Request {
    table: Table,
    data: Option<Args>,
    condition: Option<Args>,
}

impl Request {
    pub closed spec fn spec_table(&self) -> Table {
        self.table
    }

    pub closed spec fn spec_data(&self) -> Option<Args> {
        self.data
    }

    pub closed spec fn spec_condition(&self) -> Option<Args> {
        self.condition
    }

    pub fn new(table: Table, data: Args, condition: Args) -> (r: Request)
        ensures
            r.spec_table() == table,
            r.spec_data() == Some(data),
            r.spec_condition() == Some(condition),
    {
        Request { table, data: Some(data), condition: Some(condition) }
    }

    pub fn from_condition(table: Table, condition: Args) -> (r: Request)
        ensures
            r.spec_table() == table,
            r.spec_data() is None,
            r.spec_condition() == Some(condition),
    {
        Request { table, data: None, condition: Some(condition) }
    }

    pub fn from_data(table: Table, data: Args) -> (r: Request)
        ensures
            r.spec_table() == table,
            r.spec_data() == Some(data),
            r.spec_condition() is None,
    {
        Request { table, data: Some(data), condition: None }
    }

    /// JSON form of the data map, an empty object when there is none. The
    /// value itself stays unspecified: the object's field order follows
    /// the map's iteration order, which varies from process to process.
    pub fn data_to_json(&self) -> serde_json::Value {
        Request::args_to_json(&self.data)
    }

    /// JSON form of the condition map, an empty object when there is none.
    pub fn condition_to_json(&self) -> serde_json::Value {
        Request::args_to_json(&self.condition)
    }

    fn args_to_json(args_opt: &Option<Args>) -> serde_json::Value {
        match args_opt {
            Some(args) => args_value(args),
            None => {
                let empty: Args = HashMap::new();
                args_value(&empty)
            },
        }
    }
}

/// Relies on serde_json::to_value: building a JSON object from a map with
/// string keys and string values cannot fail. Which order the fields end
/// up in follows the map's iteration order, so nothing is promised of the
/// value.
#[verifier::external_body]
fn args_value(args: &HashMap<String, String>) -> serde_json::Value {
    serde_json::to_value(args).unwrap()
}

} // verus!
