//! Generation of schema-migration scripts for a table with dependent views
//! and incoming foreign keys: the catalog query text, the extraction of each
//! dependent's DDL from a raw dump, the order-restoring reassembly of
//! concurrently produced results, and the assembly of the final script.

use vstd::prelude::*;

pub mod dependent_builder;
pub mod queries;
pub mod reassembly;
pub mod script_builder;
pub mod text;

verus! {

/// Connection parameters for the catalog database. They are carried as plain
/// values and handed explicitly to every dump invocation; nothing here reads
/// or writes process-wide state.
#[derive(Clone)]
pub struct DBContext {
    pub host: String,
    pub username: String,
    pub db_name: String,
    pub password: String,
}

impl DBContext {
    pub fn new(host: String, username: String, db_name: String, password: String) -> (r: DBContext)
        ensures
            r.host == host,
            r.username == username,
            r.db_name == db_name,
            r.password == password,
    {
        DBContext { host, username, db_name, password }
    }
}

} // verus!
