//! The table a statement ranges over, as the parser reports it.

use vstd::prelude::*;

verus! {

/// Table name in a query: the relation's name (or its alias when one is
/// given) and the schema when one is specified.
#[derive(Clone, Debug, PartialEq)]
pub struct Table {
    /// Table name.
    pub name: String,
    /// Schema name, if specified.
    pub schema: Option<String>,
}

impl Table {
    /// Build the table from the fields of a parsed range variable: an alias
    /// takes precedence over the relation name, and an empty schema name
    /// means no schema was specified.
    pub fn from_range_var(relname: String, alias: Option<String>, schemaname: String) -> (t: Table)
        ensures
            match alias {
                Some(a) => t.name == a,
                None => t.name == relname,
            },
            schemaname@.len() == 0 ==> t.schema is None,
            schemaname@.len() > 0 ==> t.schema == Some(schemaname),
    {
        let name = match alias {
            Some(a) => a,
            None => relname,
        };
        let schema = if schemaname.as_str().unicode_len() > 0 {
            Some(schemaname)
        } else {
            None
        };
        Table { name, schema }
    }
}

} // verus!
