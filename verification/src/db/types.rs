//! Rows that the database queries answer, held as plain values.
use vstd::prelude::*;

verus! {

/// A database name.
pub struct DatabaseRow(pub String);

impl DatabaseRow {
    /// The name.
    pub fn as_str(&self) -> (s: &str)
        ensures
            s@ == self.0@,
    {
        self.0.as_str()
    }
}

/// A table and its schema.
pub struct TableRow {
    pub name: String,
    pub schema: String,
}

/// A column: its name, its type, whether it takes nulls, and its default.
pub struct ColumnRow {
    pub name: String,
    pub data_type: String,
    pub is_nullable: bool,
    pub default: String,
}

} // verus!
