use vstd::prelude::*;

verus! {

/// What can make an operation of this library fail.
pub enum EtlError {
    /// The database engine refused or failed a statement; the engine's message.
    Database(String),
    /// The table has no primary-key column; the table's name.
    NotFound(String),
    /// A table spec names a column that the configuration does not describe
    /// (no positional index, no SQL attribute), or a lookup spec has no
    /// columns; the offending column or table name.
    Config(String),
}

impl EtlError {
    /// A one-line human-readable description.
    pub fn message(&self) -> (r: String)
        ensures
            r@ == match self {
                EtlError::Database(m) => "database error: "@ + m@,
                EtlError::NotFound(t) => "no primary key found for table "@ + t@,
                EtlError::Config(c) => "configuration does not describe "@ + c@,
            },
    {
        match self {
            EtlError::Database(m) => {
                let mut s = String::from_str("database error: ");
                s.append(m.as_str());
                s
            },
            EtlError::NotFound(t) => {
                let mut s = String::from_str("no primary key found for table ");
                s.append(t.as_str());
                s
            },
            EtlError::Config(c) => {
                let mut s = String::from_str("configuration does not describe ");
                s.append(c.as_str());
                s
            },
        }
    }
}

} // verus!
