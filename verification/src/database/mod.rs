pub mod ddl;
pub mod error;
pub mod result;

use vstd::prelude::*;

verus! {

/// Where the database keeps its files.
pub struct DatabaseConfig {
    path: String,
}

impl DatabaseConfig {
    pub closed spec fn spec_path(&self) -> Seq<char> {
        self.path@
    }

    /// The configuration of a database at `path`, a path written as UTF-8 text.
    pub fn with_path(path: &str) -> (r: DatabaseConfig)
        ensures
            r.spec_path() == path@,
    {
        DatabaseConfig { path: path.to_owned() }
    }

    pub fn path(&self) -> (r: &str)
        ensures
            r@ == self.spec_path(),
    {
        self.path.as_str()
    }
}

} // verus!
