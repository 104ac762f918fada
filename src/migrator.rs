//! The configured entry point of the migration engine: which store it works on.
use vstd::prelude::*;
use crate::text::{chars_of, string_of};

verus! {

/// The scheme of file-backed SQLite stores.
pub open spec fn sqlite_scheme() -> Seq<char> {
    seq!['s', 'q', 'l', 'i', 't', 'e', ':', '/', '/']
}

/// The file behind a `sqlite://path` connection string, if it is one.
pub open spec fn sqlite_path(url: Seq<char>) -> Option<Seq<char>> {
    if url.len() >= 9 && url.subrange(0, 9) == sqlite_scheme() {
        Some(url.subrange(9, url.len() as int))
    } else {
        None
    }
}

/// Runs migrations and status queries against one store.
pub struct DatabaseMigrator {
    db_url: String,
}

impl View for DatabaseMigrator {
    type V = Seq<char>;

    closed spec fn view(&self) -> Seq<char> {
        self.db_url@
    }
}

impl DatabaseMigrator {
    /// A migrator for the store that `db_url` names.
    pub fn new(db_url: String) -> (r: DatabaseMigrator)
        ensures
            r@ == db_url@,
    {
        DatabaseMigrator { db_url }
    }

    /// The connection string.
    pub fn url(&self) -> (r: &String)
        ensures
            r@ == self@,
    {
        &self.db_url
    }

    /// The file to create before the first connection, for a file-backed
    /// store; `None` for any other store.
    pub fn database_file(&self) -> (r: Option<String>)
        ensures
            match sqlite_path(self@) {
                Some(p) => r matches Some(s) && s@ == p,
                None => r is None,
            },
    {
        let v = chars_of(self.db_url.as_str());
        let n = v.len();
        assert(v@ == self@);
        if n < 9 {
            return None;
        }
        let scheme = ['s', 'q', 'l', 'i', 't', 'e', ':', '/', '/'];
        let mut i: usize = 0;
        while i < 9
            invariant
                9 <= n == v@.len(),
                v@ == self@,
                i <= 9,
                scheme@ == sqlite_scheme(),
                v@.subrange(0, i as int) == sqlite_scheme().subrange(0, i as int),
            decreases 9 - i,
        {
            if v[i] != scheme[i] {
                assert(v@.subrange(0, 9)[i as int] == v@[i as int]);
                assert(scheme@[i as int] == sqlite_scheme()[i as int]);
                assert(v@.subrange(0, 9)[i as int] != sqlite_scheme()[i as int]);
                assert(v@.subrange(0, 9) != sqlite_scheme());
                return None;
            }
            assert(v@.subrange(0, i + 1) == v@.subrange(0, i as int).push(v@[i as int]));
            assert(sqlite_scheme().subrange(0, i + 1) == sqlite_scheme().subrange(0, i as int).push(
                sqlite_scheme()[i as int],
            ));
            i = i + 1;
        }
        assert(sqlite_scheme().subrange(0, 9) == sqlite_scheme());
        Some(string_of(&v, 9, n))
    }
}

} // verus!
