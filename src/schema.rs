use vstd::prelude::*;
use crate::models::SyncError;

verus! {

/// How the database configures its "Tags" column.
#[derive(Debug, Clone)]
pub enum TagsColumn {
    /// A multi-select column with these option names.
    MultiSelect(Vec<String>),
    /// Any other kind of column, or no such column at all.
    Other,
}

/// The database that the rows go to: its identifier and its "Tags" column.
#[derive(Debug, Clone)]
pub struct DatabaseInfo {
    pub id: String,
    pub tags: TagsColumn,
}

/// One object that a search of the document store returned.
#[derive(Debug, Clone)]
pub enum SearchHit {
    Database(DatabaseInfo),
    /// A page or anything else that is not a database.
    Other,
}

/// The search must give exactly one object, and it must be a database.
pub open spec fn single_database(hits: Seq<SearchHit>) -> bool {
    hits.len() == 1 && hits[0] is Database
}

/// Picks the one database that a search by name found.
pub fn select_database(hits: Vec<SearchHit>) -> (r: Result<DatabaseInfo, SyncError>)
    ensures
        single_database(hits@) ==> r == Ok::<DatabaseInfo, SyncError>(hits@[0]->Database_0),
        !single_database(hits@) ==> r == Err::<DatabaseInfo, SyncError>(
            SyncError::AmbiguousOrMissingDatabase,
        ),
{
    if hits.len() != 1 {
        return Err(SyncError::AmbiguousOrMissingDatabase);
    }
    let mut hits = hits;
    match hits.remove(0) {
        SearchHit::Database(info) => Ok(info),
        SearchHit::Other => Err(SyncError::AmbiguousOrMissingDatabase),
    }
}

} // verus!
