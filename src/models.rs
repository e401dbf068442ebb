use vstd::prelude::*;

verus! {

/// One item of the reader's "want to read" list, as the catalog reports it.
#[derive(Debug, Clone)]
pub struct WantToReadEntry {
    /// The catalog key of the work, such as `/works/OL123W`.
    pub key: String,
    pub title: String,
    pub author_names: Vec<String>,
}

/// An existing row of the document database.
#[derive(Debug, Clone)]
pub struct StoreRow {
    pub id: String,
    /// Rows without a title take no part in matching.
    pub title: Option<String>,
}

/// A catalog work that the database lacks, together with its subject tags.
#[derive(Debug, Clone)]
pub struct Entity {
    pub id: String,
    pub title: String,
    pub authors: Vec<String>,
    pub tags: Vec<String>,
}

/// The entity made of a catalog entry and the tags fetched for it.
pub open spec fn entity_of(entry: WantToReadEntry, tags: Vec<String>) -> Entity {
    Entity { id: entry.key, title: entry.title, authors: entry.author_names, tags }
}

/// The five columns that the target database must have.
#[derive(Debug, PartialEq, Eq, Structural, Clone, Copy)]
pub enum DatabaseProperty {
    Author,
    Name,
    Status,
    Tags,
    Url,
}

/// The column name of each property, as the database spells it.
pub open spec fn column_name(p: DatabaseProperty) -> Seq<char> {
    match p {
        DatabaseProperty::Author => "Author"@,
        DatabaseProperty::Name => "Name"@,
        DatabaseProperty::Status => "Status"@,
        DatabaseProperty::Tags => "Tags"@,
        DatabaseProperty::Url => "URL"@,
    }
}

impl DatabaseProperty {
    pub fn name(&self) -> (r: String)
        ensures
            r@ == column_name(*self),
    {
        match self {
            DatabaseProperty::Author => String::from_str("Author"),
            DatabaseProperty::Name => String::from_str("Name"),
            DatabaseProperty::Status => String::from_str("Status"),
            DatabaseProperty::Tags => String::from_str("Tags"),
            DatabaseProperty::Url => String::from_str("URL"),
        }
    }
}

/// What can go wrong in one synchronisation run.
#[derive(Debug, PartialEq, Eq, Structural, Clone, Copy)]
pub enum SyncError {
    /// The catalog refused the credentials.
    AuthenticationFailed,
    /// The database search did not give exactly one database.
    AmbiguousOrMissingDatabase,
    /// The database's "Tags" column is not a multi-select column.
    UnsupportedTagSchema,
    /// The subject tags of one work could not be fetched.
    TagFetchFailed,
    /// One row could not be created.
    RowCreationFailed,
}

} // verus!
