use vstd::prelude::*;

verus! {

/// The four settings of a run: catalog credentials and database access.
#[derive(Debug, Clone)]
pub struct Arguments {
    open_library_username: String,
    open_library_password: String,
    notion_token: String,
    notion_database: String,
}

impl Arguments {
    pub closed spec fn spec_open_library_username(&self) -> Seq<char> {
        self.open_library_username@
    }

    pub closed spec fn spec_open_library_password(&self) -> Seq<char> {
        self.open_library_password@
    }

    pub closed spec fn spec_notion_token(&self) -> Seq<char> {
        self.notion_token@
    }

    pub closed spec fn spec_notion_database(&self) -> Seq<char> {
        self.notion_database@
    }

    pub fn new(
        open_library_username: String,
        open_library_password: String,
        notion_token: String,
        notion_database: String,
    ) -> (r: Arguments)
        ensures
            r.spec_open_library_username() == open_library_username@,
            r.spec_open_library_password() == open_library_password@,
            r.spec_notion_token() == notion_token@,
            r.spec_notion_database() == notion_database@,
    {
        Arguments { open_library_username, open_library_password, notion_token, notion_database }
    }

    pub fn open_library_username(&self) -> (r: String)
        ensures
            r@ == self.spec_open_library_username(),
    {
        self.open_library_username.clone()
    }

    pub fn open_library_password(&self) -> (r: String)
        ensures
            r@ == self.spec_open_library_password(),
    {
        self.open_library_password.clone()
    }

    pub fn notion_token(&self) -> (r: String)
        ensures
            r@ == self.spec_notion_token(),
    {
        self.notion_token.clone()
    }

    pub fn notion_database(&self) -> (r: String)
        ensures
            r@ == self.spec_notion_database(),
    {
        self.notion_database.clone()
    }
}

} // verus!
