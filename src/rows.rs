use vstd::prelude::*;
use vstd::string::*;
use crate::models::{DatabaseProperty, Entity, SyncError, column_name};
use crate::schema::TagsColumn;

verus! {

/// No row carries more tags than this.
pub const MAX_TAGS: usize = 5;

/// The address that a work's catalog key is appended to.
pub const CATALOG_BASE_URL: &'static str = "https://www.openlibrary.org";

/// The status that new rows start in.
pub const DEFAULT_STATUS: &'static str = "Inbox";

/// The text of each string of a sequence.
pub open spec fn texts(v: Seq<String>) -> Seq<Seq<char>> {
    v.map_values(|s: String| s@)
}

/// The test that keeps the tags that the vocabulary offers as options.
pub open spec fn in_vocabulary(vocabulary: Seq<String>) -> spec_fn(String) -> bool {
    |t: String| texts(vocabulary).contains(t@)
}

/// The first `n` items of a sequence, or all of them where there are fewer.
pub open spec fn at_most(s: Seq<String>, n: nat) -> Seq<String> {
    if s.len() <= n {
        s
    } else {
        s.take(n as int)
    }
}

/// The tags, in their own order, that the vocabulary offers, cut to `MAX_TAGS`.
pub open spec fn selected_tags(tags: Seq<String>, vocabulary: Seq<String>) -> Seq<String> {
    at_most(tags.filter(in_vocabulary(vocabulary)), MAX_TAGS as nat)
}

/// The names joined by single commas, with no space.
pub open spec fn comma_joined(names: Seq<String>) -> Seq<char>
    decreases names.len(),
{
    if names.len() == 0 {
        seq![]
    } else if names.len() == 1 {
        names[0]@
    } else {
        comma_joined(names.drop_last()) + seq![','] + names.last()@
    }
}

/// The catalog page of a work: the base address followed by the work's key.
pub open spec fn catalog_url(id: Seq<char>) -> Seq<char> {
    CATALOG_BASE_URL@ + id
}

/// Whether a name occurs among the names of a list.
pub fn has_name(names: &Vec<String>, name: &String) -> (r: bool)
    ensures
        r == texts(names@).contains(name@),
{
    let mut i: usize = 0;
    while i < names.len()
        invariant
            0 <= i <= names.len(),
            forall|j: int| 0 <= j < i ==> (#[trigger] names@[j])@ != name@,
        decreases names.len() - i,
    {
        if names[i] == *name {
            assert(texts(names@)[i as int] == name@);
            return true;
        }
        i = i + 1;
    }
    assert(!texts(names@).contains(name@)) by {
        if texts(names@).contains(name@) {
            let j = choose|j: int| 0 <= j < names.len() && texts(names@)[j] == name@;
            assert(names@[j]@ == name@);
        }
    }
    false
}

/// The tags that a new row gets: those that the column offers as options,
/// in the entity's order, at most `MAX_TAGS` of them.
pub fn select_tags(tags: &Vec<String>, vocabulary: &Vec<String>) -> (r: Vec<String>)
    ensures
        r@ == selected_tags(tags@, vocabulary@),
{
    let mut out: Vec<String> = Vec::new();
    let mut i: usize = 0;
    while i < tags.len()
        invariant
            0 <= i <= tags.len(),
            out@ == at_most(tags@.subrange(0, i as int).filter(in_vocabulary(vocabulary@)), MAX_TAGS as nat),
        decreases tags.len() - i,
    {
        let ghost prev = tags@.subrange(0, i as int).filter(in_vocabulary(vocabulary@));
        proof {
            crate::reconcile::lemma_filter_prefix(tags@, in_vocabulary(vocabulary@), i as int);
        }
        if has_name(vocabulary, &tags[i]) {
            let ghost next = prev.push(tags@[i as int]);
            if out.len() < MAX_TAGS {
                out.push(tags[i].clone());
                assert(out@ =~= next);
            } else {
                assert(at_most(next, MAX_TAGS as nat) =~= at_most(prev, MAX_TAGS as nat));
            }
        }
        i = i + 1;
    }
    assert(tags@.subrange(0, tags.len() as int) =~= tags@);
    out
}

/// The authors joined by single commas, with no space.
pub fn author_text(authors: &Vec<String>) -> (r: String)
    ensures
        r@ == comma_joined(authors@),
{
    let mut out = String::new();
    let mut i: usize = 0;
    while i < authors.len()
        invariant
            0 <= i <= authors.len(),
            out@ == comma_joined(authors@.subrange(0, i as int)),
        decreases authors.len() - i,
    {
        let ghost prev = authors@.subrange(0, i as int);
        let ghost next = authors@.subrange(0, i + 1);
        assert(next.drop_last() =~= prev);
        if i > 0 {
            proof {
                reveal_strlit(",");
            }
            out.append(",");
        }
        out.append(authors[i].as_str());
        proof {
            if i == 0 {
                assert(out@ =~= next[0]@);
            } else {
                assert(out@ =~= comma_joined(prev) + seq![','] + next.last()@);
            }
        }
        i = i + 1;
    }
    assert(authors@.subrange(0, authors.len() as int) =~= authors@);
    out
}

/// The catalog page of a work.
pub fn work_url(id: &String) -> (r: String)
    ensures
        r@ == catalog_url(id@),
{
    let mut url = String::from_str(CATALOG_BASE_URL);
    url.append(id.as_str());
    url
}

/// A typed value of one column of a new row.
#[derive(Debug, Clone)]
pub enum PropertyValue {
    Title(String),
    Text(String),
    MultiSelect(Vec<String>),
    Select(String),
    Url(String),
}

/// One column of a new row: the column's name and its value.
#[derive(Debug, Clone)]
pub struct RowProperty {
    pub name: String,
    pub value: PropertyValue,
}

/// A request to create one row in the database.
#[derive(Debug, Clone)]
pub struct RowRequest {
    /// The database that the row goes to.
    pub database_id: String,
    /// The emoji shown beside the row.
    pub icon: String,
    pub properties: Vec<RowProperty>,
}

/// The five glyphs that a new row's icon is drawn from.
pub open spec fn book_icons() -> Seq<Seq<char>> {
    seq!["\u{1F4D5}"@, "\u{1F4D7}"@, "\u{1F4D8}"@, "\u{1F4D9}"@, "\u{1F4D4}"@]
}

/// The request for one entity: its title, its authors joined by commas, the
/// tags that the vocabulary offers (at most `MAX_TAGS`), the given status and
/// its catalog address, under the columns' names, in that order.
pub open spec fn is_row_for(
    r: RowRequest,
    entity: Entity,
    vocabulary: Seq<String>,
    database_id: Seq<char>,
    status: Seq<char>,
    icon: Seq<char>,
) -> bool {
    let p = r.properties@;
    &&& r.database_id@ == database_id
    &&& r.icon@ == icon
    &&& p.len() == 5
    &&& p[0].name@ == column_name(DatabaseProperty::Name)
    &&& p[0].value == PropertyValue::Title(entity.title)
    &&& p[1].name@ == column_name(DatabaseProperty::Author)
    &&& p[1].value is Text && p[1].value->Text_0@ == comma_joined(entity.authors@)
    &&& p[2].name@ == column_name(DatabaseProperty::Tags)
    &&& p[2].value is MultiSelect && p[2].value->MultiSelect_0@ == selected_tags(entity.tags@, vocabulary)
    &&& p[3].name@ == column_name(DatabaseProperty::Status)
    &&& p[3].value is Select && p[3].value->Select_0@ == status
    &&& p[4].name@ == column_name(DatabaseProperty::Url)
    &&& p[4].value is Url && p[4].value->Url_0@ == catalog_url(entity.id@)
}

/// Builds the request that creates the row of one entity.
pub fn build_row(
    entity: &Entity,
    vocabulary: &Vec<String>,
    database_id: &String,
    status: &str,
    icon: String,
) -> (r: RowRequest)
    ensures
        r.icon == icon,
        is_row_for(r, *entity, vocabulary@, database_id@, status@, icon@),
{
    let mut properties: Vec<RowProperty> = Vec::new();
    properties.push(RowProperty {
        name: DatabaseProperty::Name.name(),
        value: PropertyValue::Title(entity.title.clone()),
    });
    properties.push(RowProperty {
        name: DatabaseProperty::Author.name(),
        value: PropertyValue::Text(author_text(&entity.authors)),
    });
    properties.push(RowProperty {
        name: DatabaseProperty::Tags.name(),
        value: PropertyValue::MultiSelect(select_tags(&entity.tags, vocabulary)),
    });
    properties.push(RowProperty {
        name: DatabaseProperty::Status.name(),
        value: PropertyValue::Select(String::from_str(status)),
    });
    properties.push(RowProperty {
        name: DatabaseProperty::Url.name(),
        value: PropertyValue::Url(work_url(&entity.id)),
    });
    RowRequest { database_id: database_id.clone(), icon, properties }
}

/// The five book glyphs that icons are drawn from by default.
pub fn default_icons() -> (r: Vec<String>)
    ensures
        texts(r@) == book_icons(),
{
    let mut icons: Vec<String> = Vec::new();
    icons.push(String::from_str("\u{1F4D5}"));
    icons.push(String::from_str("\u{1F4D7}"));
    icons.push(String::from_str("\u{1F4D8}"));
    icons.push(String::from_str("\u{1F4D9}"));
    icons.push(String::from_str("\u{1F4D4}"));
    assert(texts(icons@) =~= book_icons());
    icons
}

/// Relies on rand's `SliceRandom::choose` with the thread-local generator: it
/// returns one element of a slice that is not empty.
#[verifier::external_body]
fn choose_icon(icons: &Vec<String>) -> (r: String)
    requires
        icons.len() > 0,
    ensures
        icons@.contains(r),
{
    rand::seq::SliceRandom::choose(icons.as_slice(), &mut rand::thread_rng()).unwrap().clone()
}

/// Builds the requests for all entities, each with an icon drawn from `icons`.
/// Fails, and builds nothing, where the "Tags" column is not a multi-select column.
pub fn build_rows(
    entities: &Vec<Entity>,
    tags_column: &TagsColumn,
    database_id: &String,
    status: &str,
    icons: &Vec<String>,
) -> (r: Result<Vec<RowRequest>, SyncError>)
    requires
        icons.len() > 0,
    ensures
        tags_column is Other ==> r == Err::<Vec<RowRequest>, SyncError>(
            SyncError::UnsupportedTagSchema,
        ),
        tags_column is MultiSelect ==> r is Ok,
        r is Ok ==> {
            let rows = r->Ok_0@;
            &&& tags_column is MultiSelect
            &&& rows.len() == entities.len()
            &&& forall|i: int|
                0 <= i < rows.len() ==> icons@.contains(#[trigger] rows[i].icon) && is_row_for(
                    rows[i],
                    entities@[i],
                    tags_column->MultiSelect_0@,
                    database_id@,
                    status@,
                    rows[i].icon@,
                )
        },
{
    let vocabulary = match tags_column {
        TagsColumn::MultiSelect(options) => options,
        TagsColumn::Other => {
            return Err(SyncError::UnsupportedTagSchema);
        },
    };
    let mut rows: Vec<RowRequest> = Vec::new();
    let mut i: usize = 0;
    while i < entities.len()
        invariant
            0 <= i <= entities.len(),
            icons.len() > 0,
            tags_column is MultiSelect,
            vocabulary == tags_column->MultiSelect_0,
            rows.len() == i,
            forall|j: int|
                0 <= j < i ==> icons@.contains(#[trigger] rows@[j].icon) && is_row_for(
                    rows@[j],
                    entities@[j],
                    vocabulary@,
                    database_id@,
                    status@,
                    rows@[j].icon@,
                ),
        decreases entities.len() - i,
    {
        let icon = choose_icon(icons);
        rows.push(build_row(&entities[i], vocabulary, database_id, status, icon));
        i = i + 1;
    }
    Ok(rows)
}

} // verus!
