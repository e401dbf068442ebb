use reading_sync::arguments::Arguments;
use reading_sync::models::{DatabaseProperty, Entity, StoreRow, SyncError, WantToReadEntry};
use reading_sync::reconcile::{build_index, enrich, filter_new, find_new_entries};
use reading_sync::report::report_creations;
use reading_sync::rows::{
    author_text, build_row, build_rows, default_icons, has_name, select_tags, work_url,
    PropertyValue, DEFAULT_STATUS,
};
use reading_sync::schema::{select_database, DatabaseInfo, SearchHit, TagsColumn};

fn strings(items: &[&str]) -> Vec<String> {
    items.iter().map(|s| s.to_string()).collect()
}

fn entry(key: &str, title: &str, authors: &[&str]) -> WantToReadEntry {
    WantToReadEntry { key: key.to_string(), title: title.to_string(), author_names: strings(authors) }
}

fn row(id: &str, title: Option<&str>) -> StoreRow {
    StoreRow { id: id.to_string(), title: title.map(|t| t.to_string()) }
}

fn titles(entries: &[WantToReadEntry]) -> Vec<String> {
    entries.iter().map(|e| e.title.clone()).collect()
}

fn entity(id: &str, title: &str, authors: &[&str], tags: &[&str]) -> Entity {
    Entity { id: id.to_string(), title: title.to_string(), authors: strings(authors), tags: strings(tags) }
}

#[test]
fn column_names() {
    assert_eq!(DatabaseProperty::Author.name(), "Author");
    assert_eq!(DatabaseProperty::Name.name(), "Name");
    assert_eq!(DatabaseProperty::Status.name(), "Status");
    assert_eq!(DatabaseProperty::Tags.name(), "Tags");
    assert_eq!(DatabaseProperty::Url.name(), "URL");
}

#[test]
fn arguments_keep_their_values() {
    let a = Arguments::new("reader".to_string(), "pw".to_string(), "token".to_string(), "Books".to_string());
    assert_eq!(a.open_library_username(), "reader");
    assert_eq!(a.open_library_password(), "pw");
    assert_eq!(a.notion_token(), "token");
    assert_eq!(a.notion_database(), "Books");
}

#[test]
fn new_entries_exclude_existing_titles() {
    let entries = vec![
        entry("/works/OL1W", "Dune", &["Frank Herbert"]),
        entry("/works/OL2W", "Emma", &["Jane Austen"]),
        entry("/works/OL3W", "dune", &["Someone"]),
        entry("/works/OL4W", "Ulysses", &["James Joyce"]),
    ];
    let rows = vec![row("r1", Some("Dune")), row("r2", None), row("r3", Some("Ulysses"))];
    let new = find_new_entries(entries, &rows);
    assert_eq!(titles(&new), strings(&["Emma", "dune"]));
    assert_eq!(new[1].key, "/works/OL3W");
}

#[test]
fn untitled_rows_match_nothing() {
    let entries = vec![entry("/works/OL1W", "", &[])];
    let rows = vec![row("r1", None)];
    let new = find_new_entries(entries, &rows);
    assert_eq!(new.len(), 1);
}

#[test]
fn duplicate_titles_in_store_are_indexed_once() {
    let rows = vec![row("r1", Some("Dune")), row("r2", Some("Dune"))];
    let index = build_index(&rows);
    assert!(index.contains(&"Dune".to_string()));
    assert!(!index.contains(&"Emma".to_string()));
    assert_eq!(index.row_of(&"Dune".to_string()), Some("r2".to_string()));
    assert_eq!(index.row_of(&"Emma".to_string()), None);
    let new = filter_new(vec![entry("/works/OL1W", "Dune", &[]), entry("/works/OL2W", "Emma", &[])], &index);
    assert_eq!(titles(&new), strings(&["Emma"]));
}

#[test]
fn empty_catalog_gives_nothing_new() {
    let rows = vec![row("r1", Some("Dune"))];
    assert!(find_new_entries(Vec::new(), &rows).is_empty());
}

#[test]
fn second_run_creates_nothing() {
    let entries = vec![entry("/works/OL1W", "Dune", &[]), entry("/works/OL2W", "Emma", &[])];
    let mut rows = vec![row("r1", Some("Dune"))];
    let first = find_new_entries(entries.clone(), &rows);
    assert_eq!(first.len(), 1);
    for e in &first {
        rows.push(row("new", Some(&e.title)));
    }
    let second = find_new_entries(entries, &rows);
    assert!(second.is_empty());
}

#[test]
fn tag_selection_keeps_vocabulary_order_of_entity() {
    let tags = strings(&["Fiction", "Mystery", "NotAnOption", "Drama", "Horror", "Thriller"]);
    let vocabulary = strings(&["Fiction", "Mystery", "Drama", "Horror"]);
    assert_eq!(select_tags(&tags, &vocabulary), strings(&["Fiction", "Mystery", "Drama", "Horror"]));
}

#[test]
fn tag_selection_stops_at_five() {
    let tags = strings(&["a", "b", "x", "c", "d", "e", "f"]);
    let vocabulary = strings(&["f", "e", "d", "c", "b", "a"]);
    assert_eq!(select_tags(&tags, &vocabulary), strings(&["a", "b", "c", "d", "e"]));
}

#[test]
fn tag_selection_with_empty_vocabulary() {
    let tags = strings(&["Fiction"]);
    assert!(select_tags(&tags, &Vec::new()).is_empty());
    assert!(has_name(&strings(&["Fiction"]), &"Fiction".to_string()));
    assert!(!has_name(&strings(&["Fiction"]), &"fiction".to_string()));
}

#[test]
fn url_appends_catalog_key() {
    assert_eq!(work_url(&"/works/OL123W".to_string()), "https://www.openlibrary.org/works/OL123W");
}

#[test]
fn authors_joined_by_comma() {
    assert_eq!(author_text(&strings(&["Ada Lovelace", "Alan Turing"])), "Ada Lovelace,Alan Turing");
    assert_eq!(author_text(&strings(&["Ada Lovelace"])), "Ada Lovelace");
    assert_eq!(author_text(&Vec::new()), "");
}

#[test]
fn row_has_five_properties() {
    let e = entity("/works/OL123W", "Dune", &["Frank Herbert", "Someone"], &["Fiction", "Space"]);
    let r = build_row(&e, &strings(&["Fiction"]), &"db-1".to_string(), DEFAULT_STATUS, "*".to_string());
    assert_eq!(r.database_id, "db-1");
    assert_eq!(r.icon, "*");
    let names: Vec<String> = r.properties.iter().map(|p| p.name.clone()).collect();
    assert_eq!(names, strings(&["Name", "Author", "Tags", "Status", "URL"]));
    assert!(matches!(&r.properties[0].value, PropertyValue::Title(t) if t == "Dune"));
    assert!(matches!(&r.properties[1].value, PropertyValue::Text(t) if t == "Frank Herbert,Someone"));
    assert!(matches!(&r.properties[2].value, PropertyValue::MultiSelect(t) if *t == strings(&["Fiction"])));
    assert!(matches!(&r.properties[3].value, PropertyValue::Select(t) if t == "Inbox"));
    assert!(
        matches!(&r.properties[4].value, PropertyValue::Url(t) if t == "https://www.openlibrary.org/works/OL123W")
    );
}

#[test]
fn rows_get_a_book_icon() {
    let entities = vec![entity("/works/OL1W", "Dune", &[], &[]), entity("/works/OL2W", "Emma", &[], &[])];
    let icons = default_icons();
    assert_eq!(icons.len(), 5);
    let column = TagsColumn::MultiSelect(strings(&["Fiction"]));
    let rows = build_rows(&entities, &column, &"db".to_string(), DEFAULT_STATUS, &icons).unwrap();
    assert_eq!(rows.len(), 2);
    for r in &rows {
        assert!(icons.contains(&r.icon));
    }
    assert!(matches!(&rows[1].properties[0].value, PropertyValue::Title(t) if t == "Emma"));
}

#[test]
fn plain_text_tags_column_is_refused() {
    let entities = vec![entity("/works/OL1W", "Dune", &[], &["Fiction"])];
    let r = build_rows(&entities, &TagsColumn::Other, &"db".to_string(), DEFAULT_STATUS, &default_icons());
    assert_eq!(r.unwrap_err(), SyncError::UnsupportedTagSchema);
}

#[test]
fn one_failed_fetch_drops_one_entity() {
    let entries = vec![
        entry("/works/OL1W", "Dune", &["Frank Herbert"]),
        entry("/works/OL2W", "Emma", &["Jane Austen"]),
        entry("/works/OL3W", "Ulysses", &["James Joyce"]),
    ];
    let fetched = vec![Some(strings(&["Fiction"])), None, Some(Vec::new())];
    let out = enrich(entries, fetched);
    assert_eq!(out.failed, strings(&["Emma"]));
    assert_eq!(out.entities.len(), 2);
    assert_eq!(out.entities[0].id, "/works/OL1W");
    assert_eq!(out.entities[0].authors, strings(&["Frank Herbert"]));
    assert_eq!(out.entities[0].tags, strings(&["Fiction"]));
    assert_eq!(out.entities[1].title, "Ulysses");
    let column = TagsColumn::MultiSelect(strings(&["Fiction"]));
    let rows = build_rows(&out.entities, &column, &"db".to_string(), DEFAULT_STATUS, &default_icons()).unwrap();
    assert_eq!(rows.len(), 2);
}

#[test]
fn database_search_must_find_one_database() {
    let db = DatabaseInfo { id: "db-1".to_string(), tags: TagsColumn::Other };
    let found = select_database(vec![SearchHit::Database(db.clone())]).unwrap();
    assert_eq!(found.id, "db-1");
    assert_eq!(select_database(Vec::new()).unwrap_err(), SyncError::AmbiguousOrMissingDatabase);
    assert_eq!(
        select_database(vec![SearchHit::Database(db.clone()), SearchHit::Database(db)]).unwrap_err(),
        SyncError::AmbiguousOrMissingDatabase
    );
    assert_eq!(select_database(vec![SearchHit::Other]).unwrap_err(), SyncError::AmbiguousOrMissingDatabase);
}

#[test]
fn creation_outcomes_are_reported() {
    let report = report_creations(strings(&["Dune", "Emma", "Ulysses"]), &vec![true, false, true]);
    assert_eq!(report.created, strings(&["Dune", "Ulysses"]));
    assert_eq!(report.failed, strings(&["Emma"]));
}
