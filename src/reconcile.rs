use vstd::prelude::*;
use crate::models::{Entity, StoreRow, WantToReadEntry, entity_of};

verus! {

/// The titles that the existing rows carry; untitled rows give none.
pub open spec fn titles_of(rows: Seq<StoreRow>) -> Set<Seq<char>> {
    Set::new(
        |t: Seq<char>|
            exists|i: int|
                0 <= i < rows.len() && (#[trigger] rows[i]).title is Some && rows[i].title->Some_0@
                    == t,
    )
}

/// Whether a catalog entry is absent from a set of existing titles.
pub open spec fn is_new(titles: Set<Seq<char>>, e: WantToReadEntry) -> bool {
    !titles.contains(e.title@)
}

/// The test that keeps the catalog entries absent from a set of existing titles.
pub open spec fn new_in(titles: Set<Seq<char>>) -> spec_fn(WantToReadEntry) -> bool {
    |e: WantToReadEntry| is_new(titles, e)
}

/// The catalog entries, in catalog order, whose title no existing row carries.
pub open spec fn new_entries(entries: Seq<WantToReadEntry>, rows: Seq<StoreRow>) -> Seq<
    WantToReadEntry,
> {
    entries.filter(new_in(titles_of(rows)))
}

/// Filtering the first `i + 1` items extends the filtered first `i` items by at most one.
pub proof fn lemma_filter_prefix<A>(s: Seq<A>, p: spec_fn(A) -> bool, i: int)
    requires
        0 <= i < s.len(),
    ensures
        s.subrange(0, i + 1).filter(p) == (if p(s[i]) {
            s.subrange(0, i).filter(p).push(s[i])
        } else {
            s.subrange(0, i).filter(p)
        }),
{
    reveal(Seq::filter);
    assert(s.subrange(0, i + 1).drop_last() =~= s.subrange(0, i));
}

/// Each title that the rows carry, mapped to the identifier of the last row
/// that carries it: where titles collide, the later row wins.
pub open spec fn title_map(rows: Seq<StoreRow>) -> Map<Seq<char>, Seq<char>>
    decreases rows.len(),
{
    if rows.len() == 0 {
        Map::empty()
    } else {
        let m = title_map(rows.drop_last());
        match rows.last().title {
            Some(t) => m.insert(t@, rows.last().id@),
            None => m,
        }
    }
}

/// The keys of the title map are the titles that the rows carry.
pub proof fn lemma_title_map_keys(rows: Seq<StoreRow>)
    ensures
        title_map(rows).dom() == titles_of(rows),
    decreases rows.len(),
{
    if rows.len() > 0 {
        let prev = rows.drop_last();
        lemma_title_map_keys(prev);
        assert(rows[rows.len() - 1] == rows.last());
        assert forall|t: Seq<char>| #[trigger]
            title_map(rows).dom().contains(t) <==> titles_of(rows).contains(t) by {
            if titles_of(prev).contains(t) {
                let k = choose|k: int|
                    0 <= k < prev.len() && (#[trigger] prev[k]).title is Some
                        && prev[k].title->Some_0@ == t;
                assert(rows[k] == prev[k]);
            }
            if titles_of(rows).contains(t) {
                let k = choose|k: int|
                    0 <= k < rows.len() && (#[trigger] rows[k]).title is Some
                        && rows[k].title->Some_0@ == t;
                if k < prev.len() {
                    assert(prev[k] == rows[k]);
                }
            }
        }
        assert(title_map(rows).dom() =~= titles_of(rows));
    }
}

/// Where a title stands in a list of titles.
pub open spec fn position(titles: Seq<String>, t: Seq<char>) -> int {
    choose|i: int| 0 <= i < titles.len() && (#[trigger] titles[i])@ == t
}

/// The existing rows by title: each title held once, with the identifier of
/// the last row that carries it.
pub struct TitleIndex {
    titles: Vec<String>,
    row_ids: Vec<String>,
}

impl View for TitleIndex {
    type V = Map<Seq<char>, Seq<char>>;

    closed spec fn view(&self) -> Map<Seq<char>, Seq<char>> {
        Map::new(
            |t: Seq<char>| exists|i: int| 0 <= i < self.titles.len() && (#[trigger] self.titles@[i])@ == t,
            |t: Seq<char>| self.row_ids@[position(self.titles@, t)]@,
        )
    }
}

impl TitleIndex {
    /// The two lists are as long as each other, and no title occurs twice.
    pub closed spec fn wf(&self) -> bool {
        &&& self.titles.len() == self.row_ids.len()
        &&& forall|i: int, j: int|
            0 <= i < j < self.titles.len() ==> (#[trigger] self.titles@[i])@ != (
            #[trigger] self.titles@[j])@
    }

    /// Where the title stands in the index, if it is there.
    fn find(&self, title: &String) -> (r: Option<usize>)
        ensures
            r matches Some(j) ==> j < self.titles.len() && self.titles@[j as int]@ == title@,
            r is None ==> forall|j: int| 0 <= j < self.titles.len() ==> (#[trigger] self.titles@[j])@ != title@,
    {
        let mut i: usize = 0;
        while i < self.titles.len()
            invariant
                0 <= i <= self.titles.len(),
                forall|j: int| 0 <= j < i ==> (#[trigger] self.titles@[j])@ != title@,
            decreases self.titles.len() - i,
        {
            if self.titles[i] == *title {
                return Some(i);
            }
            i = i + 1;
        }
        None
    }

    /// Whether some existing row carries exactly this title.
    pub fn contains(&self, title: &String) -> (r: bool)
        ensures
            r == self@.contains_key(title@),
    {
        match self.find(title) {
            Some(j) => {
                assert(self.titles@[j as int]@ == title@);
                true
            },
            None => false,
        }
    }

    /// The identifier of the row that the index holds for this title.
    pub fn row_of(&self, title: &String) -> (r: Option<String>)
        requires
            self.wf(),
        ensures
            r matches Some(id) ==> self@.contains_key(title@) && id@ == self@[title@],
            r is None ==> !self@.contains_key(title@),
    {
        match self.find(title) {
            Some(j) => {
                proof {
                    let p = position(self.titles@, title@);
                    assert(self.titles@[j as int]@ == title@);
                    assert(0 <= p < self.titles.len() && self.titles@[p]@ == title@);
                    assert(p == j);
                }
                Some(self.row_ids[j].clone())
            },
            None => None,
        }
    }
}

/// Builds the index of the existing rows by title.
pub fn build_index(rows: &Vec<StoreRow>) -> (r: TitleIndex)
    ensures
        r.wf(),
        r@ == title_map(rows@),
        r@.dom() == titles_of(rows@),
{
    let mut index = TitleIndex { titles: Vec::new(), row_ids: Vec::new() };
    assert(index@ =~= title_map(rows@.subrange(0, 0)));
    let mut i: usize = 0;
    while i < rows.len()
        invariant
            0 <= i <= rows.len(),
            index.wf(),
            index@ == title_map(rows@.subrange(0, i as int)),
        decreases rows.len() - i,
    {
        let ghost before = index@;
        let ghost titles0 = index.titles@;
        let ghost ids0 = index.row_ids@;
        proof {
            assert(rows@.subrange(0, i + 1).drop_last() =~= rows@.subrange(0, i as int));
            assert(rows@.subrange(0, i + 1).last() == rows@[i as int]);
        }
        if let Some(title) = &rows[i].title {
            let id = rows[i].id.clone();
            match index.find(title) {
                Some(j) => {
                    index.row_ids.set(j, id);
                    proof {
                        assert forall|k: Seq<char>| #[trigger] index@.contains_key(k)
                            implies index@[k] == before.insert(title@, rows@[i as int].id@)[k] by {
                            let p = position(titles0, k);
                            assert(0 <= p < titles0.len() && titles0[p]@ == k);
                            if k == title@ {
                                assert(p == j);
                            } else {
                                assert(p != j);
                            }
                        }
                        assert(index@ =~= before.insert(title@, rows@[i as int].id@));
                    }
                },
                None => {
                    index.titles.push(title.clone());
                    index.row_ids.push(id);
                    proof {
                        let n = titles0.len() as int;
                        assert(index.titles@[n] == *title);
                        assert forall|k: Seq<char>| #[trigger] index@.contains_key(k)
                            implies index@[k] == before.insert(title@, rows@[i as int].id@)[k] by {
                            let p = position(index.titles@, k);
                            assert(0 <= p <= n && index.titles@[p]@ == k);
                            if k == title@ {
                                assert(p == n);
                            } else {
                                assert(p < n);
                                assert(titles0[p]@ == k);
                                let q = position(titles0, k);
                                assert(0 <= q < n && titles0[q]@ == k);
                                assert(p == q);
                            }
                        }
                        assert forall|k: Seq<char>| #[trigger] before.insert(title@, rows@[i as int].id@).contains_key(k)
                            implies index@.contains_key(k) by {
                            if k != title@ {
                                let q = position(titles0, k);
                                assert(index.titles@[q] == titles0[q]);
                            }
                        }
                        assert(index@ =~= before.insert(title@, rows@[i as int].id@));
                    }
                },
            }
        }
        i = i + 1;
    }
    assert(rows@.subrange(0, rows.len() as int) =~= rows@);
    proof {
        lemma_title_map_keys(rows@);
    }
    index
}

/// Keeps, in order, the entries whose title the index does not hold.
pub fn filter_new(entries: Vec<WantToReadEntry>, index: &TitleIndex) -> (r: Vec<WantToReadEntry>)
    ensures
        r@ == entries@.filter(new_in(index@.dom())),
{
    let ghost all = entries@;
    let mut rest = entries;
    assert(all.len() == rest.len());
    let mut out: Vec<WantToReadEntry> = Vec::new();
    let mut i: usize = 0;
    while rest.len() > 0
        invariant
            i + rest.len() == all.len(),
            all.len() <= usize::MAX,
            rest@ == all.subrange(i as int, all.len() as int),
            out@ == all.subrange(0, i as int).filter(new_in(index@.dom())),
        decreases rest.len(),
    {
        let e = rest.remove(0);
        proof {
            assert(e == all[i as int]);
            lemma_filter_prefix(all, new_in(index@.dom()), i as int);
            assert(rest@ =~= all.subrange(i + 1, all.len() as int));
        }
        let fresh = !index.contains(&e.title);
        if fresh {
            out.push(e);
        }
        i = i + 1;
    }
    assert(all.subrange(0, all.len() as int) =~= all);
    out
}

/// The catalog entries, in catalog order, whose title no existing row carries.
pub fn find_new_entries(entries: Vec<WantToReadEntry>, rows: &Vec<StoreRow>) -> (r: Vec<
    WantToReadEntry,
>)
    ensures
        r@ == new_entries(entries@, rows@),
{
    let index = build_index(rows);
    filter_new(entries, &index)
}

/// An entry is new exactly when it is in the catalog list and no existing row
/// carries its title.
pub proof fn lemma_new_entries_are_the_untitled_ones(
    entries: Seq<WantToReadEntry>,
    rows: Seq<StoreRow>,
    e: WantToReadEntry,
)
    ensures
        new_entries(entries, rows).contains(e) <==> (entries.contains(e) && !titles_of(
            rows,
        ).contains(e.title@)),
{
    let p = new_in(titles_of(rows));
    broadcast use vstd::seq_lib::group_filter_ensures;
    if entries.contains(e) && p(e) {
        let i = choose|i: int| 0 <= i < entries.len() && entries[i] == e;
        entries.lemma_filter_contains(p, i);
    }
    if new_entries(entries, rows).contains(e) {
        entries.lemma_filter_contains_rev(p, e);
        let j = choose|j: int| 0 <= j < entries.filter(p).len() && entries.filter(p)[j] == e;
        entries.lemma_filter_pred(p, j);
    }
}

/// Once a row exists for every new entry, a second reconciliation against the
/// grown database finds nothing new.
pub proof fn lemma_second_run_finds_nothing(
    entries: Seq<WantToReadEntry>,
    rows: Seq<StoreRow>,
    created: Seq<StoreRow>,
)
    requires
        forall|i: int|
            0 <= i < new_entries(entries, rows).len() ==> titles_of(created).contains(
                (#[trigger] new_entries(entries, rows)[i]).title@,
            ),
    ensures
        new_entries(entries, rows + created).len() == 0,
{
    let grown = rows + created;
    let first = new_entries(entries, rows);
    let second = new_entries(entries, grown);
    broadcast use vstd::seq_lib::group_filter_ensures;
    if second.len() > 0 {
        let e = second[0];
        assert(second.contains(e));
        lemma_new_entries_are_the_untitled_ones(entries, grown, e);
        if titles_of(rows).contains(e.title@) {
            let k = choose|k: int| 0 <= k < rows.len() && (#[trigger] rows[k]).title is Some && rows[k].title->Some_0@ == e.title@;
            assert(grown[k] == rows[k]);
        }
        lemma_new_entries_are_the_untitled_ones(entries, rows, e);
        let i = choose|i: int| 0 <= i < first.len() && first[i] == e;
        assert(titles_of(created).contains(e.title@));
        let k = choose|k: int| 0 <= k < created.len() && (#[trigger] created[k]).title is Some && created[k].title->Some_0@ == e.title@;
        assert(grown[rows.len() + k] == created[k]);
    }
}

/// The entities made of the entries whose tags were fetched, in entry order.
pub open spec fn enriched(entries: Seq<WantToReadEntry>, fetched: Seq<Option<Vec<String>>>) -> Seq<
    Entity,
>
    decreases entries.len(),
{
    if entries.len() == 0 || fetched.len() == 0 {
        seq![]
    } else {
        let prev = enriched(entries.drop_last(), fetched.drop_last());
        match fetched.last() {
            Some(tags) => prev.push(entity_of(entries.last(), tags)),
            None => prev,
        }
    }
}

/// The titles of the entries whose tags could not be fetched, in entry order.
pub open spec fn dropped(entries: Seq<WantToReadEntry>, fetched: Seq<Option<Vec<String>>>) -> Seq<
    String,
>
    decreases entries.len(),
{
    if entries.len() == 0 || fetched.len() == 0 {
        seq![]
    } else {
        let prev = dropped(entries.drop_last(), fetched.drop_last());
        match fetched.last() {
            Some(_) => prev,
            None => prev.push(entries.last().title),
        }
    }
}

/// The result of enriching the new entries: the entities that could be made,
/// and the titles of those whose tag fetch failed.
pub struct Enrichment {
    pub entities: Vec<Entity>,
    pub failed: Vec<String>,
}

/// Pairs each new entry with the outcome of fetching its subject tags
/// (`None` where the fetch failed). A failed fetch drops that entry alone and
/// records its title.
pub fn enrich(entries: Vec<WantToReadEntry>, fetched: Vec<Option<Vec<String>>>) -> (r: Enrichment)
    requires
        fetched.len() == entries.len(),
    ensures
        r.entities@ == enriched(entries@, fetched@),
        r.failed@ == dropped(entries@, fetched@),
{
    let ghost all = entries@;
    let ghost tags_all = fetched@;
    let mut rest = entries;
    let mut rest_tags = fetched;
    assert(all.len() == rest.len());
    let mut entities: Vec<Entity> = Vec::new();
    let mut failed: Vec<String> = Vec::new();
    let mut i: usize = 0;
    while rest.len() > 0
        invariant
            i + rest.len() == all.len(),
            all.len() == tags_all.len(),
            rest_tags.len() == rest.len(),
            all.len() <= usize::MAX,
            rest@ == all.subrange(i as int, all.len() as int),
            rest_tags@ == tags_all.subrange(i as int, all.len() as int),
            entities@ == enriched(all.subrange(0, i as int), tags_all.subrange(0, i as int)),
            failed@ == dropped(all.subrange(0, i as int), tags_all.subrange(0, i as int)),
        decreases rest.len(),
    {
        let e = rest.remove(0);
        let t = rest_tags.remove(0);
        proof {
            assert(all.subrange(0, i + 1).drop_last() =~= all.subrange(0, i as int));
            assert(tags_all.subrange(0, i + 1).drop_last() =~= tags_all.subrange(0, i as int));
            assert(rest@ =~= all.subrange(i + 1, all.len() as int));
            assert(rest_tags@ =~= tags_all.subrange(i + 1, all.len() as int));
        }
        match t {
            Some(tags) => {
                entities.push(Entity { id: e.key, title: e.title, authors: e.author_names, tags });
            },
            None => {
                failed.push(e.title);
            },
        }
        i = i + 1;
    }
    assert(all.subrange(0, all.len() as int) =~= all);
    assert(tags_all.subrange(0, all.len() as int) =~= tags_all);
    Enrichment { entities, failed }
}

/// Every new entry is accounted for: it becomes an entity or a reported failure.
pub proof fn lemma_enrichment_accounts_for_every_entry(
    entries: Seq<WantToReadEntry>,
    fetched: Seq<Option<Vec<String>>>,
)
    requires
        fetched.len() == entries.len(),
    ensures
        enriched(entries, fetched).len() + dropped(entries, fetched).len() == entries.len(),
    decreases entries.len(),
{
    if entries.len() > 0 {
        lemma_enrichment_accounts_for_every_entry(entries.drop_last(), fetched.drop_last());
    }
}

} // verus!
