use vstd::prelude::*;

verus! {

/// The titles whose outcome is `wanted`, in order.
pub open spec fn titles_with(titles: Seq<String>, outcomes: Seq<bool>, wanted: bool) -> Seq<String>
    decreases titles.len(),
{
    if titles.len() == 0 || outcomes.len() == 0 {
        seq![]
    } else {
        let prev = titles_with(titles.drop_last(), outcomes.drop_last(), wanted);
        if outcomes.last() == wanted {
            prev.push(titles.last())
        } else {
            prev
        }
    }
}

/// What became of the row creations of one run: the titles of the rows that
/// were created and of those that failed, each in request order.
pub struct CreationReport {
    pub created: Vec<String>,
    pub failed: Vec<String>,
}

/// Sorts the titles of the requested rows by whether their creation succeeded.
/// Nothing is retried and nothing is lost: every title lands in one list.
pub fn report_creations(titles: Vec<String>, succeeded: &Vec<bool>) -> (r: CreationReport)
    requires
        succeeded.len() == titles.len(),
    ensures
        r.created@ == titles_with(titles@, succeeded@, true),
        r.failed@ == titles_with(titles@, succeeded@, false),
        r.created.len() + r.failed.len() == titles.len(),
{
    let ghost all = titles@;
    let mut rest = titles;
    assert(all.len() == rest.len());
    let mut created: Vec<String> = Vec::new();
    let mut failed: Vec<String> = Vec::new();
    let mut i: usize = 0;
    while rest.len() > 0
        invariant
            i + rest.len() == all.len(),
            all.len() == succeeded.len(),
            rest@ == all.subrange(i as int, all.len() as int),
            created@ == titles_with(all.subrange(0, i as int), succeeded@.subrange(0, i as int), true),
            failed@ == titles_with(all.subrange(0, i as int), succeeded@.subrange(0, i as int), false),
            created.len() + failed.len() == i,
        decreases rest.len(),
    {
        let title = rest.remove(0);
        proof {
            assert(all.subrange(0, i + 1).drop_last() =~= all.subrange(0, i as int));
            assert(succeeded@.subrange(0, i + 1).drop_last() =~= succeeded@.subrange(0, i as int));
            assert(rest@ =~= all.subrange(i + 1, all.len() as int));
        }
        if succeeded[i] {
            created.push(title);
        } else {
            failed.push(title);
        }
        i = i + 1;
    }
    assert(all.subrange(0, all.len() as int) =~= all);
    assert(succeeded@.subrange(0, all.len() as int) =~= succeeded@);
    CreationReport { created, failed }
}

} // verus!
