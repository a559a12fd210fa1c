//! What holds of every run: a path is ingested once, and ingesting again
//! changes nothing.

use vstd::prelude::*;
use vstd::string::*;
use crate::config::Config;
use crate::models;
use crate::models::{NewPublication, Publication, PublicationCategory};
use crate::scan::actor::process_file::{classified, names_of};
use crate::scan::actor::scan_folder::Entry;
use crate::scan::actor::{CategoryId, File};
use crate::scan::error::ScannerError;
use crate::scanner::run::{gathers, steps, Action, Event, Run};
use crate::scanner::{
    classifier_categories, correlated, describes_new, files_distinct, first_by_path, fresh,
    has_path, known, lemma_first_by_path, lemma_fresh, links_of, proposes, successes, Batch,
};

verus! {

/// A batch holds no path twice, so a path that a scan reports several times
/// gives at most one publication.
pub proof fn lemma_batch_paths_distinct(
    batch: Batch,
    results: Seq<Result<(File, CategoryId), ScannerError>>,
)
    requires
        batch.holds(first_by_path(successes(results))),
    ensures
        files_distinct(batch.publications@),
{
    let items = first_by_path(successes(results));
    lemma_first_by_path(successes(results));
    assert forall|a: int, b: int| 0 <= a < b < batch.publications.len() implies (
    #[trigger] batch.publications[a]).file@ != (#[trigger] batch.publications[b]).file@ by {
        assert(describes_new(batch.publications[a], items[a].0));
        assert(describes_new(batch.publications[b], items[b].0));
        assert(items[a].0.path@ != items[b].0.path@);
    }
}

/// What the catalogue is asked to create holds no path twice, whatever the
/// batch holds.
pub proof fn lemma_fresh_keeps_distinct(batch: Seq<NewPublication>, existing: Seq<String>)
    ensures
        files_distinct(fresh(batch, existing)),
{
    lemma_fresh(batch, existing);
}

/// A run asks the catalogue to create at most one publication for each path,
/// however often the walk came upon it.
#[verifier::rlimit(40)]
pub proof fn lemma_run_creates_each_path_once(
    config: Config,
    publication_path: String,
    categories: Vec<models::Category>,
    walk: Vec<Option<Entry>>,
    existing: Vec<String>,
    gathered: Run,
    asked: Action,
    creating: Run,
    create: Action,
)
    requires
        steps(
            Run::Gathering { config, publication_path },
            Event::Gathered { categories: Some(categories), walk: Some(walk) },
            gathered,
            asked,
        ),
        steps(gathered, Event::Existing { paths: Some(existing) }, creating, create),
    ensures
        create is Create,
        files_distinct(create->Create_publications@),
{
    match gathered {
        Run::Deduplicating { config: _, files: _, results, batch } => {
            lemma_fresh(batch.publications@, existing@);
        },
        _ => {},
    }
}

/// Every classified file is an outcome that succeeded, and the other way
/// round.
pub proof fn lemma_successes(results: Seq<Result<(File, CategoryId), ScannerError>>)
    ensures
        forall|k: int|
            0 <= k < successes(results).len() ==> exists|i: int|
                0 <= i < results.len() && #[trigger] results[i] == Ok::<
                    (File, CategoryId),
                    ScannerError,
                >(#[trigger] successes(results)[k]),
        forall|i: int|
            0 <= i < results.len() && (#[trigger] results[i]) is Ok ==> exists|k: int|
                0 <= k < successes(results).len() && #[trigger] successes(results)[k]
                    == results[i]->Ok_0,
    decreases results.len(),
{
    if results.len() > 0 {
        let init = results.drop_last();
        let out = successes(results);
        lemma_successes(init);
        assert forall|k: int| 0 <= k < out.len() implies exists|i: int|
            0 <= i < results.len() && #[trigger] results[i] == Ok::<
                (File, CategoryId),
                ScannerError,
            >(#[trigger] out[k]) by {
            if k < successes(init).len() {
                assert(out[k] == successes(init)[k]);
                let i = choose|i: int|
                    0 <= i < init.len() && #[trigger] init[i] == Ok::<
                        (File, CategoryId),
                        ScannerError,
                    >(successes(init)[k]);
                assert(results[i] == init[i]);
            } else {
                assert(results[results.len() - 1] == Ok::<(File, CategoryId), ScannerError>(out[k]));
            }
        }
        assert forall|i: int| 0 <= i < results.len() && (#[trigger] results[i]) is Ok implies exists|
            k: int,
        |
            0 <= k < out.len() && #[trigger] out[k] == results[i]->Ok_0 by {
            if i < results.len() - 1 {
                assert(init[i] == results[i]);
                let k = choose|k: int|
                    0 <= k < successes(init).len() && #[trigger] successes(init)[k]
                        == init[i]->Ok_0;
                assert(out[k] == successes(init)[k]);
            } else {
                assert(out[out.len() - 1] == results[i]->Ok_0);
            }
        }
    }
}

/// Once the catalogue holds the paths it held before and those of the
/// publications that a first batch had it create, a second batch of files
/// that the first one proposed too leaves nothing to create.
pub proof fn lemma_second_batch_creates_nothing(
    first: Seq<NewPublication>,
    second: Seq<NewPublication>,
    before: Seq<String>,
    after: Seq<String>,
)
    requires
        forall|j: int| 0 <= j < second.len() ==> proposes(first, (#[trigger] second[j]).file@),
        forall|path: Seq<char>| known(before, path) ==> known(after, path),
        forall|k: int|
            0 <= k < fresh(first, before).len() ==> known(
                after,
                (#[trigger] fresh(first, before)[k]).file@,
            ),
    ensures
        fresh(second, after) == Seq::<NewPublication>::empty(),
{
    let again = fresh(second, after);
    let created = fresh(first, before);
    lemma_fresh(second, after);
    lemma_fresh(first, before);
    if again.len() > 0 {
        let p = again[0];
        assert(!known(after, p.file@));
        let j = choose|j: int| 0 <= j < second.len() && #[trigger] second[j] == p;
        assert(proposes(first, second[j].file@));
        let i = choose|i: int| 0 <= i < first.len() && (#[trigger] first[i]).file@ == p.file@;
        if !known(before, first[i].file@) {
            assert(proposes(created, first[i].file@));
            let k = choose|k: int|
                0 <= k < created.len() && (#[trigger] created[k]).file@ == first[i].file@;
            assert(known(after, created[k].file@));
        }
        assert(false);
    }
    assert(again =~= Seq::<NewPublication>::empty());
}

/// Every publication of a batch is of a file that was classified.
pub proof fn lemma_proposed_paths_are_classified(
    files: Seq<File>,
    results: Seq<Result<(File, CategoryId), ScannerError>>,
    batch: Batch,
    j: int,
)
    requires
        results.len() == files.len(),
        forall|i: int|
            0 <= i < files.len() && (#[trigger] results[i]) is Ok ==> results[i]->Ok_0.0
                == files[i],
        batch.holds(first_by_path(successes(results))),
        0 <= j < batch.publications.len(),
    ensures
        exists|i: int|
            0 <= i < files.len() && (#[trigger] results[i]) is Ok && files[i].path@
                == batch.publications@[j].file@,
{
    let all = successes(results);
    let items = first_by_path(all);
    let path = batch.publications@[j].file@;
    lemma_successes(results);
    lemma_first_by_path(all);
    assert(describes_new(batch.publications[j], items[j].0));
    assert(has_path(all, items[j].0.path@));
    let k = choose|k: int| 0 <= k < all.len() && (#[trigger] all[k]).0.path@ == path;
    let i = choose|i: int|
        0 <= i < results.len() && #[trigger] results[i] == Ok::<(File, CategoryId), ScannerError>(
            all[k],
        );
    assert(results[i] is Ok && files[i].path@ == path);
}

/// Every file that was classified has its path in the batch.
pub proof fn lemma_classified_paths_are_proposed(
    files: Seq<File>,
    results: Seq<Result<(File, CategoryId), ScannerError>>,
    batch: Batch,
    i: int,
)
    requires
        results.len() == files.len(),
        0 <= i < files.len(),
        results[i] is Ok,
        results[i]->Ok_0.0 == files[i],
        batch.holds(first_by_path(successes(results))),
    ensures
        proposes(batch.publications@, files[i].path@),
{
    let all = successes(results);
    let items = first_by_path(all);
    let path = files[i].path@;
    lemma_successes(results);
    lemma_first_by_path(all);
    let k = choose|k: int| 0 <= k < all.len() && #[trigger] all[k] == results[i]->Ok_0;
    assert(all[k].0.path@ == path);
    assert(has_path(items, all[k].0.path@));
    let j = choose|j: int| 0 <= j < items.len() && (#[trigger] items[j]).0.path@ == path;
    assert(describes_new(batch.publications[j], items[j].0));
    assert(batch.publications@[j].file@ == path);
}

/// Two runs that gather from the same walk with the same categories propose
/// the same paths.
pub proof fn lemma_same_walk_proposes_same_paths(
    publication_path: Seq<char>,
    rows: Seq<models::Category>,
    walk: Seq<Option<Entry>>,
    files1: Seq<File>,
    results1: Seq<Result<(File, CategoryId), ScannerError>>,
    batch1: Batch,
    files2: Seq<File>,
    results2: Seq<Result<(File, CategoryId), ScannerError>>,
    batch2: Batch,
)
    requires
        gathers(publication_path, rows, walk, files1, results1, batch1),
        gathers(publication_path, rows, walk, files2, results2, batch2),
    ensures
        forall|j: int|
            0 <= j < batch2.publications.len() ==> proposes(
                batch1.publications@,
                (#[trigger] batch2.publications@[j]).file@,
            ),
{
    let known_categories = classifier_categories(rows);
    let paths1 = files1.map_values(|f: File| f.path@);
    let paths2 = files2.map_values(|f: File| f.path@);
    assert(files1.len() == paths1.len());
    assert(files2.len() == paths2.len());
    assert forall|i: int| 0 <= i < files1.len() && (#[trigger] results1[i]) is Ok implies results1[i]->Ok_0.0
        == files1[i] by {
        assert(classified(publication_path, known_categories, files1[i], results1[i]));
    }
    assert forall|i: int| 0 <= i < files2.len() && (#[trigger] results2[i]) is Ok implies results2[i]->Ok_0.0
        == files2[i] by {
        assert(classified(publication_path, known_categories, files2[i], results2[i]));
    }
    assert forall|j: int| 0 <= j < batch2.publications.len() implies proposes(
        batch1.publications@,
        (#[trigger] batch2.publications@[j]).file@,
    ) by {
        lemma_proposed_paths_are_classified(files2, results2, batch2, j);
        let i = choose|i: int|
            0 <= i < files2.len() && (#[trigger] results2[i]) is Ok && files2[i].path@
                == batch2.publications@[j].file@;
        assert(paths1[i] == paths2[i]);
        assert(classified(publication_path, known_categories, files2[i], results2[i]));
        assert(classified(publication_path, known_categories, files1[i], results1[i]));
        assert(names_of(known_categories).len() == known_categories.len());
        assert(results1[i] is Ok);
        lemma_classified_paths_are_proposed(files1, results1, batch1, i);
    }
}

/// Ingestion is idempotent: a second run over the same walk and the same
/// categories has the catalogue create nothing, once the catalogue holds
/// what it held before the first run and what the first run had it create.
/// With nothing created, and so no row coming back, there is nothing to
/// link.
#[verifier::rlimit(40)]
pub proof fn lemma_ingestion_is_idempotent(
    config: Config,
    publication_path: String,
    categories: Vec<models::Category>,
    walk: Vec<Option<Entry>>,
    before: Vec<String>,
    after: Vec<String>,
    first_gathered: Run,
    first_creating: Run,
    first_create: Action,
    second_gathered: Run,
    second_creating: Run,
    second_create: Action,
    second_created: Vec<Publication>,
    second_linking: Run,
    second_link: Action,
)
    requires
        steps(
            Run::Gathering { config, publication_path },
            Event::Gathered { categories: Some(categories), walk: Some(walk) },
            first_gathered,
            Action::FindExisting,
        ),
        steps(first_gathered, Event::Existing { paths: Some(before) }, first_creating, first_create),
        steps(
            Run::Gathering { config, publication_path },
            Event::Gathered { categories: Some(categories), walk: Some(walk) },
            second_gathered,
            Action::FindExisting,
        ),
        steps(
            second_gathered,
            Event::Existing { paths: Some(after) },
            second_creating,
            second_create,
        ),
        steps(
            second_creating,
            Event::Created { publications: Some(second_created) },
            second_linking,
            second_link,
        ),
        second_created@.len() == 0,
        forall|path: Seq<char>| known(before@, path) ==> known(after@, path),
        first_create is Create,
        forall|k: int|
            0 <= k < first_create->Create_publications.len() ==> known(
                after@,
                (#[trigger] first_create->Create_publications[k]).file@,
            ),
    ensures
        second_create is Create,
        second_create->Create_publications@.len() == 0,
        second_link is Link,
        second_link->Link_links@.len() == 0,
{
    match (first_gathered, second_gathered) {
        (
            Run::Deduplicating { config: _, files: files1, results: results1, batch: batch1 },
            Run::Deduplicating { config: _, files: files2, results: results2, batch: batch2 },
        ) => {
            lemma_same_walk_proposes_same_paths(
                publication_path@,
                categories@,
                walk@,
                files1@,
                results1@,
                batch1,
                files2@,
                results2@,
                batch2,
            );
            assert(first_create->Create_publications@ == fresh(batch1.publications@, before@));
            lemma_second_batch_creates_nothing(
                batch1.publications@,
                batch2.publications@,
                before@,
                after@,
            );
            assert(second_create->Create_publications@ == fresh(batch2.publications@, after@));
            assert(correlated(second_created@, batch2.file_map@) =~= Seq::<
                (Publication, CategoryId),
            >::empty());
            assert(links_of(Seq::<(Publication, CategoryId)>::empty()) =~= Seq::<
                PublicationCategory,
            >::empty());
        },
        _ => {},
    }
}

} // verus!
