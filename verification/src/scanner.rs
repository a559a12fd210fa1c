//! One run of ingestion, stage by stage.
//!
//! A run classifies the files that a scan found, makes one new publication
//! for each path that the catalogue does not hold yet, links every
//! publication that the catalogue then creates to its category, and hands
//! each one on for enrichment. The stages here decide; reading the catalogue
//! and writing to it happen between them.

use vstd::prelude::*;
use vstd::string::*;
use crate::config::Config;
use crate::models;
use crate::models::{NewPublication, Publication, PublicationCategory};
use crate::scan::actor::load_metadata::LoadMetadata;
use crate::scan::actor::process_file::{classified, names_of, process_category};
use crate::scan::actor::{Category, CategoryId, File};
use crate::scan::error::ScannerError;
use crate::text::same_text;

pub mod laws;
pub mod run;

verus! {

/// The categories as the classifier sees them.
pub open spec fn classifier_categories(rows: Seq<models::Category>) -> Seq<Category> {
    rows.map_values(|c: models::Category| Category { id: c.id, name: c.name })
}

/// Classifies every file of a scan against the catalogue's categories. The
/// outcomes come in the order of the files; one file's failure leaves the
/// others untouched.
pub fn process_files(
    publication_path: &str,
    categories: &Vec<models::Category>,
    files: &Vec<File>,
) -> (results: Vec<Result<(File, CategoryId), ScannerError>>)
    ensures
        results.len() == files.len(),
        forall|i: int|
            0 <= i < files.len() ==> classified(
                publication_path@,
                classifier_categories(categories@),
                files[i],
                #[trigger] results[i],
            ),
{
    let mut known: Vec<Category> = Vec::new();
    let mut k: usize = 0;
    while k < categories.len()
        invariant
            k <= categories.len(),
            known@ == classifier_categories(categories@).take(k as int),
        decreases categories.len() - k,
    {
        known.push(Category::from(&categories[k]));
        assert(known@ =~= classifier_categories(categories@).take(k + 1));
        k += 1;
    }
    assert(known@ =~= classifier_categories(categories@));
    let mut results: Vec<Result<(File, CategoryId), ScannerError>> = Vec::new();
    let mut i: usize = 0;
    while i < files.len()
        invariant
            i <= files.len(),
            results.len() == i,
            known@ == classifier_categories(categories@),
            forall|j: int|
                0 <= j < i ==> classified(
                    publication_path@,
                    known@,
                    files[j],
                    #[trigger] results[j],
                ),
        decreases files.len() - i,
    {
        let file = &files[i];
        let outcome = match process_category(publication_path, file, known.as_slice()) {
            Ok(category) => Ok(
                (File { path: file.path.clone(), extension: file.extension.clone() }, category.id),
            ),
            Err(e) => Err(e),
        };
        assert(classified(publication_path@, known@, files[i as int], outcome));
        results.push(outcome);
        i += 1;
    }
    results
}

/// The files that were classified, each with its category, in order.
pub open spec fn successes(results: Seq<Result<(File, CategoryId), ScannerError>>) -> Seq<
    (File, CategoryId),
>
    decreases results.len(),
{
    if results.len() == 0 {
        Seq::empty()
    } else {
        match results.last() {
            Ok(pair) => successes(results.drop_last()).push(pair),
            Err(_) => successes(results.drop_last()),
        }
    }
}

/// Whether one of `items` is the file at `path`.
pub open spec fn has_path(items: Seq<(File, CategoryId)>, path: Seq<char>) -> bool {
    exists|k: int| 0 <= k < items.len() && (#[trigger] items[k]).0.path@ == path
}

/// `items` with one entry for each path: the first that has it.
pub open spec fn first_by_path(items: Seq<(File, CategoryId)>) -> Seq<(File, CategoryId)>
    decreases items.len(),
{
    if items.len() == 0 {
        Seq::empty()
    } else {
        let init = first_by_path(items.drop_last());
        if has_path(init, items.last().0.path@) {
            init
        } else {
            init.push(items.last())
        }
    }
}

/// No two entries of the list have the same path.
pub open spec fn paths_distinct(items: Seq<(File, CategoryId)>) -> bool {
    forall|a: int, b: int|
        0 <= a < b < items.len() ==> (#[trigger] items[a]).0.path@ != (#[trigger] items[b]).0.path@
}

/// A path that occurs several times among the classified files is ingested
/// once: the list of first entries holds no path twice, holds only paths that
/// were given, and holds every path that was given.
pub proof fn lemma_first_by_path(items: Seq<(File, CategoryId)>)
    ensures
        paths_distinct(first_by_path(items)),
        forall|k: int|
            0 <= k < first_by_path(items).len() ==> has_path(
                items,
                (#[trigger] first_by_path(items)[k]).0.path@,
            ),
        forall|k: int|
            0 <= k < items.len() ==> has_path(first_by_path(items), (#[trigger] items[k]).0.path@),
    decreases items.len(),
{
    if items.len() > 0 {
        let init_items = items.drop_last();
        let init = first_by_path(init_items);
        let out = first_by_path(items);
        lemma_first_by_path(init_items);
        assert forall|k: int| 0 <= k < out.len() implies has_path(
            items,
            (#[trigger] out[k]).0.path@,
        ) by {
            if k < init.len() {
                assert(out[k] == init[k]);
                let w = choose|w: int|
                    0 <= w < init_items.len() && (#[trigger] init_items[w]).0.path@
                        == init[k].0.path@;
                assert(items[w] == init_items[w]);
            } else {
                assert(out[k] == items[items.len() - 1]);
            }
        }
        assert forall|k: int| 0 <= k < items.len() implies has_path(
            out,
            (#[trigger] items[k]).0.path@,
        ) by {
            if k < items.len() - 1 {
                assert(items[k] == init_items[k]);
                let w = choose|w: int|
                    0 <= w < init.len() && (#[trigger] init[w]).0.path@ == init_items[k].0.path@;
                assert(out[w] == init[w]);
            } else if has_path(init, items.last().0.path@) {
            } else {
                assert(out[out.len() - 1] == items.last());
            }
        }
        assert forall|a: int, b: int| 0 <= a < b < out.len() implies (#[trigger] out[a]).0.path@
            != (#[trigger] out[b]).0.path@ by {
            if b < init.len() {
                assert(out[a] == init[a] && out[b] == init[b]);
            } else {
                assert(out[a] == init[a]);
            }
        }
    }
}

/// The publication that is made for a file found by a scan: titled by its
/// path, in the format that its extension names, without thumbnail, and with
/// the catalogue's first media type and first author.
pub open spec fn describes_new(publication: NewPublication, file: File) -> bool {
    &&& publication.isbn@ == Seq::<char>::empty()
    &&& publication.title@ == file.path@
    &&& publication.media_type_id == 1
    &&& publication.media_format@ == file.extension@
    &&& publication.author_id == 1
    &&& publication.thumbnail is None
    &&& publication.timestamp is None
    &&& publication.file@ == file.path@
}

/// The new publications of a run, and for each of their paths the category
/// that its file was filed under.
#[derive(Debug, Clone, PartialEq, Eq)]
pub struct Batch {
    pub publications: Vec<NewPublication>,
    pub file_map: Vec<(String, CategoryId)>,
}

impl Batch {
    /// The batch holds one publication and one entry of the map for each of
    /// `items`, in their order.
    pub open spec fn holds(&self, items: Seq<(File, CategoryId)>) -> bool {
        &&& self.publications.len() == items.len()
        &&& self.file_map.len() == items.len()
        &&& forall|k: int|
            0 <= k < items.len() ==> describes_new(#[trigger] self.publications[k], items[k].0)
        &&& forall|k: int|
            0 <= k < items.len() ==> (#[trigger] self.file_map[k]).0@ == items[k].0.path@
                && self.file_map[k].1 == items[k].1
    }
}

/// The category recorded for `path`: that of the first entry with this path.
pub open spec fn category_of(file_map: Seq<(String, CategoryId)>, path: Seq<char>) -> Option<
    CategoryId,
>
    decreases file_map.len(),
{
    if file_map.len() == 0 {
        None
    } else if file_map[0].0@ == path {
        Some(file_map[0].1)
    } else {
        category_of(file_map.drop_first(), path)
    }
}

/// A path has a category in the map exactly if some entry has that path.
pub proof fn lemma_category_of(file_map: Seq<(String, CategoryId)>, path: Seq<char>)
    ensures
        category_of(file_map, path) is Some <==> exists|k: int|
            0 <= k < file_map.len() && (#[trigger] file_map[k]).0@ == path,
    decreases file_map.len(),
{
    if file_map.len() > 0 {
        let rest = file_map.drop_first();
        lemma_category_of(rest, path);
        if file_map[0].0@ != path {
            if category_of(rest, path) is Some {
                let k = choose|k: int| 0 <= k < rest.len() && (#[trigger] rest[k]).0@ == path;
                assert(file_map[k + 1] == rest[k]);
            }
            if exists|k: int| 0 <= k < file_map.len() && (#[trigger] file_map[k]).0@ == path {
                let k = choose|k: int|
                    0 <= k < file_map.len() && (#[trigger] file_map[k]).0@ == path;
                assert(rest[k - 1] == file_map[k]);
            }
        }
    }
}

/// Looks up the category recorded for a path.
pub fn lookup(file_map: &Vec<(String, CategoryId)>, path: &str) -> (found: Option<CategoryId>)
    ensures
        found == category_of(file_map@, path@),
{
    let mut i: usize = 0;
    assert(file_map@.skip(0) == file_map@);
    while i < file_map.len()
        invariant
            i <= file_map.len(),
            category_of(file_map@, path@) == category_of(file_map@.skip(i as int), path@),
        decreases file_map.len() - i,
    {
        assert(file_map@.skip(i as int).drop_first() == file_map@.skip(i + 1));
        if same_text(file_map[i].0.as_str(), path) {
            return Some(file_map[i].1);
        }
        i += 1;
    }
    None
}

/// Makes the batch of new publications from the outcomes of classification.
/// Files that could not be classified are left out, and so is every file
/// whose path came before in the same run.
pub fn save_publication(files: &Vec<Result<(File, CategoryId), ScannerError>>) -> (batch: Batch)
    ensures
        batch.holds(first_by_path(successes(files@))),
{
    let mut publications: Vec<NewPublication> = Vec::new();
    let mut file_map: Vec<(String, CategoryId)> = Vec::new();
    let mut i: usize = 0;
    assert(files@.take(0) == Seq::<Result<(File, CategoryId), ScannerError>>::empty());
    while i < files.len()
        invariant
            i <= files.len(),
            (Batch { publications, file_map }).holds(
                first_by_path(successes(files@.take(i as int))),
            ),
        decreases files.len() - i,
    {
        let ghost items = first_by_path(successes(files@.take(i as int)));
        proof {
            assert(files@.take(i + 1).drop_last() == files@.take(i as int));
            assert(files@.take(i + 1).last() == files@[i as int]);
        }
        match &files[i] {
            Ok((file, category_id)) => {
                proof {
                    assert(successes(files@.take(i + 1)).drop_last() == successes(
                        files@.take(i as int),
                    ));
                    lemma_category_of(file_map@, file.path@);
                    if has_path(items, file.path@) {
                        let k = choose|k: int|
                            0 <= k < items.len() && (#[trigger] items[k]).0.path@ == file.path@;
                        assert(file_map@[k].0@ == file.path@);
                    }
                    if category_of(file_map@, file.path@) is Some {
                        let k = choose|k: int|
                            0 <= k < file_map.len() && (#[trigger] file_map@[k]).0@ == file.path@;
                        assert(items[k].0.path@ == file.path@);
                    }
                }
                if lookup(&file_map, file.path.as_str()).is_none() {
                    let publication = NewPublication {
                        isbn: String::new(),
                        title: file.path.clone(),
                        media_type_id: 1,
                        media_format: file.extension.clone(),
                        author_id: 1,
                        thumbnail: None,
                        timestamp: None,
                        file: file.path.clone(),
                    };
                    file_map.push((file.path.clone(), *category_id));
                    publications.push(publication);
                }
            },
            Err(_) => {},
        }
        i += 1;
    }
    assert(files@.take(files.len() as int) == files@);
    Batch { publications, file_map }
}

/// Whether the catalogue holds a publication at `path`.
pub open spec fn known(existing: Seq<String>, path: Seq<char>) -> bool {
    exists|k: int| 0 <= k < existing.len() && (#[trigger] existing[k])@ == path
}

/// Whether one of the publications is of the file at `path`.
pub open spec fn proposes(publications: Seq<NewPublication>, path: Seq<char>) -> bool {
    exists|k: int| 0 <= k < publications.len() && (#[trigger] publications[k]).file@ == path
}

/// No two of the publications are of the same file.
pub open spec fn files_distinct(publications: Seq<NewPublication>) -> bool {
    forall|a: int, b: int|
        0 <= a < b < publications.len() ==> (#[trigger] publications[a]).file@ != (
        #[trigger] publications[b]).file@
}

/// The publications that the catalogue is to create for a batch: each one
/// whose path the catalogue does not hold and no earlier publication of the
/// batch has, in the order of the batch.
pub open spec fn fresh(batch: Seq<NewPublication>, existing: Seq<String>) -> Seq<NewPublication>
    decreases batch.len(),
{
    if batch.len() == 0 {
        Seq::empty()
    } else {
        let init = fresh(batch.drop_last(), existing);
        let last = batch.last();
        if known(existing, last.file@) || proposes(batch.drop_last(), last.file@) {
            init
        } else {
            init.push(last)
        }
    }
}

/// What is created is one publication for each path of the batch that the
/// catalogue lacks: no path comes twice, every publication is one of the
/// batch and of a path that the catalogue lacks, and every such path of the
/// batch is there.
pub proof fn lemma_fresh(batch: Seq<NewPublication>, existing: Seq<String>)
    ensures
        files_distinct(fresh(batch, existing)),
        forall|k: int|
            0 <= k < fresh(batch, existing).len() ==> !known(
                existing,
                (#[trigger] fresh(batch, existing)[k]).file@,
            ) && exists|j: int| 0 <= j < batch.len() && #[trigger] batch[j] == fresh(batch, existing)[k],
        forall|j: int|
            0 <= j < batch.len() && !known(existing, (#[trigger] batch[j]).file@) ==> proposes(
                fresh(batch, existing),
                batch[j].file@,
            ),
    decreases batch.len(),
{
    if batch.len() > 0 {
        let init_batch = batch.drop_last();
        let init = fresh(init_batch, existing);
        let out = fresh(batch, existing);
        let last = batch.last();
        lemma_fresh(init_batch, existing);
        assert forall|k: int| 0 <= k < out.len() implies !known(existing, (#[trigger] out[k]).file@)
            && exists|j: int| 0 <= j < batch.len() && #[trigger] batch[j] == out[k] by {
            if k < init.len() {
                assert(out[k] == init[k]);
                let j = choose|j: int| 0 <= j < init_batch.len() && #[trigger] init_batch[j] == init[k];
                assert(batch[j] == init_batch[j]);
            } else {
                assert(batch[batch.len() - 1] == out[k]);
            }
        }
        assert forall|j: int|
            0 <= j < batch.len() && !known(existing, (#[trigger] batch[j]).file@) implies proposes(
            out,
            batch[j].file@,
        ) by {
            if j < batch.len() - 1 {
                assert(batch[j] == init_batch[j]);
                let k = choose|k: int|
                    0 <= k < init.len() && (#[trigger] init[k]).file@ == init_batch[j].file@;
                assert(out[k] == init[k]);
            } else if proposes(init_batch, last.file@) {
                let i = choose|i: int|
                    0 <= i < init_batch.len() && (#[trigger] init_batch[i]).file@ == last.file@;
                let k = choose|k: int|
                    0 <= k < init.len() && (#[trigger] init[k]).file@ == init_batch[i].file@;
                assert(out[k] == init[k]);
            } else {
                assert(out[out.len() - 1] == last);
            }
        }
        assert forall|a: int, b: int| 0 <= a < b < out.len() implies (#[trigger] out[a]).file@ != (
        #[trigger] out[b]).file@ by {
            if b < init.len() {
                assert(out[a] == init[a] && out[b] == init[b]);
            } else {
                assert(out[a] == init[a]);
                let j = choose|j: int| 0 <= j < init_batch.len() && #[trigger] init_batch[j] == init[a];
                assert(init_batch[j].file@ != last.file@);
            }
        }
    }
}

/// Whether a path is among those that the catalogue holds.
pub fn is_known(existing: &Vec<String>, path: &str) -> (yes: bool)
    ensures
        yes == known(existing@, path@),
{
    let mut i: usize = 0;
    while i < existing.len()
        invariant
            i <= existing.len(),
            forall|k: int| 0 <= k < i ==> (#[trigger] existing@[k])@ != path@,
        decreases existing.len() - i,
    {
        if same_text(existing[i].as_str(), path) {
            return true;
        }
        i += 1;
    }
    false
}

/// Whether one of the publications is of the file at `path`.
pub fn is_proposed(publications: &Vec<NewPublication>, path: &str) -> (yes: bool)
    ensures
        yes == proposes(publications@, path@),
{
    let mut i: usize = 0;
    while i < publications.len()
        invariant
            i <= publications.len(),
            forall|k: int| 0 <= k < i ==> (#[trigger] publications@[k]).file@ != path@,
        decreases publications.len() - i,
    {
        if same_text(publications[i].file.as_str(), path) {
            return true;
        }
        i += 1;
    }
    false
}

/// Picks from a batch what the catalogue is to create: one publication for
/// each path that the catalogue does not hold yet. A publication whose path
/// the catalogue holds is dropped, and so is one whose path came earlier in
/// the batch. What is left keeps the order of the batch.
pub fn select_new(batch: Vec<NewPublication>, existing: &Vec<String>) -> (created: Vec<
    NewPublication,
>)
    ensures
        created@ == fresh(batch@, existing@),
        files_distinct(created@),
{
    let mut created: Vec<NewPublication> = Vec::new();
    assert(batch@.take(0) == Seq::<NewPublication>::empty());
    for publication in it: batch
        invariant
            it.seq() == batch@,
            created@ == fresh(batch@.take(it.index() as int), existing@),
    {
        let ghost earlier = batch@.take(it.index() as int);
        proof {
            let i = it.index() as int;
            assert(batch@.take(i + 1).drop_last() == earlier);
            assert(batch@.take(i + 1).last() == publication);
            lemma_fresh(earlier, existing@);
            if !known(existing@, publication.file@) {
                // Among publications of unknown paths, what was picked so far
                // has a path exactly if an earlier one of the batch has it.
                if proposes(earlier, publication.file@) {
                    let j = choose|j: int|
                        0 <= j < earlier.len() && (#[trigger] earlier[j]).file@
                            == publication.file@;
                    assert(proposes(created@, earlier[j].file@));
                }
                if proposes(created@, publication.file@) {
                    let k = choose|k: int|
                        0 <= k < created@.len() && (#[trigger] created@[k]).file@
                            == publication.file@;
                    let j = choose|j: int| 0 <= j < earlier.len() && #[trigger] earlier[j] == created@[k];
                    assert(earlier[j].file@ == publication.file@);
                }
            }
        }
        if !is_known(existing, publication.file.as_str()) && !is_proposed(
            &created,
            publication.file.as_str(),
        ) {
            created.push(publication);
        }
    }
    proof {
        assert(batch@.take(batch@.len() as int) == batch@);
        lemma_fresh(batch@, existing@);
    }
    created
}

/// The publications that the catalogue created, each with the category that
/// the run recorded for its path. A publication whose path the run did not
/// record is not of this run and is left out.
pub open spec fn correlated(
    created: Seq<Publication>,
    file_map: Seq<(String, CategoryId)>,
) -> Seq<(Publication, CategoryId)>
    decreases created.len(),
{
    if created.len() == 0 {
        Seq::empty()
    } else {
        let init = correlated(created.drop_last(), file_map);
        match category_of(file_map, created.last().file@) {
            Some(category_id) => init.push((created.last(), category_id)),
            None => init,
        }
    }
}

/// Joins the publications that the catalogue created with the categories of
/// the run, by path.
pub fn correlate(created: Vec<Publication>, file_map: &Vec<(String, CategoryId)>) -> (pairs: Vec<
    (Publication, CategoryId),
>)
    ensures
        pairs@ == correlated(created@, file_map@),
{
    let mut pairs: Vec<(Publication, CategoryId)> = Vec::new();
    assert(created@.take(0) == Seq::<Publication>::empty());
    for publication in it: created
        invariant
            it.seq() == created@,
            pairs@ == correlated(created@.take(it.index() as int), file_map@),
    {
        proof {
            let i = it.index() as int;
            assert(created@.take(i + 1).drop_last() == created@.take(i));
            assert(created@.take(i + 1).last() == publication);
        }
        match lookup(file_map, publication.file.as_str()) {
            Some(category_id) => {
                pairs.push((publication, category_id));
            },
            None => {},
        }
    }
    assert(created@.take(created@.len() as int) == created@);
    pairs
}

/// The links of a run: one for each new publication, to its category.
pub open spec fn links_of(pairs: Seq<(Publication, CategoryId)>) -> Seq<PublicationCategory> {
    pairs.map_values(
        |pair: (Publication, CategoryId)|
            PublicationCategory { publication_id: pair.0.id, category_id: pair.1 },
    )
}

/// Makes the link between each new publication and its category.
pub fn save_publication_categories(publications: &Vec<(Publication, CategoryId)>) -> (links: Vec<
    PublicationCategory,
>)
    ensures
        links@ == links_of(publications@),
{
    let mut links: Vec<PublicationCategory> = Vec::new();
    let mut i: usize = 0;
    while i < publications.len()
        invariant
            i <= publications.len(),
            links@ == links_of(publications@).take(i as int),
        decreases publications.len() - i,
    {
        links.push(
            PublicationCategory {
                publication_id: publications[i].0.id,
                category_id: publications[i].1,
            },
        );
        assert(links@ =~= links_of(publications@).take(i + 1));
        i += 1;
    }
    assert(links@ =~= links_of(publications@));
    links
}

/// Hands each new publication on for enrichment, with the configuration of
/// the run.
pub fn update_metadata(config: &Config, publications: Vec<(Publication, CategoryId)>) -> (requests:
    Vec<LoadMetadata>)
    ensures
        requests.len() == publications.len(),
        forall|k: int|
            0 <= k < requests.len() ==> (#[trigger] requests[k]).publication == publications[k].0
                && requests[k].category_id == publications[k].1 && requests[k].config == *config,
{
    let mut requests: Vec<LoadMetadata> = Vec::new();
    for pair in it: publications
        invariant
            it.seq() == publications@,
            requests.len() == it.index(),
            forall|k: int|
                0 <= k < requests.len() ==> (#[trigger] requests[k]).publication
                    == publications[k].0 && requests[k].category_id == publications[k].1
                    && requests[k].config == *config,
    {
        requests.push(
            LoadMetadata {
                config: Config {
                    database: config.database.clone(),
                    pustaka_home: config.pustaka_home.clone(),
                },
                publication: pair.0,
                category_id: pair.1,
            },
        );
    }
    requests
}

/// How a run ended.
#[derive(Debug, Clone, PartialEq, Eq)]
pub struct Report {
    /// The number of publications that the catalogue created.
    pub created: usize,
    /// The number of files that were classified and gave no new publication,
    /// because their path was catalogued before or came twice.
    pub skipped: usize,
    /// The paths of the files that could not be classified.
    pub failed: Vec<String>,
}

/// The paths of the files whose outcome is a failure; `files` and `results`
/// are read side by side as far as both go.
pub open spec fn failures(
    files: Seq<File>,
    results: Seq<Result<(File, CategoryId), ScannerError>>,
) -> Seq<Seq<char>>
    decreases files.len(),
{
    if files.len() == 0 {
        Seq::empty()
    } else if files.len() > results.len() {
        failures(files.drop_last(), results)
    } else {
        let init = failures(files.drop_last(), results);
        if results[files.len() - 1] is Err {
            init.push(files.last().path@)
        } else {
            init
        }
    }
}

/// The summary `summary` reports `created` new publications for the files
/// and outcomes given.
pub open spec fn sums_up(
    summary: Report,
    files: Seq<File>,
    results: Seq<Result<(File, CategoryId), ScannerError>>,
    created: usize,
) -> bool {
    &&& summary.created == created
    &&& summary.skipped == if successes(results).len() >= created {
        successes(results).len() - created
    } else {
        0
    }
    &&& crate::text::texts(summary.failed@) == failures(files, results)
}

/// Sums a run up: how many publications the catalogue created, how many
/// classified files gave none, and which files failed. A run with failures is
/// still a run that ended.
pub fn report(
    files: &Vec<File>,
    results: &Vec<Result<(File, CategoryId), ScannerError>>,
    created: usize,
) -> (summary: Report)
    ensures
        sums_up(summary, files@, results@, created),
{
    let mut classified_count: usize = 0;
    let mut i: usize = 0;
    assert(results@.take(0) == Seq::<Result<(File, CategoryId), ScannerError>>::empty());
    while i < results.len()
        invariant
            i <= results.len(),
            classified_count == successes(results@.take(i as int)).len(),
            classified_count <= i,
        decreases results.len() - i,
    {
        assert(results@.take(i + 1).drop_last() == results@.take(i as int));
        assert(results@.take(i + 1).last() == results@[i as int]);
        if results[i].is_ok() {
            classified_count += 1;
        }
        i += 1;
    }
    assert(results@.take(results.len() as int) == results@);
    let mut failed: Vec<String> = Vec::new();
    let mut j: usize = 0;
    assert(files@.take(0) == Seq::<File>::empty());
    assert(crate::text::texts(failed@) =~= failures(files@.take(0), results@));
    while j < files.len()
        invariant
            j <= files.len(),
            crate::text::texts(failed@) == failures(files@.take(j as int), results@),
        decreases files.len() - j,
    {
        assert(files@.take(j + 1).drop_last() == files@.take(j as int));
        assert(files@.take(j + 1).last() == files@[j as int]);
        if j < results.len() && results[j].is_err() {
            let ghost before = crate::text::texts(failed@);
            failed.push(files[j].path.clone());
            assert(crate::text::texts(failed@) =~= before.push(files@[j as int].path@));
        }
        j += 1;
    }
    assert(files@.take(files.len() as int) == files@);
    Report {
        created,
        skipped: if classified_count >= created {
            classified_count - created
        } else {
            0
        },
        failed,
    }
}

/// With no category in the catalogue every file fails, and the report names
/// them all.
pub proof fn lemma_no_category_fails_every_file(
    publication_path: Seq<char>,
    files: Seq<File>,
    results: Seq<Result<(File, CategoryId), ScannerError>>,
)
    requires
        results.len() == files.len(),
        forall|i: int|
            0 <= i < files.len() ==> classified(
                publication_path,
                Seq::<Category>::empty(),
                files[i],
                #[trigger] results[i],
            ),
    ensures
        forall|i: int|
            0 <= i < results.len() ==> #[trigger] results[i] == Err::<
                (File, CategoryId),
                ScannerError,
            >(ScannerError::EmptyCategoryError),
        successes(results) == Seq::<(File, CategoryId)>::empty(),
        failures(files, results) == files.map_values(|f: File| f.path@),
    decreases files.len(),
{
    assert forall|i: int| 0 <= i < results.len() implies #[trigger] results[i] == Err::<
        (File, CategoryId),
        ScannerError,
    >(ScannerError::EmptyCategoryError) by {
        assert(classified(publication_path, Seq::<Category>::empty(), files[i], results[i]));
        assert(names_of(Seq::<Category>::empty()).len() == 0);
    }
    lemma_all_failed(files, results);
}

proof fn lemma_all_failed(files: Seq<File>, results: Seq<Result<(File, CategoryId), ScannerError>>)
    requires
        files.len() <= results.len(),
        forall|i: int| 0 <= i < results.len() ==> (#[trigger] results[i]) is Err,
    ensures
        successes(results) == Seq::<(File, CategoryId)>::empty(),
        failures(files, results) == files.map_values(|f: File| f.path@),
    decreases files.len() + results.len(),
{
    if results.len() > 0 {
        assert(results.last() is Err);
        if files.len() == results.len() {
            lemma_all_failed(files.drop_last(), results.drop_last());
        } else {
            lemma_all_failed(files, results.drop_last());
        }
    }
    if files.len() > 0 {
        lemma_all_failed(files.drop_last(), results);
        assert(failures(files, results) =~= files.map_values(|f: File| f.path@));
    } else {
        assert(failures(files, results) =~= files.map_values(|f: File| f.path@));
    }
}

} // verus!
