//! The order of a run: what it waits for at each point, and what it asks
//! for next.
//!
//! A run gathers, deduplicates, creates, links and enriches. Whoever drives
//! it does what the run asks and tells it what came of that.

use vstd::prelude::*;
use vstd::string::*;
use crate::config::Config;
use crate::models;
use crate::models::{NewPublication, Publication, PublicationCategory};
use crate::scan::actor::load_metadata::LoadMetadata;
use crate::scan::actor::process_file::classified;
use crate::scan::actor::scan_folder::{scanned_paths, Entry, ScanFolder};
use crate::scan::actor::{extension_of, CategoryId, File};
use crate::scan::error::ScannerError;
use crate::scanner::{
    classifier_categories, correlate, correlated, first_by_path, fresh, links_of, process_files,
    report, save_publication, save_publication_categories, select_new, successes, sums_up,
    update_metadata, Batch, Report,
};

verus! {

/// Where a run stands: what it is waiting for, and what it keeps for later.
#[derive(Debug, Clone, PartialEq, Eq)]
pub enum Run {
    /// Waiting for the catalogue's categories and for the walk of the tree.
    Gathering { config: Config, publication_path: String },
    /// Waiting to hear which paths the catalogue holds.
    Deduplicating {
        config: Config,
        files: Vec<File>,
        results: Vec<Result<(File, CategoryId), ScannerError>>,
        batch: Batch,
    },
    /// Waiting for the catalogue to create the new publications.
    Creating {
        config: Config,
        files: Vec<File>,
        results: Vec<Result<(File, CategoryId), ScannerError>>,
        file_map: Vec<(String, CategoryId)>,
    },
    /// Waiting for the catalogue to write the links.
    Linking { config: Config, summary: Report, publications: Vec<(Publication, CategoryId)> },
    /// Waiting for enrichment to end.
    Enriching { summary: Report },
    /// The run is over.
    Ended,
}

/// What a run is told.
#[derive(Debug, Clone, PartialEq, Eq)]
pub enum Event {
    /// The categories of the catalogue, and the steps of the walk; nothing
    /// where the catalogue did not answer or the root could not be read.
    Gathered { categories: Option<Vec<models::Category>>, walk: Option<Vec<Option<Entry>>> },
    /// The paths that the catalogue holds, or nothing where it did not answer.
    Existing { paths: Option<Vec<String>> },
    /// The publications that the catalogue created, or nothing where it
    /// failed.
    Created { publications: Option<Vec<Publication>> },
    /// Whether the links were written.
    Linked { written: bool },
    /// Every publication has been through enrichment.
    Enriched,
}

/// What a run asks for next.
#[derive(Debug, Clone, PartialEq, Eq)]
pub enum Action {
    /// Read the categories and walk the tree.
    Gather { publication_path: String },
    /// Read the paths that the catalogue holds.
    FindExisting,
    /// Create these publications, all at once.
    Create { publications: Vec<NewPublication> },
    /// Write these links, all at once.
    Link { links: Vec<PublicationCategory> },
    /// Enrich each of these publications and store what comes of it.
    Enrich { requests: Vec<LoadMetadata> },
    /// The run is over; this is how it went.
    Finish { summary: Report },
    /// The run is over; it failed as a whole.
    Fail { error: ScannerError },
}

/// The run has ended in failure.
pub open spec fn fails(after: Run, action: Action, error: ScannerError) -> bool {
    after == Run::Ended && action == (Action::Fail { error })
}

/// What a run holds once it has gathered: the publication files of the
/// walk, the outcome of classifying each of them, and the batch of new
/// publications that these outcomes make.
pub open spec fn gathers(
    publication_path: Seq<char>,
    rows: Seq<models::Category>,
    walk: Seq<Option<Entry>>,
    files: Seq<File>,
    results: Seq<Result<(File, CategoryId), ScannerError>>,
    batch: Batch,
) -> bool {
    &&& files.map_values(|f: File| f.path@) == scanned_paths(publication_path, walk)
    &&& forall|k: int|
        0 <= k < files.len() ==> (#[trigger] files[k]).extension@ == extension_of(files[k].path@)
    &&& results.len() == files.len()
    &&& forall|i: int|
        0 <= i < files.len() ==> classified(
            publication_path,
            classifier_categories(rows),
            files[i],
            #[trigger] results[i],
        )
    &&& batch.holds(first_by_path(successes(results)))
}

/// One step of a run: what it goes on to and asks for, given where it stood
/// and what it was told.
///
/// A run gathers, deduplicates, creates, links and enriches, in this order.
/// A catalogue that does not answer, or a root that cannot be read, ends the
/// run in failure, and so does anything that comes out of turn. Files that
/// cannot be classified do not: they are named in the summary.
pub open spec fn steps(before: Run, event: Event, after: Run, action: Action) -> bool {
    match (before, event) {
        (Run::Gathering { config, publication_path }, Event::Gathered { categories, walk }) => {
            match (walk, categories) {
                (None, _) => fails(after, action, ScannerError::RootInaccessible),
                (Some(_), None) => fails(after, action, ScannerError::CatalogueError),
                (Some(taken), Some(rows)) => {
                    &&& action == Action::FindExisting
                    &&& after matches Run::Deduplicating { config: kept, files, results, batch }
                    &&& kept == config
                    &&& gathers(publication_path@, rows@, taken@, files@, results@, batch)
                },
            }
        },
        (Run::Deduplicating { config, files, results, batch }, Event::Existing { paths }) => {
            match paths {
                None => fails(after, action, ScannerError::CatalogueError),
                Some(existing) => {
                    &&& after == (Run::Creating { config, files, results, file_map: batch.file_map })
                    &&& action matches Action::Create { publications }
                    &&& publications@ == fresh(batch.publications@, existing@)
                },
            }
        },
        (Run::Creating { config, files, results, file_map }, Event::Created { publications }) => {
            match publications {
                None => fails(after, action, ScannerError::CatalogueError),
                Some(rows) => {
                    &&& after matches Run::Linking { config: kept, summary, publications: pairs }
                    &&& kept == config
                    &&& pairs@ == correlated(rows@, file_map@)
                    &&& sums_up(summary, files@, results@, pairs.len())
                    &&& action matches Action::Link { links }
                    &&& links@ == links_of(pairs@)
                },
            }
        },
        (Run::Linking { config, summary, publications }, Event::Linked { written }) => {
            if written {
                &&& after == (Run::Enriching { summary })
                &&& action matches Action::Enrich { requests }
                &&& requests.len() == publications.len()
                &&& forall|k: int|
                    0 <= k < requests.len() ==> (#[trigger] requests[k]).publication
                        == publications[k].0 && requests[k].category_id == publications[k].1
                        && requests[k].config == config
            } else {
                fails(after, action, ScannerError::CatalogueError)
            }
        },
        (Run::Enriching { summary }, Event::Enriched) => {
            after == Run::Ended && action == (Action::Finish { summary })
        },
        _ => fails(after, action, ScannerError::OutOfTurn),
    }
}

impl Run {
    /// Starts a run on the tree below `publication_path`.
    pub fn start(config: Config, publication_path: String) -> (out: (Run, Action))
        ensures
            out.0 == (Run::Gathering { config, publication_path }),
            out.1 == (Action::Gather { publication_path }),
    {
        let asked = publication_path.clone();
        (Run::Gathering { config, publication_path }, Action::Gather { publication_path: asked })
    }

    /// Takes one step.
    #[verifier::rlimit(40)]
    pub fn step(self, event: Event) -> (out: (Run, Action))
        ensures
            steps(self, event, out.0, out.1),
    {
        match (self, event) {
            (Run::Gathering { config, publication_path }, Event::Gathered { categories, walk }) => {
                let scan = ScanFolder { publication_path };
                let files = match scan.handle(walk.as_ref()) {
                    Ok(files) => files,
                    Err(error) => {
                        return (Run::Ended, Action::Fail { error });
                    },
                };
                let rows = match categories {
                    Some(rows) => rows,
                    None => {
                        return (Run::Ended, Action::Fail { error: ScannerError::CatalogueError });
                    },
                };
                let results = process_files(scan.publication_path.as_str(), &rows, &files);
                let batch = save_publication(&results);
                (Run::Deduplicating { config, files, results, batch }, Action::FindExisting)
            },
            (Run::Deduplicating { config, files, results, batch }, Event::Existing { paths }) => {
                match paths {
                    None => (Run::Ended, Action::Fail { error: ScannerError::CatalogueError }),
                    Some(existing) => {
                        let publications = select_new(batch.publications, &existing);
                        (
                            Run::Creating { config, files, results, file_map: batch.file_map },
                            Action::Create { publications },
                        )
                    },
                }
            },
            (
                Run::Creating { config, files, results, file_map },
                Event::Created { publications },
            ) => {
                match publications {
                    None => (Run::Ended, Action::Fail { error: ScannerError::CatalogueError }),
                    Some(rows) => {
                        let pairs = correlate(rows, &file_map);
                        let links = save_publication_categories(&pairs);
                        let summary = report(&files, &results, pairs.len());
                        (
                            Run::Linking { config, summary, publications: pairs },
                            Action::Link { links },
                        )
                    },
                }
            },
            (Run::Linking { config, summary, publications }, Event::Linked { written }) => {
                if written {
                    let requests = update_metadata(&config, publications);
                    (Run::Enriching { summary }, Action::Enrich { requests })
                } else {
                    (Run::Ended, Action::Fail { error: ScannerError::CatalogueError })
                }
            },
            (Run::Enriching { summary }, Event::Enriched) => {
                (Run::Ended, Action::Finish { summary })
            },
            _ => (Run::Ended, Action::Fail { error: ScannerError::OutOfTurn }),
        }
    }
}

} // verus!
