//! The scanner: which of the entries of a directory tree are publications.

use vstd::prelude::*;
use vstd::string::*;
use crate::models::{CBR, CBZ, EPUB, PDF};
use crate::scan::actor::{extension_of, File};
use crate::scan::actor::process_file::classified_parts;
use crate::scan::error::ScannerError;
use crate::text::{chars_of, path_components, same_text, strip_root, texts};

verus! {

/// One entry that walking a directory tree came upon.
#[derive(Debug, Clone, PartialEq, Eq)]
pub struct Entry {
    /// The entry's path, which starts with the root of the walk.
    pub path: String,
    /// Whether the entry is a regular file.
    pub is_file: bool,
}

/// The extensions of the files that are publications.
pub open spec fn accepted_extension(extension: Seq<char>) -> bool {
    extension == CBR@ || extension == CBZ@ || extension == EPUB@ || extension == PDF@
}

/// A regular file whose extension is one of the accepted ones.
pub open spec fn accepted(entry: Entry) -> bool {
    entry.is_file && accepted_extension(extension_of(entry.path@))
}

/// A path is hidden when one of its components below the root of the scan
/// starts with a full stop: the file's own name, or the name of a directory
/// on the way to it.
pub open spec fn hidden(publication_path: Seq<char>, path: Seq<char>) -> bool {
    let parts = classified_parts(publication_path, path);
    exists|k: int| 0 <= k < parts.len() && #[trigger] parts[k][0] == '.'
}

/// Whether an entry is a publication file by type and extension.
pub fn is_accepted_file(entry: &Entry) -> (yes: bool)
    ensures
        yes == accepted(*entry),
{
    if !entry.is_file {
        return false;
    }
    let file = File::from(entry.path.as_str());
    let extension = file.extension.as_str();
    same_text(extension, CBR) || same_text(extension, CBZ) || same_text(extension, EPUB)
        || same_text(extension, PDF)
}

/// Whether an entry is in plain sight: true unless it is hidden.
pub fn ignore_dotfile(publication_path: &str, entry: &Entry) -> (visible: bool)
    ensures
        visible == !hidden(publication_path@, entry.path@),
{
    let relative = strip_root(entry.path.as_str(), publication_path);
    let parts = path_components(relative);
    let ghost all = texts(parts@);
    let mut i: usize = 0;
    proof {
        crate::text::lemma_components_hold_text(relative@);
    }
    while i < parts.len()
        invariant
            i <= parts.len(),
            all == texts(parts@),
            all == classified_parts(publication_path@, entry.path@),
            crate::text::hold_text(all),
            forall|k: int| 0 <= k < i ==> (#[trigger] all[k])[0] != '.',
        decreases parts.len() - i,
    {
        let part = chars_of(parts[i].as_str());
        assert(all[i as int] == part@);
        if part[0] == '.' {
            return false;
        }
        i += 1;
    }
    true
}

/// The entries that a scan keeps: publication files in plain sight.
pub open spec fn selected(publication_path: Seq<char>, entry: Entry) -> bool {
    accepted(entry) && !hidden(publication_path, entry.path@)
}

/// Whether a step of the walk gave an entry that the scan keeps. A step that
/// failed (an unreadable directory, a broken link) keeps nothing.
pub open spec fn kept(publication_path: Seq<char>, step: Option<Entry>) -> bool {
    match step {
        Some(entry) => selected(publication_path, entry),
        None => false,
    }
}

/// The paths of the files that a scan gives for a walk, in the order of the
/// walk.
pub open spec fn scanned_paths(publication_path: Seq<char>, walk: Seq<Option<Entry>>) -> Seq<
    Seq<char>,
> {
    walk.filter(|step: Option<Entry>| kept(publication_path, step)).map_values(
        |step: Option<Entry>| step->Some_0.path@,
    )
}

/// A request to scan the tree below `publication_path`.
#[derive(Debug, Clone, PartialEq, Eq)]
pub struct ScanFolder {
    pub publication_path: String,
}

impl ScanFolder {
    /// Picks the publication files out of what walking the tree gave. A walk
    /// that could not start, because the root cannot be read, fails the scan
    /// with `RootInaccessible`. Steps of the walk that failed are passed over.
    /// Each file is recorded with its path and the extension of its name, in
    /// the order of the walk.
    pub fn handle(&self, walk: Option<&Vec<Option<Entry>>>) -> (outcome: Result<
        Vec<File>,
        ScannerError,
    >)
        ensures
            match (walk, outcome) {
                (None, Err(e)) => e == ScannerError::RootInaccessible,
                (Some(steps), Ok(files)) => {
                    &&& files@.map_values(|f: File| f.path@) == scanned_paths(
                        self.publication_path@,
                        steps@,
                    )
                    &&& forall|k: int|
                        0 <= k < files.len() ==> (#[trigger] files[k]).extension@ == extension_of(
                            files[k].path@,
                        )
                },
                _ => false,
            },
    {
        let steps = match walk {
            Some(steps) => steps,
            None => {
                return Err(ScannerError::RootInaccessible);
            },
        };
        let ghost keep = |step: Option<Entry>| kept(self.publication_path@, step);
        let ghost path_of = |step: Option<Entry>| step->Some_0.path@;
        let ghost file_path = |f: File| f.path@;
        let mut files: Vec<File> = Vec::new();
        let mut i: usize = 0;
        proof {
            reveal(Seq::filter);
            assert(steps@.take(0) == Seq::<Option<Entry>>::empty());
            assert(files@.map_values(file_path) =~= steps@.take(0).filter(keep).map_values(
                path_of,
            ));
        }
        while i < steps.len()
            invariant
                i <= steps.len(),
                keep == (|step: Option<Entry>| kept(self.publication_path@, step)),
                path_of == (|step: Option<Entry>| step->Some_0.path@),
                file_path == (|f: File| f.path@),
                files@.map_values(file_path) == steps@.take(i as int).filter(keep).map_values(
                    path_of,
                ),
                forall|k: int|
                    0 <= k < files.len() ==> (#[trigger] files[k]).extension@ == extension_of(
                        files[k].path@,
                    ),
            decreases steps.len() - i,
        {
            proof {
                reveal(Seq::filter);
                assert(steps@.take(i + 1).drop_last() == steps@.take(i as int));
                assert(steps@.take(i + 1).last() == steps@[i as int]);
            }
            match &steps[i] {
                Some(entry) => {
                    let keeps = is_accepted_file(entry) && ignore_dotfile(
                        self.publication_path.as_str(),
                        entry,
                    );
                    assert(keeps == keep(steps@[i as int]));
                    if keeps {
                        let ghost before = files@.map_values(file_path);
                        let ghost earlier = steps@.take(i as int).filter(keep);
                        files.push(File::from(entry.path.as_str()));
                        assert(files@.map_values(file_path) =~= before.push(entry.path@));
                        assert(earlier.push(steps@[i as int]).map_values(path_of)
                            =~= earlier.map_values(path_of).push(entry.path@));
                    }
                },
                None => {
                    assert(!keep(steps@[i as int]));
                },
            }
            i += 1;
        }
        assert(steps@.take(steps.len() as int) == steps@);
        Ok(files)
    }
}

} // verus!
