//! Which entry of an archive to take out, and where to put it.
//!
//! An archive is known here by what listing it gave: for each entry its name
//! and the relative path that the archive's reader gives for writing it.
//! Entries are numbered by their place in dictionary order of their names,
//! never by their place in the archive, so that a number keeps its meaning
//! whichever way an archive is read.

use vstd::prelude::*;
use vstd::string::*;
use crate::text::{
    chars_of, components, is_prefix, join_path, joined, path_components, same_text, sort_names,
    sorted_names, texts,
};

verus! {

/// Why an entry cannot be taken out of an archive.
#[derive(Debug, Clone, Copy, PartialEq, Eq, Structural)]
pub enum UnzipError {
    /// There is no such entry, or the entry is not a file that can be
    /// written below the output directory.
    FileNotFound,
}

/// One entry of an archive, as listing the archive gave it.
#[derive(Debug, Clone, PartialEq, Eq)]
pub struct ArchiveEntry {
    /// The entry's name in the archive.
    pub name: String,
    /// The relative path that the archive's reader gives for writing the
    /// entry below a directory of one's choice.
    pub path: String,
}

/// One entry to take out of an archive.
#[derive(Debug, Clone, PartialEq, Eq)]
pub struct Extraction {
    /// The entry's name in the archive.
    pub name: String,
    /// The path of the file that receives the entry's contents.
    pub target: String,
}

/// The names and relative paths of a listing.
pub open spec fn listed(entries: Seq<ArchiveEntry>) -> Seq<(Seq<char>, Seq<char>)> {
    entries.map_values(|e: ArchiveEntry| (e.name@, e.path@))
}

/// The names of a listing.
pub open spec fn names_of(listing: Seq<(Seq<char>, Seq<char>)>) -> Seq<Seq<char>> {
    listing.map_values(|e: (Seq<char>, Seq<char>)| e.0)
}

/// The relative path of the first entry called `name`.
pub open spec fn path_of(listing: Seq<(Seq<char>, Seq<char>)>, name: Seq<char>) -> Option<
    Seq<char>,
>
    decreases listing.len(),
{
    if listing.len() == 0 {
        None
    } else if listing[0].0 == name {
        Some(listing[0].1)
    } else {
        path_of(listing.drop_first(), name)
    }
}

/// A component that names something, unlike `.` and `..`.
pub open spec fn is_plain(part: Seq<char>) -> bool {
    part != seq!['.'] && part != seq!['.', '.']
}

/// A relative path that may be appended to the output directory: it names
/// something, it does not start at the root, and none of its components is
/// `.` or `..`, so it cannot climb out of the directory it is appended to.
pub open spec fn is_usable(path: Seq<char>) -> bool {
    &&& components(path).len() > 0
    &&& path[0] != '/'
    &&& forall|k: int| 0 <= k < components(path).len() ==> is_plain(#[trigger] components(path)[k])
}

/// An entry whose name ends in a slash stands for a directory.
pub open spec fn is_directory_name(name: Seq<char>) -> bool {
    name.len() > 0 && name.last() == '/'
}

/// Where the entry called `name`, with relative path `path`, goes below
/// `output_path`, if it is a file and its path is usable.
pub open spec fn target_of(output_path: Seq<char>, name: Seq<char>, path: Seq<char>) -> Option<
    Seq<char>,
> {
    if is_directory_name(name) || !is_usable(path) {
        None
    } else {
        Some(joined(output_path, path))
    }
}

/// An entry never goes outside the output directory: its target starts with
/// the output path, and what follows holds no `.` and no `..`.
pub proof fn lemma_target_stays_below(output_path: Seq<char>, name: Seq<char>, path: Seq<char>)
    requires
        target_of(output_path, name, path) is Some,
    ensures
        is_prefix(output_path, target_of(output_path, name, path)->Some_0),
        forall|k: int| 0 <= k < components(path).len() ==> is_plain(#[trigger] components(path)[k]),
{
    let target = joined(output_path, path);
    crate::text::lemma_components_hold_text(path);
    assert(components(path)[0].len() > 0);
    assert(path.len() > 0) by {
        if path.len() == 0 {
            assert(components(path).len() == 0);
        }
    }
    assert(target.take(output_path.len() as int) =~= output_path);
}

/// Whether a relative path may be appended to the output directory.
pub fn usable(path: &str) -> (yes: bool)
    ensures
        yes == is_usable(path@),
{
    let chars = chars_of(path);
    let parts = path_components(path);
    let ghost all = texts(parts@);
    if parts.len() == 0 {
        return false;
    }
    proof {
        if chars.len() == 0 {
            assert(components(path@).len() == 0);
        }
    }
    if chars[0] == '/' {
        return false;
    }
    let mut i: usize = 0;
    while i < parts.len()
        invariant
            i <= parts.len(),
            all == texts(parts@),
            all == components(path@),
            forall|k: int| 0 <= k < i ==> is_plain(#[trigger] all[k]),
        decreases parts.len() - i,
    {
        let part = chars_of(parts[i].as_str());
        assert(all[i as int] == part@);
        let dot = part.len() == 1 && part[0] == '.';
        let dots = part.len() == 2 && part[0] == '.' && part[1] == '.';
        proof {
            if dot {
                assert(part@ =~= seq!['.']);
            }
            if dots {
                assert(part@ =~= seq!['.', '.']);
            }
        }
        if dot || dots {
            assert(!is_plain(all[i as int]));
            return false;
        }
        i += 1;
    }
    true
}

/// Computes where an entry goes below the output directory. Directory entries
/// and entries without a usable path are refused.
pub fn entry_target(output_path: &str, name: &str, path: &str) -> (target: Result<String, UnzipError>)
    ensures
        match target {
            Ok(file) => target_of(output_path@, name@, path@) == Some(file@),
            Err(e) => target_of(output_path@, name@, path@) is None && e
                == UnzipError::FileNotFound,
        },
{
    let chars = chars_of(name);
    if chars.len() > 0 && chars[chars.len() - 1] == '/' {
        return Err(UnzipError::FileNotFound);
    }
    if !usable(path) {
        return Err(UnzipError::FileNotFound);
    }
    Ok(join_path(output_path, path))
}

/// Looks up the relative path of the first entry called `name`.
pub fn entry_path<'a>(entries: &'a Vec<ArchiveEntry>, name: &str) -> (found: Option<&'a str>)
    ensures
        match found {
            Some(path) => path_of(listed(entries@), name@) == Some(path@),
            None => path_of(listed(entries@), name@) is None,
        },
{
    let ghost all = listed(entries@);
    let mut i: usize = 0;
    assert(all.skip(0) == all);
    while i < entries.len()
        invariant
            i <= entries.len(),
            all == listed(entries@),
            path_of(all, name@) == path_of(all.skip(i as int), name@),
        decreases entries.len() - i,
    {
        assert(all.skip(i as int).drop_first() == all.skip(i + 1));
        assert(all.skip(i as int)[0] == (entries@[i as int].name@, entries@[i as int].path@));
        if same_text(entries[i].name.as_str(), name) {
            return Some(entries[i].path.as_str());
        }
        i += 1;
    }
    None
}

/// The entry that holds place `nth` among the names of a listing in
/// dictionary order, with the file it goes to, where that place exists and
/// the entry can be written.
pub open spec fn nth_extraction(
    listing: Seq<(Seq<char>, Seq<char>)>,
    output_path: Seq<char>,
    nth: int,
) -> Option<(Seq<char>, Seq<char>)> {
    if 0 <= nth < listing.len() {
        let name = sorted_names(names_of(listing))[nth];
        match path_of(listing, name) {
            Some(path) => match target_of(output_path, name, path) {
                Some(target) => Some((name, target)),
                None => None,
            },
            None => None,
        }
    } else {
        None
    }
}

/// Picks entry number `nth`, counting from 0 in dictionary order of the
/// names, and says where below `output_path` it is to be written.
pub fn unzip_nth(entries: &Vec<ArchiveEntry>, output_path: &str, nth: usize) -> (out: Result<
    Extraction,
    UnzipError,
>)
    ensures
        match out {
            Ok(e) => nth_extraction(listed(entries@), output_path@, nth as int) == Some(
                (e.name@, e.target@),
            ),
            Err(e) => nth_extraction(listed(entries@), output_path@, nth as int) is None && e
                == UnzipError::FileNotFound,
        },
{
    let ghost all = listed(entries@);
    let mut names: Vec<String> = Vec::new();
    let mut i: usize = 0;
    while i < entries.len()
        invariant
            i <= entries.len(),
            all == listed(entries@),
            texts(names@) == names_of(all).take(i as int),
        decreases entries.len() - i,
    {
        let ghost before = texts(names@);
        names.push(entries[i].name.clone());
        assert(texts(names@) =~= before.push(entries@[i as int].name@));
        assert(texts(names@) =~= names_of(all).take(i + 1));
        i += 1;
    }
    assert(texts(names@) =~= names_of(all));
    let sorted = sort_names(&names);
    proof {
        crate::text::lemma_sorted_names(names_of(all));
        assert(texts(sorted@).len() == sorted@.len());
    }
    if nth >= sorted.len() {
        return Err(UnzipError::FileNotFound);
    }
    let name = sorted[nth].clone();
    assert(texts(sorted@)[nth as int] == name@);
    match entry_path(entries, name.as_str()) {
        None => Err(UnzipError::FileNotFound),
        Some(path) => match entry_target(output_path, name.as_str(), path) {
            Ok(target) => Ok(Extraction { name, target }),
            Err(e) => Err(e),
        },
    }
}

/// What taking out every entry of a listing, in the order given, comes to:
/// the list of entries with their targets, unless one of them is refused.
pub open spec fn all_extractions(
    listing: Seq<(Seq<char>, Seq<char>)>,
    output_path: Seq<char>,
) -> Option<Seq<(Seq<char>, Seq<char>)>>
    decreases listing.len(),
{
    if listing.len() == 0 {
        Some(Seq::empty())
    } else {
        match (
            all_extractions(listing.drop_last(), output_path),
            target_of(output_path, listing.last().0, listing.last().1),
        ) {
            (Some(init), Some(target)) => Some(init.push((listing.last().0, target))),
            _ => None,
        }
    }
}

/// The names and targets of a list of extractions.
pub open spec fn extraction_pairs(v: Seq<Extraction>) -> Seq<(Seq<char>, Seq<char>)> {
    v.map_values(|e: Extraction| (e.name@, e.target@))
}

/// Plans taking out the whole archive below `output_path`. A single entry
/// that is refused fails the archive.
pub fn unzip(entries: &Vec<ArchiveEntry>, output_path: &str) -> (out: Result<
    Vec<Extraction>,
    UnzipError,
>)
    ensures
        match out {
            Ok(list) => all_extractions(listed(entries@), output_path@) == Some(
                extraction_pairs(list@),
            ),
            Err(e) => all_extractions(listed(entries@), output_path@) is None && e
                == UnzipError::FileNotFound,
        },
{
    let ghost all = listed(entries@);
    let mut list: Vec<Extraction> = Vec::new();
    let mut i: usize = 0;
    proof {
        assert(all.take(0) == Seq::<(Seq<char>, Seq<char>)>::empty());
        assert(extraction_pairs(list@) == Seq::<(Seq<char>, Seq<char>)>::empty());
    }
    while i < entries.len()
        invariant
            i <= entries.len(),
            all == listed(entries@),
            all_extractions(all.take(i as int), output_path@) == Some(extraction_pairs(list@)),
        decreases entries.len() - i,
    {
        proof {
            assert(all.take(i + 1).drop_last() == all.take(i as int));
            assert(all.take(i + 1).last() == (entries@[i as int].name@, entries@[i as int].path@));
        }
        match entry_target(output_path, entries[i].name.as_str(), entries[i].path.as_str()) {
            Ok(target) => {
                let ghost before = extraction_pairs(list@);
                let name = entries[i].name.clone();
                list.push(Extraction { name, target });
                assert(extraction_pairs(list@) =~= before.push(
                    (entries@[i as int].name@, target@),
                ));
            },
            Err(e) => {
                proof {
                    lemma_refusal_is_final(all, output_path@, i as int);
                }
                return Err(e);
            },
        }
        i += 1;
    }
    assert(all.take(entries.len() as int) == all);
    Ok(list)
}

/// Once an entry is refused, no longer listing can be taken out.
pub proof fn lemma_refusal_is_final(
    listing: Seq<(Seq<char>, Seq<char>)>,
    output_path: Seq<char>,
    i: int,
)
    requires
        0 <= i < listing.len(),
        target_of(output_path, listing[i].0, listing[i].1) is None,
    ensures
        all_extractions(listing, output_path) is None,
    decreases listing.len(),
{
    if i < listing.len() - 1 {
        assert(listing.drop_last()[i] == listing[i]);
        lemma_refusal_is_final(listing.drop_last(), output_path, i);
    }
}

} // verus!
