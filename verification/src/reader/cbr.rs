//! The reader of RAR archives on their own.

use vstd::prelude::*;
use vstd::string::*;
use crate::models::Publication;
use crate::reader::models::Data;

use crate::unzip::{listed, nth_extraction, unzip_nth, ArchiveEntry, Extraction};

verus! {

/// What can go wrong while reading a RAR archive.
#[derive(Debug, Clone, PartialEq, Eq)]
pub enum CbrError {
    /// The archive cannot be read.
    RarError,
    /// The page exists but cannot be taken out of the archive.
    PageError,
    /// The archive has no page of that number.
    PageNotFound,
    GenericError(String),
}

impl CbrError {
    /// The error as shown to users.
    pub open spec fn spec_message(&self) -> Seq<char> {
        match *self {
            CbrError::RarError => "RarError"@,
            CbrError::PageError => "PageError"@,
            CbrError::PageNotFound => "PageNotFound"@,
            CbrError::GenericError(err) => "GenericError: "@ + err@,
        }
    }

    /// The error as shown to users.
    pub fn message(&self) -> (text: String)
        ensures
            text@ == self.spec_message(),
    {
        match self {
            CbrError::RarError => "RarError".to_owned(),
            CbrError::PageError => "PageError".to_owned(),
            CbrError::PageNotFound => "PageNotFound".to_owned(),
            CbrError::GenericError(err) => "GenericError: ".to_owned().concat(err.as_str()),
        }
    }
}

/// Opens a RAR archive for reading, given what listing it gave: every entry
/// counts as one page, and an archive that cannot be listed is a `RarError`.
pub fn open(the_publication: &Publication, listing: Option<&Vec<ArchiveEntry>>) -> (outcome: Result<
    Data,
    CbrError,
>)
    ensures
        match listing {
            Some(entries) => outcome is Ok && outcome->Ok_0.describes(the_publication, entries.len()),
            None => outcome == Err::<Data, CbrError>(CbrError::RarError),
        },
{
    match listing {
        Some(entries) => Ok(Data::of(the_publication, entries.len())),
        None => Err(CbrError::RarError),
    }
}

/// Finds page `page_number` among the entries of a RAR archive, counting from
/// 0 in dictionary order of the names: `PageNotFound` past the last page,
/// `PageError` for an entry that cannot be written below `extract_location`.
pub fn page(entries: &Vec<ArchiveEntry>, page_number: usize, extract_location: &str) -> (outcome: Result<
    Extraction,
    CbrError,
>)
    ensures
        match outcome {
            Ok(plan) => nth_extraction(listed(entries@), extract_location@, page_number as int)
                == Some((plan.name@, plan.target@)),
            Err(e) => nth_extraction(listed(entries@), extract_location@, page_number as int)
                is None && e == (if page_number >= entries.len() {
                CbrError::PageNotFound
            } else {
                CbrError::PageError
            }),
        },
{
    match unzip_nth(entries, extract_location, page_number) {
        Ok(plan) => Ok(plan),
        Err(_) => if page_number >= entries.len() {
            Err(CbrError::PageNotFound)
        } else {
            Err(CbrError::PageError)
        },
    }
}

} // verus!
