//! The reader of reflowable books.
//!
//! A book's pages are text, handed over as they are; nothing of them is kept
//! on disk. The files inside a book (images, style sheets) are served from
//! the publication's cache directory, which is filled from the book the first
//! time one of them is missing.

use vstd::prelude::*;
use vstd::string::*;
use crate::config::Config;
use crate::models::Publication;
use crate::reader::comic::{extract_location, generate_extract_location};
use crate::reader::models::Data;
use crate::text::{join_path, joined};

verus! {

/// What can go wrong while reading a book.
#[derive(Debug, Clone, PartialEq, Eq)]
pub enum EpubError {
    /// The book cannot be read; the text says why.
    EpubError(String),
    PageError,
    /// The book has no page of that number.
    PageNotFound,
    /// The book holds no file of that path.
    FileNotFound,
    /// The book cannot be unpacked; the text says why.
    ZipError(String),
    GenericError(String),
}

impl EpubError {
    /// The error as shown to users.
    pub open spec fn spec_message(&self) -> Seq<char> {
        match *self {
            EpubError::EpubError(err) => "EpubError: "@ + err@,
            EpubError::PageError => "PageError"@,
            EpubError::PageNotFound => "PageNotFound"@,
            EpubError::FileNotFound => "FileNotFound"@,
            EpubError::ZipError(err) => "ZipError: "@ + err@,
            EpubError::GenericError(err) => "GenericError: "@ + err@,
        }
    }

    /// The error as shown to users.
    pub fn message(&self) -> (text: String)
        ensures
            text@ == self.spec_message(),
    {
        match self {
            EpubError::EpubError(err) => "EpubError: ".to_owned().concat(err.as_str()),
            EpubError::PageError => "PageError".to_owned(),
            EpubError::PageNotFound => "PageNotFound".to_owned(),
            EpubError::FileNotFound => "FileNotFound".to_owned(),
            EpubError::ZipError(err) => "ZipError: ".to_owned().concat(err.as_str()),
            EpubError::GenericError(err) => "GenericError: ".to_owned().concat(err.as_str()),
        }
    }
}

/// Opens a book for reading, given what reading it gave: its number of
/// pages, or the reason why it cannot be read.
pub fn open(the_publication: &Publication, pages: Result<usize, String>) -> (outcome: Result<
    Data,
    EpubError,
>)
    ensures
        match pages {
            Ok(count) => outcome is Ok && outcome->Ok_0.describes(the_publication, count),
            Err(why) => outcome == Err::<Data, EpubError>(EpubError::EpubError(why)),
        },
{
    match pages {
        Ok(count) => Ok(Data::of(the_publication, count)),
        Err(why) => Err(EpubError::EpubError(why)),
    }
}

/// Answers a request for page `page_number` of a book of `total_pages`
/// pages, given the text that reading that page gave or the reason why it
/// gave none. A number past the last page is `PageNotFound`, whatever was
/// read.
pub fn page(page_number: usize, total_pages: usize, text: Result<String, String>) -> (outcome:
    Result<String, EpubError>)
    ensures
        outcome == (if page_number >= total_pages {
            Err::<String, EpubError>(EpubError::PageNotFound)
        } else {
            match text {
                Ok(t) => Ok::<String, EpubError>(t),
                Err(why) => Err::<String, EpubError>(EpubError::EpubError(why)),
            }
        }),
{
    if page_number >= total_pages {
        Err(EpubError::PageNotFound)
    } else {
        match text {
            Ok(t) => Ok(t),
            Err(why) => Err(EpubError::EpubError(why)),
        }
    }
}

/// Where a file from inside a book is kept once the book is unpacked.
#[derive(Debug, Clone, PartialEq, Eq)]
pub struct FilePlan {
    /// The publication's cache directory, into which the book is unpacked.
    pub location: String,
    /// The file to serve.
    pub filepath: String,
}

/// What to do about a file from inside a book.
#[derive(Debug, Clone, PartialEq, Eq)]
pub enum FileAction {
    /// The file is in the cache: serve it.
    Serve(String),
    /// The file is missing: unpack the book into the cache first.
    Unpack(FilePlan),
}

/// Plans serving the file at `path` inside a book: it is kept below the
/// publication's cache directory.
pub fn file(config: &Config, the_publication: &Publication, path: &str) -> (plan: FilePlan)
    ensures
        plan.location@ == extract_location(config.pustaka_home@, the_publication.id as int),
        plan.filepath@ == joined(plan.location@, path@),
{
    let location = generate_extract_location(config, the_publication);
    let filepath = join_path(location.as_str(), path);
    FilePlan { location, filepath }
}

/// The choice between the cache and the book: a file that is present is
/// served as it is; only for a missing one is the book unpacked.
pub open spec fn action_for(plan: FilePlan, present: bool) -> FileAction {
    if present {
        FileAction::Serve(plan.filepath)
    } else {
        FileAction::Unpack(plan)
    }
}

/// Decides between the cache and the book.
pub fn serve(plan: FilePlan, present: bool) -> (action: FileAction)
    ensures
        action == action_for(plan, present),
{
    if present {
        FileAction::Serve(plan.filepath)
    } else {
        FileAction::Unpack(plan)
    }
}

/// The answer to a request once the book has been unpacked: a failed
/// unpacking is a `ZipError`, a file that is still missing is
/// `FileNotFound`, and otherwise the file is there to serve.
pub open spec fn answer_after(
    plan: FilePlan,
    outcome: Result<(), String>,
    found: bool,
) -> Result<String, EpubError> {
    match outcome {
        Err(why) => Err(EpubError::ZipError(why)),
        Ok(_) => if found {
            Ok(plan.filepath)
        } else {
            Err(EpubError::FileNotFound)
        },
    }
}

/// Answers a request for a file whose book had to be unpacked: `outcome`
/// tells how unpacking went, `found` whether the file is there in the end.
pub fn unpacked(plan: FilePlan, outcome: Result<(), String>, found: bool) -> (answer: Result<
    String,
    EpubError,
>)
    ensures
        answer == answer_after(plan, outcome, found),
{
    match outcome {
        Err(why) => Err(EpubError::ZipError(why)),
        Ok(_) => if found {
            Ok(plan.filepath)
        } else {
            Err(EpubError::FileNotFound)
        },
    }
}

} // verus!
