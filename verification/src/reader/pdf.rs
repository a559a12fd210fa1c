//! Portable documents, which are catalogued but cannot be read page by page.

use vstd::prelude::*;
use vstd::string::*;
use crate::config::Config;
use crate::models::Publication;
use crate::reader::comic::{extract_location, generate_extract_location};
use crate::reader::epub::FilePlan;
use crate::reader::models::Data;
use crate::text::{join_path, joined};

verus! {

/// What can go wrong while reading a document.
#[derive(Debug, Clone, PartialEq, Eq)]
pub enum PdfError {
    /// The document cannot be read; the text says why.
    PdfError(String),
    PageError,
    PageNotFound,
    FileNotFound,
    ZipError(String),
    GenericError(String),
}

impl PdfError {
    /// The error as shown to users.
    pub open spec fn spec_message(&self) -> Seq<char> {
        match *self {
            PdfError::PdfError(err) => "PdfError: "@ + err@,
            PdfError::PageError => "PageError"@,
            PdfError::PageNotFound => "PageNotFound"@,
            PdfError::FileNotFound => "FileNotFound"@,
            PdfError::ZipError(err) => "ZipError: "@ + err@,
            PdfError::GenericError(err) => "GenericError: "@ + err@,
        }
    }

    /// The error as shown to users.
    pub fn message(&self) -> (text: String)
        ensures
            text@ == self.spec_message(),
    {
        match self {
            PdfError::PdfError(err) => "PdfError: ".to_owned().concat(err.as_str()),
            PdfError::PageError => "PageError".to_owned(),
            PdfError::PageNotFound => "PageNotFound".to_owned(),
            PdfError::FileNotFound => "FileNotFound".to_owned(),
            PdfError::ZipError(err) => "ZipError: ".to_owned().concat(err.as_str()),
            PdfError::GenericError(err) => "GenericError: ".to_owned().concat(err.as_str()),
        }
    }
}

/// Opens a document. Its pages are not counted: the answer tells what the
/// catalogue holds and counts no page.
pub fn open(the_publication: &Publication) -> (outcome: Result<Data, PdfError>)
    ensures
        outcome is Ok,
        outcome->Ok_0.describes(the_publication, 0),
{
    Ok(Data::of(the_publication, 0))
}

/// Pages of a document are not served: the answer is always the error that
/// says so.
pub fn page(the_publication: &Publication, page_number: usize) -> (outcome: Result<
    String,
    PdfError,
>)
    ensures
        outcome is Err,
        outcome->Err_0 is GenericError,
        outcome->Err_0->GenericError_0@ == "Reading page is not supported for PDF"@,
{
    Err(PdfError::GenericError("Reading page is not supported for PDF".to_owned()))
}

/// Plans serving the file at `path` from a document's cache directory, as
/// for a book.
pub fn file(config: &Config, the_publication: &Publication, path: &str) -> (plan: FilePlan)
    ensures
        plan.location@ == extract_location(config.pustaka_home@, the_publication.id as int),
        plan.filepath@ == joined(plan.location@, path@),
{
    let location = generate_extract_location(config, the_publication);
    let filepath = join_path(location.as_str(), path);
    FilePlan { location, filepath }
}

/// The answer to a request once the document has been unpacked: a failed
/// unpacking is a `ZipError`, a file that is still missing is
/// `FileNotFound`, and otherwise the file is there to serve.
pub open spec fn answer_after(
    plan: FilePlan,
    outcome: Result<(), String>,
    found: bool,
) -> Result<String, PdfError> {
    match outcome {
        Err(why) => Err(PdfError::ZipError(why)),
        Ok(_) => if found {
            Ok(plan.filepath)
        } else {
            Err(PdfError::FileNotFound)
        },
    }
}

/// Answers a request for a file whose document had to be unpacked.
pub fn unpacked(plan: FilePlan, outcome: Result<(), String>, found: bool) -> (answer: Result<
    String,
    PdfError,
>)
    ensures
        answer == answer_after(plan, outcome, found),
{
    match outcome {
        Err(why) => Err(PdfError::ZipError(why)),
        Ok(_) => if found {
            Ok(plan.filepath)
        } else {
            Err(PdfError::FileNotFound)
        },
    }
}

} // verus!
