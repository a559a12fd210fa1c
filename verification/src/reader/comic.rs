//! The reader of comic archives.
//!
//! Every entry of an archive is one page. Pages are numbered from 0 in
//! dictionary order of the entries' names. A page is written once to the
//! publication's own directory below the home directory and served from
//! there ever after.

use vstd::prelude::*;
use vstd::string::*;
use crate::config::Config;
use crate::models::{Publication, CBR, CBZ};
use crate::reader::models::Data;
use crate::text::{decimal, decimal_text, join_path, joined, same_text};
use crate::unzip::{listed, names_of, nth_extraction, path_of, unzip_nth, ArchiveEntry, Extraction};

verus! {

/// What can go wrong while reading a comic archive.
#[derive(Debug, Clone, PartialEq, Eq)]
pub enum ComicError {
    /// The RAR archive cannot be read.
    RarError,
    /// The ZIP archive cannot be read.
    ZipError,
    /// The page exists but cannot be taken out of the archive.
    PageError,
    /// The archive has no page of that number.
    PageNotFound,
    /// Reading or writing a file failed.
    IOError(String),
    /// The publication is not a comic archive.
    InvalidMediaFormatError,
    GenericError(String),
}

impl ComicError {
    /// The error as shown to users.
    pub open spec fn spec_message(&self) -> Seq<char> {
        match *self {
            ComicError::RarError => "RarError"@,
            ComicError::ZipError => "ZipError"@,
            ComicError::PageError => "PageError"@,
            ComicError::PageNotFound => "PageNotFound"@,
            ComicError::InvalidMediaFormatError => "InvalidMediaFormatError"@,
            ComicError::IOError(err) => "IOError: "@ + err@,
            ComicError::GenericError(err) => "GenericError: "@ + err@,
        }
    }

    /// The error as shown to users.
    pub fn message(&self) -> (text: String)
        ensures
            text@ == self.spec_message(),
    {
        match self {
            ComicError::RarError => "RarError".to_owned(),
            ComicError::ZipError => "ZipError".to_owned(),
            ComicError::PageError => "PageError".to_owned(),
            ComicError::PageNotFound => "PageNotFound".to_owned(),
            ComicError::InvalidMediaFormatError => "InvalidMediaFormatError".to_owned(),
            ComicError::IOError(err) => "IOError: ".to_owned().concat(err.as_str()),
            ComicError::GenericError(err) => "GenericError: ".to_owned().concat(err.as_str()),
        }
    }
}

/// The directory, below the home directory, that holds all extracted pages.
pub const EXTRACT_LOCATION: &'static str = "cache";

/// The two kinds of comic archive.
#[derive(Debug, Clone, Copy, PartialEq, Eq, Structural)]
pub enum ComicFormat {
    Cbr,
    Cbz,
}

impl ComicFormat {
    /// The error that stands for an archive of this kind that cannot be read.
    pub open spec fn unreadable(&self) -> ComicError {
        match *self {
            ComicFormat::Cbr => ComicError::RarError,
            ComicFormat::Cbz => ComicError::ZipError,
        }
    }
}

/// The kind of comic archive that a media format names, if it names one.
pub open spec fn comic_format_of(media_format: Seq<char>) -> Option<ComicFormat> {
    if media_format == CBR@ {
        Some(ComicFormat::Cbr)
    } else if media_format == CBZ@ {
        Some(ComicFormat::Cbz)
    } else {
        None
    }
}

/// Tells the kind of comic archive from a publication's media format. Any
/// other format is an `InvalidMediaFormatError`.
pub fn comic_format(media_format: &str) -> (format: Result<ComicFormat, ComicError>)
    ensures
        match format {
            Ok(f) => comic_format_of(media_format@) == Some(f),
            Err(e) => comic_format_of(media_format@) is None && e
                == ComicError::InvalidMediaFormatError,
        },
{
    if same_text(media_format, CBR) {
        Ok(ComicFormat::Cbr)
    } else if same_text(media_format, CBZ) {
        Ok(ComicFormat::Cbz)
    } else {
        Err(ComicError::InvalidMediaFormatError)
    }
}

/// What opening a publication comes to, given what listing its archive gave:
/// the names of the entries, or nothing where the archive cannot be read.
pub open spec fn opens(
    publication: &Publication,
    listing: Option<&Vec<ArchiveEntry>>,
    outcome: Result<Data, ComicError>,
) -> bool {
    match comic_format_of(publication.media_format@) {
        None => outcome == Err::<Data, ComicError>(ComicError::InvalidMediaFormatError),
        Some(format) => match listing {
            None => outcome == Err::<Data, ComicError>(format.unreadable()),
            Some(entries) => outcome is Ok && outcome->Ok_0.describes(publication, entries.len()),
        },
    }
}

/// Opens a publication for reading: every entry of its archive counts as one
/// page.
pub fn open(the_publication: &Publication, listing: Option<&Vec<ArchiveEntry>>) -> (outcome: Result<
    Data,
    ComicError,
>)
    ensures
        opens(the_publication, listing, outcome),
{
    let format = match comic_format(the_publication.media_format.as_str()) {
        Ok(format) => format,
        Err(e) => {
            return Err(e);
        },
    };
    match listing {
        Some(entries) => Ok(Data::of(the_publication, entries.len())),
        None => match format {
            ComicFormat::Cbr => Err(ComicError::RarError),
            ComicFormat::Cbz => Err(ComicError::ZipError),
        },
    }
}

/// The directory that holds the pages taken out of one publication: below
/// the home directory, in `cache`, under the publication's identifier.
pub open spec fn extract_location(home: Seq<char>, publication_id: int) -> Seq<char> {
    joined(joined(home, EXTRACT_LOCATION@), decimal(publication_id))
}

/// The directory that holds the pages taken out of one publication.
pub fn generate_extract_location(config: &Config, the_publication: &Publication) -> (location:
    String)
    ensures
        location@ == extract_location(config.pustaka_home@, the_publication.id as int),
{
    let below = join_path(config.pustaka_home.as_str(), EXTRACT_LOCATION);
    join_path(below.as_str(), decimal_text(the_publication.id).as_str())
}

/// What asking for page `page_number` of an archive with the entries listed
/// comes to: the entry and its place below `location`; `PageNotFound` past the
/// last page; `PageError` for an entry that cannot be written.
pub open spec fn page_of(
    entries: Seq<(Seq<char>, Seq<char>)>,
    page_number: int,
    location: Seq<char>,
    outcome: Result<Extraction, ComicError>,
) -> bool {
    match outcome {
        Ok(plan) => nth_extraction(entries, location, page_number) == Some(
            (plan.name@, plan.target@),
        ),
        Err(e) => nth_extraction(entries, location, page_number) is None && e == (if page_number
            >= entries.len() {
            ComicError::PageNotFound
        } else {
            ComicError::PageError
        }),
    }
}

fn plan_page(entries: &Vec<ArchiveEntry>, page_number: usize, extract_location: &str) -> (outcome: Result<
    Extraction,
    ComicError,
>)
    ensures
        page_of(listed(entries@), page_number as int, extract_location@, outcome),
{
    assert(listed(entries@).len() == entries@.len());
    match unzip_nth(entries, extract_location, page_number) {
        Ok(plan) => Ok(plan),
        Err(_) => if page_number >= entries.len() {
            Err(ComicError::PageNotFound)
        } else {
            Err(ComicError::PageError)
        },
    }
}

/// Finds page `page_number` of a ZIP archive among its entries.
pub fn page_cbz(entries: &Vec<ArchiveEntry>, page_number: usize, extract_location: &str) -> (outcome:
    Result<Extraction, ComicError>)
    ensures
        page_of(listed(entries@), page_number as int, extract_location@, outcome),
{
    plan_page(entries, page_number, extract_location)
}

/// Finds page `page_number` of a RAR archive among its entries.
pub fn page_cbr(entries: &Vec<ArchiveEntry>, page_number: usize, extract_location: &str) -> (outcome:
    Result<Extraction, ComicError>)
    ensures
        page_of(listed(entries@), page_number as int, extract_location@, outcome),
{
    plan_page(entries, page_number, extract_location)
}

/// What asking for a page of a publication comes to, given what listing its
/// archive gave.
pub open spec fn pages(
    config: &Config,
    publication: &Publication,
    page_number: usize,
    listing: Option<&Vec<ArchiveEntry>>,
    outcome: Result<Extraction, ComicError>,
) -> bool {
    match comic_format_of(publication.media_format@) {
        None => outcome == Err::<Extraction, ComicError>(ComicError::InvalidMediaFormatError),
        Some(format) => match listing {
            None => outcome == Err::<Extraction, ComicError>(format.unreadable()),
            Some(entries) => page_of(
                listed(entries@),
                page_number as int,
                extract_location(config.pustaka_home@, publication.id as int),
                outcome,
            ),
        },
    }
}

/// Finds a page of a publication: which entry of its archive it is and which
/// file of the publication's cache directory holds it.
pub fn page(
    config: &Config,
    the_publication: &Publication,
    page_number: usize,
    listing: Option<&Vec<ArchiveEntry>>,
) -> (outcome: Result<Extraction, ComicError>)
    ensures
        pages(config, the_publication, page_number, listing, outcome),
{
    let format = match comic_format(the_publication.media_format.as_str()) {
        Ok(format) => format,
        Err(e) => {
            return Err(e);
        },
    };
    let location = generate_extract_location(config, the_publication);
    match (format, listing) {
        (ComicFormat::Cbr, Some(entries)) => page_cbr(entries, page_number, location.as_str()),
        (ComicFormat::Cbz, Some(entries)) => page_cbz(entries, page_number, location.as_str()),
        (ComicFormat::Cbr, None) => Err(ComicError::RarError),
        (ComicFormat::Cbz, None) => Err(ComicError::ZipError),
    }
}

/// What to do about a page that has been found.
#[derive(Debug, Clone, PartialEq, Eq)]
pub enum PageAction {
    /// The file is in the cache: serve it.
    Serve(String),
    /// The file is missing: take the entry out of the archive first.
    Extract(Extraction),
}

/// The choice between the cache and the archive: a page whose file is
/// present is served as it is; only a missing one is taken out.
pub open spec fn action_for(plan: Extraction, cached: bool) -> PageAction {
    if cached {
        PageAction::Serve(plan.target)
    } else {
        PageAction::Extract(plan)
    }
}

/// The answer to a request once the entry has been taken out: the file that
/// now holds the page, or `PageError` where taking it out failed.
pub open spec fn answer_after(plan: Extraction, written: bool) -> Result<String, ComicError> {
    if written {
        Ok(plan.target)
    } else {
        Err(ComicError::PageError)
    }
}

/// Decides between the cache and the archive.
pub fn serve(plan: Extraction, cached: bool) -> (action: PageAction)
    ensures
        action == action_for(plan, cached),
{
    if cached {
        PageAction::Serve(plan.target)
    } else {
        PageAction::Extract(plan)
    }
}

/// Answers a request whose entry had to be taken out of the archive.
pub fn extracted(plan: Extraction, written: bool) -> (outcome: Result<String, ComicError>)
    ensures
        outcome == answer_after(plan, written),
{
    if written {
        Ok(plan.target)
    } else {
        Err(ComicError::PageError)
    }
}

/// A page that is in the cache is served from there: the archive is not
/// asked for it again.
pub proof fn lemma_cached_page_is_not_extracted(plan: Extraction)
    ensures
        action_for(plan, true) is Serve,
        !(action_for(plan, true) is Extract),
{
}

/// The file that answers a request is the same whether it was found in the
/// cache or had to be written first.
pub proof fn lemma_cache_serves_the_same_file(plan: Extraction)
    ensures
        action_for(plan, true) == PageAction::Serve(plan.target),
        action_for(plan, false) == PageAction::Extract(plan),
        answer_after(plan, true) == Ok::<String, ComicError>(plan.target),
{
}

/// Asking twice gives the same answer: two outcomes that both meet what a
/// request for the same page of the same entries owes name the same entry
/// and the same file, or fail alike.
pub proof fn lemma_page_is_determined(
    entries: Seq<(Seq<char>, Seq<char>)>,
    page_number: int,
    location: Seq<char>,
    first: Result<Extraction, ComicError>,
    second: Result<Extraction, ComicError>,
)
    requires
        page_of(entries, page_number, location, first),
        page_of(entries, page_number, location, second),
    ensures
        match (first, second) {
            (Ok(a), Ok(b)) => a.name@ == b.name@ && a.target@ == b.target@,
            (Err(a), Err(b)) => a == b,
            _ => false,
        },
{
}

/// A page number means the same entry however the archive lists its
/// entries: two listings that hold the same names, in any order, and give
/// each name the same relative path, give the same entry and the same file
/// for every page number.
pub proof fn lemma_page_order_is_stable(
    first: Seq<(Seq<char>, Seq<char>)>,
    second: Seq<(Seq<char>, Seq<char>)>,
    location: Seq<char>,
    page_number: int,
)
    requires
        names_of(first).to_multiset() == names_of(second).to_multiset(),
        forall|name: Seq<char>| path_of(first, name) == path_of(second, name),
    ensures
        nth_extraction(first, location, page_number) == nth_extraction(
            second,
            location,
            page_number,
        ),
{
    crate::text::lemma_sorted_names(names_of(first));
    crate::text::lemma_sorted_names(names_of(second));
    vstd::seq_lib::to_multiset_len(names_of(first));
    vstd::seq_lib::to_multiset_len(names_of(second));
    assert(first.len() == names_of(first).len());
    assert(second.len() == names_of(second).len());
}

} // verus!
