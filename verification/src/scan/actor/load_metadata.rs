//! The enricher: a publication's thumbnail and page count.
//!
//! A thumbnail is the first page of a comic archive, written to the
//! publication's thumbnail directory and scaled there. Whatever goes wrong on
//! the way leaves the publication without a thumbnail and never stops the
//! run.

use vstd::prelude::*;
use vstd::string::*;
use crate::config::Config;
use crate::fs::thumbnail::{generate_thumbnail_location, thumbnail_location, ThumbnailError};
use crate::models::{CategoryId, Publication, EPUB};
use crate::reader::comic::{comic_format, comic_format_of, ComicFormat};
use crate::scan::error::ScannerError;
use crate::text::same_text;
use crate::unzip::{listed, nth_extraction, unzip_nth, ArchiveEntry, Extraction};

verus! {

/// A publication to enrich, with the category it was filed under.
#[derive(Debug, Clone, PartialEq, Eq)]
pub struct LoadMetadata {
    pub config: Config,
    pub publication: Publication,
    pub category_id: CategoryId,
}

/// The number of pages that enrichment finds. A comic archive has as many
/// pages as entries, a book as many as reading it gave; a container that
/// cannot be read has none, which is no failure. Other formats are not
/// counted at all.
pub open spec fn counted_pages(
    media_format: Seq<char>,
    listing: Option<&Vec<ArchiveEntry>>,
    book_pages: Option<usize>,
) -> Option<usize> {
    if comic_format_of(media_format) is Some {
        match listing {
            Some(entries) => Some(entries.len()),
            None => Some(0),
        }
    } else if media_format == EPUB@ {
        match book_pages {
            Some(count) => Some(count),
            None => Some(0),
        }
    } else {
        None
    }
}

/// Counts the pages of a publication from what reading its container gave:
/// the names of an archive's entries, or the number of pages of a book. No
/// count means that pages of this format are not counted.
pub fn total_pages(
    publication: &Publication,
    listing: Option<&Vec<ArchiveEntry>>,
    book_pages: Option<usize>,
) -> (count: Option<usize>)
    ensures
        count == counted_pages(publication.media_format@, listing, book_pages),
{
    if comic_format(publication.media_format.as_str()).is_ok() {
        match listing {
            Some(entries) => Some(entries.len()),
            None => Some(0),
        }
    } else if same_text(publication.media_format.as_str(), EPUB) {
        match book_pages {
            Some(count) => Some(count),
            None => Some(0),
        }
    } else {
        None
    }
}

/// The entry that becomes the thumbnail and the file it is written to: the
/// first page of a comic archive, below the publication's thumbnail directory.
/// There is none for other formats, for an archive that cannot be read or has
/// no entry, or where the first entry cannot be written.
pub open spec fn thumbnail_of(
    home: Seq<char>,
    publication: &Publication,
    listing: Option<&Vec<ArchiveEntry>>,
) -> Option<(Seq<char>, Seq<char>)> {
    match (comic_format_of(publication.media_format@), listing) {
        (Some(_), Some(entries)) => nth_extraction(
            listed(entries@),
            thumbnail_location(home, publication.id as int),
            0,
        ),
        _ => None,
    }
}

fn first_page(config: &Config, publication: &Publication, entries: &Vec<ArchiveEntry>) -> (plan: Option<
    Extraction,
>)
    ensures
        match plan {
            Some(p) => nth_extraction(
                listed(entries@),
                thumbnail_location(config.pustaka_home@, publication.id as int),
                0,
            ) == Some((p.name@, p.target@)),
            None => nth_extraction(
                listed(entries@),
                thumbnail_location(config.pustaka_home@, publication.id as int),
                0,
            ) is None,
        },
{
    let location = generate_thumbnail_location(config.pustaka_home.as_str(), publication.id);
    match unzip_nth(entries, location.as_str(), 0) {
        Ok(plan) => Some(plan),
        Err(_) => None,
    }
}

/// Plans the thumbnail of a RAR archive from the names of its entries.
pub fn get_thumbnail_cbr(config: &Config, publication: &Publication, entries: &Vec<ArchiveEntry>) -> (plan:
    Option<Extraction>)
    ensures
        match plan {
            Some(p) => nth_extraction(
                listed(entries@),
                thumbnail_location(config.pustaka_home@, publication.id as int),
                0,
            ) == Some((p.name@, p.target@)),
            None => nth_extraction(
                listed(entries@),
                thumbnail_location(config.pustaka_home@, publication.id as int),
                0,
            ) is None,
        },
{
    first_page(config, publication, entries)
}

/// Plans the thumbnail of a ZIP archive from the names of its entries.
pub fn get_thumbnail_cbz(config: &Config, publication: &Publication, entries: &Vec<ArchiveEntry>) -> (plan:
    Option<Extraction>)
    ensures
        match plan {
            Some(p) => nth_extraction(
                listed(entries@),
                thumbnail_location(config.pustaka_home@, publication.id as int),
                0,
            ) == Some((p.name@, p.target@)),
            None => nth_extraction(
                listed(entries@),
                thumbnail_location(config.pustaka_home@, publication.id as int),
                0,
            ) is None,
        },
{
    first_page(config, publication, entries)
}

/// Plans the thumbnail of a publication, given what listing its archive
/// gave. No plan means no thumbnail.
pub fn get_thumbnail(config: &Config, publication: &Publication, listing: Option<&Vec<ArchiveEntry>>) -> (plan:
    Option<Extraction>)
    ensures
        match plan {
            Some(p) => thumbnail_of(config.pustaka_home@, publication, listing) == Some(
                (p.name@, p.target@),
            ),
            None => thumbnail_of(config.pustaka_home@, publication, listing) is None,
        },
{
    match (comic_format(publication.media_format.as_str()), listing) {
        (Ok(ComicFormat::Cbr), Some(entries)) => get_thumbnail_cbr(config, publication, entries),
        (Ok(ComicFormat::Cbz), Some(entries)) => get_thumbnail_cbz(config, publication, entries),
        _ => None,
    }
}

/// What becomes of a planned thumbnail: the path of the scaled image, once
/// the entry has been written and scaled. Where writing or scaling failed
/// there is no thumbnail, and no failure either.
pub open spec fn made(written: bool, scaled: Result<String, ThumbnailError>) -> Option<String> {
    match scaled {
        Ok(path) => if written {
            Some(path)
        } else {
            None
        },
        Err(_) => None,
    }
}

/// Settles the thumbnail of a publication from how writing the entry and
/// scaling the image went.
pub fn thumbnail_made(written: bool, scaled: Result<String, ThumbnailError>) -> (thumbnail: Option<
    String,
>)
    ensures
        thumbnail == made(written, scaled),
{
    match scaled {
        Ok(path) => if written {
            Some(path)
        } else {
            None
        },
        Err(_) => None,
    }
}

impl LoadMetadata {
    /// Records the outcome of making the thumbnail: the publication comes
    /// back with the thumbnail's path, or without one, and is otherwise
    /// unchanged. This step cannot fail.
    pub fn handle(self, thumbnail: Option<String>) -> (outcome: Result<
        (Publication, CategoryId),
        ScannerError,
    >)
        ensures
            outcome == Ok::<(Publication, CategoryId), ScannerError>(
                (
                    Publication {
                        id: self.publication.id,
                        isbn: self.publication.isbn,
                        title: self.publication.title,
                        media_type_id: self.publication.media_type_id,
                        media_format: self.publication.media_format,
                        author_id: self.publication.author_id,
                        thumbnail: thumbnail,
                        file: self.publication.file,
                        timestamp: self.publication.timestamp,
                    },
                    self.category_id,
                ),
            ),
    {
        let publication = self.publication;
        let updated = Publication {
            id: publication.id,
            isbn: publication.isbn,
            title: publication.title,
            media_type_id: publication.media_type_id,
            media_format: publication.media_format,
            author_id: publication.author_id,
            thumbnail,
            file: publication.file,
            timestamp: publication.timestamp,
        };
        Ok((updated, self.category_id))
    }
}

} // verus!
