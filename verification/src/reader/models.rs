//! What a reader tells about a publication it has opened.

use vstd::prelude::*;
use vstd::string::*;
use crate::models::Publication;

verus! {

/// The answer to opening a publication.
#[derive(Debug, Clone, PartialEq, Eq)]
pub struct Data {
    pub id: i32,
    pub isbn: String,
    pub title: String,
    pub media_type_id: i32,
    pub author_id: i32,
    pub thumbnail_url: Option<String>,
    pub file: String,
    pub total_pages: usize,
    pub media_format: String,
}

/// One page and the addresses of its parts.
#[derive(Debug, Clone, PartialEq, Eq)]
pub struct Page {
    pub page_number: i32,
    pub url: Vec<String>,
}

impl Data {
    /// `self` tells of `publication` what the catalogue holds of it, and
    /// counts `total_pages` pages.
    pub open spec fn describes(&self, publication: &Publication, total_pages: usize) -> bool {
        &&& self.id == publication.id
        &&& self.isbn@ == publication.isbn@
        &&& self.title@ == publication.title@
        &&& self.media_type_id == publication.media_type_id
        &&& self.author_id == publication.author_id
        &&& match self.thumbnail_url {
            Some(url) => publication.spec_thumbnail_url() == Some(url@),
            None => publication.spec_thumbnail_url() is None,
        }
        &&& self.file@ == publication.file@
        &&& self.total_pages == total_pages
        &&& self.media_format@ == publication.media_format@
    }

    /// The answer to opening `publication`, which has `total_pages` pages.
    pub fn of(publication: &Publication, total_pages: usize) -> (data: Data)
        ensures
            data.describes(publication, total_pages),
    {
        Data {
            id: publication.id,
            isbn: publication.isbn.clone(),
            title: publication.title.clone(),
            media_type_id: publication.media_type_id,
            author_id: publication.author_id,
            thumbnail_url: publication.thumbnail_url(),
            file: publication.file.clone(),
            total_pages,
            media_format: publication.media_format.clone(),
        }
    }
}

} // verus!
