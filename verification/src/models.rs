//! Rows of the catalogue.

use vstd::prelude::*;
use vstd::string::*;
use crate::api::publication::{generate_thumbnail_url, thumbnail_url_of};
use crate::text::chars_of;

verus! {

/// `chrono::NaiveDateTime`, the point in time that the catalogue stamps on a
/// row. The library carries it through and never looks inside.
#[verifier::external_type_specification]
#[verifier::external_body]
pub struct ExNaiveDateTime(chrono::NaiveDateTime);

/// The media format of comics in a RAR archive.
pub const CBR: &'static str = "cbr";

/// The media format of comics in a ZIP archive.
pub const CBZ: &'static str = "cbz";

/// The media format of reflowable books.
pub const EPUB: &'static str = "epub";

/// The media format of portable documents.
pub const PDF: &'static str = "pdf";

/// The identifier of a category.
pub type CategoryId = i32;

/// The identifier of a media type.
pub type MediaTypeId = i32;

/// The identifier of an author.
pub type AuthorId = i32;

/// The identifier of a publication.
pub type PublicationId = i32;

/// The identifier of a tag.
pub type TagId = i32;

/// A category about to be catalogued.
#[derive(Debug, Clone, PartialEq, Eq)]
pub struct NewCategory {
    pub name: String,
    pub parent_id: Option<i32>,
}

/// A node of the classification forest; a root has no parent.
#[derive(Debug, Clone, PartialEq, Eq)]
pub struct Category {
    pub id: CategoryId,
    pub name: String,
    pub parent_id: Option<i32>,
}

/// A media type about to be catalogued.
#[derive(Debug, Clone, PartialEq, Eq)]
pub struct NewMediaType {
    pub name: String,
}

/// The kind of thing a publication is: a comic, a magazine, an e-book.
#[derive(Debug, Clone, PartialEq, Eq)]
pub struct MediaType {
    pub id: MediaTypeId,
    pub name: String,
}

/// An author about to be catalogued.
#[derive(Debug, Clone, PartialEq, Eq)]
pub struct NewAuthor {
    pub name: String,
}

/// Who wrote a publication.
#[derive(Debug, Clone, PartialEq, Eq)]
pub struct Author {
    pub id: AuthorId,
    pub name: String,
}

/// A publication about to be catalogued. Its `file` is the key by which
/// duplicates are told.
#[derive(Debug, Clone, PartialEq, Eq)]
pub struct NewPublication {
    pub isbn: String,
    pub title: String,
    pub media_type_id: i32,
    pub media_format: String,
    pub author_id: i32,
    pub thumbnail: Option<String>,
    pub timestamp: Option<chrono::NaiveDateTime>,
    pub file: String,
}

/// One catalogued media file.
#[derive(Debug, Clone, PartialEq, Eq)]
pub struct Publication {
    pub id: PublicationId,
    pub isbn: String,
    pub title: String,
    pub media_type_id: i32,
    pub media_format: String,
    pub author_id: i32,
    pub thumbnail: Option<String>,
    pub file: String,
    pub timestamp: Option<chrono::NaiveDateTime>,
}

impl Publication {
    /// Whether a thumbnail is recorded: a path is present and not empty.
    pub open spec fn spec_has_thumbnail(&self) -> bool {
        match self.thumbnail {
            Some(file) => file@.len() > 0,
            None => false,
        }
    }

    /// Whether a thumbnail is recorded: a path is present and not empty.
    pub fn has_thumbnail(&self) -> (yes: bool)
        ensures
            yes == self.spec_has_thumbnail(),
    {
        match &self.thumbnail {
            Some(file) => chars_of(file.as_str()).len() > 0,
            None => false,
        }
    }

    /// The address of the thumbnail, where one is recorded.
    pub open spec fn spec_thumbnail_url(&self) -> Option<Seq<char>> {
        if self.spec_has_thumbnail() {
            Some(thumbnail_url_of(self.id as int))
        } else {
            None
        }
    }

    /// The address of the thumbnail, where one is recorded.
    pub fn thumbnail_url(&self) -> (url: Option<String>)
        ensures
            match url {
                Some(u) => self.spec_thumbnail_url() == Some(u@),
                None => self.spec_thumbnail_url() is None,
            },
    {
        if self.has_thumbnail() {
            Some(generate_thumbnail_url(self.id))
        } else {
            None
        }
    }
}

/// The link between a publication and the category it was filed under.
#[derive(Debug, Clone, Copy, PartialEq, Eq)]
pub struct PublicationCategory {
    pub publication_id: PublicationId,
    pub category_id: CategoryId,
}

/// A tag about to be catalogued.
#[derive(Debug, Clone, PartialEq, Eq)]
pub struct NewTag {
    pub name: String,
}

/// A label that readers put on publications.
#[derive(Debug, Clone, PartialEq, Eq)]
pub struct Tag {
    pub id: TagId,
    pub name: String,
}

/// A category marked as a favourite.
#[derive(Debug, Clone, Copy, PartialEq, Eq)]
pub struct FavoriteCategory {
    pub category_id: CategoryId,
}

/// A publication that was opened, and when.
#[derive(Debug, Clone, PartialEq, Eq)]
pub struct RecentPublication {
    pub publication_id: i32,
    pub timestamp: Option<chrono::NaiveDateTime>,
}

/// The settings of the library; `publication_path` is the root of the scan.
#[derive(Debug, Clone, PartialEq, Eq)]
pub struct Setting {
    pub setting_id: i32,
    pub publication_path: Option<String>,
}

} // verus!
