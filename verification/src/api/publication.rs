//! Addresses and choices of the publication interface.

use vstd::prelude::*;
use vstd::string::*;
use crate::models::{CBR, CBZ, EPUB};
use crate::text::{decimal, decimal_text, same_text};

verus! {

/// The address below which publications are served.
pub const BASE_PATH: &'static str = "/api/publication";

/// The address under which a publication's thumbnail is served.
pub open spec fn thumbnail_url_of(publication_id: int) -> Seq<char> {
    BASE_PATH@ + "/thumbnail/"@ + decimal(publication_id)
}

/// The address under which a publication's thumbnail is served.
pub fn generate_thumbnail_url(publication_id: i32) -> (url: String)
    ensures
        url@ == thumbnail_url_of(publication_id as int),
{
    let mut url = String::from_str(BASE_PATH);
    url.append("/thumbnail/");
    url.append(decimal_text(publication_id).as_str());
    url
}

/// The reader that serves a media format.
#[derive(Debug, Clone, Copy, PartialEq, Eq, Structural)]
pub enum Reader {
    /// Archives of page images.
    Comic,
    /// Reflowable books.
    Epub,
}

/// The reader for a media format, if it can be read at all.
pub open spec fn reader_of(media_format: Seq<char>) -> Option<Reader> {
    if media_format == CBR@ || media_format == CBZ@ {
        Some(Reader::Comic)
    } else if media_format == EPUB@ {
        Some(Reader::Epub)
    } else {
        None
    }
}

/// Chooses the reader that opens a publication of the given format.
pub fn reader_for(media_format: &str) -> (reader: Option<Reader>)
    ensures
        reader == reader_of(media_format@),
{
    if same_text(media_format, CBR) || same_text(media_format, CBZ) {
        Some(Reader::Comic)
    } else if same_text(media_format, EPUB) {
        Some(Reader::Epub)
    } else {
        None
    }
}

/// Whether single pages of a publication of the given format are served as
/// files: true of the comic archives and of nothing else.
pub fn serves_pages(media_format: &str) -> (served: bool)
    ensures
        served == (reader_of(media_format@) == Some(Reader::Comic)),
{
    proof {
        reveal_strlit("cbr");
        reveal_strlit("cbz");
        reveal_strlit("epub");
    }
    same_text(media_format, CBR) || same_text(media_format, CBZ)
}

/// Whether files inside a publication of the given format can be downloaded:
/// true of reflowable books and of nothing else.
pub fn serves_files(media_format: &str) -> (served: bool)
    ensures
        served == (media_format@ == EPUB@),
{
    same_text(media_format, EPUB)
}

/// The name under which an uploaded thumbnail is kept, by the kind of image
/// declared for it. Other kinds are refused.
pub open spec fn upload_name(kind: Seq<char>, subtype: Seq<char>) -> Option<Seq<char>> {
    if kind != "image"@ {
        None
    } else if subtype == "png"@ {
        Some("thumbnail.png"@)
    } else if subtype == "bmp"@ {
        Some("thumbnail.bmp"@)
    } else if subtype == "jpeg"@ {
        Some("thumbnail.jpg"@)
    } else if subtype == "gif"@ {
        Some("thumbnail.gif"@)
    } else {
        None
    }
}

/// Chooses the file name for an uploaded thumbnail from its media type, given
/// in lower case.
pub fn upload_file_name(kind: &str, subtype: &str) -> (name: Option<&'static str>)
    ensures
        match name {
            Some(n) => upload_name(kind@, subtype@) == Some(n@),
            None => upload_name(kind@, subtype@) is None,
        },
{
    if !same_text(kind, "image") {
        None
    } else if same_text(subtype, "png") {
        Some("thumbnail.png")
    } else if same_text(subtype, "bmp") {
        Some("thumbnail.bmp")
    } else if same_text(subtype, "jpeg") {
        Some("thumbnail.jpg")
    } else if same_text(subtype, "gif") {
        Some("thumbnail.gif")
    } else {
        None
    }
}

} // verus!
