//! Thumbnails: where they are kept and how large they are.

use vstd::prelude::*;
use vstd::string::*;
use crate::text::{decimal, decimal_text, join_path, joined};

verus! {

/// The directory, below the home directory, that holds all thumbnails.
pub const THUMBNAIL_LOCATION: &'static str = "thumbnail";

/// The height of every thumbnail, in pixels.
pub const THUMBNAIL_HEIGHT: u32 = 300;

/// Why a thumbnail could not be made.
#[derive(Debug, Clone, Copy, PartialEq, Eq, Structural)]
pub enum ThumbnailError {
    /// The image cannot be decoded, scaled or encoded.
    Image,
    /// The thumbnail file cannot be read or written.
    Io,
}

impl ThumbnailError {
    /// The error in words.
    pub fn message(&self) -> (text: String)
        ensures
            text@ == (match *self {
                ThumbnailError::Image => "Unable to process image"@,
                ThumbnailError::Io => "Unable to access thumbnail file"@,
            }),
    {
        match self {
            ThumbnailError::Image => "Unable to process image".to_owned(),
            ThumbnailError::Io => "Unable to access thumbnail file".to_owned(),
        }
    }
}

/// The directory that holds the thumbnail of one publication: below the home
/// directory, in `thumbnail`, under the publication's identifier.
pub open spec fn thumbnail_location(home_path: Seq<char>, publication_id: int) -> Seq<char> {
    joined(joined(home_path, THUMBNAIL_LOCATION@), decimal(publication_id))
}

/// The directory that holds the thumbnail of one publication.
pub fn generate_thumbnail_location(home_path: &str, publication_id: i32) -> (location: String)
    ensures
        location@ == thumbnail_location(home_path@, publication_id as int),
{
    let below = join_path(home_path, THUMBNAIL_LOCATION);
    join_path(below.as_str(), decimal_text(publication_id).as_str())
}

/// The width that keeps the proportions of a `width` by `height` image once
/// its height is `THUMBNAIL_HEIGHT`, rounded down.
pub open spec fn scaled_width(width: int, height: int) -> int
    recommends
        height > 0,
{
    THUMBNAIL_HEIGHT as int * width / height
}

/// The size of the thumbnail of a `width` by `height` image: the fixed height
/// and the width that keeps the proportions. There is none for an image
/// without height, nor where the width would come to nothing or would not
/// fit in 32 bits.
pub fn resize(width: u32, height: u32) -> (size: Option<(u32, u32)>)
    ensures
        match size {
            Some((w, h)) => height > 0 && h == THUMBNAIL_HEIGHT && w > 0 && w == scaled_width(
                width as int,
                height as int,
            ),
            None => height == 0 || scaled_width(width as int, height as int) == 0 || scaled_width(
                width as int,
                height as int,
            ) > u32::MAX,
        },
{
    if height == 0 {
        return None;
    }
    let fixed: u64 = THUMBNAIL_HEIGHT as u64;
    assert(fixed * (width as u64) <= 300 * 0xffff_ffff) by (nonlinear_arith)
        requires
            fixed == 300,
            width <= 0xffff_ffff,
    ;
    let scaled: u64 = fixed * (width as u64) / (height as u64);
    if scaled == 0 || scaled > u32::MAX as u64 {
        None
    } else {
        Some((scaled as u32, THUMBNAIL_HEIGHT))
    }
}

} // verus!
