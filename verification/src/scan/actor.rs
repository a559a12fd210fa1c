//! The values that a scan works on.

use vstd::prelude::*;
use vstd::string::*;
use crate::models;
use crate::text::{components, path_components, chars_of};


pub mod load_metadata;
pub mod process_file;
pub mod scan_folder;

verus! {

/// The identifier of a category.
pub type CategoryId = i32;

/// A category as the classifier sees it: its identifier and its name.
#[derive(Debug, Clone, PartialEq, Eq)]
pub struct Category {
    pub id: CategoryId,
    pub name: String,
}

impl Category {
    /// The classifier's view of a catalogue row.
    pub fn from(category: &models::Category) -> (out: Self)
        ensures
            out == (Category { id: category.id, name: category.name }),
    {
        Self { id: category.id, name: category.name.clone() }
    }
}

/// The index of the last full stop in `s`, or -1 where it holds none.
pub open spec fn last_dot(s: Seq<char>) -> int
    decreases s.len(),
{
    if s.len() == 0 {
        -1
    } else if s.last() == '.' {
        s.len() - 1
    } else {
        last_dot(s.drop_last())
    }
}

/// The extension of a file name: what follows its last full stop. A name
/// without a full stop, or whose only full stop opens it, has none, which is
/// written as the empty text.
pub open spec fn extension_of_name(name: Seq<char>) -> Seq<char> {
    let d = last_dot(name);
    if d <= 0 {
        Seq::empty()
    } else {
        name.skip(d + 1)
    }
}

/// The extension of the last component of a path; empty where the path has
/// no component.
pub open spec fn extension_of(path: Seq<char>) -> Seq<char> {
    let parts = components(path);
    if parts.len() == 0 {
        Seq::empty()
    } else {
        extension_of_name(parts.last())
    }
}

/// A file found by a scan. It lives for one run and is never stored.
#[derive(Debug, Clone, PartialEq, Eq)]
pub struct File {
    /// The path under which the scan found the file.
    pub path: String,
    /// The extension of the file's name, without the full stop.
    pub extension: String,
}

/// The extension of a file name.
pub fn name_extension(name: &str) -> (ext: String)
    ensures
        ext@ == extension_of_name(name@),
{
    let chars = chars_of(name);
    let n = chars.len();
    let mut i: usize = n;
    assert(name@.take(n as int) == name@);
    while i > 0 && chars[i - 1] != '.'
        invariant
            chars@ == name@,
            n == chars.len(),
            i <= n,
            last_dot(name@) == last_dot(name@.take(i as int)),
        decreases i,
    {
        assert(name@.take(i as int).drop_last() == name@.take(i - 1));
        i -= 1;
    }
    if i <= 1 {
        proof {
            if i == 1 {
                assert(name@.take(1).last() == '.');
            }
        }
        String::new()
    } else {
        assert(name@.take(i as int).last() == '.');
        assert(name@.subrange(i as int, n as int) == name@.skip(i as int));
        String::from_str(name.substring_char(i, n))
    }
}

impl File {
    /// The scan's record of the file at `path`.
    pub fn from(path: &str) -> (file: Self)
        ensures
            file.path@ == path@,
            file.extension@ == extension_of(path@),
    {
        let parts = path_components(path);
        let extension = if parts.len() == 0 {
            String::new()
        } else {
            assert(crate::text::texts(parts@).last() == parts@.last()@);
            name_extension(parts[parts.len() - 1].as_str())
        };
        Self { path: String::from_str(path), extension }
    }
}

} // verus!
