use pustaka::unzip::{
    entry_path, entry_target, unzip, unzip_nth, usable, ArchiveEntry, Extraction, UnzipError,
};

fn entry(name: &str, path: &str) -> ArchiveEntry {
    ArchiveEntry { name: name.to_string(), path: path.to_string() }
}

fn listing(items: &[&str]) -> Vec<ArchiveEntry> {
    items.iter().map(|s| entry(s, s)).collect()
}

fn extraction(name: &str, target: &str) -> Extraction {
    Extraction { name: name.to_string(), target: target.to_string() }
}

#[test]
fn target_of_a_plain_entry() {
    assert_eq!(entry_target("/cache/7", "page1.jpg", "page1.jpg"), Ok("/cache/7/page1.jpg".to_string()));
    assert_eq!(
        entry_target("/cache/7", "vol1/page1.jpg", "vol1/page1.jpg"),
        Ok("/cache/7/vol1/page1.jpg".to_string())
    );
    assert_eq!(entry_target("", "page1.jpg", "page1.jpg"), Ok("page1.jpg".to_string()));
    assert_eq!(entry_target("/cache/7/", "a.jpg", "a.jpg"), Ok("/cache/7/a.jpg".to_string()));
}

#[test]
fn target_follows_the_relative_path_not_the_name() {
    assert_eq!(
        entry_target("/cache/7", "../../etc/passwd", "etc/passwd"),
        Ok("/cache/7/etc/passwd".to_string())
    );
    assert_eq!(entry_target("/cache/7", "/etc/passwd", "etc/passwd"), Ok("/cache/7/etc/passwd".to_string()));
    assert_eq!(entry_target("/cache/7", "dir\\x.png", "dir/x.png"), Ok("/cache/7/dir/x.png".to_string()));
}

#[test]
fn target_cannot_leave_the_output_directory() {
    assert_eq!(entry_target("/cache/7", "x", "../x"), Err(UnzipError::FileNotFound));
    assert_eq!(entry_target("/cache/7", "x", "a/../../x"), Err(UnzipError::FileNotFound));
    assert_eq!(entry_target("/cache/7", "x", "/etc/passwd"), Err(UnzipError::FileNotFound));
    assert_eq!(entry_target("/cache/7", "x", "a/./x"), Err(UnzipError::FileNotFound));
    assert_eq!(entry_target("/cache/7", "x", "..."), Ok("/cache/7/...".to_string()));
}

#[test]
fn directories_and_empty_paths_are_refused() {
    assert_eq!(entry_target("/cache/7", "vol1/", "vol1"), Err(UnzipError::FileNotFound));
    assert_eq!(entry_target("/cache/7", "", ""), Err(UnzipError::FileNotFound));
    assert_eq!(entry_target("/cache/7", "..", ""), Err(UnzipError::FileNotFound));
    assert_eq!(entry_target("/cache/7", "x", "."), Err(UnzipError::FileNotFound));
    assert_eq!(entry_target("/cache/7", "/", ""), Err(UnzipError::FileNotFound));
}

#[test]
fn usable_paths() {
    assert!(usable("a.jpg"));
    assert!(usable("a/b/c.jpg"));
    assert!(usable("a//b"));
    assert!(usable("..a/b.."));
    assert!(!usable(""));
    assert!(!usable("/"));
    assert!(!usable("/a"));
    assert!(!usable("."));
    assert!(!usable(".."));
    assert!(!usable("a/.."));
    assert!(!usable("./a"));
}

#[test]
fn path_of_an_entry_is_that_of_the_first_so_named() {
    let entries = vec![entry("a", "one"), entry("b", "two"), entry("a", "three")];
    assert_eq!(entry_path(&entries, "a"), Some("one"));
    assert_eq!(entry_path(&entries, "b"), Some("two"));
    assert_eq!(entry_path(&entries, "c"), None);
    assert_eq!(entry_path(&Vec::new(), "a"), None);
}

#[test]
fn nth_entry_goes_by_name_order() {
    let entries = listing(&["c.jpg", "a.jpg", "b.jpg"]);
    assert_eq!(unzip_nth(&entries, "/out", 0), Ok(extraction("a.jpg", "/out/a.jpg")));
    assert_eq!(unzip_nth(&entries, "/out", 1), Ok(extraction("b.jpg", "/out/b.jpg")));
    assert_eq!(unzip_nth(&entries, "/out", 2), Ok(extraction("c.jpg", "/out/c.jpg")));
    assert_eq!(unzip_nth(&entries, "/out", 3), Err(UnzipError::FileNotFound));
}

#[test]
fn nth_entry_is_ordered_by_name_and_placed_by_path() {
    let entries = vec![entry("b", "first/b"), entry("a", "second/a")];
    assert_eq!(unzip_nth(&entries, "/out", 0), Ok(extraction("a", "/out/second/a")));
    assert_eq!(unzip_nth(&entries, "/out", 1), Ok(extraction("b", "/out/first/b")));
}

#[test]
fn nth_entry_of_nothing() {
    assert_eq!(unzip_nth(&Vec::new(), "/out", 0), Err(UnzipError::FileNotFound));
}

#[test]
fn nth_entry_that_is_a_directory() {
    let entries = vec![entry("pages/001.jpg", "pages/001.jpg"), entry("pages/", "pages")];
    assert_eq!(unzip_nth(&entries, "/out", 0), Err(UnzipError::FileNotFound));
    assert_eq!(unzip_nth(&entries, "/out", 1), Ok(extraction("pages/001.jpg", "/out/pages/001.jpg")));
}

#[test]
fn whole_archive_in_the_order_given() {
    let entries = listing(&["b.jpg", "a/c.jpg"]);
    assert_eq!(
        unzip(&entries, "/out"),
        Ok(vec![extraction("b.jpg", "/out/b.jpg"), extraction("a/c.jpg", "/out/a/c.jpg")])
    );
    assert_eq!(unzip(&Vec::new(), "/out"), Ok(Vec::new()));
}

#[test]
fn whole_archive_fails_on_a_directory_entry() {
    let entries = vec![entry("a.jpg", "a.jpg"), entry("dir/", "dir"), entry("b.jpg", "b.jpg")];
    assert_eq!(unzip(&entries, "/out"), Err(UnzipError::FileNotFound));
}
