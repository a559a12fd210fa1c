use pustaka::config::Config;
use pustaka::models;
use pustaka::models::{NewPublication, Publication, PublicationCategory};
use pustaka::fs::thumbnail::ThumbnailError;
use pustaka::scan::actor::load_metadata::{
    get_thumbnail, get_thumbnail_cbr, get_thumbnail_cbz, thumbnail_made, total_pages,
    LoadMetadata,
};
use pustaka::scan::actor::scan_folder::{ignore_dotfile, is_accepted_file, Entry, ScanFolder};
use pustaka::scan::actor::{name_extension, Category, File};
use pustaka::scan::error::ScannerError;
use pustaka::scanner::run::{Action, Event, Run};
use pustaka::scanner::{
    correlate, is_known, is_proposed, lookup, process_files, report, save_publication,
    save_publication_categories, select_new, update_metadata, Report,
};
use pustaka::unzip::{ArchiveEntry, Extraction};

fn strings(items: &[&str]) -> Vec<String> {
    items.iter().map(|s| s.to_string()).collect()
}

fn listing(items: &[&str]) -> Vec<ArchiveEntry> {
    items.iter().map(|s| ArchiveEntry { name: s.to_string(), path: s.to_string() }).collect()
}

fn config() -> Config {
    Config { database: "pustaka.db".to_string(), pustaka_home: "/srv/pustaka".to_string() }
}

fn row(id: i32, name: &str, parent_id: Option<i32>) -> models::Category {
    models::Category { id, name: name.to_string(), parent_id }
}

fn entry(path: &str, is_file: bool) -> Entry {
    Entry { path: path.to_string(), is_file }
}

fn file(path: &str, extension: &str) -> File {
    File { path: path.to_string(), extension: extension.to_string() }
}

fn created(id: i32, new: &NewPublication) -> Publication {
    Publication {
        id,
        isbn: new.isbn.clone(),
        title: new.title.clone(),
        media_type_id: new.media_type_id,
        media_format: new.media_format.clone(),
        author_id: new.author_id,
        thumbnail: new.thumbnail.clone(),
        file: new.file.clone(),
        timestamp: new.timestamp,
    }
}

#[test]
fn file_records_path_and_extension() {
    assert_eq!(File::from("/l/Fantasy/dragon.cbz"), file("/l/Fantasy/dragon.cbz", "cbz"));
    assert_eq!(File::from("/l/a.tar.gz"), file("/l/a.tar.gz", "gz"));
    assert_eq!(File::from("/l/README"), file("/l/README", ""));
    assert_eq!(File::from("/l/.hidden"), file("/l/.hidden", ""));
    assert_eq!(File::from("/l/.hidden.pdf"), file("/l/.hidden.pdf", "pdf"));
    assert_eq!(File::from("/l/x."), file("/l/x.", ""));
    assert_eq!(File::from("/l.d/x"), file("/l.d/x", ""));
    assert_eq!(File::from(""), file("", ""));
}

#[test]
fn extension_of_a_name() {
    assert_eq!(name_extension("dragon.cbz"), "cbz");
    assert_eq!(name_extension("dragon"), "");
    assert_eq!(name_extension(".profile"), "");
    assert_eq!(name_extension("a.b.epub"), "epub");
    assert_eq!(name_extension(""), "");
}

#[test]
fn extension_agrees_with_paths() {
    for name in ["a.cbz", "a", ".a", "a.b.c", "a.", ".a.b", "日本.pdf"] {
        let expected = std::path::Path::new(name).extension().and_then(|e| e.to_str()).unwrap_or("");
        assert_eq!(name_extension(name), expected);
    }
}

#[test]
fn category_for_the_classifier() {
    assert_eq!(
        Category::from(&row(3, "Fantasy", Some(1))),
        Category { id: 3, name: "Fantasy".to_string() }
    );
}

#[test]
fn accepted_files() {
    assert!(is_accepted_file(&entry("/l/a.cbr", true)));
    assert!(is_accepted_file(&entry("/l/a.cbz", true)));
    assert!(is_accepted_file(&entry("/l/a.epub", true)));
    assert!(is_accepted_file(&entry("/l/a.pdf", true)));
    assert!(!is_accepted_file(&entry("/l/a.pdf", false)));
    assert!(!is_accepted_file(&entry("/l/a.txt", true)));
    assert!(!is_accepted_file(&entry("/l/a.CBZ", true)));
    assert!(!is_accepted_file(&entry("/l/cbz", true)));
    assert!(!is_accepted_file(&entry("/l/.cbz", true)));
    assert!(!is_accepted_file(&entry("/l/a.cbz/", false)));
}

#[test]
fn hidden_files_and_directories() {
    assert!(ignore_dotfile("/l", &entry("/l/a/b.cbz", true)));
    assert!(!ignore_dotfile("/l", &entry("/l/a/.b.cbz", true)));
    assert!(!ignore_dotfile("/l", &entry("/l/.trash/b.cbz", true)));
    // Full stops in the root itself do not hide what lies below it.
    assert!(ignore_dotfile("/home/u/.library", &entry("/home/u/.library/a/b.cbz", true)));
    assert!(ignore_dotfile(".", &entry("./a/b.cbz", true)));
    assert!(ignore_dotfile("/l", &entry("/l/a.b/c.d.cbz", true)));
}

#[test]
fn scan_keeps_publications_in_plain_sight() {
    let walk = vec![
        Some(entry("/l", false)),
        Some(entry("/l/Fantasy", false)),
        Some(entry("/l/Fantasy/dragon.cbz", true)),
        Some(entry("/l/Fantasy/notes.txt", true)),
        None,
        Some(entry("/l/Fantasy/.dragon.cbz", true)),
        Some(entry("/l/.cache/old.epub", true)),
        Some(entry("/l/SciFi/expanse.epub", true)),
        None,
        Some(entry("/l/manual.pdf", true)),
        Some(entry("/l/weird.cbr", false)),
    ];
    let scan = ScanFolder { publication_path: "/l".to_string() };
    assert_eq!(
        scan.handle(Some(&walk)),
        Ok(vec![
            file("/l/Fantasy/dragon.cbz", "cbz"),
            file("/l/SciFi/expanse.epub", "epub"),
            file("/l/manual.pdf", "pdf"),
        ])
    );
    assert_eq!(scan.handle(Some(&Vec::new())), Ok(Vec::new()));
    assert_eq!(scan.handle(Some(&vec![None, None])), Ok(Vec::new()));
}

#[test]
fn scan_of_an_unreadable_root_fails() {
    let scan = ScanFolder { publication_path: "/nowhere".to_string() };
    assert_eq!(scan.handle(None), Err(ScannerError::RootInaccessible));
}

#[test]
fn every_file_is_classified_in_order() {
    let categories = vec![row(1, "Fantasy", None), row(2, "Science Fiction", None)];
    let files = vec![
        File::from("/l/Science Fiction/expanse.epub"),
        File::from("/l/Fantasy/dragon.cbz"),
    ];
    let results = process_files("/l", &categories, &files);
    assert_eq!(results, vec![Ok((files[0].clone(), 2)), Ok((files[1].clone(), 1))]);
}

#[test]
fn without_categories_every_file_fails() {
    let files = vec![File::from("/l/a.cbz"), File::from("/l/b.epub"), File::from("/l/c.pdf")];
    let results = process_files("/l", &Vec::new(), &files);
    assert_eq!(results.len(), 3);
    for outcome in results.iter() {
        assert_eq!(outcome, &Err(ScannerError::EmptyCategoryError));
    }
    let batch = save_publication(&results);
    assert!(batch.publications.is_empty());
    assert!(batch.file_map.is_empty());
    assert_eq!(
        report(&files, &results, 0),
        Report { created: 0, skipped: 0, failed: strings(&["/l/a.cbz", "/l/b.epub", "/l/c.pdf"]) }
    );
}

#[test]
fn batch_holds_one_publication_for_each_classified_file() {
    let results = vec![
        Ok((file("/l/a.cbz", "cbz"), 4)),
        Err(ScannerError::EmptyCategoryError),
        Ok((file("/l/b.epub", "epub"), 9)),
    ];
    let batch = save_publication(&results);
    assert_eq!(
        batch.publications,
        vec![
            NewPublication {
                isbn: String::new(),
                title: "/l/a.cbz".to_string(),
                media_type_id: 1,
                media_format: "cbz".to_string(),
                author_id: 1,
                thumbnail: None,
                timestamp: None,
                file: "/l/a.cbz".to_string(),
            },
            NewPublication {
                isbn: String::new(),
                title: "/l/b.epub".to_string(),
                media_type_id: 1,
                media_format: "epub".to_string(),
                author_id: 1,
                thumbnail: None,
                timestamp: None,
                file: "/l/b.epub".to_string(),
            },
        ]
    );
    assert_eq!(batch.file_map, vec![("/l/a.cbz".to_string(), 4), ("/l/b.epub".to_string(), 9)]);
}

#[test]
fn a_path_that_comes_twice_gives_one_publication() {
    let results = vec![
        Ok((file("/l/a.cbz", "cbz"), 4)),
        Ok((file("/l/b.cbz", "cbz"), 5)),
        Ok((file("/l/a.cbz", "cbz"), 6)),
        Ok((file("/l/a.cbz", "cbz"), 4)),
    ];
    let batch = save_publication(&results);
    let paths: Vec<&str> = batch.publications.iter().map(|p| p.file.as_str()).collect();
    assert_eq!(paths, vec!["/l/a.cbz", "/l/b.cbz"]);
    // The first entry for a path is the one that counts.
    assert_eq!(batch.file_map, vec![("/l/a.cbz".to_string(), 4), ("/l/b.cbz".to_string(), 5)]);
}

#[test]
fn lookup_finds_the_first_entry() {
    let map = vec![("a".to_string(), 1), ("b".to_string(), 2), ("a".to_string(), 3)];
    assert_eq!(lookup(&map, "a"), Some(1));
    assert_eq!(lookup(&map, "b"), Some(2));
    assert_eq!(lookup(&map, "c"), None);
    assert_eq!(lookup(&Vec::new(), "a"), None);
}

#[test]
fn known_paths() {
    let existing = strings(&["/l/a.cbz", "/l/b.cbz"]);
    assert!(is_known(&existing, "/l/a.cbz"));
    assert!(!is_known(&existing, "/l/c.cbz"));
    assert!(!is_known(&Vec::new(), "/l/a.cbz"));
}

#[test]
fn only_uncatalogued_paths_are_created() {
    let results = vec![
        Ok((file("/l/a.cbz", "cbz"), 4)),
        Ok((file("/l/b.cbz", "cbz"), 5)),
        Ok((file("/l/c.cbz", "cbz"), 6)),
    ];
    let batch = save_publication(&results);
    let fresh = select_new(batch.publications, &strings(&["/l/b.cbz", "/elsewhere.pdf"]));
    let paths: Vec<&str> = fresh.iter().map(|p| p.file.as_str()).collect();
    assert_eq!(paths, vec!["/l/a.cbz", "/l/c.cbz"]);
}

fn new_publication(path: &str, title: &str) -> NewPublication {
    NewPublication {
        isbn: String::new(),
        title: title.to_string(),
        media_type_id: 1,
        media_format: "cbz".to_string(),
        author_id: 1,
        thumbnail: None,
        timestamp: None,
        file: path.to_string(),
    }
}

#[test]
fn a_path_that_a_batch_holds_twice_is_created_once() {
    let batch = vec![
        new_publication("/l/a.cbz", "first"),
        new_publication("/l/b.cbz", "other"),
        new_publication("/l/a.cbz", "second"),
        new_publication("/l/c.cbz", "known"),
        new_publication("/l/b.cbz", "other again"),
    ];
    let created = select_new(batch, &strings(&["/l/c.cbz"]));
    assert_eq!(
        created,
        vec![new_publication("/l/a.cbz", "first"), new_publication("/l/b.cbz", "other")]
    );
    let twice = vec![new_publication("/l/a.cbz", "x"), new_publication("/l/a.cbz", "y")];
    assert_eq!(select_new(twice, &Vec::new()), vec![new_publication("/l/a.cbz", "x")]);
}

#[test]
fn proposed_paths() {
    let batch = vec![new_publication("/l/a.cbz", "a")];
    assert!(is_proposed(&batch, "/l/a.cbz"));
    assert!(!is_proposed(&batch, "/l/b.cbz"));
    assert!(!is_proposed(&Vec::new(), "/l/a.cbz"));
}

#[test]
fn second_run_on_an_unchanged_directory_creates_nothing() {
    let categories = vec![row(1, "Fantasy", None), row(2, "Science Fiction", None)];
    let entries = vec![
        Some(entry("/l/Fantasy/dragon.cbz", true)),
        Some(entry("/l/Science Fiction/expanse.epub", true)),
    ];
    let scan = ScanFolder { publication_path: "/l".to_string() };
    let mut catalogue: Vec<String> = strings(&["/l/old.pdf"]);

    // First run.
    let files = scan.handle(Some(&entries)).unwrap();
    let results = process_files("/l", &categories, &files);
    let batch = save_publication(&results);
    let fresh = select_new(batch.publications, &catalogue);
    assert_eq!(fresh.len(), 2);
    let rows: Vec<Publication> =
        fresh.iter().enumerate().map(|(k, p)| created(100 + k as i32, p)).collect();
    for publication in rows.iter() {
        catalogue.push(publication.file.clone());
    }
    let pairs = correlate(rows, &batch.file_map);
    let links = save_publication_categories(&pairs);
    assert_eq!(
        links,
        vec![
            PublicationCategory { publication_id: 100, category_id: 1 },
            PublicationCategory { publication_id: 101, category_id: 2 },
        ]
    );
    assert_eq!(report(&files, &results, 2), Report { created: 2, skipped: 0, failed: Vec::new() });

    // Second run.
    let files = scan.handle(Some(&entries)).unwrap();
    let results = process_files("/l", &categories, &files);
    let batch = save_publication(&results);
    let fresh = select_new(batch.publications, &catalogue);
    assert!(fresh.is_empty());
    let pairs = correlate(Vec::new(), &batch.file_map);
    assert!(pairs.is_empty());
    assert!(save_publication_categories(&pairs).is_empty());
    assert_eq!(report(&files, &results, 0), Report { created: 0, skipped: 2, failed: Vec::new() });
    assert_eq!(catalogue.len(), 3);
}

#[test]
fn created_publications_are_joined_with_their_categories_by_path() {
    let map = vec![("/l/a.cbz".to_string(), 4), ("/l/b.cbz".to_string(), 5)];
    let new_a = NewPublication {
        isbn: String::new(),
        title: "/l/a.cbz".to_string(),
        media_type_id: 1,
        media_format: "cbz".to_string(),
        author_id: 1,
        thumbnail: None,
        timestamp: None,
        file: "/l/a.cbz".to_string(),
    };
    let mut new_b = new_a.clone();
    new_b.file = "/l/b.cbz".to_string();
    let mut stranger = new_a.clone();
    stranger.file = "/l/raced.cbz".to_string();
    // The catalogue may answer in any order, and with rows of another run.
    let rows = vec![created(11, &new_b), created(12, &stranger), created(10, &new_a)];
    let pairs = correlate(rows, &map);
    assert_eq!(pairs, vec![(created(11, &new_b), 5), (created(10, &new_a), 4)]);
}

#[test]
fn report_counts_skipped_and_failed() {
    let files = vec![file("/l/a.cbz", "cbz"), file("/l/b.cbz", "cbz"), file("/l/c.cbz", "cbz")];
    let results = vec![
        Ok((files[0].clone(), 1)),
        Err(ScannerError::NoMatchCategory),
        Ok((files[2].clone(), 1)),
    ];
    assert_eq!(
        report(&files, &results, 1),
        Report { created: 1, skipped: 1, failed: strings(&["/l/b.cbz"]) }
    );
    // More created than classified cannot make the count negative.
    assert_eq!(report(&files, &results, 5).skipped, 0);
}

#[test]
fn enrichment_requests_carry_publication_and_category() {
    let new = NewPublication {
        isbn: String::new(),
        title: "t".to_string(),
        media_type_id: 1,
        media_format: "cbz".to_string(),
        author_id: 1,
        thumbnail: None,
        timestamp: None,
        file: "/l/a.cbz".to_string(),
    };
    let requests = update_metadata(&config(), vec![(created(1, &new), 7), (created(2, &new), 8)]);
    assert_eq!(
        requests,
        vec![
            LoadMetadata { config: config(), publication: created(1, &new), category_id: 7 },
            LoadMetadata { config: config(), publication: created(2, &new), category_id: 8 },
        ]
    );
}

fn comic(id: i32, format: &str) -> Publication {
    Publication {
        id,
        isbn: String::new(),
        title: "t".to_string(),
        media_type_id: 1,
        media_format: format.to_string(),
        author_id: 1,
        thumbnail: None,
        file: "/l/a".to_string(),
        timestamp: None,
    }
}

#[test]
fn thumbnail_is_the_first_page_by_name() {
    let names = listing(&["02.jpg", "cover/", "01.jpg", "03.jpg"]);
    // A directory entry sorts after the pages here, so page 0 is a file.
    let plan = get_thumbnail(&config(), &comic(9, "cbz"), Some(&names));
    assert_eq!(
        plan,
        Some(Extraction { name: "01.jpg".to_string(), target: "/srv/pustaka/thumbnail/9/01.jpg".to_string() })
    );
    assert_eq!(get_thumbnail(&config(), &comic(9, "cbr"), Some(&names)), plan);
    assert_eq!(get_thumbnail_cbr(&config(), &comic(9, "cbr"), &names), plan);
    assert_eq!(get_thumbnail_cbz(&config(), &comic(9, "cbz"), &names), plan);
}

#[test]
fn no_thumbnail_where_none_can_be_made() {
    let names = listing(&["01.jpg"]);
    assert_eq!(get_thumbnail(&config(), &comic(9, "epub"), Some(&names)), None);
    assert_eq!(get_thumbnail(&config(), &comic(9, "pdf"), Some(&names)), None);
    assert_eq!(get_thumbnail(&config(), &comic(9, "cbz"), None), None);
    assert_eq!(get_thumbnail(&config(), &comic(9, "cbr"), Some(&Vec::new())), None);
    assert_eq!(get_thumbnail(&config(), &comic(9, "cbr"), Some(&listing(&["dir/"]))), None);
}

#[test]
fn corrupted_archive_counts_no_pages_during_enrichment() {
    assert_eq!(total_pages(&comic(1, "cbr"), None, None), Some(0));
    assert_eq!(total_pages(&comic(1, "cbz"), None, None), Some(0));
    assert_eq!(total_pages(&comic(1, "cbr"), Some(&listing(&["a", "b", "c"])), None), Some(3));
    assert_eq!(total_pages(&comic(1, "cbz"), Some(&Vec::new()), Some(9)), Some(0));
}

#[test]
fn pages_of_books_and_documents_during_enrichment() {
    assert_eq!(total_pages(&comic(1, "epub"), None, Some(212)), Some(212));
    assert_eq!(total_pages(&comic(1, "epub"), Some(&listing(&["a"])), None), Some(0));
    assert_eq!(total_pages(&comic(1, "pdf"), Some(&listing(&["a", "b", "c"])), Some(4)), None);
    assert_eq!(total_pages(&comic(1, ""), None, None), None);
}

#[test]
fn a_thumbnail_needs_both_writing_and_scaling() {
    assert_eq!(thumbnail_made(true, Ok("/t/9/01.jpg".to_string())), Some("/t/9/01.jpg".to_string()));
    assert_eq!(thumbnail_made(false, Ok("/t/9/01.jpg".to_string())), None);
    assert_eq!(thumbnail_made(true, Err(ThumbnailError::Image)), None);
    assert_eq!(thumbnail_made(true, Err(ThumbnailError::Io)), None);
    assert_eq!(thumbnail_made(false, Err(ThumbnailError::Io)), None);
}

#[test]
fn enrichment_sets_the_thumbnail_and_nothing_else() {
    let request = LoadMetadata { config: config(), publication: comic(9, "cbz"), category_id: 3 };
    let mut expected = comic(9, "cbz");
    expected.thumbnail = Some("/srv/pustaka/thumbnail/9/01.jpg".to_string());
    assert_eq!(
        request.clone().handle(Some("/srv/pustaka/thumbnail/9/01.jpg".to_string())),
        Ok((expected, 3))
    );
    assert_eq!(request.handle(None), Ok((comic(9, "cbz"), 3)));
}

fn walk_of_two() -> Vec<Option<Entry>> {
    vec![
        Some(entry("/l", false)),
        Some(entry("/l/Fantasy/dragon.cbz", true)),
        None,
        Some(entry("/l/Science Fiction/expanse.epub", true)),
        Some(entry("/l/Fantasy/dragon.cbz", true)),
    ]
}

fn two_categories() -> Vec<models::Category> {
    vec![row(1, "Fantasy", None), row(2, "Science Fiction", None)]
}

#[test]
fn a_run_from_start_to_finish() {
    let (run, action) = Run::start(config(), "/l".to_string());
    assert_eq!(action, Action::Gather { publication_path: "/l".to_string() });

    let (run, action) =
        run.step(Event::Gathered { categories: Some(two_categories()), walk: Some(walk_of_two()) });
    assert_eq!(action, Action::FindExisting);

    let (run, action) = run.step(Event::Existing { paths: Some(strings(&["/l/Fantasy/dragon.cbz"])) });
    let publications = match action {
        Action::Create { publications } => publications,
        other => panic!("unexpected action: {:?}", other),
    };
    let paths: Vec<&str> = publications.iter().map(|p| p.file.as_str()).collect();
    assert_eq!(paths, vec!["/l/Science Fiction/expanse.epub"]);
    assert_eq!(publications[0].media_format, "epub");

    let rows = vec![created(50, &publications[0])];
    let (run, action) = run.step(Event::Created { publications: Some(rows.clone()) });
    assert_eq!(
        action,
        Action::Link { links: vec![PublicationCategory { publication_id: 50, category_id: 2 }] }
    );

    let (run, action) = run.step(Event::Linked { written: true });
    assert_eq!(
        action,
        Action::Enrich {
            requests: vec![LoadMetadata { config: config(), publication: rows[0].clone(), category_id: 2 }]
        }
    );

    let (run, action) = run.step(Event::Enriched);
    // Three files were classified (one path came twice); one was created.
    assert_eq!(action, Action::Finish { summary: Report { created: 1, skipped: 2, failed: Vec::new() } });
    assert_eq!(run, Run::Ended);
}

#[test]
fn a_run_without_categories_ends_with_every_file_failed() {
    let (run, _) = Run::start(config(), "/l".to_string());
    let (run, action) = run.step(Event::Gathered { categories: Some(Vec::new()), walk: Some(walk_of_two()) });
    assert_eq!(action, Action::FindExisting);
    let (run, action) = run.step(Event::Existing { paths: Some(Vec::new()) });
    assert_eq!(action, Action::Create { publications: Vec::new() });
    let (run, action) = run.step(Event::Created { publications: Some(Vec::new()) });
    assert_eq!(action, Action::Link { links: Vec::new() });
    let (run, action) = run.step(Event::Linked { written: true });
    assert_eq!(action, Action::Enrich { requests: Vec::new() });
    let (_, action) = run.step(Event::Enriched);
    assert_eq!(
        action,
        Action::Finish {
            summary: Report {
                created: 0,
                skipped: 0,
                failed: strings(&[
                    "/l/Fantasy/dragon.cbz",
                    "/l/Science Fiction/expanse.epub",
                    "/l/Fantasy/dragon.cbz",
                ]),
            }
        }
    );
}

#[test]
fn a_run_fails_as_a_whole_when_gathering_fails() {
    let (run, _) = Run::start(config(), "/l".to_string());
    assert_eq!(
        run.clone().step(Event::Gathered { categories: Some(two_categories()), walk: None }),
        (Run::Ended, Action::Fail { error: ScannerError::RootInaccessible })
    );
    assert_eq!(
        run.clone().step(Event::Gathered { categories: None, walk: Some(walk_of_two()) }),
        (Run::Ended, Action::Fail { error: ScannerError::CatalogueError })
    );
    assert_eq!(
        run.step(Event::Gathered { categories: None, walk: None }),
        (Run::Ended, Action::Fail { error: ScannerError::RootInaccessible })
    );
}

#[test]
fn a_run_fails_as_a_whole_when_the_catalogue_fails() {
    let (run, _) = Run::start(config(), "/l".to_string());
    let (gathered, _) =
        run.step(Event::Gathered { categories: Some(two_categories()), walk: Some(walk_of_two()) });
    assert_eq!(
        gathered.clone().step(Event::Existing { paths: None }),
        (Run::Ended, Action::Fail { error: ScannerError::CatalogueError })
    );
    let (creating, _) = gathered.step(Event::Existing { paths: Some(Vec::new()) });
    assert_eq!(
        creating.clone().step(Event::Created { publications: None }),
        (Run::Ended, Action::Fail { error: ScannerError::CatalogueError })
    );
    let (linking, _) = creating.step(Event::Created { publications: Some(Vec::new()) });
    assert_eq!(
        linking.step(Event::Linked { written: false }),
        (Run::Ended, Action::Fail { error: ScannerError::CatalogueError })
    );
}

#[test]
fn a_run_refuses_what_comes_out_of_turn() {
    let (run, _) = Run::start(config(), "/l".to_string());
    assert_eq!(
        run.step(Event::Enriched),
        (Run::Ended, Action::Fail { error: ScannerError::OutOfTurn })
    );
    assert_eq!(
        Run::Ended.step(Event::Linked { written: true }),
        (Run::Ended, Action::Fail { error: ScannerError::OutOfTurn })
    );
}
