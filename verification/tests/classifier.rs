use pustaka::config::Config;
use pustaka::scan::actor::process_file::{
    first_highest, highest_score, process_category, rank_category, score_component,
    score_from_distance, ProcessFile, Score,
};
use pustaka::scan::actor::{Category, File};
use pustaka::scan::error::ScannerError;

fn category(id: i32, name: &str) -> Category {
    Category { id, name: name.to_string() }
}

fn score(num: usize, den: usize) -> Score {
    Score { num, den }
}

#[test]
fn near_perfect_component_wins() {
    let categories = vec![category(1, "Fantasy"), category(2, "Science Fiction")];
    let file = File::from("/library/Fantasy/dragon.cbz");
    let chosen = process_category("/library", &file, &categories).unwrap();
    assert_eq!(chosen.id, 1);
    assert_eq!(chosen.name, "Fantasy");
}

#[test]
fn second_category_wins_when_it_matches() {
    let categories = vec![category(1, "Fantasy"), category(2, "Science Fiction")];
    let file = File::from("/library/Science Fiction/expanse.epub");
    let chosen = process_category("/library", &file, &categories).unwrap();
    assert_eq!(chosen.id, 2);
}

#[test]
fn empty_category_list_fails() {
    let categories: Vec<Category> = Vec::new();
    let file = File::from("/library/Fantasy/dragon.cbz");
    let outcome = process_category("/library", &file, &categories);
    assert_eq!(outcome.err(), Some(ScannerError::EmptyCategoryError));
}

#[test]
fn classification_is_repeatable() {
    let categories = vec![
        category(7, "Horror"),
        category(8, "Humor"),
        category(9, "Historical fiction"),
    ];
    let file = File::from("/books/Humour/three_men.epub");
    let first = process_category("/books", &file, &categories).unwrap().id;
    let second = process_category("/books", &file, &categories).unwrap().id;
    assert_eq!(first, 8);
    assert_eq!(first, second);
}

#[test]
fn equal_ranks_go_to_the_first_category() {
    let categories = vec![category(1, "abc"), category(2, "abd"), category(3, "abe")];
    let file = File::from("/r/abx/file.pdf");
    let chosen = process_category("/r", &file, &categories).unwrap();
    assert_eq!(chosen.id, 1);
}

#[test]
fn single_category_always_wins() {
    let categories = vec![category(42, "Programming")];
    let file = File::from("/library/zzz/qqq.cbr");
    let chosen = process_category("/library", &file, &categories).unwrap();
    assert_eq!(chosen.id, 42);
}

#[test]
fn the_scan_root_does_not_count() {
    // Without the root the only components are "x" and "y.cbz".
    let categories = vec![category(1, "Fantasy"), category(2, "x")];
    let file = File::from("/Fantasy/x/y.cbz");
    let chosen = process_category("/Fantasy", &file, &categories).unwrap();
    assert_eq!(chosen.id, 2);
}

#[test]
fn distance_counts_characters_and_transpositions() {
    // "kitten" to "sitting": two substitutions and one insertion.
    assert_eq!(score_component("kitten", "sitting"), score(4, 7));
    // One transposition of neighbours is one edit.
    assert_eq!(score_component("ab", "ba"), score(1, 2));
    // Edits may touch a transposed pair again: distance 2, not 3.
    assert_eq!(score_component("ca", "abc"), score(1, 3));
    // Lengths are counted in characters, not in bytes.
    assert_eq!(score_component("löwe", "lowe"), score(3, 4));
}

#[test]
fn identical_and_empty_texts() {
    assert_eq!(score_component("Fantasy", "Fantasy"), score(7, 7));
    assert_eq!(score_component("", ""), score(1, 1));
    assert_eq!(score_component("", "flower"), score(0, 6));
    assert_eq!(score_component("tree", ""), score(0, 4));
}

#[test]
fn score_from_distance_formula() {
    assert_eq!(score_from_distance(6, 7, 3), score(4, 7));
    assert_eq!(score_from_distance(7, 6, 3), score(4, 7));
    assert_eq!(score_from_distance(0, 0, 0), score(1, 1));
    assert_eq!(score_from_distance(3, 3, 0), score(3, 3));
    assert_eq!(score_from_distance(3, 3, 3), score(0, 3));
    // A distance beyond the greater length cannot push the score below 0.
    assert_eq!(score_from_distance(2, 3, 9), score(0, 3));
}

#[test]
fn less_than_compares_fractions() {
    assert!(score(1, 3).less_than(&score(1, 2)));
    assert!(!score(1, 2).less_than(&score(1, 3)));
    assert!(!score(1, 2).less_than(&score(2, 4)));
    assert!(!score(2, 4).less_than(&score(1, 2)));
    assert!(score(0, 1).less_than(&score(1, 1000)));
    let big = usize::MAX;
    assert!(score(big - 1, big).less_than(&score(big, big)));
}

#[test]
fn highest_score_keeps_the_first_of_equals() {
    assert_eq!(highest_score(&Vec::new()), score(0, 1));
    assert_eq!(highest_score(&vec![score(0, 5), score(0, 7)]), score(0, 1));
    assert_eq!(highest_score(&vec![score(1, 2), score(2, 4), score(1, 3)]), score(1, 2));
    assert_eq!(highest_score(&vec![score(1, 3), score(2, 4), score(1, 2)]), score(2, 4));
    assert_eq!(highest_score(&vec![score(1, 3), score(3, 4), score(1, 2)]), score(3, 4));
}

#[test]
fn first_highest_picks_the_first_maximum() {
    assert_eq!(first_highest(&Vec::new()), None);
    assert_eq!(first_highest(&vec![score(1, 2)]), Some(0));
    assert_eq!(first_highest(&vec![score(1, 2), score(2, 4), score(1, 3)]), Some(0));
    assert_eq!(first_highest(&vec![score(1, 3), score(2, 3), score(4, 6)]), Some(1));
    assert_eq!(first_highest(&vec![score(0, 1), score(0, 9), score(1, 9)]), Some(2));
}

#[test]
fn rank_is_the_best_component() {
    let file = File::from("/library/Fantasy/dragon.cbz");
    assert_eq!(rank_category("/library", &category(1, "Fantasy"), &file), score(7, 7));
    // "dragon.cbz" against "dragons.cbz": one insertion over eleven characters.
    assert_eq!(rank_category("/library", &category(1, "dragons.cbz"), &file), score(10, 11));
}

#[test]
fn rank_without_components_is_zero() {
    let file = File::from("/library");
    assert_eq!(rank_category("/library", &category(1, "Fantasy"), &file), score(0, 1));
}

#[test]
fn process_file_hands_back_the_file_and_the_category() {
    let file = File::from("/library/Fantasy/dragon.cbz");
    let request = ProcessFile {
        config: Config { database: "pustaka.db".to_string(), pustaka_home: "/srv".to_string() },
        publication_path: "/library".to_string(),
        categories: vec![category(5, "Science Fiction"), category(6, "Fantasy")],
        file: file.clone(),
    };
    assert_eq!(request.handle(), Ok((file, 6)));
}

#[test]
fn process_file_without_categories_fails() {
    let request = ProcessFile {
        config: Config { database: String::new(), pustaka_home: String::new() },
        publication_path: "/library".to_string(),
        categories: Vec::new(),
        file: File::from("/library/a.cbz"),
    };
    assert_eq!(request.handle(), Err(ScannerError::EmptyCategoryError));
}

#[test]
fn scanner_error_messages() {
    assert_eq!(ScannerError::EmptyCategoryError.message(), "EmptyCategoryError");
    assert_eq!(ScannerError::NoMatchCategory.message(), "NoMatchCategory");
    assert_eq!(ScannerError::RootInaccessible.message(), "RootInaccessible");
    assert_eq!(ScannerError::CatalogueError.message(), "CatalogueError");
    assert_eq!(ScannerError::OutOfTurn.message(), "OutOfTurn");
}

#[test]
fn a_category_named_in_the_path_scores_in_full() {
    let file = File::from("/library/a/Horror/b.cbz");
    let rank = rank_category("/library", &category(1, "Horror"), &file);
    assert_eq!(rank.num, rank.den);
    // It wins wherever it stands, as long as nothing before it scores in full.
    let categories = vec![category(9, "Humor"), category(8, "Western"), category(1, "Horror")];
    assert_eq!(process_category("/library", &file, &categories).unwrap().id, 1);
}

#[test]
fn distance_is_never_above_the_longer_length() {
    for (a, b) in [("abc", "xyz"), ("", "xyz"), ("abcdef", "z"), ("ab", "ba"), ("same", "same")] {
        let found = score_component(a, b);
        assert!(found.num <= found.den);
        let longer = a.chars().count().max(b.chars().count());
        assert_eq!(found.den, longer);
    }
}
