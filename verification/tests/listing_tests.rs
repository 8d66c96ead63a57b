use nozomi_video_streamer::listing::{build_listing, entry_url, sort_entries, str_lex_le};

fn s(x: &str) -> String {
    x.to_string()
}

#[test]
fn listing_is_sorted_case_sensitively() {
    // code-point order: every upper-case name sorts before lower-case ones
    let sorted = sort_entries(vec![s("b.mp4"), s("A.mp4"), s("c.txt")]);
    assert_eq!(sorted, vec![s("A.mp4"), s("b.mp4"), s("c.txt")]);
}

#[test]
fn sorting_keeps_duplicates() {
    let sorted = sort_entries(vec![s("b"), s("a"), s("b"), s("a")]);
    assert_eq!(sorted, vec![s("a"), s("a"), s("b"), s("b")]);
}

#[test]
fn sorting_nothing_gives_nothing() {
    let sorted = sort_entries(Vec::new());
    assert!(sorted.is_empty());
}

#[test]
fn comparison_is_lexicographic() {
    assert!(str_lex_le("a", "b"));
    assert!(str_lex_le("a", "ab"));
    assert!(!str_lex_le("ab", "a"));
    assert!(str_lex_le("same", "same"));
    assert!(str_lex_le("A.mp4", "b.mp4"));
    assert!(!str_lex_le("b.mp4", "A.mp4"));
}

#[test]
fn entry_urls_carry_one_leading_slash() {
    assert_eq!(entry_url("movies", "film.mp4"), "/movies/film.mp4");
    assert_eq!(entry_url("", "film.mp4"), "/film.mp4");
    assert_eq!(entry_url("/movies", "film.mp4"), "/movies/film.mp4");
}

#[test]
fn built_listing_is_sorted_and_linked() {
    let entries = build_listing("movies", vec![s("b.mp4"), s("A.mp4"), s("c.txt")]);
    let names: Vec<String> = entries.iter().map(|e| e.filename.clone()).collect();
    let urls: Vec<String> = entries.iter().map(|e| e.url.clone()).collect();
    assert_eq!(names, vec![s("A.mp4"), s("b.mp4"), s("c.txt")]);
    assert_eq!(urls, vec![s("/movies/A.mp4"), s("/movies/b.mp4"), s("/movies/c.txt")]);
}
