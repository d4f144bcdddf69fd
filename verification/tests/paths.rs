use dreammaker::path::{clone_path, clone_range, segments_valid, split_path, DELIMITER};

fn strings(items: &[&str]) -> Vec<String> {
    items.iter().map(|item| item.to_string()).collect()
}

#[test]
fn delimiter_is_a_slash() {
    assert_eq!(DELIMITER, '/');
}

#[test]
fn split_plain_path() {
    assert_eq!(split_path("atom/movable/var/bound_x"), strings(&["atom", "movable", "var", "bound_x"]));
}

#[test]
fn split_single_segment() {
    assert_eq!(split_path("datum"), strings(&["datum"]));
}

#[test]
fn split_empty_text_is_one_empty_segment() {
    assert_eq!(split_path(""), strings(&[""]));
}

#[test]
fn split_doubled_delimiter() {
    assert_eq!(split_path("atom//movable"), strings(&["atom", "", "movable"]));
}

#[test]
fn split_leading_and_trailing_delimiter() {
    assert_eq!(split_path("/atom"), strings(&["", "atom"]));
    assert_eq!(split_path("atom/"), strings(&["atom", ""]));
    assert_eq!(split_path("/"), strings(&["", ""]));
}

#[test]
fn split_counts_characters_not_bytes() {
    assert_eq!(split_path("é/ü"), strings(&["é", "ü"]));
    assert_eq!(split_path("日本/語"), strings(&["日本", "語"]));
}

#[test]
fn split_has_one_segment_more_than_delimiters() {
    for text in ["", "a", "a/b", "a//b", "///", "a/b/c/d/e"] {
        let delimiters = text.chars().filter(|c| *c == '/').count();
        let segments = split_path(text);
        assert_eq!(segments.len(), delimiters + 1, "{:?}", text);
        assert_eq!(segments.join("/"), text);
        assert!(segments.iter().all(|segment| !segment.contains('/')));
    }
}

#[test]
fn valid_segments() {
    assert!(segments_valid(&strings(&["atom", "movable"])));
    assert!(segments_valid(&strings(&["x"])));
    assert!(segments_valid(&strings(&[])));
    assert!(!segments_valid(&strings(&[""])));
    assert!(!segments_valid(&strings(&["atom", "", "movable"])));
    assert!(!segments_valid(&strings(&["", "atom"])));
    assert!(!segments_valid(&strings(&["atom", ""])));
}

#[test]
fn clone_of_a_path() {
    let path = strings(&["atom", "movable"]);
    assert_eq!(clone_path(&path), path);
    assert_eq!(clone_path(&strings(&[])), strings(&[]));
}

#[test]
fn clone_of_a_range() {
    let path = strings(&["world", "var", "static", "area", "area"]);
    assert_eq!(clone_range(&path, 0, 1), strings(&["world"]));
    assert_eq!(clone_range(&path, 2, 4), strings(&["static", "area"]));
    assert_eq!(clone_range(&path, 3, 3), strings(&[]));
    assert_eq!(clone_range(&path, 0, 5), path);
}
