use edcore::Row;

#[test]
fn from_counts_grapheme_clusters() {
    // An accented letter built from two code points is one cluster.
    let row = Row::from("ae\u{301}b");
    assert_eq!(row.len(), 3);
    let row = Row::from("a\u{310}e\u{301}o\u{308}\u{332}");
    assert_eq!(row.len(), 3);
}

#[test]
fn empty_line() {
    let row = Row::from("");
    assert_eq!(row.len(), 0);
    assert!(row.is_empty());
    assert!(row.is_equal(""));
    let row = Row::default();
    assert!(row.is_empty());
}

#[test]
fn insert_then_delete_restores_content() {
    let original = "he\u{301}llo";
    let mut row = Row::from(original);
    for pos in 0..=row.len() {
        row.insert(pos, 'x');
        row.delete(pos);
        assert!(row.is_equal(original));
    }
}

#[test]
fn insert_past_end_appends() {
    let mut row = Row::from("ab");
    row.insert(99, 'c');
    assert!(row.is_equal("abc"));
    assert_eq!(row.len(), 3);
}

#[test]
fn insert_keeps_clusters_whole() {
    let mut row = Row::from("e\u{301}");
    assert_eq!(row.len(), 1);
    row.insert(1, 'x');
    assert_eq!(row.len(), 2);
    assert!(row.is_equal("e\u{301}x"));
    row.delete(0);
    // The whole two-codepoint cluster goes at once.
    assert!(row.is_equal("x"));
    assert_eq!(row.len(), 1);
}

#[test]
fn delete_past_end_is_a_no_op() {
    let mut row = Row::from("ab");
    row.delete(2);
    row.delete(99);
    assert!(row.is_equal("ab"));
}

#[test]
fn split_then_append_reconstructs() {
    let original = "hello world";
    for pos in 0..=11 {
        let mut row = Row::from(original);
        let rest = row.split(pos);
        assert_eq!(row.len(), pos);
        assert_eq!(rest.len(), 11 - pos);
        row.append(&rest);
        assert!(row.is_equal(original));
    }
}

#[test]
fn split_past_end_keeps_everything() {
    let mut row = Row::from("abc");
    let rest = row.split(99);
    assert!(row.is_equal("abc"));
    assert!(rest.is_equal(""));
}

#[test]
fn find_reports_grapheme_index() {
    let row = Row::from("hello world");
    assert_eq!(row.find("world"), Some(6));
    assert_eq!(row.find("hello"), Some(0));
    assert_eq!(row.find("zzz"), None);
    assert_eq!(row.find(""), Some(0));
    // The index counts clusters, not bytes.
    let row = Row::from("e\u{301}xy");
    assert_eq!(row.find("xy"), Some(1));
}

#[test]
fn find_matches_whole_clusters() {
    // The query is segmented like the line: a match must cover whole
    // clusters, so a bare base letter does not match inside an accented
    // cluster, while the full cluster does.
    let row = Row::from("xe\u{301}y");
    assert_eq!(row.find("e\u{301}"), Some(1));
    assert_eq!(row.find("e"), None);
    assert_eq!(row.find("y"), Some(2));
}

#[test]
fn render_clips_and_draws_tabs_as_spaces() {
    let row = Row::from("a\tb");
    assert_eq!(row.render(0, 3), "a b");
    assert_eq!(row.render(1, 99), " b");
    assert_eq!(row.render(2, 3), "b");
    assert_eq!(row.render(3, 3), "");
    assert_eq!(row.render(5, 2), "");
}

#[test]
fn as_bytes_is_the_utf8_of_the_text() {
    let row = Row::from("he\u{301}y");
    assert_eq!(row.as_bytes(), "he\u{301}y".as_bytes().to_vec());
    let row = Row::from("");
    assert!(row.as_bytes().is_empty());
}

#[test]
fn is_equal_compares_exact_text() {
    let row = Row::from("abc");
    assert!(row.is_equal("abc"));
    assert!(!row.is_equal("abd"));
    assert!(!row.is_equal("ab"));
    assert!(!row.is_equal("abcd"));
}

#[test]
fn contents_round_trips() {
    let row = Row::from("a\tb e\u{301}");
    assert_eq!(row.contents(), "a\tb e\u{301}");
}

#[test]
fn clone_preserves_content() {
    let row = Row::from("xyz");
    let copy = row.clone();
    assert!(copy.is_equal("xyz"));
    assert_eq!(copy.len(), 3);
}
