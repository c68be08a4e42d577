use noveltui::bookmark::{bookmark_in, parse_bookmarks, toggle_marker, Bookmark, BOOKMARK_SYMBOL};
use noveltui::chapter::Chapter;

fn chapter(number: usize, start_line: usize, content: &[String]) -> Chapter {
    Chapter { number, title: format!("Chapter {}", number), start_line, content: content.to_vec() }
}

fn triples(bookmarks: &[Bookmark]) -> Vec<(usize, usize, String)> {
    bookmarks
        .iter()
        .map(|b| (b.chapter_index, b.line_in_chapter, b.line_content.clone()))
        .collect()
}

#[test]
fn the_symbol_is_the_bookmark_glyph() {
    assert_eq!(BOOKMARK_SYMBOL, '\u{1F516}');
    assert_eq!(BOOKMARK_SYMBOL.to_string(), "🔖");
}

#[test]
fn a_line_that_begins_with_the_glyph_is_a_bookmark() {
    let m = BOOKMARK_SYMBOL;
    assert_eq!(bookmark_in(&format!("{} hello", m)), Some("hello".to_string()));
    assert_eq!(bookmark_in(&format!("  {}hello  ", m)), Some("hello".to_string()));
    assert_eq!(bookmark_in(&format!("\t{}  two words \t", m)), Some("two words".to_string()));
    assert_eq!(bookmark_in(&format!("{}", m)), Some(String::new()));
    assert_eq!(bookmark_in(&format!("{0}{0} x", m)), Some(format!("{} x", m)));
}

#[test]
fn a_line_without_the_glyph_at_its_head_is_no_bookmark() {
    let m = BOOKMARK_SYMBOL;
    assert_eq!(bookmark_in("hello"), None);
    assert_eq!(bookmark_in(""), None);
    assert_eq!(bookmark_in("   "), None);
    assert_eq!(bookmark_in(&format!("hello {}", m)), None);
    assert_eq!(bookmark_in(&format!("a{}", m)), None);
}

#[test]
fn parse_bookmarks_scans_chapter_by_chapter_line_by_line() {
    let m = BOOKMARK_SYMBOL;
    let first = vec![
        format!("{} first", m),
        "plain".to_string(),
        format!("  {}second  ", m),
        format!("tail {}", m),
    ];
    let second = vec!["Chapter 2".to_string(), format!("{} third", m)];
    let chapters = vec![chapter(1, 0, &first), chapter(2, 4, &second)];
    let bookmarks = parse_bookmarks(&chapters);
    assert_eq!(
        triples(&bookmarks),
        vec![
            (0, 0, "first".to_string()),
            (0, 2, "second".to_string()),
            (1, 1, "third".to_string()),
        ]
    );
}

#[test]
fn parse_bookmarks_of_nothing_is_empty() {
    assert!(parse_bookmarks(&[]).is_empty());
    let chapters = vec![chapter(1, 0, &[]), chapter(2, 0, &["a".to_string()])];
    assert!(parse_bookmarks(&chapters).is_empty());
}

#[test]
fn parse_bookmarks_twice_gives_the_same_list() {
    let m = BOOKMARK_SYMBOL;
    let content = vec![format!("{} a", m), "b".to_string(), format!("{} c", m)];
    let chapters = vec![chapter(1, 0, &content), chapter(2, 3, &content)];
    let once = parse_bookmarks(&chapters);
    let again = parse_bookmarks(&chapters);
    assert_eq!(triples(&once), triples(&again));
    assert_eq!(once.len(), 4);
}

#[test]
fn toggle_marker_sets_the_glyph_behind_one_space() {
    let m = BOOKMARK_SYMBOL;
    assert_eq!(toggle_marker("hello"), Some(format!("hello {}", m)));
    assert_eq!(toggle_marker("  hello  "), Some(format!("  hello {}", m)));
    assert_eq!(toggle_marker("a b\t"), Some(format!("a b {}", m)));
    assert_eq!(toggle_marker(&format!("{} head", m)), Some(format!("{0} head {0}", m)));
}

#[test]
fn toggle_marker_clears_the_glyph_and_the_space_before_it() {
    let m = BOOKMARK_SYMBOL;
    assert_eq!(toggle_marker(&format!("hello {}", m)), Some("hello".to_string()));
    assert_eq!(toggle_marker(&format!("hello   {}  ", m)), Some("hello".to_string()));
    assert_eq!(toggle_marker(&format!("  hello{}", m)), Some("  hello".to_string()));
    assert_eq!(toggle_marker(&format!("{}", m)), Some(String::new()));
    assert_eq!(toggle_marker(&format!("a {0} {0}", m)), Some(format!("a {}", m)));
}

#[test]
fn toggle_marker_leaves_a_blank_line_alone() {
    assert_eq!(toggle_marker(""), None);
    assert_eq!(toggle_marker("   "), None);
    assert_eq!(toggle_marker("\t\u{3000}"), None);
}

#[test]
fn toggle_marker_twice_restores_a_line_without_trailing_white_space() {
    let m = BOOKMARK_SYMBOL;
    for line in ["hello", "  indented", "two words", "x", &format!("hello {}", m), &format!("  a b {}", m)] {
        let once = toggle_marker(line).expect("not blank");
        let twice = toggle_marker(&once).expect("not blank");
        assert_eq!(twice, line);
    }
}

#[test]
fn toggle_marker_twice_does_not_restore_trailing_white_space() {
    let m = BOOKMARK_SYMBOL;
    let once = toggle_marker("hello  ").expect("not blank");
    assert_eq!(toggle_marker(&once), Some("hello".to_string()));
    let once = toggle_marker(&format!("hello{}", m)).expect("not blank");
    assert_eq!(toggle_marker(&once), Some(format!("hello {}", m)));
}
