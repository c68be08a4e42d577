use noveltui::app::{App, Command, Focus};
use noveltui::args::Options;
use noveltui::bookmark::BOOKMARK_SYMBOL;
use noveltui::display::{
    bookmark_items, content_item, content_items, content_width, focus_label, status_left,
    status_right, toc_items,
};
use std::path::PathBuf;

fn reader(text: &str) -> App {
    let mut app = App::new(Options {
        file_path: PathBuf::from("novel.txt"),
        bookmark: None,
        chapter: None,
    });
    app.load(text).expect("the header patterns compile");
    app
}

#[test]
fn content_width_leaves_five_columns_and_at_least_one() {
    assert_eq!(content_width(0), 1);
    assert_eq!(content_width(5), 1);
    assert_eq!(content_width(6), 1);
    assert_eq!(content_width(7), 2);
    assert_eq!(content_width(85), 80);
    assert_eq!(content_width(u16::MAX), 65530);
}

#[test]
fn content_item_wraps_to_the_pane() {
    assert_eq!(
        content_item("Memory safety without garbage collection.", 20),
        "Memory safety\nwithout garbage\ncollection."
    );
    assert_eq!(content_item("short", 80), "short");
    assert_eq!(content_item("", 80), "");
    assert_eq!(content_item("abc", 0), "a\nb\nc");
}

#[test]
fn content_items_show_the_lines_on_display() {
    let mut app = reader("Chapter 1\none two three four\nChapter 2\nx");
    assert_eq!(content_items(&app, 13), vec!["Chapter\n1", "one two\nthree\nfour"]);
    app.handle_command(Command::MoveDown);
    assert_eq!(content_items(&app, 80), vec!["Chapter 2", "x"]);
    let flat = reader("a\nb");
    assert_eq!(content_items(&flat, 80), vec!["a", "b"]);
    let empty = reader("");
    assert_eq!(content_items(&empty, 80), vec![""]);
}

#[test]
fn toc_items_are_the_titles() {
    let app = reader("Chapter 1 One\nx\n\u{7B2C}2\u{7AE0}");
    assert_eq!(toc_items(&app), vec!["Chapter 1 One", "\u{7B2C}2\u{7AE0}"]);
    let flat = reader("a\nb");
    assert_eq!(toc_items(&flat), vec!["NONE"]);
}

#[test]
fn bookmark_items_are_numbered_from_one() {
    let m = BOOKMARK_SYMBOL;
    let app = reader(&format!("Chapter 1\n{0} first\nx\n{0}\n{0} third one", m));
    assert_eq!(bookmark_items(&app), vec!["1. first", "2. ", "3. third one"]);
    let none = reader("Chapter 1\nx");
    assert!(bookmark_items(&none).is_empty());
}

#[test]
fn focus_label_names_the_pane() {
    assert_eq!(focus_label(Focus::Toc), "[TOC]");
    assert_eq!(focus_label(Focus::Content), "[CONTENT]");
    assert_eq!(focus_label(Focus::Bookmark), "[BOOKMARK]");
}

#[test]
fn status_left_names_the_pane_and_the_chapter() {
    let mut app = reader("Chapter 1 One\nx\nChapter 2");
    assert_eq!(status_left(&app, "novel.txt"), "[TOC] Chapter 1 One");
    app.handle_command(Command::MoveDown);
    app.handle_command(Command::Activate);
    assert_eq!(status_left(&app, "novel.txt"), "[CONTENT] Chapter 2");
    let mut flat = reader("a\nb");
    assert_eq!(status_left(&flat, "novel.txt"), "[TOC] novel.txt");
    flat.handle_command(Command::ToggleBookmarkPane);
    assert_eq!(status_left(&flat, ""), "[BOOKMARK] ");
}

#[test]
fn status_right_counts_the_selected_line() {
    let mut app = reader("intro\nChapter 1\na\nChapter 2\nb");
    assert_eq!(status_right(&app), "2/5 [m]Toggle Mark [b]Bookmark");
    app.handle_command(Command::Activate);
    app.handle_command(Command::MoveDown);
    assert_eq!(status_right(&app), "3/5 [m]Toggle Mark [b]Bookmark");
    let flat = reader("a\nb");
    assert_eq!(status_right(&flat), "0/2 [m]Toggle Mark [b]Bookmark");
}
