use noveltui::app::{Action, App, Command, Focus, Key, StartError, StartupJumpError};
use noveltui::chapter::PatternError;
use noveltui::args::Options;
use noveltui::bookmark::BOOKMARK_SYMBOL;
use noveltui::cursor::Cursor;
use std::path::PathBuf;

const STORY: &str = "Chapter 1 Intro\nhello\nChapter 2\nworld\nagain\nChapter 3\nend";

fn options(chapter: Option<usize>, bookmark: Option<usize>) -> Options {
    Options { file_path: PathBuf::from("novel.txt"), bookmark, chapter }
}

fn reader(text: &str) -> App {
    let mut app = App::new(options(None, None));
    app.load(text).expect("the header patterns compile");
    app
}

fn marked_story() -> String {
    let m = BOOKMARK_SYMBOL;
    format!("Chapter 1\n{0} one\nplain\nChapter 2\nx\n{0} two\nChapter 3\n{0} three", m)
}

fn run(app: &mut App, commands: &[Command]) {
    for command in commands {
        app.handle_command(*command);
    }
}

#[test]
fn a_new_reader_has_nothing_selected() {
    let app = App::new(options(Some(2), None));
    assert!(!app.is_running());
    assert!(app.title_footer_shown());
    assert_eq!(app.file_path(), &PathBuf::from("novel.txt"));
    assert_eq!(app.document().line_count(), 0);
    assert_eq!(app.cursor(), Cursor::new());
    assert_eq!(
        app.cursor(),
        Cursor { focus: Focus::Toc, toc: None, content: None, bookmark: None, bookmarks_shown: false }
    );
    assert_eq!(app.progress(), (0, 0));
}

#[test]
fn focus_defaults_to_the_table_of_contents() {
    assert_eq!(Focus::default(), Focus::Toc);
}

#[test]
fn load_opens_the_first_chapter() {
    let app = reader(STORY);
    assert_eq!(app.document().chapter_count(), 3);
    let cursor = app.cursor();
    assert_eq!(cursor.focus, Focus::Toc);
    assert_eq!(cursor.toc, Some(0));
    assert_eq!(cursor.content, Some(0));
    assert_eq!(cursor.bookmark, None);
    assert!(!cursor.bookmarks_shown);
    assert_eq!(cursor.shown_len(app.document()), 2);
}

#[test]
fn load_without_chapters_shows_the_whole_buffer() {
    let app = reader("just\nthree\nlines");
    let cursor = app.cursor();
    assert_eq!(cursor.toc, None);
    assert_eq!(cursor.content, Some(0));
    assert_eq!(cursor.shown_len(app.document()), 3);
    let empty = reader("");
    assert_eq!(empty.cursor().content, None);
    assert_eq!(empty.cursor().toc, None);
}

#[test]
fn load_selects_the_first_bookmark() {
    let app = reader(&marked_story());
    assert_eq!(app.document().bookmark_count(), 3);
    assert_eq!(app.cursor().bookmark, Some(0));
}

#[test]
fn start_and_quit() {
    let mut app = reader(STORY);
    app.start();
    assert!(app.is_running());
    assert_eq!(app.handle_command(Command::Quit), Action::Render);
    assert!(!app.is_running());
}

#[test]
fn focus_left_walks_the_panes() {
    let mut app = reader(STORY);
    app.handle_command(Command::FocusLeft);
    assert_eq!(app.cursor().focus, Focus::Content);
    app.handle_command(Command::FocusLeft);
    assert_eq!(app.cursor().focus, Focus::Toc);
    app.handle_command(Command::ToggleBookmarkPane);
    assert_eq!(app.cursor().focus, Focus::Bookmark);
    app.handle_command(Command::FocusLeft);
    assert_eq!(app.cursor().focus, Focus::Content);
    app.handle_command(Command::FocusLeft);
    assert_eq!(app.cursor().focus, Focus::Toc);
    app.handle_command(Command::FocusLeft);
    assert_eq!(app.cursor().focus, Focus::Bookmark);
}

#[test]
fn focus_right_walks_the_panes() {
    let mut app = reader(STORY);
    app.handle_command(Command::FocusRight);
    assert_eq!(app.cursor().focus, Focus::Content);
    app.handle_command(Command::FocusRight);
    assert_eq!(app.cursor().focus, Focus::Toc);
    run(&mut app, &[Command::ToggleBookmarkPane, Command::FocusRight]);
    assert_eq!(app.cursor().focus, Focus::Toc);
    app.handle_command(Command::FocusRight);
    assert_eq!(app.cursor().focus, Focus::Content);
    app.handle_command(Command::FocusRight);
    assert_eq!(app.cursor().focus, Focus::Bookmark);
}

#[test]
fn focus_right_into_the_bookmark_pane_shows_the_selected_bookmark() {
    let mut app = reader(&marked_story());
    run(
        &mut app,
        &[
            Command::ToggleBookmarkPane,
            Command::MoveDown,
            Command::FocusLeft,
            Command::MoveUp,
            Command::MoveUp,
            Command::MoveUp,
        ],
    );
    let cursor = app.cursor();
    assert_eq!((cursor.focus, cursor.toc, cursor.content), (Focus::Content, Some(0), Some(2)));
    assert_eq!(cursor.bookmark, Some(1));
    app.handle_command(Command::FocusRight);
    let cursor = app.cursor();
    assert_eq!(cursor.focus, Focus::Bookmark);
    assert_eq!((cursor.toc, cursor.content), (Some(1), Some(2)));
}

#[test]
fn focus_left_never_moves_a_selection() {
    let mut app = reader(&marked_story());
    run(&mut app, &[Command::ToggleBookmarkPane, Command::MoveDown, Command::FocusRight]);
    run(&mut app, &[Command::MoveDown, Command::MoveDown]);
    let before = app.cursor();
    assert_eq!(before.focus, Focus::Toc);
    app.handle_command(Command::FocusLeft);
    let after = app.cursor();
    assert_eq!(after.focus, Focus::Bookmark);
    assert_eq!((after.toc, after.content, after.bookmark), (before.toc, before.content, before.bookmark));
}

#[test]
fn toc_moves_wrap_around() {
    let mut app = reader(STORY);
    app.handle_command(Command::MoveUp);
    assert_eq!(app.cursor().toc, Some(2));
    assert_eq!(app.cursor().content, Some(0));
    app.handle_command(Command::MoveDown);
    assert_eq!(app.cursor().toc, Some(0));
    app.handle_command(Command::MoveDown);
    assert_eq!(app.cursor().toc, Some(1));
    app.handle_command(Command::MoveUp);
    assert_eq!(app.cursor().toc, Some(0));
}

#[test]
fn toc_moves_reset_the_content_selection() {
    let mut app = reader(STORY);
    run(&mut app, &[Command::MoveDown, Command::Activate, Command::MoveDown, Command::MoveDown]);
    assert_eq!((app.cursor().toc, app.cursor().content), (Some(1), Some(2)));
    run(&mut app, &[Command::FocusLeft, Command::MoveDown]);
    assert_eq!((app.cursor().toc, app.cursor().content), (Some(2), Some(0)));
}

#[test]
fn content_moves_stop_at_both_ends_of_the_document() {
    let mut app = reader(STORY);
    app.handle_command(Command::Activate);
    let top = app.cursor();
    assert_eq!((top.focus, top.toc, top.content), (Focus::Content, Some(0), Some(0)));
    app.handle_command(Command::MoveUp);
    assert_eq!(app.cursor(), top);
    run(&mut app, &[Command::MoveDown; 6]);
    let bottom = app.cursor();
    assert_eq!((bottom.toc, bottom.content), (Some(2), Some(1)));
    app.handle_command(Command::MoveDown);
    assert_eq!(app.cursor(), bottom);
}

#[test]
fn content_moves_cross_one_chapter_boundary() {
    let mut app = reader(STORY);
    run(&mut app, &[Command::Activate, Command::MoveDown]);
    assert_eq!((app.cursor().toc, app.cursor().content), (Some(0), Some(1)));
    app.handle_command(Command::MoveDown);
    assert_eq!((app.cursor().toc, app.cursor().content), (Some(1), Some(0)));
    app.handle_command(Command::MoveUp);
    assert_eq!((app.cursor().toc, app.cursor().content), (Some(0), Some(1)));
    run(&mut app, &[Command::MoveDown, Command::MoveDown, Command::MoveDown, Command::MoveDown]);
    assert_eq!((app.cursor().toc, app.cursor().content), (Some(2), Some(0)));
    app.handle_command(Command::MoveUp);
    assert_eq!((app.cursor().toc, app.cursor().content), (Some(1), Some(2)));
}

#[test]
fn content_moves_without_chapters_stay_in_the_buffer() {
    let mut app = reader("a\nb\nc");
    run(&mut app, &[Command::FocusRight, Command::MoveDown, Command::MoveDown, Command::MoveDown]);
    assert_eq!((app.cursor().toc, app.cursor().content), (None, Some(2)));
    run(&mut app, &[Command::MoveUp, Command::MoveUp, Command::MoveUp]);
    assert_eq!(app.cursor().content, Some(0));
}

#[test]
fn a_move_without_a_content_selection_selects_the_first_line() {
    let app = reader(STORY);
    let lost = Cursor { focus: Focus::Content, content: None, ..app.cursor() };
    assert_eq!(lost.move_up(app.document()).content, Some(0));
    assert_eq!(lost.move_down(app.document()).content, Some(0));
    let empty = reader("");
    let nothing = Cursor { focus: Focus::Content, ..empty.cursor() };
    assert_eq!(nothing.move_down(empty.document()), nothing);
    assert_eq!(nothing.move_up(empty.document()), nothing);
}

#[test]
fn bookmark_moves_stop_at_both_ends_and_show_the_bookmark() {
    let mut app = reader(&marked_story());
    app.handle_command(Command::ToggleBookmarkPane);
    let first = app.cursor();
    assert_eq!((first.focus, first.bookmark), (Focus::Bookmark, Some(0)));
    app.handle_command(Command::MoveUp);
    assert_eq!(app.cursor(), first);
    app.handle_command(Command::MoveDown);
    let cursor = app.cursor();
    assert_eq!((cursor.bookmark, cursor.toc, cursor.content), (Some(1), Some(1), Some(2)));
    app.handle_command(Command::MoveDown);
    let cursor = app.cursor();
    assert_eq!((cursor.bookmark, cursor.toc, cursor.content), (Some(2), Some(2), Some(1)));
    app.handle_command(Command::MoveDown);
    assert_eq!(app.cursor(), cursor);
    app.handle_command(Command::MoveUp);
    let cursor = app.cursor();
    assert_eq!((cursor.bookmark, cursor.toc, cursor.content), (Some(1), Some(1), Some(2)));
}

#[test]
fn activate_opens_the_selected_chapter_from_the_toc_only() {
    let mut app = reader(STORY);
    run(&mut app, &[Command::MoveDown, Command::Activate]);
    let cursor = app.cursor();
    assert_eq!((cursor.focus, cursor.toc, cursor.content), (Focus::Content, Some(1), Some(0)));
    run(&mut app, &[Command::MoveDown, Command::Activate]);
    let cursor = app.cursor();
    assert_eq!((cursor.focus, cursor.toc, cursor.content), (Focus::Content, Some(1), Some(1)));
    run(&mut app, &[Command::ToggleBookmarkPane]);
    let before = app.cursor();
    app.handle_command(Command::Activate);
    assert_eq!(app.cursor(), before);
    let mut flat = reader("a\nb");
    flat.handle_command(Command::Activate);
    assert_eq!(flat.cursor().focus, Focus::Toc);
}

#[test]
fn the_bookmark_pane_takes_and_gives_the_focus() {
    let mut app = reader(STORY);
    assert_eq!(app.handle_command(Command::ToggleBookmarkPane), Action::Render);
    assert!(app.cursor().bookmarks_shown);
    assert_eq!(app.cursor().focus, Focus::Bookmark);
    app.handle_command(Command::ToggleBookmarkPane);
    assert!(!app.cursor().bookmarks_shown);
    assert_eq!(app.cursor().focus, Focus::Content);
    run(&mut app, &[Command::FocusLeft, Command::ToggleBookmarkPane, Command::FocusRight]);
    assert_eq!(app.cursor().focus, Focus::Toc);
    app.handle_command(Command::ToggleBookmarkPane);
    assert_eq!(app.cursor().focus, Focus::Content);
}

#[test]
fn the_title_and_footer_can_be_hidden() {
    let mut app = reader(STORY);
    assert_eq!(app.handle_command(Command::ToggleTitleFooter), Action::Render);
    assert!(!app.title_footer_shown());
    app.handle_command(Command::ToggleTitleFooter);
    assert!(app.title_footer_shown());
}

#[test]
fn select_chapter_ignores_an_index_out_of_range() {
    let mut app = reader(STORY);
    app.select_chapter(2);
    assert_eq!((app.cursor().toc, app.cursor().content), (Some(2), Some(0)));
    let before = app.cursor();
    app.select_chapter(3);
    assert_eq!(app.cursor(), before);
}

#[test]
fn the_toggle_command_edits_the_line_under_the_cursor() {
    let m = BOOKMARK_SYMBOL;
    let mut app = reader(STORY);
    run(&mut app, &[Command::MoveDown, Command::Activate, Command::MoveDown]);
    assert_eq!(app.handle_command(Command::ToggleBookmarkAtCursor), Action::Persist);
    assert_eq!(app.document().lines()[3], format!("world {}", m));
    assert_eq!(app.document().chapters()[1].content[1], format!("world {}", m));
    assert_eq!(
        app.file_text(),
        format!("Chapter 1 Intro\nhello\nChapter 2\nworld {}\nagain\nChapter 3\nend", m)
    );
    assert_eq!((app.cursor().toc, app.cursor().content), (Some(1), Some(1)));
    assert_eq!(app.handle_command(Command::ToggleBookmarkAtCursor), Action::Persist);
    assert_eq!(app.file_text(), STORY);
}

#[test]
fn the_toggle_command_works_in_the_content_pane_only() {
    let mut app = reader(STORY);
    assert_eq!(app.handle_command(Command::ToggleBookmarkAtCursor), Action::Render);
    assert_eq!(app.file_text(), STORY);
    app.handle_command(Command::ToggleBookmarkPane);
    assert_eq!(app.handle_command(Command::ToggleBookmarkAtCursor), Action::Render);
    assert_eq!(app.file_text(), STORY);
    assert!(!app.toggle_bookmark_at_current_line());
}

#[test]
fn the_toggle_command_passes_over_blank_lines_and_missing_chapters() {
    let mut app = reader("Chapter 1\n  \nx");
    run(&mut app, &[Command::Activate, Command::MoveDown]);
    assert_eq!(app.handle_command(Command::ToggleBookmarkAtCursor), Action::Render);
    assert_eq!(app.file_text(), "Chapter 1\n  \nx");
    assert_eq!(app.document().bookmark_count(), 0);
    let mut flat = reader("a\nb");
    flat.handle_command(Command::FocusRight);
    assert_eq!(flat.cursor().focus, Focus::Content);
    assert_eq!(flat.handle_command(Command::ToggleBookmarkAtCursor), Action::Render);
    assert_eq!(flat.file_text(), "a\nb");
}

#[test]
fn toggling_fits_the_bookmark_selection_to_the_new_list() {
    let m = BOOKMARK_SYMBOL;
    let mut app = reader(&format!("Chapter 1\nplain\n{}", m));
    assert_eq!(app.cursor().bookmark, Some(0));
    assert!(app.toggle_bookmark(0, 2));
    assert_eq!(app.document().lines()[2], "");
    assert_eq!(app.document().bookmark_count(), 0);
    assert_eq!(app.cursor().bookmark, None);
    let mut app = reader(&format!("Chapter 1\n{0} a\n{0}", m));
    run(&mut app, &[Command::ToggleBookmarkPane, Command::MoveDown]);
    assert_eq!(app.cursor().bookmark, Some(1));
    assert!(app.toggle_bookmark(0, 2));
    assert_eq!(app.document().bookmark_count(), 1);
    assert_eq!(app.cursor().bookmark, Some(0));
    assert!(!app.toggle_bookmark(0, 2));
    assert!(!app.toggle_bookmark(4, 0));
    assert_eq!(app.cursor().bookmark, Some(0));
}

#[test]
fn jump_to_a_chapter_that_is_not_there_reports_the_count() {
    let mut app = App::new(options(Some(5), None));
    app.load(STORY).expect("the header patterns compile");
    let before = app.cursor();
    let error = app.handle_initial_jumps().expect_err("five is out of range");
    assert_eq!(error, StartupJumpError::Chapter { requested: 5, available: 3 });
    assert_eq!(error.message(), "Only have 3 Chapter(s). Cannot jump to chapter 5.");
    assert_eq!(app.cursor(), before);
    let mut app = reader(STORY);
    assert_eq!(
        app.jump_to_chapter(3),
        Err(StartupJumpError::Chapter { requested: 3, available: 3 })
    );
}

#[test]
fn jump_to_a_chapter_opens_it() {
    let mut app = App::new(options(Some(1), None));
    app.load(STORY).expect("the header patterns compile");
    assert_eq!(app.handle_initial_jumps(), Ok(()));
    let cursor = app.cursor();
    assert_eq!((cursor.focus, cursor.toc, cursor.content), (Focus::Content, Some(1), Some(0)));
    assert_eq!(app.handle_initial_jumps(), Ok(()));
    assert_eq!(app.cursor(), cursor);
    let mut app = reader(STORY);
    assert_eq!(app.jump_to_chapter(0), Ok(()));
    assert_eq!((app.cursor().focus, app.cursor().toc), (Focus::Content, Some(0)));
    assert_eq!(app.jump_to_chapter(2), Ok(()));
    assert_eq!(app.cursor().toc, Some(2));
}

#[test]
fn jump_to_a_bookmark_opens_its_line() {
    let mut app = App::new(options(None, Some(2)));
    app.load(&marked_story()).expect("the header patterns compile");
    assert_eq!(app.handle_initial_jumps(), Ok(()));
    let cursor = app.cursor();
    assert_eq!(cursor.focus, Focus::Content);
    assert_eq!((cursor.bookmark, cursor.toc, cursor.content), (Some(2), Some(2), Some(1)));
    let mut app = reader(&marked_story());
    assert_eq!(app.jump_to_bookmark(1), Ok(()));
    let cursor = app.cursor();
    assert_eq!((cursor.bookmark, cursor.toc, cursor.content), (Some(1), Some(1), Some(2)));
}

#[test]
fn jump_to_a_bookmark_that_is_not_there_reports_the_count() {
    let mut app = App::new(options(None, Some(3)));
    app.load(&marked_story()).expect("the header patterns compile");
    let before = app.cursor();
    let error = app.handle_initial_jumps().expect_err("three is out of range");
    assert_eq!(error, StartupJumpError::Bookmark { requested: 3, available: 3 });
    assert_eq!(error.message(), "Only have 3 Bookmark(s). Cannot jump to bookmark 3.");
    assert_eq!(app.cursor(), before);
    let mut none = reader(STORY);
    assert_eq!(
        none.jump_to_bookmark(0),
        Err(StartupJumpError::Bookmark { requested: 0, available: 0 })
    );
}

#[test]
fn two_places_to_jump_to_are_refused() {
    let mut app = App::new(options(Some(0), Some(0)));
    app.load(&marked_story()).expect("the header patterns compile");
    let before = app.cursor();
    assert_eq!(app.handle_initial_jumps(), Err(StartupJumpError::Conflict));
    assert_eq!(
        StartupJumpError::Conflict.message(),
        "Cannot jump to a chapter and to a bookmark at once."
    );
    assert_eq!(app.cursor(), before);
    assert_eq!(app.handle_initial_jumps(), Ok(()));
}

#[test]
fn no_place_to_jump_to_is_fine() {
    let mut app = reader(STORY);
    let before = app.cursor();
    assert_eq!(app.handle_initial_jumps(), Ok(()));
    assert_eq!(app.cursor(), before);
}

#[test]
fn keys_stand_for_commands() {
    assert_eq!(Command::from_key(Key::Char('q'), false), Some(Command::Quit));
    assert_eq!(Command::from_key(Key::Char('q'), true), Some(Command::Quit));
    assert_eq!(Command::from_key(Key::Char('c'), true), Some(Command::Quit));
    assert_eq!(Command::from_key(Key::Char('c'), false), None);
    assert_eq!(Command::from_key(Key::Char('b'), false), Some(Command::ToggleBookmarkPane));
    assert_eq!(Command::from_key(Key::Char('s'), false), Some(Command::ToggleTitleFooter));
    assert_eq!(Command::from_key(Key::Char('m'), false), Some(Command::ToggleBookmarkAtCursor));
    assert_eq!(Command::from_key(Key::Char('h'), false), Some(Command::FocusLeft));
    assert_eq!(Command::from_key(Key::Left, false), Some(Command::FocusLeft));
    assert_eq!(Command::from_key(Key::Char('l'), false), Some(Command::FocusRight));
    assert_eq!(Command::from_key(Key::Right, true), Some(Command::FocusRight));
    assert_eq!(Command::from_key(Key::Char('k'), false), Some(Command::MoveUp));
    assert_eq!(Command::from_key(Key::Up, false), Some(Command::MoveUp));
    assert_eq!(Command::from_key(Key::Char('j'), false), Some(Command::MoveDown));
    assert_eq!(Command::from_key(Key::Down, false), Some(Command::MoveDown));
    assert_eq!(Command::from_key(Key::Enter, false), Some(Command::Activate));
    assert_eq!(Command::from_key(Key::Other, false), None);
    assert_eq!(Command::from_key(Key::Char('Q'), false), None);
    assert_eq!(Command::from_key(Key::Char('x'), true), None);
}

#[test]
fn progress_counts_the_selected_line_in_the_buffer() {
    let mut app = reader("intro\nChapter 1\na\nChapter 2\nb");
    assert_eq!(app.progress(), (2, 5));
    run(&mut app, &[Command::Activate, Command::MoveDown]);
    assert_eq!(app.progress(), (3, 5));
    app.handle_command(Command::MoveDown);
    assert_eq!(app.progress(), (4, 5));
    let flat = reader("a\nb");
    assert_eq!(flat.progress(), (0, 2));
}

#[test]
fn load_replaces_the_document() {
    let mut app = reader(&marked_story());
    run(&mut app, &[Command::ToggleBookmarkPane, Command::MoveDown]);
    app.load("Chapter 9\nz").expect("the header patterns compile");
    let cursor = app.cursor();
    assert_eq!((cursor.toc, cursor.content, cursor.bookmark), (Some(0), Some(0), None));
    assert_eq!((cursor.focus, cursor.bookmarks_shown), (Focus::Bookmark, true));
    assert_eq!(app.file_text(), "Chapter 9\nz");
}

#[test]
fn run_loads_starts_and_jumps() {
    let mut app = App::new(options(Some(2), None));
    assert_eq!(app.run(STORY), Ok(()));
    assert!(app.is_running());
    let cursor = app.cursor();
    assert_eq!((cursor.focus, cursor.toc, cursor.content), (Focus::Content, Some(2), Some(0)));
    assert_eq!(app.file_text(), STORY);
    let mut plain = App::new(options(None, None));
    assert_eq!(plain.run(STORY), Ok(()));
    assert!(plain.is_running());
    assert_eq!((plain.cursor().focus, plain.cursor().toc), (Focus::Toc, Some(0)));
}

#[test]
fn run_fails_on_a_place_that_is_not_there() {
    let mut app = App::new(options(Some(5), None));
    let error = app.run(STORY).expect_err("five is out of range");
    assert_eq!(error, StartError::Jump(StartupJumpError::Chapter { requested: 5, available: 3 }));
    assert_eq!(error.message(), "Only have 3 Chapter(s). Cannot jump to chapter 5.");
    assert_eq!(app.document().chapter_count(), 3);
    let mut both = App::new(options(Some(0), Some(0)));
    assert_eq!(both.run(STORY), Err(StartError::Jump(StartupJumpError::Conflict)));
}

#[test]
fn start_errors_have_messages() {
    assert_eq!(
        StartError::Pattern(PatternError::Localized).message(),
        "The localized header pattern does not compile."
    );
    assert_eq!(
        StartError::Pattern(PatternError::Generic).message(),
        "The generic header pattern does not compile."
    );
    assert_eq!(
        StartError::Jump(StartupJumpError::Bookmark { requested: 1, available: 0 }).message(),
        "Only have 0 Bookmark(s). Cannot jump to bookmark 1."
    );
}
