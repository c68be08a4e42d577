//! The reader: the document, the cursor and the commands that move it.

use crate::args::Options;
use crate::cursor::{
    lemma_jump_keeps_wf, lemma_opened_wf, lemma_select_keeps_wf, lemma_settle_keeps_wf,
    lemma_step_keeps_wf, Cursor, CursorView,
};
use crate::chapter::{in_place, pattern_error, Chapter, PatternError};
use crate::document::{lemma_toggle_keeps_wf, loaded, Document, DocumentView};
use crate::text::{decimal, join_lines, push_decimal};
use std::path::PathBuf;
use vstd::prelude::*;

verus! {

/// The pane that receives navigation commands.
#[derive(Debug, PartialEq, Eq, Clone, Copy, Structural)]
pub enum Focus {
    Toc,
    Content,
    Bookmark,
}

impl Default for Focus {
    fn default() -> (focus: Focus)
        ensures
            focus == Focus::Toc,
    {
        Focus::Toc
    }
}

/// What the reader can be told to do.
#[derive(Debug, PartialEq, Eq, Clone, Copy, Structural)]
pub enum Command {
    Quit,
    FocusLeft,
    FocusRight,
    MoveUp,
    MoveDown,
    Activate,
    ToggleBookmarkPane,
    ToggleBookmarkAtCursor,
    ToggleTitleFooter,
}

/// A key press, as far as the reader tells keys apart.
#[derive(Debug, PartialEq, Eq, Clone, Copy, Structural)]
pub enum Key {
    Char(char),
    Left,
    Right,
    Up,
    Down,
    Enter,
    Other,
}

/// What is left to do outside once a command was handled.
#[derive(Debug, PartialEq, Eq, Clone, Copy, Structural)]
pub enum Action {
    /// Nothing but to draw the new state.
    Render,
    /// The line buffer changed and is to be written back.
    Persist,
}

/// Why the reader could not open at the place asked for.
#[derive(Debug, PartialEq, Eq, Clone, Copy, Structural)]
pub enum StartupJumpError {
    /// There is no chapter at the index asked for.
    Chapter { requested: usize, available: usize },
    /// There is no bookmark at the index asked for.
    Bookmark { requested: usize, available: usize },
    /// Both a chapter and a bookmark were asked for.
    Conflict,
}

/// Why the reader could not start.
#[derive(Debug, PartialEq, Eq, Clone, Copy, Structural)]
pub enum StartError {
    /// A header pattern does not compile, so the text cannot be loaded.
    Pattern(PatternError),
    /// The place to open at does not exist.
    Jump(StartupJumpError),
}

/// The command that a key stands for: `q` and control-`c` quit, `b` shows
/// or hides the bookmark pane, `s` the title and footer, `m` toggles the
/// bookmark at the cursor, `h j k l` and the arrows move, enter activates.
pub open spec fn command_of(key: Key, control: bool) -> Option<Command> {
    match key {
        Key::Char(c) => if c == 'q' {
            Some(Command::Quit)
        } else if c == 'c' && control {
            Some(Command::Quit)
        } else if c == 'b' {
            Some(Command::ToggleBookmarkPane)
        } else if c == 's' {
            Some(Command::ToggleTitleFooter)
        } else if c == 'm' {
            Some(Command::ToggleBookmarkAtCursor)
        } else if c == 'h' {
            Some(Command::FocusLeft)
        } else if c == 'l' {
            Some(Command::FocusRight)
        } else if c == 'k' {
            Some(Command::MoveUp)
        } else if c == 'j' {
            Some(Command::MoveDown)
        } else {
            None
        },
        Key::Left => Some(Command::FocusLeft),
        Key::Right => Some(Command::FocusRight),
        Key::Up => Some(Command::MoveUp),
        Key::Down => Some(Command::MoveDown),
        Key::Enter => Some(Command::Activate),
        Key::Other => None,
    }
}

/// What a startup error tells the user: the count that is there and the
/// index that was asked for.
pub open spec fn message_of(e: StartupJumpError) -> Seq<char> {
    match e {
        StartupJumpError::Chapter { requested, available } => "Only have "@ + decimal(
            available as nat,
        ) + " Chapter(s). Cannot jump to chapter "@ + decimal(requested as nat) + "."@,
        StartupJumpError::Bookmark { requested, available } => "Only have "@ + decimal(
            available as nat,
        ) + " Bookmark(s). Cannot jump to bookmark "@ + decimal(requested as nat) + "."@,
        StartupJumpError::Conflict => "Cannot jump to a chapter and to a bookmark at once."@,
    }
}

/// What an error at the start tells the user.
pub open spec fn start_message_of(e: StartError) -> Seq<char> {
    match e {
        StartError::Pattern(which) => match which {
            PatternError::Localized => "The localized header pattern does not compile."@,
            PatternError::Generic => "The generic header pattern does not compile."@,
        },
        StartError::Jump(e) => message_of(e),
    }
}

impl Command {
    /// The command that a key stands for, if any; `control` says whether
    /// the control key was held.
    pub fn from_key(key: Key, control: bool) -> (command: Option<Command>)
        ensures
            command == command_of(key, control),
    {
        match key {
            Key::Char(c) => if c == 'q' {
                Some(Command::Quit)
            } else if c == 'c' && control {
                Some(Command::Quit)
            } else if c == 'b' {
                Some(Command::ToggleBookmarkPane)
            } else if c == 's' {
                Some(Command::ToggleTitleFooter)
            } else if c == 'm' {
                Some(Command::ToggleBookmarkAtCursor)
            } else if c == 'h' {
                Some(Command::FocusLeft)
            } else if c == 'l' {
                Some(Command::FocusRight)
            } else if c == 'k' {
                Some(Command::MoveUp)
            } else if c == 'j' {
                Some(Command::MoveDown)
            } else {
                None
            },
            Key::Left => Some(Command::FocusLeft),
            Key::Right => Some(Command::FocusRight),
            Key::Up => Some(Command::MoveUp),
            Key::Down => Some(Command::MoveDown),
            Key::Enter => Some(Command::Activate),
            Key::Other => None,
        }
    }
}

impl StartupJumpError {
    /// The message for the user.
    pub fn message(&self) -> (text: String)
        ensures
            text@ == message_of(*self),
    {
        let mut text = String::new();
        match self {
            StartupJumpError::Chapter { requested, available } => {
                text.append("Only have ");
                push_decimal(&mut text, *available);
                text.append(" Chapter(s). Cannot jump to chapter ");
                push_decimal(&mut text, *requested);
                text.append(".");
            },
            StartupJumpError::Bookmark { requested, available } => {
                text.append("Only have ");
                push_decimal(&mut text, *available);
                text.append(" Bookmark(s). Cannot jump to bookmark ");
                push_decimal(&mut text, *requested);
                text.append(".");
            },
            StartupJumpError::Conflict => {
                text.append("Cannot jump to a chapter and to a bookmark at once.");
            },
        }
        text
    }
}

/// A document with the cursor over it. The two are held as one value, so
/// that the cursor fits the document at all times.
#[derive(Debug)]
struct Reading {
    doc: Document,
    cursor: Cursor,
}

impl Reading {
    #[verifier::type_invariant]
    spec fn fits(self) -> bool {
        &&& self.doc@.wf()
        &&& self.cursor@.wf(self.doc@)
    }

    /// The empty document under the initial cursor.
    fn new() -> (reading: Reading)
        ensures
            reading.doc@ == DocumentView::empty(),
            reading.cursor@ == CursorView::initial(),
    {
        Reading { doc: Document::new(), cursor: Cursor::new() }
    }
}

impl StartError {
    /// The message for the user.
    pub fn message(&self) -> (text: String)
        ensures
            text@ == start_message_of(*self),
    {
        match self {
            StartError::Pattern(PatternError::Localized) => String::from_str(
                "The localized header pattern does not compile.",
            ),
            StartError::Pattern(PatternError::Generic) => String::from_str(
                "The generic header pattern does not compile.",
            ),
            StartError::Jump(e) => e.message(),
        }
    }
}

/// The reader's state: the document on display, the cursor over it, and
/// what it was started with.
#[derive(Debug)]
pub struct App {
    running: bool,
    file_path: PathBuf,
    reading: Reading,
    show_title_footer: bool,
    initial_bookmark_jump: Option<usize>,
    initial_chapter_jump: Option<usize>,
}

/// The mathematical value of an [`App`].
pub struct AppView {
    pub running: bool,
    pub file_path: PathBuf,
    pub doc: DocumentView,
    pub cursor: CursorView,
    pub title_footer_shown: bool,
    pub pending_chapter: Option<usize>,
    pub pending_bookmark: Option<usize>,
}

impl AppView {
    /// The document is well formed and the cursor fits it.
    pub open spec fn wf(self) -> bool {
        &&& self.doc.wf()
        &&& self.cursor.wf(self.doc)
    }

    /// The reader as it is made from its options: not running, no
    /// document, the initial cursor, title and footer shown.
    pub open spec fn started(args: Options) -> AppView {
        AppView {
            running: false,
            file_path: args.file_path,
            doc: DocumentView::empty(),
            cursor: CursorView::initial(),
            title_footer_shown: true,
            pending_chapter: args.chapter,
            pending_bookmark: args.bookmark,
        }
    }

    /// The reader once `text` is loaded: the document is that of the text
    /// and the cursor is placed over it.
    pub open spec fn load(self, text: Seq<char>) -> AppView {
        AppView { doc: loaded(text), cursor: self.cursor.opened(loaded(text)), ..self }
    }

    /// The reader with chapter `index` on display.
    pub open spec fn select_chapter(self, index: nat) -> AppView {
        AppView { cursor: self.cursor.select_chapter(self.doc, index), ..self }
    }

    /// The reader after the marker of one line was toggled: the document
    /// is edited and the bookmark selection is fitted to the new list.
    /// Nothing changes where the line does not exist or is blank.
    pub open spec fn toggle_bookmark(self, chapter: nat, line: nat) -> AppView {
        if self.doc.can_toggle(chapter, line) {
            AppView {
                doc: self.doc.toggle(chapter, line),
                cursor: self.cursor.settle_bookmark(self.doc.toggle(chapter, line)),
                ..self
            }
        } else {
            self
        }
    }

    /// The line under the cursor whose marker the toggle command edits:
    /// there is one while the focus is on the content, a chapter and a line
    /// are selected, and that line is not blank.
    pub open spec fn line_to_toggle(self) -> Option<(nat, nat)> {
        if self.cursor.focus == Focus::Content {
            match (self.cursor.toc, self.cursor.content) {
                (Some(chapter), Some(line)) => if self.doc.can_toggle(chapter, line) {
                    Some((chapter, line))
                } else {
                    None
                },
                _ => None,
            }
        } else {
            None
        }
    }

    /// The reader after the toggle command.
    pub open spec fn toggle_at_cursor(self) -> AppView {
        match self.line_to_toggle() {
            Some((chapter, line)) => self.toggle_bookmark(chapter, line),
            None => self,
        }
    }

    /// The reader opened at chapter `index`, counted from zero, with the
    /// focus on the content; unchanged where there is no such chapter.
    pub open spec fn jump_to_chapter(self, index: nat) -> AppView {
        if index < self.doc.chapters.len() {
            AppView {
                cursor: CursorView {
                    focus: Focus::Content,
                    ..self.cursor.select_chapter(self.doc, index)
                },
                ..self
            }
        } else {
            self
        }
    }

    /// The reader opened at bookmark `index`, counted from zero: the
    /// bookmark is selected, its chapter and line are on display, and the
    /// focus is on the content; unchanged where there is no such bookmark.
    pub open spec fn jump_to_bookmark(self, index: nat) -> AppView {
        if index < self.doc.bookmarks.len() {
            AppView {
                cursor: CursorView {
                    focus: Focus::Content,
                    ..CursorView { bookmark: Some(index), ..self.cursor }.jump_to_bookmark(self.doc)
                },
                ..self
            }
        } else {
            self
        }
    }

    /// Why the reader cannot open at the place it was started with, if it
    /// cannot: the index is not below the count, or two places were named.
    pub open spec fn jump_error(self) -> Option<StartupJumpError> {
        match (self.pending_chapter, self.pending_bookmark) {
            (Some(chapter), None) => if chapter < self.doc.chapters.len() {
                None
            } else {
                Some(
                    StartupJumpError::Chapter {
                        requested: chapter,
                        available: self.doc.chapters.len() as usize,
                    },
                )
            },
            (None, Some(bookmark)) => if bookmark < self.doc.bookmarks.len() {
                None
            } else {
                Some(
                    StartupJumpError::Bookmark {
                        requested: bookmark,
                        available: self.doc.bookmarks.len() as usize,
                    },
                )
            },
            (None, None) => None,
            (Some(_), Some(_)) => Some(StartupJumpError::Conflict),
        }
    }

    /// The reader after its startup jump: the place it was started with is
    /// used up, and where it exists the reader is opened there.
    pub open spec fn startup(self) -> AppView {
        let used = AppView { pending_chapter: None, pending_bookmark: None, ..self };
        match (self.pending_chapter, self.pending_bookmark) {
            (Some(chapter), None) => used.jump_to_chapter(chapter as nat),
            (None, Some(bookmark)) => used.jump_to_bookmark(bookmark as nat),
            _ => used,
        }
    }

    /// The reader once `text` is loaded and the reader runs, before its
    /// startup jump.
    pub open spec fn begun(self, text: Seq<char>) -> AppView {
        AppView { running: true, ..self.load(text) }
    }

    /// The reader after a command.
    pub open spec fn apply(self, command: Command) -> AppView {
        match command {
            Command::Quit => AppView { running: false, ..self },
            Command::FocusLeft => AppView { cursor: self.cursor.focus_left(), ..self },
            Command::FocusRight => AppView { cursor: self.cursor.focus_right(self.doc), ..self },
            Command::MoveUp => AppView { cursor: self.cursor.move_up(self.doc), ..self },
            Command::MoveDown => AppView { cursor: self.cursor.move_down(self.doc), ..self },
            Command::Activate => AppView { cursor: self.cursor.activate(self.doc), ..self },
            Command::ToggleBookmarkPane => AppView {
                cursor: self.cursor.toggle_bookmark_pane(),
                ..self
            },
            Command::ToggleBookmarkAtCursor => self.toggle_at_cursor(),
            Command::ToggleTitleFooter => AppView {
                title_footer_shown: !self.title_footer_shown,
                ..self
            },
        }
    }

    /// What is left to do outside after a command: the buffer is written
    /// back exactly when the toggle command edited a line.
    pub open spec fn action(self, command: Command) -> Action {
        if command == Command::ToggleBookmarkAtCursor && self.line_to_toggle() is Some {
            Action::Persist
        } else {
            Action::Render
        }
    }

    /// The number of the selected line in the whole buffer, counted from
    /// one, and the number of lines of the buffer. The selected line is
    /// counted from the start of the selected chapter, or of the first
    /// chapter while none is selected; the number is 0 without chapters.
    pub open spec fn progress(self) -> (nat, nat) {
        let line = match self.cursor.content {
            Some(k) => k + 1,
            None => 0,
        };
        let chapter = match self.cursor.toc {
            Some(i) => i,
            None => 0,
        };
        let at = if chapter < self.doc.chapters.len() {
            self.doc.chapters[chapter as int].start_line + line
        } else {
            0
        };
        (at, self.doc.lines.len())
    }
}

/// Every command keeps the reader well formed.
pub proof fn lemma_apply_keeps_wf(app: AppView, command: Command)
    requires
        app.wf(),
    ensures
        app.apply(command).wf(),
{
    lemma_step_keeps_wf(app.cursor, app.doc);
    if let Some((chapter, line)) = app.line_to_toggle() {
        lemma_toggle_keeps_wf(app.doc, chapter, line);
        lemma_settle_keeps_wf(app.cursor, app.doc, chapter, line);
    }
}

/// The content of every chapter is the line buffer's slice at its start,
/// `content[k] == lines[start_line + k]`, in every well-formed reader: so
/// after loading and after any sequence of commands.
pub proof fn lemma_content_is_buffer_slice(app: AppView, j: int, k: int)
    requires
        app.wf(),
        0 <= j < app.doc.chapters.len(),
        0 <= k < app.doc.chapters[j].content.len(),
    ensures
        app.doc.chapters[j].start_line + k < app.doc.lines.len(),
        app.doc.chapters[j].content[k] == app.doc.lines[app.doc.chapters[j].start_line + k],
{
    assert(in_place(app.doc.lines, app.doc.chapters[j]));
}

impl View for App {
    type V = AppView;

    closed spec fn view(&self) -> AppView {
        AppView {
            running: self.running,
            file_path: self.file_path,
            doc: self.reading.doc@,
            cursor: self.reading.cursor@,
            title_footer_shown: self.show_title_footer,
            pending_chapter: self.initial_chapter_jump,
            pending_bookmark: self.initial_bookmark_jump,
        }
    }
}

impl App {
    /// The reader's invariant, which every reader meets; see
    /// [`AppView::wf`].
    pub open spec fn wf(&self) -> bool {
        self@.wf()
    }

    /// Makes a reader from its options. It holds no document yet.
    pub fn new(args: Options) -> (app: App)
        ensures
            app@ == AppView::started(args),
            app.wf(),
    {
        App {
            running: false,
            file_path: args.file_path,
            reading: Reading::new(),
            show_title_footer: true,
            initial_bookmark_jump: args.bookmark,
            initial_chapter_jump: args.chapter,
        }
    }

    /// Loads the text of the file: the document is replaced and the cursor
    /// placed over it. It fails only where a header pattern does not
    /// compile; it then says which, and nothing changes.
    pub fn load(&mut self, text: &str) -> (r: Result<(), PatternError>)
        ensures
            final(self).wf(),
            match r {
                Ok(()) => pattern_error() is None && final(self)@ == old(self)@.load(text@),
                Err(e) => pattern_error() == Some(e) && final(self)@ == old(self)@,
            },
    {
        proof {
            use_type_invariant(&self.reading);
        }
        match Document::load(text) {
            Ok(doc) => {
                proof {
                    lemma_opened_wf(self.reading.cursor@, doc@);
                }
                let cursor = self.reading.cursor.opened(&doc);
                self.reading = Reading { doc, cursor };
                Ok(())
            },
            Err(e) => Err(e),
        }
    }

    /// Starts the reader on the text of its file: loads the text, marks the
    /// reader as running and opens it at the place it was started with.
    /// What follows is the loop of drawing and of handling commands, which
    /// the caller drives. Nothing changes where the text cannot be loaded.
    pub fn run(&mut self, text: &str) -> (r: Result<(), StartError>)
        ensures
            final(self).wf(),
            match r {
                Ok(()) => {
                    &&& pattern_error() is None
                    &&& old(self)@.begun(text@).jump_error() is None
                    &&& final(self)@ == old(self)@.begun(text@).startup()
                },
                Err(StartError::Pattern(e)) => pattern_error() == Some(e) && final(self)@ == old(
                    self,
                )@,
                Err(StartError::Jump(e)) => {
                    &&& pattern_error() is None
                    &&& old(self)@.begun(text@).jump_error() == Some(e)
                    &&& final(self)@ == old(self)@.begun(text@).startup()
                },
            },
    {
        match self.load(text) {
            Ok(()) => {},
            Err(e) => {
                return Err(StartError::Pattern(e));
            },
        }
        self.start();
        match self.handle_initial_jumps() {
            Ok(()) => Ok(()),
            Err(e) => Err(StartError::Jump(e)),
        }
    }

    /// Marks the reader as running, which it is until it is told to quit.
    pub fn start(&mut self)
        ensures
            final(self).wf(),
            final(self)@ == (AppView { running: true, ..old(self)@ }),
    {
        proof {
            use_type_invariant(&self.reading);
        }
        self.running = true;
    }

    /// Opens the reader at the place it was started with, if any. The
    /// place is used up either way.
    pub fn handle_initial_jumps(&mut self) -> (r: Result<(), StartupJumpError>)
        ensures
            final(self).wf(),
            final(self)@ == old(self)@.startup(),
            match r {
                Ok(()) => old(self)@.jump_error() is None,
                Err(e) => old(self)@.jump_error() == Some(e),
            },
    {
        proof {
            use_type_invariant(&self.reading);
        }
        let chapter = self.initial_chapter_jump;
        let bookmark = self.initial_bookmark_jump;
        self.initial_chapter_jump = None;
        self.initial_bookmark_jump = None;
        match (chapter, bookmark) {
            (Some(index), None) => self.jump_to_chapter(index),
            (None, Some(index)) => self.jump_to_bookmark(index),
            (None, None) => Ok(()),
            (Some(_), Some(_)) => Err(StartupJumpError::Conflict),
        }
    }

    /// Opens the reader at chapter `index`, counted from zero, and moves
    /// the focus to the content. Fails, and changes nothing, where there
    /// is no such chapter.
    pub fn jump_to_chapter(&mut self, index: usize) -> (r: Result<(), StartupJumpError>)
        ensures
            final(self).wf(),
            final(self)@ == old(self)@.jump_to_chapter(index as nat),
            match r {
                Ok(()) => index < old(self)@.doc.chapters.len(),
                Err(e) => index >= old(self)@.doc.chapters.len() && e
                    == (StartupJumpError::Chapter {
                    requested: index,
                    available: old(self)@.doc.chapters.len() as usize,
                }),
            },
    {
        proof {
            use_type_invariant(&self.reading);
        }
        let available = self.reading.doc.chapter_count();
        if index < available {
            proof {
                lemma_select_keeps_wf(self.reading.cursor@, self.reading.doc@, index as nat);
            }
            let selected = self.reading.cursor.select_chapter(&self.reading.doc, index);
            self.reading.cursor = Cursor { focus: Focus::Content, ..selected };
            Ok(())
        } else {
            Err(StartupJumpError::Chapter { requested: index, available })
        }
    }

    /// Opens the reader at bookmark `index`, counted from zero: selects
    /// it, brings its line on display and moves the focus to the content.
    /// Fails, and changes nothing, where there is no such bookmark.
    pub fn jump_to_bookmark(&mut self, index: usize) -> (r: Result<(), StartupJumpError>)
        ensures
            final(self).wf(),
            final(self)@ == old(self)@.jump_to_bookmark(index as nat),
            match r {
                Ok(()) => index < old(self)@.doc.bookmarks.len(),
                Err(e) => index >= old(self)@.doc.bookmarks.len() && e
                    == (StartupJumpError::Bookmark {
                    requested: index,
                    available: old(self)@.doc.bookmarks.len() as usize,
                }),
            },
    {
        proof {
            use_type_invariant(&self.reading);
        }
        let available = self.reading.doc.bookmark_count();
        if index < available {
            let chosen = Cursor { bookmark: Some(index), ..self.reading.cursor };
            proof {
                lemma_jump_keeps_wf(chosen@, self.reading.doc@);
            }
            let shown = chosen.jump_to_bookmark(&self.reading.doc);
            self.reading.cursor = Cursor { focus: Focus::Content, ..shown };
            Ok(())
        } else {
            Err(StartupJumpError::Bookmark { requested: index, available })
        }
    }

    /// Puts chapter `index` on display; nothing happens where there is no
    /// such chapter.
    pub fn select_chapter(&mut self, index: usize)
        ensures
            final(self).wf(),
            final(self)@ == old(self)@.select_chapter(index as nat),
    {
        proof {
            use_type_invariant(&self.reading);
            lemma_select_keeps_wf(self.reading.cursor@, self.reading.doc@, index as nat);
        }
        self.reading.cursor = self.reading.cursor.select_chapter(&self.reading.doc, index);
    }

    /// Toggles the marker of one line of one chapter and fits the bookmark
    /// selection to the new bookmark list. Tells whether the buffer
    /// changed: it does not where the line does not exist or is blank.
    pub fn toggle_bookmark(&mut self, chapter_index: usize, line_in_chapter: usize) -> (changed:
        bool)
        ensures
            final(self).wf(),
            final(self)@ == old(self)@.toggle_bookmark(
                chapter_index as nat,
                line_in_chapter as nat,
            ),
            changed == old(self)@.doc.can_toggle(chapter_index as nat, line_in_chapter as nat),
    {
        proof {
            use_type_invariant(&self.reading);
            lemma_settle_keeps_wf(
                self.reading.cursor@,
                self.reading.doc@,
                chapter_index as nat,
                line_in_chapter as nat,
            );
        }
        // The document and the cursor change together: both are taken out,
        // edited, and put back as one.
        let mut taken = Reading::new();
        core::mem::swap(&mut self.reading, &mut taken);
        let Reading { mut doc, cursor } = taken;
        let changed = doc.toggle_bookmark(chapter_index, line_in_chapter);
        let cursor = if changed {
            cursor.settle_bookmark(&doc)
        } else {
            cursor
        };
        self.reading = Reading { doc, cursor };
        changed
    }

    /// Toggles the marker of the line under the cursor, while the focus is
    /// on the content. Tells whether the buffer changed.
    pub fn toggle_bookmark_at_current_line(&mut self) -> (changed: bool)
        ensures
            final(self).wf(),
            final(self)@ == old(self)@.toggle_at_cursor(),
            changed == old(self)@.line_to_toggle() is Some,
    {
        proof {
            use_type_invariant(&self.reading);
        }
        if self.reading.cursor.focus != Focus::Content {
            return false;
        }
        match (self.reading.cursor.toc, self.reading.cursor.content) {
            (Some(chapter), Some(line)) => self.toggle_bookmark(chapter, line),
            _ => false,
        }
    }

    /// Handles one command and says what is left to do outside.
    pub fn handle_command(&mut self, command: Command) -> (action: Action)
        ensures
            final(self).wf(),
            final(self)@ == old(self)@.apply(command),
            action == old(self)@.action(command),
    {
        proof {
            use_type_invariant(&self.reading);
            lemma_apply_keeps_wf(self@, command);
        }
        match command {
            Command::Quit => {
                self.running = false;
                Action::Render
            },
            Command::FocusLeft => {
                self.reading.cursor = self.reading.cursor.focus_left();
                Action::Render
            },
            Command::FocusRight => {
                self.reading.cursor = self.reading.cursor.focus_right(&self.reading.doc);
                Action::Render
            },
            Command::MoveUp => {
                self.reading.cursor = self.reading.cursor.move_up(&self.reading.doc);
                Action::Render
            },
            Command::MoveDown => {
                self.reading.cursor = self.reading.cursor.move_down(&self.reading.doc);
                Action::Render
            },
            Command::Activate => {
                self.reading.cursor = self.reading.cursor.activate(&self.reading.doc);
                Action::Render
            },
            Command::ToggleBookmarkPane => {
                self.reading.cursor = self.reading.cursor.toggle_bookmark_pane();
                Action::Render
            },
            Command::ToggleBookmarkAtCursor => {
                if self.toggle_bookmark_at_current_line() {
                    Action::Persist
                } else {
                    Action::Render
                }
            },
            Command::ToggleTitleFooter => {
                self.show_title_footer = !self.show_title_footer;
                Action::Render
            },
        }
    }

    /// The text to write back to the file: the line buffer, joined by line
    /// feeds.
    pub fn file_text(&self) -> (text: String)
        ensures
            text@ == join_lines(self@.doc.lines),
    {
        self.reading.doc.text()
    }

    /// Whether the reader is running.
    pub fn is_running(&self) -> (running: bool)
        ensures
            running == self@.running,
    {
        self.running
    }

    /// The path of the file on display.
    pub fn file_path(&self) -> (path: &PathBuf)
        ensures
            *path == self@.file_path,
    {
        &self.file_path
    }

    /// The document on display.
    pub fn document(&self) -> (doc: &Document)
        ensures
            doc@ == self@.doc,
            self.wf(),
    {
        proof {
            use_type_invariant(&self.reading);
        }
        &self.reading.doc
    }

    /// The cursor.
    pub fn cursor(&self) -> (cursor: Cursor)
        ensures
            cursor@ == self@.cursor,
            self.wf(),
    {
        proof {
            use_type_invariant(&self.reading);
        }
        self.reading.cursor
    }

    /// The lines on display: those of the selected chapter, or the whole
    /// buffer while no chapter is selected.
    pub fn shown_lines(&self) -> (lines: &Vec<String>)
        ensures
            lines.deep_view() == self@.cursor.shown(self@.doc),
    {
        match self.reading.cursor.toc {
            Some(i) => if i < self.reading.doc.chapter_count() {
                &self.reading.doc.chapters()[i].content
            } else {
                self.reading.doc.lines()
            },
            None => self.reading.doc.lines(),
        }
    }

    /// The chapter selected in the table of contents, if there is one.
    pub fn selected_chapter(&self) -> (chapter: Option<&Chapter>)
        ensures
            match chapter {
                Some(c) => self@.cursor.toc matches Some(i) && i < self@.doc.chapters.len() && c@
                    == self@.doc.chapters[i as int],
                None => self@.cursor.toc matches Some(i) ==> i >= self@.doc.chapters.len(),
            },
    {
        match self.reading.cursor.toc {
            Some(i) => if i < self.reading.doc.chapter_count() {
                Some(&self.reading.doc.chapters()[i])
            } else {
                None
            },
            None => None,
        }
    }

    /// Whether the title and the footer are shown.
    pub fn title_footer_shown(&self) -> (shown: bool)
        ensures
            shown == self@.title_footer_shown,
    {
        self.show_title_footer
    }

    /// The number of the selected line in the whole buffer and the number
    /// of lines of the buffer, for the footer.
    pub fn progress(&self) -> (progress: (usize, usize))
        ensures
            progress.0 == self@.progress().0,
            progress.1 == self@.progress().1,
    {
        proof {
            use_type_invariant(&self.reading);
        }
        let total = self.reading.doc.line_count();
        let i = match self.reading.cursor.toc {
            Some(i) => i,
            None => 0,
        };
        let at = if i < self.reading.doc.chapter_count() {
            let chapters = self.reading.doc.chapters();
            proof {
                assert(self@.doc.chapters[i as int] == chapters[i as int]@);
                assert(in_place(self@.doc.lines, self@.doc.chapters[i as int]));
            }
            match self.reading.cursor.content {
                Some(k) => chapters[i].start_line + k + 1,
                None => chapters[i].start_line,
            }
        } else {
            0
        };
        (at, total)
    }
}

} // verus!
