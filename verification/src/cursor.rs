//! The cursor: one selection for each of the three panes, the focus and
//! the visibility of the bookmark pane, with the transitions between
//! cursor states.

use crate::app::Focus;
use crate::bookmark::{lemma_bookmarks_point, points_at};
use crate::document::{lemma_toggle_keeps_wf, Document, DocumentView};
use vstd::prelude::*;

verus! {

/// The selections of the three panes, the focus, and whether the bookmark
/// pane is shown.
#[derive(Debug, Clone, Copy, PartialEq, Eq)]
pub struct Cursor {
    pub focus: Focus,
    pub toc: Option<usize>,
    pub content: Option<usize>,
    pub bookmark: Option<usize>,
    pub bookmarks_shown: bool,
}

/// The mathematical value of a [`Cursor`].
pub struct CursorView {
    pub focus: Focus,
    pub toc: Option<nat>,
    pub content: Option<nat>,
    pub bookmark: Option<nat>,
    pub bookmarks_shown: bool,
}

/// The mathematical value of a selection.
pub open spec fn selection(index: Option<usize>) -> Option<nat> {
    match index {
        Some(i) => Some(i as nat),
        None => None,
    }
}

impl View for Cursor {
    type V = CursorView;

    open spec fn view(&self) -> CursorView {
        CursorView {
            focus: self.focus,
            toc: selection(self.toc),
            content: selection(self.content),
            bookmark: selection(self.bookmark),
            bookmarks_shown: self.bookmarks_shown,
        }
    }
}

impl CursorView {
    /// The cursor of a reader that has just started: focus on the table of
    /// contents, nothing selected, the bookmark pane hidden.
    pub open spec fn initial() -> CursorView {
        CursorView {
            focus: Focus::Toc,
            toc: None,
            content: None,
            bookmark: None,
            bookmarks_shown: false,
        }
    }

    /// The lines on display: the content of the selected chapter, or the
    /// whole buffer while no chapter is selected.
    pub open spec fn shown(self, doc: DocumentView) -> Seq<Seq<char>> {
        match self.toc {
            Some(i) => if i < doc.chapters.len() {
                doc.chapters[i as int].content
            } else {
                doc.lines
            },
            None => doc.lines,
        }
    }

    /// The cursor fits the document: a chapter is selected exactly when
    /// there is one, a bookmark exactly when there is one, each selection
    /// is in range, and the focus is on the bookmark pane only while it is
    /// shown.
    pub open spec fn wf(self, doc: DocumentView) -> bool {
        &&& self.toc matches Some(i) ==> i < doc.chapters.len()
        &&& self.toc is None ==> doc.chapters.len() == 0
        &&& self.content matches Some(k) ==> k < self.shown(doc).len()
        &&& self.bookmark matches Some(b) ==> b < doc.bookmarks.len()
        &&& self.bookmark is None ==> doc.bookmarks.len() == 0
        &&& self.focus == Focus::Bookmark ==> self.bookmarks_shown
    }

    /// Displays chapter `index`: it becomes the selection of the table of
    /// contents, and the content selection goes to its first line. Nothing
    /// changes where there is no such chapter.
    pub open spec fn select_chapter(self, doc: DocumentView, index: nat) -> CursorView {
        if index < doc.chapters.len() {
            CursorView {
                toc: Some(index),
                content: if doc.chapters[index as int].content.len() > 0 {
                    Some(0)
                } else {
                    None
                },
                ..self
            }
        } else {
            self
        }
    }

    /// Brings the selected bookmark on display: its chapter is selected and
    /// its line becomes the content selection.
    pub open spec fn jump_to_bookmark(self, doc: DocumentView) -> CursorView {
        match self.bookmark {
            Some(b) => if b < doc.bookmarks.len() {
                CursorView {
                    content: Some(doc.bookmarks[b as int].line_in_chapter),
                    ..self.select_chapter(doc, doc.bookmarks[b as int].chapter_index)
                }
            } else {
                self
            },
            None => self,
        }
    }

    /// Moves the focus one pane to the left; from the table of contents it
    /// wraps to the bookmark pane where that is shown, else to the content.
    pub open spec fn focus_left(self) -> CursorView {
        CursorView {
            focus: match self.focus {
                Focus::Bookmark => Focus::Content,
                Focus::Content => Focus::Toc,
                Focus::Toc => if self.bookmarks_shown {
                    Focus::Bookmark
                } else {
                    Focus::Content
                },
            },
            ..self
        }
    }

    /// Moves the focus one pane to the right. Entering the bookmark pane
    /// from the content also brings the selected bookmark on display.
    pub open spec fn focus_right(self, doc: DocumentView) -> CursorView {
        match self.focus {
            Focus::Toc => CursorView { focus: Focus::Content, ..self },
            Focus::Content => if self.bookmarks_shown {
                CursorView { focus: Focus::Bookmark, ..self.jump_to_bookmark(doc) }
            } else {
                CursorView { focus: Focus::Toc, ..self }
            },
            Focus::Bookmark => CursorView { focus: Focus::Toc, ..self },
        }
    }

    /// Selects the chapter before the selected one, wrapping from the first
    /// to the last.
    pub open spec fn move_toc_up(self, doc: DocumentView) -> CursorView {
        match self.toc {
            Some(sel) => if sel > 0 {
                self.select_chapter(doc, (sel - 1) as nat)
            } else if doc.chapters.len() > 0 {
                self.select_chapter(doc, (doc.chapters.len() - 1) as nat)
            } else {
                self
            },
            None => self,
        }
    }

    /// Selects the chapter behind the selected one, wrapping from the last
    /// to the first.
    pub open spec fn move_toc_down(self, doc: DocumentView) -> CursorView {
        match self.toc {
            Some(sel) => if sel + 1 < doc.chapters.len() {
                self.select_chapter(doc, sel + 1)
            } else if doc.chapters.len() > 0 {
                self.select_chapter(doc, 0)
            } else {
                self
            },
            None => self,
        }
    }

    /// Selects the line above the selected one. From the first line of a
    /// chapter it goes to the last line of the chapter before; there is
    /// nothing above the first line of the first chapter. Without a
    /// selection it selects the first line on display.
    pub open spec fn move_content_up(self, doc: DocumentView) -> CursorView {
        match self.content {
            Some(sel) => if sel > 0 {
                CursorView { content: Some((sel - 1) as nat), ..self }
            } else {
                match self.toc {
                    Some(t) => if t > 0 {
                        let c = self.select_chapter(doc, (t - 1) as nat);
                        if c.shown(doc).len() > 0 {
                            CursorView { content: Some((c.shown(doc).len() - 1) as nat), ..c }
                        } else {
                            c
                        }
                    } else {
                        self
                    },
                    None => self,
                }
            },
            None => if self.shown(doc).len() > 0 {
                CursorView { content: Some(0), ..self }
            } else {
                self
            },
        }
    }

    /// Selects the line below the selected one. From the last line of a
    /// chapter it goes to the first line of the chapter behind; there is
    /// nothing below the last line of the last chapter. Without a
    /// selection it selects the first line on display.
    pub open spec fn move_content_down(self, doc: DocumentView) -> CursorView {
        match self.content {
            Some(sel) => if sel + 1 < self.shown(doc).len() {
                CursorView { content: Some(sel + 1), ..self }
            } else {
                match self.toc {
                    Some(t) => if t + 1 < doc.chapters.len() {
                        self.select_chapter(doc, t + 1)
                    } else {
                        self
                    },
                    None => self,
                }
            },
            None => if self.shown(doc).len() > 0 {
                CursorView { content: Some(0), ..self }
            } else {
                self
            },
        }
    }

    /// Selects the bookmark above the selected one and brings it on
    /// display; nothing changes at the first.
    pub open spec fn move_bookmark_up(self, doc: DocumentView) -> CursorView {
        match self.bookmark {
            Some(sel) => if sel > 0 {
                CursorView { bookmark: Some((sel - 1) as nat), ..self }.jump_to_bookmark(doc)
            } else {
                self
            },
            None => self,
        }
    }

    /// Selects the bookmark below the selected one and brings it on
    /// display; nothing changes at the last.
    pub open spec fn move_bookmark_down(self, doc: DocumentView) -> CursorView {
        match self.bookmark {
            Some(sel) => if sel + 1 < doc.bookmarks.len() {
                CursorView { bookmark: Some(sel + 1), ..self }.jump_to_bookmark(doc)
            } else {
                self
            },
            None => self,
        }
    }

    /// Moves the selection of the focused pane up.
    pub open spec fn move_up(self, doc: DocumentView) -> CursorView {
        match self.focus {
            Focus::Toc => self.move_toc_up(doc),
            Focus::Content => self.move_content_up(doc),
            Focus::Bookmark => self.move_bookmark_up(doc),
        }
    }

    /// Moves the selection of the focused pane down.
    pub open spec fn move_down(self, doc: DocumentView) -> CursorView {
        match self.focus {
            Focus::Toc => self.move_toc_down(doc),
            Focus::Content => self.move_content_down(doc),
            Focus::Bookmark => self.move_bookmark_down(doc),
        }
    }

    /// Opens the chapter selected in the table of contents and moves the
    /// focus to its content; nothing happens in the other panes.
    pub open spec fn activate(self, doc: DocumentView) -> CursorView {
        if self.focus == Focus::Toc {
            match self.toc {
                Some(index) => CursorView {
                    focus: Focus::Content,
                    ..self.select_chapter(doc, index)
                },
                None => self,
            }
        } else {
            self
        }
    }

    /// Shows the bookmark pane and focuses it, or hides it and focuses the
    /// content.
    pub open spec fn toggle_bookmark_pane(self) -> CursorView {
        CursorView {
            bookmarks_shown: !self.bookmarks_shown,
            focus: if self.bookmarks_shown {
                Focus::Content
            } else {
                Focus::Bookmark
            },
            ..self
        }
    }

    /// The cursor over a freshly loaded document: the first chapter is on
    /// display if there is one, else the whole buffer, with the first line
    /// selected; the first bookmark is selected if there is one.
    pub open spec fn opened(self, doc: DocumentView) -> CursorView {
        let placed = if doc.chapters.len() > 0 {
            self.select_chapter(doc, 0)
        } else {
            CursorView {
                toc: None,
                content: if doc.lines.len() > 0 {
                    Some(0)
                } else {
                    None
                },
                ..self
            }
        };
        CursorView {
            bookmark: if doc.bookmarks.len() > 0 {
                Some(0)
            } else {
                None
            },
            ..placed
        }
    }

    /// Fits the bookmark selection to a new bookmark list: without a
    /// selection the first bookmark is selected if there is one, and a
    /// selection behind the end moves to the last bookmark or goes away.
    pub open spec fn settle_bookmark(self, doc: DocumentView) -> CursorView {
        CursorView {
            bookmark: match self.bookmark {
                Some(sel) => if sel < doc.bookmarks.len() {
                    Some(sel)
                } else if doc.bookmarks.len() > 0 {
                    Some((doc.bookmarks.len() - 1) as nat)
                } else {
                    None
                },
                None => if doc.bookmarks.len() > 0 {
                    Some(0)
                } else {
                    None
                },
            },
            ..self
        }
    }
}

/// Selecting a chapter keeps the cursor fit for the document.
pub proof fn lemma_select_keeps_wf(c: CursorView, doc: DocumentView, index: nat)
    requires
        c.wf(doc),
    ensures
        c.select_chapter(doc, index).wf(doc),
{
}

/// Bringing the selected bookmark on display keeps the cursor fit for the
/// document: a bookmark points at a line that exists.
pub proof fn lemma_jump_keeps_wf(c: CursorView, doc: DocumentView)
    requires
        doc.wf(),
        c.wf(doc),
    ensures
        c.jump_to_bookmark(doc).wf(doc),
{
    if let Some(b) = c.bookmark {
        lemma_bookmarks_point(doc.chapters, b as int);
        assert(points_at(doc.chapters, doc.bookmarks[b as int]));
    }
}

/// Every transition keeps the cursor fit for the document: focus changes,
/// moves in every pane, activation and the bookmark pane's toggle.
pub proof fn lemma_step_keeps_wf(c: CursorView, doc: DocumentView)
    requires
        doc.wf(),
        c.wf(doc),
    ensures
        c.focus_left().wf(doc),
        c.focus_right(doc).wf(doc),
        c.move_up(doc).wf(doc),
        c.move_down(doc).wf(doc),
        c.activate(doc).wf(doc),
        c.toggle_bookmark_pane().wf(doc),
{
    lemma_jump_keeps_wf(c, doc);
    if let Some(sel) = c.bookmark {
        if sel > 0 {
            lemma_jump_keeps_wf(CursorView { bookmark: Some((sel - 1) as nat), ..c }, doc);
        }
        if sel + 1 < doc.bookmarks.len() {
            lemma_jump_keeps_wf(CursorView { bookmark: Some(sel + 1), ..c }, doc);
        }
    }
}

/// A cursor placed over a freshly loaded document fits it, whatever it
/// selected before, as long as its focus is not on a hidden bookmark pane.
pub proof fn lemma_opened_wf(c: CursorView, doc: DocumentView)
    requires
        c.focus == Focus::Bookmark ==> c.bookmarks_shown,
    ensures
        c.opened(doc).wf(doc),
{
}

/// After a line's marker was toggled, the cursor with its bookmark
/// selection settled fits the edited document.
pub proof fn lemma_settle_keeps_wf(c: CursorView, doc: DocumentView, chapter: nat, line: nat)
    requires
        doc.wf(),
        c.wf(doc),
    ensures
        c.settle_bookmark(doc.toggle(chapter, line)).wf(doc.toggle(chapter, line)),
{
    lemma_toggle_keeps_wf(doc, chapter, line);
    if let Some(i) = c.toc {
        assert(doc.toggle(chapter, line).chapters[i as int].content.len()
            == doc.chapters[i as int].content.len());
    }
}

/// In the content pane nothing lies above the first line of the first
/// chapter: moving up from there changes nothing.
pub proof fn lemma_content_top_absorbs(c: CursorView, doc: DocumentView)
    requires
        c.focus == Focus::Content,
        c.toc == Some(0nat),
        c.content == Some(0nat),
    ensures
        c.move_up(doc) == c,
{
}

/// In the content pane nothing lies below the last line of the last
/// chapter: moving down from there changes nothing.
pub proof fn lemma_content_bottom_absorbs(c: CursorView, doc: DocumentView)
    requires
        c.focus == Focus::Content,
        c.toc matches Some(t) && t + 1 == doc.chapters.len(),
        c.content matches Some(k) && k + 1 == c.shown(doc).len(),
    ensures
        c.move_down(doc) == c,
{
}

/// In the table of contents the selection wraps around: up from the first
/// chapter selects the last, down from the last selects the first.
pub proof fn lemma_toc_wraps(c: CursorView, doc: DocumentView)
    requires
        c.focus == Focus::Toc,
        doc.chapters.len() > 0,
    ensures
        c.toc == Some(0nat) ==> c.move_up(doc).toc == Some((doc.chapters.len() - 1) as nat),
        c.toc == Some((doc.chapters.len() - 1) as nat) ==> c.move_down(doc).toc == Some(0nat),
{
}

impl Cursor {
    /// The cursor of a reader that has just started.
    pub fn new() -> (c: Cursor)
        ensures
            c@ == CursorView::initial(),
    {
        Cursor {
            focus: Focus::Toc,
            toc: None,
            content: None,
            bookmark: None,
            bookmarks_shown: false,
        }
    }

    /// The number of lines on display.
    pub fn shown_len(self, doc: &Document) -> (n: usize)
        ensures
            n == self@.shown(doc@).len(),
    {
        match self.toc {
            Some(i) => if i < doc.chapter_count() {
                doc.chapter_len(i)
            } else {
                doc.line_count()
            },
            None => doc.line_count(),
        }
    }

    /// Displays chapter `index`, if there is one.
    pub fn select_chapter(self, doc: &Document, index: usize) -> (c: Cursor)
        ensures
            c@ == self@.select_chapter(doc@, index as nat),
    {
        if index < doc.chapter_count() {
            let content = if doc.chapter_len(index) > 0 {
                Some(0)
            } else {
                None
            };
            Cursor { toc: Some(index), content, ..self }
        } else {
            self
        }
    }

    /// Brings the selected bookmark on display.
    pub fn jump_to_bookmark(self, doc: &Document) -> (c: Cursor)
        ensures
            c@ == self@.jump_to_bookmark(doc@),
    {
        match self.bookmark {
            Some(b) => if b < doc.bookmark_count() {
                let (chapter, line) = doc.bookmark_target(b);
                Cursor { content: Some(line), ..self.select_chapter(doc, chapter) }
            } else {
                self
            },
            None => self,
        }
    }

    /// Moves the focus one pane to the left.
    pub fn focus_left(self) -> (c: Cursor)
        ensures
            c@ == self@.focus_left(),
    {
        let focus = match self.focus {
            Focus::Bookmark => Focus::Content,
            Focus::Content => Focus::Toc,
            Focus::Toc => if self.bookmarks_shown {
                Focus::Bookmark
            } else {
                Focus::Content
            },
        };
        Cursor { focus, ..self }
    }

    /// Moves the focus one pane to the right.
    pub fn focus_right(self, doc: &Document) -> (c: Cursor)
        ensures
            c@ == self@.focus_right(doc@),
    {
        match self.focus {
            Focus::Toc => Cursor { focus: Focus::Content, ..self },
            Focus::Content => if self.bookmarks_shown {
                Cursor { focus: Focus::Bookmark, ..self.jump_to_bookmark(doc) }
            } else {
                Cursor { focus: Focus::Toc, ..self }
            },
            Focus::Bookmark => Cursor { focus: Focus::Toc, ..self },
        }
    }

    /// Selects the chapter before the selected one, wrapping around.
    pub fn move_toc_up(self, doc: &Document) -> (c: Cursor)
        ensures
            c@ == self@.move_toc_up(doc@),
    {
        match self.toc {
            Some(sel) => if sel > 0 {
                self.select_chapter(doc, sel - 1)
            } else if doc.chapter_count() > 0 {
                self.select_chapter(doc, doc.chapter_count() - 1)
            } else {
                self
            },
            None => self,
        }
    }

    /// Selects the chapter behind the selected one, wrapping around.
    pub fn move_toc_down(self, doc: &Document) -> (c: Cursor)
        ensures
            c@ == self@.move_toc_down(doc@),
    {
        let count = doc.chapter_count();
        match self.toc {
            Some(sel) => if count > 0 && sel < count - 1 {
                self.select_chapter(doc, sel + 1)
            } else if count > 0 {
                self.select_chapter(doc, 0)
            } else {
                self
            },
            None => self,
        }
    }

    /// Selects the line above the selected one, crossing into the chapter
    /// before where there is one.
    pub fn move_content_up(self, doc: &Document) -> (c: Cursor)
        ensures
            c@ == self@.move_content_up(doc@),
    {
        match self.content {
            Some(sel) => if sel > 0 {
                Cursor { content: Some(sel - 1), ..self }
            } else {
                match self.toc {
                    Some(t) => if t > 0 {
                        let c = self.select_chapter(doc, t - 1);
                        let shown = c.shown_len(doc);
                        if shown > 0 {
                            Cursor { content: Some(shown - 1), ..c }
                        } else {
                            c
                        }
                    } else {
                        self
                    },
                    None => self,
                }
            },
            None => if self.shown_len(doc) > 0 {
                Cursor { content: Some(0), ..self }
            } else {
                self
            },
        }
    }

    /// Selects the line below the selected one, crossing into the chapter
    /// behind where there is one.
    pub fn move_content_down(self, doc: &Document) -> (c: Cursor)
        ensures
            c@ == self@.move_content_down(doc@),
    {
        let shown = self.shown_len(doc);
        let count = doc.chapter_count();
        match self.content {
            Some(sel) => if shown > 0 && sel < shown - 1 {
                Cursor { content: Some(sel + 1), ..self }
            } else {
                match self.toc {
                    Some(t) => if count > 0 && t < count - 1 {
                        self.select_chapter(doc, t + 1)
                    } else {
                        self
                    },
                    None => self,
                }
            },
            None => if shown > 0 {
                Cursor { content: Some(0), ..self }
            } else {
                self
            },
        }
    }

    /// Selects the bookmark above the selected one and brings it on display.
    pub fn move_bookmark_up(self, doc: &Document) -> (c: Cursor)
        ensures
            c@ == self@.move_bookmark_up(doc@),
    {
        match self.bookmark {
            Some(sel) => if sel > 0 {
                Cursor { bookmark: Some(sel - 1), ..self }.jump_to_bookmark(doc)
            } else {
                self
            },
            None => self,
        }
    }

    /// Selects the bookmark below the selected one and brings it on display.
    pub fn move_bookmark_down(self, doc: &Document) -> (c: Cursor)
        ensures
            c@ == self@.move_bookmark_down(doc@),
    {
        let count = doc.bookmark_count();
        match self.bookmark {
            Some(sel) => if count > 0 && sel < count - 1 {
                Cursor { bookmark: Some(sel + 1), ..self }.jump_to_bookmark(doc)
            } else {
                self
            },
            None => self,
        }
    }

    /// Moves the selection of the focused pane up.
    pub fn move_up(self, doc: &Document) -> (c: Cursor)
        ensures
            c@ == self@.move_up(doc@),
    {
        match self.focus {
            Focus::Toc => self.move_toc_up(doc),
            Focus::Content => self.move_content_up(doc),
            Focus::Bookmark => self.move_bookmark_up(doc),
        }
    }

    /// Moves the selection of the focused pane down.
    pub fn move_down(self, doc: &Document) -> (c: Cursor)
        ensures
            c@ == self@.move_down(doc@),
    {
        match self.focus {
            Focus::Toc => self.move_toc_down(doc),
            Focus::Content => self.move_content_down(doc),
            Focus::Bookmark => self.move_bookmark_down(doc),
        }
    }

    /// Opens the chapter selected in the table of contents.
    pub fn activate(self, doc: &Document) -> (c: Cursor)
        ensures
            c@ == self@.activate(doc@),
    {
        match self.focus {
            Focus::Toc => match self.toc {
                Some(index) => Cursor { focus: Focus::Content, ..self.select_chapter(doc, index) },
                None => self,
            },
            _ => self,
        }
    }

    /// Shows or hides the bookmark pane.
    pub fn toggle_bookmark_pane(self) -> (c: Cursor)
        ensures
            c@ == self@.toggle_bookmark_pane(),
    {
        if self.bookmarks_shown {
            Cursor { bookmarks_shown: false, focus: Focus::Content, ..self }
        } else {
            Cursor { bookmarks_shown: true, focus: Focus::Bookmark, ..self }
        }
    }

    /// Places the cursor over a freshly loaded document.
    pub fn opened(self, doc: &Document) -> (c: Cursor)
        ensures
            c@ == self@.opened(doc@),
    {
        let placed = if doc.chapter_count() > 0 {
            self.select_chapter(doc, 0)
        } else {
            let content = if doc.line_count() > 0 {
                Some(0)
            } else {
                None
            };
            Cursor { toc: None, content, ..self }
        };
        let bookmark = if doc.bookmark_count() > 0 {
            Some(0)
        } else {
            None
        };
        Cursor { bookmark, ..placed }
    }

    /// Fits the bookmark selection to the document's bookmark list.
    pub fn settle_bookmark(self, doc: &Document) -> (c: Cursor)
        ensures
            c@ == self@.settle_bookmark(doc@),
    {
        let count = doc.bookmark_count();
        let bookmark = match self.bookmark {
            Some(sel) => if sel < count {
                Some(sel)
            } else if count > 0 {
                Some(count - 1)
            } else {
                None
            },
            None => if count > 0 {
                Some(0)
            } else {
                None
            },
        };
        Cursor { bookmark, ..self }
    }
}

} // verus!
