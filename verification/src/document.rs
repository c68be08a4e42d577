//! The document store: the line buffer with the chapters and bookmarks
//! derived from it, and the one edit that it allows.

use crate::bookmark::{
    bookmarks_of, lemma_toggle_twice, parse_bookmarks, toggle_marker, toggle_restores, toggled,
    Bookmark, BookmarkView,
};
use crate::chapter::{
    chapter_end, chapters_of, in_place, laid_out, lemma_laid_out_ascending, parse_lines,
    pattern_error, Chapter, ChapterView, PatternError,
};
use crate::text::{
    is_blank, join_lines, joined, lemma_trim_end_cut, lines_of, split_lines, trim_end,
};
use vstd::prelude::*;

verus! {

/// A loaded document. The line buffer is the source of truth; the
/// chapters hold copies of its lines and the bookmarks are derived from
/// the chapters.
#[derive(Debug)]
pub struct Document {
    lines: Vec<String>,
    chapters: Vec<Chapter>,
    bookmarks: Vec<Bookmark>,
}

/// The mathematical value of a [`Document`].
pub struct DocumentView {
    pub lines: Seq<Seq<char>>,
    pub chapters: Seq<ChapterView>,
    pub bookmarks: Seq<BookmarkView>,
}

impl DocumentView {
    /// The document without lines.
    pub open spec fn empty() -> DocumentView {
        DocumentView { lines: Seq::empty(), chapters: Seq::empty(), bookmarks: Seq::empty() }
    }

    /// The chapters lie over the line buffer, so that `content[k]` of each
    /// is `lines[start_line + k]`, and the bookmarks are those of the
    /// chapters.
    pub open spec fn wf(self) -> bool {
        &&& laid_out(self.lines, self.chapters)
        &&& self.bookmarks == bookmarks_of(self.chapters)
    }

    /// Line `line` of chapter `chapter` exists and is not blank, so its
    /// marker can be toggled.
    pub open spec fn can_toggle(self, chapter: nat, line: nat) -> bool {
        &&& chapter < self.chapters.len()
        &&& line < self.chapters[chapter as int].content.len()
        &&& !is_blank(self.chapters[chapter as int].content[line as int])
    }

    /// The document after the marker of one line was toggled: the edited
    /// line stands in the chapter and at its place in the buffer, and the
    /// bookmarks are derived anew. Nothing changes where the line does not
    /// exist or is blank.
    pub open spec fn toggle(self, chapter: nat, line: nat) -> DocumentView {
        if self.can_toggle(chapter, line) {
            let c = self.chapters[chapter as int];
            let edited = toggled(c.content[line as int]);
            let chapters = self.chapters.update(
                chapter as int,
                ChapterView { content: c.content.update(line as int, edited), ..c },
            );
            DocumentView {
                lines: self.lines.update((c.start_line + line) as int, edited),
                chapters,
                bookmarks: bookmarks_of(chapters),
            }
        } else {
            self
        }
    }
}

/// The document that a text loads as: its lines, their chapters under the
/// standard header patterns, and the bookmarks of those.
pub open spec fn loaded(text: Seq<char>) -> DocumentView {
    let lines = split_lines(text);
    let chapters = chapters_of(lines);
    DocumentView { lines, chapters, bookmarks: bookmarks_of(chapters) }
}

/// Toggling keeps a document well formed: the chapters still lie over the
/// buffer line for line, and the bookmarks are those of the chapters.
pub proof fn lemma_toggle_keeps_wf(doc: DocumentView, chapter: nat, line: nat)
    requires
        doc.wf(),
    ensures
        doc.toggle(chapter, line).wf(),
        doc.toggle(chapter, line).lines.len() == doc.lines.len(),
        doc.toggle(chapter, line).chapters.len() == doc.chapters.len(),
        forall|j: int|
            0 <= j < doc.chapters.len() ==> {
                &&& (#[trigger] doc.toggle(chapter, line).chapters[j]).content.len()
                    == doc.chapters[j].content.len()
                &&& doc.toggle(chapter, line).chapters[j].start_line == doc.chapters[j].start_line
                &&& doc.toggle(chapter, line).chapters[j].number == doc.chapters[j].number
                &&& doc.toggle(chapter, line).chapters[j].title == doc.chapters[j].title
            },
{
    if doc.can_toggle(chapter, line) {
        let after = doc.toggle(chapter, line);
        let c = doc.chapters[chapter as int];
        let at = c.start_line + line;
        let edited = toggled(c.content[line as int]);
        assert(in_place(doc.lines, c));
        assert forall|j: int| 0 <= j < after.chapters.len() implies in_place(
            after.lines,
            #[trigger] after.chapters[j],
        ) by {
            let d = doc.chapters[j];
            assert(in_place(doc.lines, d));
            if j == chapter {
                assert(after.chapters[j].content =~= after.lines.subrange(
                    d.start_line as int,
                    chapter_end(d) as int,
                ));
            } else {
                if j < chapter {
                    lemma_laid_out_ascending(doc.lines, doc.chapters, j, chapter as int);
                } else {
                    lemma_laid_out_ascending(doc.lines, doc.chapters, chapter as int, j);
                }
                assert(after.chapters[j] == d);
                assert(d.content =~= after.lines.subrange(
                    d.start_line as int,
                    chapter_end(d) as int,
                ));
            }
        }
        assert forall|j: int| 0 <= j && j + 1 < after.chapters.len() implies (
        #[trigger] after.chapters[j + 1]).start_line == chapter_end(after.chapters[j]) by {
            assert(doc.chapters[j + 1].start_line == chapter_end(doc.chapters[j]));
        }
    }
}

/// Toggling the same line twice gives the document back, line buffer,
/// chapters and bookmarks, where the line is in one of the forms of
/// `toggle_restores`.
pub proof fn lemma_toggle_twice_restores(doc: DocumentView, chapter: nat, line: nat)
    requires
        doc.wf(),
        doc.can_toggle(chapter, line) ==> toggle_restores(
            doc.chapters[chapter as int].content[line as int],
        ),
    ensures
        doc.toggle(chapter, line).toggle(chapter, line) == doc,
{
    if doc.can_toggle(chapter, line) {
        let c = doc.chapters[chapter as int];
        let text = c.content[line as int];
        let once = doc.toggle(chapter, line);
        let twice = once.toggle(chapter, line);
        lemma_toggle_twice(text);
        assert(in_place(doc.lines, c));
        // The edited line is not blank, so the second toggle edits it too.
        lemma_trim_end_cut(text);
        lemma_trim_end_cut(trim_end(text).drop_last());
        assert(once.can_toggle(chapter, line));
        assert(twice.chapters[chapter as int].content =~= c.content);
        assert(twice.chapters =~= doc.chapters);
        assert(twice.lines =~= doc.lines);
    }
}

/// The document after the markers of the lines named in `targets`, each a
/// chapter and a line in it, were toggled one after the other.
pub open spec fn toggle_each(doc: DocumentView, targets: Seq<(nat, nat)>) -> DocumentView
    decreases targets.len(),
{
    if targets.len() == 0 {
        doc
    } else {
        toggle_each(doc, targets.drop_last()).toggle(targets.last().0, targets.last().1)
    }
}

/// After any sequence of toggles the chapters still hold the buffer's
/// lines: `content[k]` of each is `lines[start_line + k]`.
pub proof fn lemma_toggles_keep_round_trip(doc: DocumentView, targets: Seq<(nat, nat)>)
    requires
        doc.wf(),
    ensures
        toggle_each(doc, targets).wf(),
        forall|j: int, k: int|
            #![trigger toggle_each(doc, targets).chapters[j].content[k]]
            0 <= j < toggle_each(doc, targets).chapters.len() && 0 <= k < toggle_each(
                doc,
                targets,
            ).chapters[j].content.len() ==> toggle_each(doc, targets).chapters[j].content[k]
                == toggle_each(doc, targets).lines[toggle_each(doc, targets).chapters[j].start_line
                + k],
    decreases targets.len(),
{
    let after = toggle_each(doc, targets);
    if targets.len() > 0 {
        lemma_toggles_keep_round_trip(doc, targets.drop_last());
        lemma_toggle_keeps_wf(
            toggle_each(doc, targets.drop_last()),
            targets.last().0,
            targets.last().1,
        );
    }
    assert forall|j: int, k: int|
        #![trigger after.chapters[j].content[k]]
        0 <= j < after.chapters.len() && 0 <= k < after.chapters[j].content.len()
        implies after.chapters[j].content[k] == after.lines[after.chapters[j].start_line + k] by {
        assert(in_place(after.lines, after.chapters[j]));
    }
}

impl View for Document {
    type V = DocumentView;

    closed spec fn view(&self) -> DocumentView {
        DocumentView {
            lines: self.lines.deep_view(),
            chapters: self.chapters.deep_view(),
            bookmarks: self.bookmarks.deep_view(),
        }
    }
}

impl Document {
    /// The document's invariant, which every document meets; see
    /// [`DocumentView::wf`].
    #[verifier::type_invariant]
    pub open spec fn wf(&self) -> bool {
        self@.wf()
    }

    /// A document without lines.
    pub fn new() -> (doc: Document)
        ensures
            doc@ == DocumentView::empty(),
            doc.wf(),
    {
        let lines: Vec<String> = Vec::new();
        let chapters: Vec<Chapter> = Vec::new();
        let bookmarks: Vec<Bookmark> = Vec::new();
        proof {
            assert(lines.deep_view() =~= Seq::empty());
            assert(chapters.deep_view() =~= Seq::empty());
            assert(bookmarks.deep_view() =~= Seq::empty());
        }
        Document { lines, chapters, bookmarks }
    }

    /// Loads a text: cuts it into lines, the lines into chapters, and
    /// lists the bookmarks. It fails only where a header pattern does not
    /// compile, and then says which.
    pub fn load(text: &str) -> (r: Result<Document, PatternError>)
        ensures
            match r {
                Ok(doc) => pattern_error() is None && doc@ == loaded(text@) && doc.wf(),
                Err(e) => pattern_error() == Some(e),
            },
    {
        let lines = lines_of(text);
        let chapters = match parse_lines(lines.as_slice()) {
            Ok(chapters) => chapters,
            Err(e) => {
                return Err(e);
            },
        };
        let bookmarks = parse_bookmarks(chapters.as_slice());
        Ok(Document { lines, chapters, bookmarks })
    }

    /// The line buffer.
    pub fn lines(&self) -> (lines: &Vec<String>)
        ensures
            lines.deep_view() == self@.lines,
    {
        &self.lines
    }

    /// The chapters.
    pub fn chapters(&self) -> (chapters: &Vec<Chapter>)
        ensures
            chapters.deep_view() == self@.chapters,
    {
        &self.chapters
    }

    /// The bookmarks.
    pub fn bookmarks(&self) -> (bookmarks: &Vec<Bookmark>)
        ensures
            bookmarks.deep_view() == self@.bookmarks,
    {
        &self.bookmarks
    }

    /// The number of lines in the buffer.
    pub fn line_count(&self) -> (n: usize)
        ensures
            n == self@.lines.len(),
    {
        self.lines.len()
    }

    /// The number of chapters.
    pub fn chapter_count(&self) -> (n: usize)
        ensures
            n == self@.chapters.len(),
    {
        self.chapters.len()
    }

    /// The number of bookmarks.
    pub fn bookmark_count(&self) -> (n: usize)
        ensures
            n == self@.bookmarks.len(),
    {
        self.bookmarks.len()
    }

    /// The number of lines of chapter `chapter`.
    pub(crate) fn chapter_len(&self, chapter: usize) -> (n: usize)
        requires
            chapter < self@.chapters.len(),
        ensures
            n == self@.chapters[chapter as int].content.len(),
    {
        self.chapters[chapter].content.len()
    }

    /// The chapter and the line in it that bookmark `bookmark` points at.
    pub(crate) fn bookmark_target(&self, bookmark: usize) -> (target: (usize, usize))
        requires
            bookmark < self@.bookmarks.len(),
        ensures
            target.0 == self@.bookmarks[bookmark as int].chapter_index,
            target.1 == self@.bookmarks[bookmark as int].line_in_chapter,
    {
        (self.bookmarks[bookmark].chapter_index, self.bookmarks[bookmark].line_in_chapter)
    }

    /// The text to write back: the whole line buffer, joined by line feeds.
    pub fn text(&self) -> (text: String)
        ensures
            text@ == join_lines(self@.lines),
    {
        joined(&self.lines)
    }

    /// Toggles the marker of one line of one chapter, in the chapter and
    /// in the line buffer, and derives the bookmarks anew. Tells whether
    /// anything changed: nothing does where the line does not exist or is
    /// blank.
    pub fn toggle_bookmark(&mut self, chapter_index: usize, line_in_chapter: usize) -> (changed:
        bool)
        ensures
            final(self).wf(),
            final(self)@ == old(self)@.toggle(chapter_index as nat, line_in_chapter as nat),
            changed == old(self)@.can_toggle(chapter_index as nat, line_in_chapter as nat),
    {
        proof {
            use_type_invariant(&*self);
        }
        if chapter_index >= self.chapters.len() {
            return false;
        }
        if line_in_chapter >= self.chapters[chapter_index].content.len() {
            return false;
        }
        let line = self.chapters[chapter_index].content[line_in_chapter].as_str();
        let edited = match toggle_marker(line) {
            Some(edited) => edited,
            None => {
                return false;
            },
        };
        proof {
            // The chapter lies in the buffer, so the line has its place there.
            assert(in_place(self@.lines, self@.chapters[chapter_index as int]));
            assert(self@.lines.len() == self.lines.len());
            lemma_toggle_keeps_wf(old(self)@, chapter_index as nat, line_in_chapter as nat);
        }
        // The three parts change together: they are taken out, edited, and
        // put back as one.
        let mut taken = Document::new();
        core::mem::swap(self, &mut taken);
        let Document { mut lines, mut chapters, bookmarks: _ } = taken;
        let at = chapters[chapter_index].start_line + line_in_chapter;
        let copy = edited.clone();
        chapters[chapter_index].content[line_in_chapter] = edited;
        lines[at] = copy;
        proof {
            let c = old(self)@.chapters[chapter_index as int];
            assert(lines.deep_view() =~= old(self)@.lines.update(at as int, edited@));
            assert(chapters[chapter_index as int]@.content =~= c.content.update(
                line_in_chapter as int,
                edited@,
            ));
            assert(chapters.deep_view() =~= old(self)@.chapters.update(
                chapter_index as int,
                ChapterView { content: c.content.update(line_in_chapter as int, edited@), ..c },
            ));
        }
        let bookmarks = parse_bookmarks(chapters.as_slice());
        *self = Document { lines, chapters, bookmarks };
        true
    }
}

} // verus!
