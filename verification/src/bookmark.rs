//! Bookmarks: the marker glyph, the index of marked lines and the edit
//! that sets or clears the marker of a line.

use crate::chapter::{Chapter, ChapterView};
use crate::text::{
    chars_of, is_blank, is_white_space, lemma_trim_end_cut, lemma_trim_end_fixed,
    lemma_trim_end_push_space, lemma_trim_is_subrange, push_char, string_of, trim, trim_end,
    trim_end_at, trim_start_at, trimmed,
};
use vstd::prelude::*;

verus! {

/// The glyph that marks a line.
pub const BOOKMARK_SYMBOL: char = '\u{1F516}';

/// A marked line of a chapter.
#[derive(Debug, Clone)]
pub struct Bookmark {
    pub chapter_index: usize,
    pub line_in_chapter: usize,
    pub line_content: String,
}

/// The mathematical value of a [`Bookmark`].
pub struct BookmarkView {
    pub chapter_index: nat,
    pub line_in_chapter: nat,
    pub line_content: Seq<char>,
}

impl View for Bookmark {
    type V = BookmarkView;

    open spec fn view(&self) -> BookmarkView {
        BookmarkView {
            chapter_index: self.chapter_index as nat,
            line_in_chapter: self.line_in_chapter as nat,
            line_content: self.line_content@,
        }
    }
}

impl DeepView for Bookmark {
    type V = BookmarkView;

    open spec fn deep_view(&self) -> BookmarkView {
        self@
    }
}

/// A line is a bookmark when its trimmed text begins with the glyph.
pub open spec fn is_bookmark(line: Seq<char>) -> bool {
    trim(line).len() > 0 && trim(line)[0] == BOOKMARK_SYMBOL
}

/// What a bookmark shows of its line: the trimmed text without the glyph
/// at its head, trimmed again.
pub open spec fn bookmark_text(line: Seq<char>) -> Seq<char> {
    trim(trim(line).drop_first())
}

/// The bookmarks among the lines of one chapter, in line order.
pub open spec fn chapter_bookmarks(chapter_index: nat, content: Seq<Seq<char>>) -> Seq<
    BookmarkView,
>
    decreases content.len(),
{
    if content.len() == 0 {
        Seq::empty()
    } else {
        let before = chapter_bookmarks(chapter_index, content.drop_last());
        if is_bookmark(content.last()) {
            before.push(
                BookmarkView {
                    chapter_index,
                    line_in_chapter: (content.len() - 1) as nat,
                    line_content: bookmark_text(content.last()),
                },
            )
        } else {
            before
        }
    }
}

/// The bookmarks of a document: those of each chapter, in chapter order.
pub open spec fn bookmarks_of(chapters: Seq<ChapterView>) -> Seq<BookmarkView>
    decreases chapters.len(),
{
    if chapters.len() == 0 {
        Seq::empty()
    } else {
        bookmarks_of(chapters.drop_last()) + chapter_bookmarks(
            (chapters.len() - 1) as nat,
            chapters.last().content,
        )
    }
}

/// What a line shows as a bookmark, or `None` when it is none.
pub fn bookmark_in(line: &str) -> (text: Option<String>)
    ensures
        text.deep_view() == (if is_bookmark(line@) {
            Some(bookmark_text(line@))
        } else {
            None
        }),
{
    let chars = chars_of(line);
    let a = trim_start_at(&chars);
    proof {
        lemma_trim_is_subrange(line@);
    }
    if a < chars.len() && chars[a] == BOOKMARK_SYMBOL {
        let e = trim_end_at(&chars, chars.len());
        proof {
            assert(chars@.take(chars.len() as int) =~= chars@);
        }
        let rest = string_of(&chars, a + 1, e);
        proof {
            assert(rest@ =~= trim(line@).drop_first());
        }
        Some(trimmed(rest.as_str()))
    } else {
        None
    }
}

/// Lists the bookmarks of the chapters in one forward scan: chapter by
/// chapter, line by line.
pub fn parse_bookmarks(chapters: &[Chapter]) -> (bookmarks: Vec<Bookmark>)
    ensures
        bookmarks.deep_view() == bookmarks_of(chapters.deep_view()),
{
    let mut bookmarks: Vec<Bookmark> = Vec::new();
    let mut i: usize = 0;
    while i < chapters.len()
        invariant
            i <= chapters.len(),
            bookmarks.deep_view() == bookmarks_of(chapters.deep_view().take(i as int)),
        decreases chapters.len() - i,
    {
        let content = &chapters[i].content;
        let ghost done = bookmarks.deep_view();
        let mut j: usize = 0;
        while j < content.len()
            invariant
                j <= content.len(),
                bookmarks.deep_view() == done + chapter_bookmarks(
                    i as nat,
                    content.deep_view().take(j as int),
                ),
            decreases content.len() - j,
        {
            let ghost held = bookmarks.deep_view();
            proof {
                let now = content.deep_view().take(j + 1);
                assert(now.drop_last() =~= content.deep_view().take(j as int));
            }
            match bookmark_in(content[j].as_str()) {
                Some(text) => {
                    let b = Bookmark { chapter_index: i, line_in_chapter: j, line_content: text };
                    bookmarks.push(b);
                    proof {
                        assert(bookmarks.deep_view() =~= held.push(b@));
                    }
                },
                None => {},
            }
            j += 1;
        }
        proof {
            let now = chapters.deep_view().take(i + 1);
            assert(now.drop_last() =~= chapters.deep_view().take(i as int));
            assert(content.deep_view().take(j as int) =~= content.deep_view());
        }
        i += 1;
    }
    proof {
        assert(chapters.deep_view().take(i as int) =~= chapters.deep_view());
    }
    bookmarks
}

/// A line with its marker set or cleared. A blank line stays as it is. A
/// line whose text ends with the glyph, trailing white space aside, loses
/// the glyph and the white space before it. Any other line loses its
/// trailing white space and gets one space and the glyph.
pub open spec fn toggled(line: Seq<char>) -> Seq<char> {
    let body = trim_end(line);
    if body.len() == 0 {
        line
    } else if body.last() == BOOKMARK_SYMBOL {
        trim_end(body.drop_last())
    } else {
        body + seq![' ', BOOKMARK_SYMBOL]
    }
}

/// The lines that toggling twice gives back unchanged: blank ones,
/// unmarked ones without trailing white space, and marked ones whose glyph
/// stands at the very end behind exactly one space after unmarked text.
pub open spec fn toggle_restores(line: Seq<char>) -> bool {
    let n = line.len() as int;
    ||| is_blank(line)
    ||| n >= 1 && !is_white_space(line[n - 1]) && line[n - 1] != BOOKMARK_SYMBOL
    ||| n >= 3 && line[n - 1] == BOOKMARK_SYMBOL && line[n - 2] == ' ' && !is_white_space(
        line[n - 3],
    ) && line[n - 3] != BOOKMARK_SYMBOL
}

/// Sets or clears the marker of a line; `None` for a blank line, which is
/// left alone.
pub fn toggle_marker(line: &str) -> (edited: Option<String>)
    ensures
        edited.deep_view() == (if is_blank(line@) {
            None
        } else {
            Some(toggled(line@))
        }),
{
    let chars = chars_of(line);
    let e = trim_end_at(&chars, chars.len());
    proof {
        assert(chars@.take(chars.len() as int) =~= chars@);
    }
    if e == 0 {
        None
    } else if chars[e - 1] == BOOKMARK_SYMBOL {
        let cut = trim_end_at(&chars, e - 1);
        proof {
            assert(chars@.take(e - 1) =~= trim_end(line@).drop_last());
        }
        Some(string_of(&chars, 0, cut))
    } else {
        let mut edited = string_of(&chars, 0, e);
        push_char(&mut edited, ' ');
        push_char(&mut edited, BOOKMARK_SYMBOL);
        Some(edited)
    }
}

/// Toggling a line twice gives the line back exactly when the line is in
/// one of the forms of `toggle_restores`.
pub proof fn lemma_toggle_twice(line: Seq<char>)
    ensures
        toggle_restores(line) <==> toggled(toggled(line)) == line,
{
    let n = line.len() as int;
    let body = trim_end(line);
    lemma_trim_end_cut(line);
    if n > 0 && !is_white_space(line[n - 1]) {
        lemma_trim_end_fixed(line);
    }
    if body.len() == 0 {
        // A blank line is left alone both times.
    } else if body.last() != BOOKMARK_SYMBOL {
        // The glyph is set and cleared again: what comes back is `body`,
        // which is `line` exactly when `line` ends in no white space.
        let marked = body + seq![' ', BOOKMARK_SYMBOL];
        lemma_trim_end_fixed(marked);
        assert(marked.drop_last() =~= body.push(' '));
        lemma_trim_end_push_space(body, ' ');
        lemma_trim_end_fixed(body);
        assert(toggled(toggled(line)) == body);
    } else {
        // The glyph is cleared first, which leaves `text`.
        let text = trim_end(body.drop_last());
        lemma_trim_end_cut(body.drop_last());
        if toggle_restores(line) {
            // Then `line` is `text`, one space and the glyph.
            lemma_trim_end_push_space(line.take(n - 2), ' ');
            lemma_trim_end_fixed(line.take(n - 2));
            assert(text == line.take(n - 2));
            assert(text + seq![' ', BOOKMARK_SYMBOL] =~= line);
        }
        if text.len() > 0 {
            lemma_trim_end_fixed(text);
            if text.last() == BOOKMARK_SYMBOL {
                // A second glyph is cleared too: the line only gets shorter.
                lemma_trim_end_cut(text.drop_last());
                assert(toggled(text).len() < n);
            } else {
                // The glyph is set again behind one space.
                let again = text + seq![' ', BOOKMARK_SYMBOL];
                assert(toggled(text) == again);
                if again == line {
                    assert(line[n - 1] == again[text.len() as int + 1]);
                    assert(line[n - 2] == again[text.len() as int]);
                    assert(line[n - 3] == again[text.len() - 1]);
                }
            }
        }
    }
}

/// A bookmark points into the chapters: at a line of a chapter that is a
/// bookmark, and it shows that line's text.
pub open spec fn points_at(chapters: Seq<ChapterView>, b: BookmarkView) -> bool {
    &&& b.chapter_index < chapters.len()
    &&& b.line_in_chapter < chapters[b.chapter_index as int].content.len()
    &&& is_bookmark(chapters[b.chapter_index as int].content[b.line_in_chapter as int])
    &&& b.line_content == bookmark_text(
        chapters[b.chapter_index as int].content[b.line_in_chapter as int],
    )
}

/// Every bookmark of one chapter's lines names that chapter and a marked
/// line of it.
pub proof fn lemma_chapter_bookmarks_point(chapter_index: nat, content: Seq<Seq<char>>, k: int)
    requires
        0 <= k < chapter_bookmarks(chapter_index, content).len(),
    ensures
        chapter_bookmarks(chapter_index, content)[k].chapter_index == chapter_index,
        chapter_bookmarks(chapter_index, content)[k].line_in_chapter < content.len(),
        is_bookmark(content[chapter_bookmarks(chapter_index, content)[k].line_in_chapter as int]),
        chapter_bookmarks(chapter_index, content)[k].line_content == bookmark_text(
            content[chapter_bookmarks(chapter_index, content)[k].line_in_chapter as int],
        ),
    decreases content.len(),
{
    let before = chapter_bookmarks(chapter_index, content.drop_last());
    if k < before.len() {
        lemma_chapter_bookmarks_point(chapter_index, content.drop_last(), k);
    }
}

/// Every entry of the bookmark index points at a marked line of the
/// chapters it was derived from.
pub proof fn lemma_bookmarks_point(chapters: Seq<ChapterView>, k: int)
    requires
        0 <= k < bookmarks_of(chapters).len(),
    ensures
        points_at(chapters, bookmarks_of(chapters)[k]),
    decreases chapters.len(),
{
    let before = bookmarks_of(chapters.drop_last());
    if k < before.len() {
        lemma_bookmarks_point(chapters.drop_last(), k);
    } else {
        lemma_chapter_bookmarks_point(
            (chapters.len() - 1) as nat,
            chapters.last().content,
            k - before.len(),
        );
    }
}

/// The bookmark index lists line `line` of chapter `chapter`.
pub open spec fn lists(bookmarks: Seq<BookmarkView>, chapter: nat, line: nat) -> bool {
    exists|k: int|
        0 <= k < bookmarks.len() && (#[trigger] bookmarks[k]).chapter_index == chapter
            && bookmarks[k].line_in_chapter == line
}

/// The bookmarks of one chapter's lines list every marked line of it.
pub proof fn lemma_chapter_bookmarks_complete(chapter: nat, content: Seq<Seq<char>>, line: nat)
    requires
        line < content.len(),
        is_bookmark(content[line as int]),
    ensures
        lists(chapter_bookmarks(chapter, content), chapter, line),
    decreases content.len(),
{
    let now = chapter_bookmarks(chapter, content);
    let before = chapter_bookmarks(chapter, content.drop_last());
    if line + 1 < content.len() {
        lemma_chapter_bookmarks_complete(chapter, content.drop_last(), line);
        let k = choose|k: int|
            0 <= k < before.len() && (#[trigger] before[k]).chapter_index == chapter
                && before[k].line_in_chapter == line;
        assert(now[k] == before[k]);
    } else {
        assert(now[before.len() as int].line_in_chapter == line);
    }
}

/// The bookmark index lists every marked line of every chapter.
pub proof fn lemma_bookmarks_complete(chapters: Seq<ChapterView>, chapter: nat, line: nat)
    requires
        chapter < chapters.len(),
        line < chapters[chapter as int].content.len(),
        is_bookmark(chapters[chapter as int].content[line as int]),
    ensures
        lists(bookmarks_of(chapters), chapter, line),
    decreases chapters.len(),
{
    let now = bookmarks_of(chapters);
    let before = bookmarks_of(chapters.drop_last());
    if chapter + 1 < chapters.len() {
        lemma_bookmarks_complete(chapters.drop_last(), chapter, line);
        let k = choose|k: int|
            0 <= k < before.len() && (#[trigger] before[k]).chapter_index == chapter
                && before[k].line_in_chapter == line;
        assert(now[k] == before[k]);
    } else {
        let own = chapter_bookmarks(chapter, chapters.last().content);
        lemma_chapter_bookmarks_complete(chapter, chapters.last().content, line);
        let k = choose|k: int|
            0 <= k < own.len() && (#[trigger] own[k]).chapter_index == chapter
                && own[k].line_in_chapter == line;
        assert(now[before.len() + k] == own[k]);
    }
}

/// The bookmarks of one chapter's lines stand in ascending line order.
pub proof fn lemma_chapter_bookmarks_ascend(chapter: nat, content: Seq<Seq<char>>, a: int, b: int)
    requires
        0 <= a < b < chapter_bookmarks(chapter, content).len(),
    ensures
        chapter_bookmarks(chapter, content)[a].line_in_chapter < chapter_bookmarks(
            chapter,
            content,
        )[b].line_in_chapter,
    decreases content.len(),
{
    let before = chapter_bookmarks(chapter, content.drop_last());
    if b < before.len() {
        lemma_chapter_bookmarks_ascend(chapter, content.drop_last(), a, b);
    } else {
        lemma_chapter_bookmarks_point(chapter, content.drop_last(), a);
    }
}

/// The bookmark index stands in scan order: by chapter, and within a
/// chapter by line.
pub proof fn lemma_bookmarks_ascend(chapters: Seq<ChapterView>, a: int, b: int)
    requires
        0 <= a < b < bookmarks_of(chapters).len(),
    ensures
        bookmarks_of(chapters)[a].chapter_index < bookmarks_of(chapters)[b].chapter_index || (
        bookmarks_of(chapters)[a].chapter_index == bookmarks_of(chapters)[b].chapter_index
            && bookmarks_of(chapters)[a].line_in_chapter < bookmarks_of(
            chapters,
        )[b].line_in_chapter),
    decreases chapters.len(),
{
    let before = bookmarks_of(chapters.drop_last());
    let last = (chapters.len() - 1) as nat;
    let own = chapter_bookmarks(last, chapters.last().content);
    if b < before.len() {
        lemma_bookmarks_ascend(chapters.drop_last(), a, b);
    } else {
        lemma_chapter_bookmarks_point(last, chapters.last().content, b - before.len());
        if a < before.len() {
            lemma_bookmarks_point(chapters.drop_last(), a);
        } else {
            lemma_chapter_bookmarks_point(last, chapters.last().content, a - before.len());
            lemma_chapter_bookmarks_ascend(
                last,
                chapters.last().content,
                a - before.len(),
                b - before.len(),
            );
        }
    }
}

/// The bookmark index reads nothing but the lines of the chapters: chapter
/// lists that agree line for line have the same index. So running it
/// again on the same chapters lists the same bookmarks.
pub proof fn lemma_index_is_stable(first: Seq<ChapterView>, second: Seq<ChapterView>)
    requires
        first.len() == second.len(),
        forall|j: int| 0 <= j < first.len() ==> (#[trigger] first[j]).content == second[j].content,
    ensures
        bookmarks_of(first) == bookmarks_of(second),
    decreases first.len(),
{
    if first.len() > 0 {
        assert(first.last().content == second.last().content);
        assert forall|j: int| 0 <= j < first.drop_last().len() implies (
        #[trigger] first.drop_last()[j]).content == second.drop_last()[j].content by {
            assert(first.drop_last()[j] == first[j]);
        }
        lemma_index_is_stable(first.drop_last(), second.drop_last());
    }
}

} // verus!
