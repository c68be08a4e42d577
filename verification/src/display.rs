//! What the panes show: the items of the three lists and the two halves
//! of the footer, as text.

use crate::app::{App, Focus};
use crate::bookmark::BookmarkView;
use crate::chapter::ChapterView;
use crate::text::{decimal, join_lines, joined, push_char, push_decimal};
use vstd::prelude::*;

verus! {

/// The lines that `textwrap::wrap` breaks a text into at a width, with
/// its default options.
pub uninterp spec fn wrapped(text: Seq<char>, width: nat) -> Seq<Seq<char>>;

/// Breaks a text into lines of at most `width` columns with
/// `textwrap::wrap` and copies them out. The lines are those that the
/// text and the width determine.
#[verifier::external_body]
fn wrap(text: &str, width: usize) -> (lines: Vec<String>)
    requires
        width >= 1,
    ensures
        lines.deep_view() == wrapped(text@, width as nat),
{
    textwrap::wrap(text, width).into_iter().map(|line| line.into_owned()).collect()
}

/// The width that content is wrapped at in a pane `pane_width` columns
/// wide: five columns go to the border and the cursor, and at least one
/// is left.
pub open spec fn wrap_width(pane_width: nat) -> nat {
    if pane_width > 5 {
        (pane_width - 5) as nat
    } else {
        1
    }
}

/// A line of content as its list item shows it: wrapped to the pane, the
/// pieces one below the other.
pub open spec fn content_text(line: Seq<char>, pane_width: nat) -> Seq<char> {
    join_lines(wrapped(line, wrap_width(pane_width)))
}

/// The items of the content list: the lines on display, each wrapped, or
/// one empty item where there is no line.
pub open spec fn content_texts(lines: Seq<Seq<char>>, pane_width: nat) -> Seq<Seq<char>> {
    if lines.len() == 0 {
        seq![Seq::empty()]
    } else {
        Seq::new(lines.len(), |i: int| content_text(lines[i], pane_width))
    }
}

/// The items of the table of contents: the chapter titles, or the word
/// `NONE` where there is no chapter.
pub open spec fn toc_texts(chapters: Seq<ChapterView>) -> Seq<Seq<char>> {
    if chapters.len() == 0 {
        seq!["NONE"@]
    } else {
        Seq::new(chapters.len(), |i: int| chapters[i].title)
    }
}

/// The item of the bookmark at `position`: its number, counted from one,
/// a full stop, a space and the bookmark's text.
pub open spec fn bookmark_text_at(position: nat, b: BookmarkView) -> Seq<char> {
    decimal(position + 1) + ". "@ + b.line_content
}

/// The items of the bookmark list.
pub open spec fn bookmark_texts(bookmarks: Seq<BookmarkView>) -> Seq<Seq<char>> {
    Seq::new(bookmarks.len(), |i: int| bookmark_text_at(i as nat, bookmarks[i]))
}

/// The tag that names the focused pane in the footer.
pub open spec fn focus_tag(focus: Focus) -> Seq<char> {
    match focus {
        Focus::Toc => "[TOC]"@,
        Focus::Content => "[CONTENT]"@,
        Focus::Bookmark => "[BOOKMARK]"@,
    }
}

/// The width that content is wrapped at in a pane of the given width.
pub fn content_width(pane_width: u16) -> (width: usize)
    ensures
        width == wrap_width(pane_width as nat),
        width >= 1,
{
    if pane_width > 5 {
        (pane_width - 5) as usize
    } else {
        1
    }
}

/// A line of content, wrapped to the pane.
pub fn content_item(line: &str, pane_width: u16) -> (text: String)
    ensures
        text@ == content_text(line@, pane_width as nat),
{
    let pieces = wrap(line, content_width(pane_width));
    joined(&pieces)
}

/// The items of the content list for a pane of the given width.
pub fn content_items(app: &App, pane_width: u16) -> (items: Vec<String>)
    ensures
        items.deep_view() == content_texts(app@.cursor.shown(app@.doc), pane_width as nat),
{
    let lines = app.shown_lines();
    let mut items: Vec<String> = Vec::new();
    if lines.len() == 0 {
        items.push(String::new());
        return items;
    }
    let mut i: usize = 0;
    while i < lines.len()
        invariant
            i <= lines.len(),
            items.len() == i,
            forall|k: int|
                0 <= k < i ==> (#[trigger] items[k])@ == content_text(lines[k]@, pane_width as nat),
        decreases lines.len() - i,
    {
        items.push(content_item(lines[i].as_str(), pane_width));
        i += 1;
    }
    items
}

/// The items of the table of contents.
pub fn toc_items(app: &App) -> (items: Vec<String>)
    ensures
        items.deep_view() == toc_texts(app@.doc.chapters),
{
    let chapters = app.document().chapters();
    let mut items: Vec<String> = Vec::new();
    if chapters.len() == 0 {
        items.push(String::from_str("NONE"));
        return items;
    }
    let mut i: usize = 0;
    while i < chapters.len()
        invariant
            i <= chapters.len(),
            items.len() == i,
            forall|k: int| 0 <= k < i ==> (#[trigger] items[k])@ == chapters[k]@.title,
        decreases chapters.len() - i,
    {
        items.push(chapters[i].title.clone());
        i += 1;
    }
    items
}

/// The items of the bookmark list.
pub fn bookmark_items(app: &App) -> (items: Vec<String>)
    ensures
        items.deep_view() == bookmark_texts(app@.doc.bookmarks),
{
    let bookmarks = app.document().bookmarks();
    let mut items: Vec<String> = Vec::new();
    let mut i: usize = 0;
    while i < bookmarks.len()
        invariant
            i <= bookmarks.len(),
            items.len() == i,
            forall|k: int|
                0 <= k < i ==> (#[trigger] items[k])@ == bookmark_text_at(k as nat, bookmarks[k]@),
        decreases bookmarks.len() - i,
    {
        let mut item = String::new();
        push_decimal(&mut item, i + 1);
        item.append(". ");
        item.append(bookmarks[i].line_content.as_str());
        items.push(item);
        i += 1;
    }
    items
}

/// The tag that names the focused pane in the footer.
pub fn focus_label(focus: Focus) -> (label: &'static str)
    ensures
        label@ == focus_tag(focus),
{
    match focus {
        Focus::Toc => "[TOC]",
        Focus::Content => "[CONTENT]",
        Focus::Bookmark => "[BOOKMARK]",
    }
}

/// The left half of the footer: the tag of the focused pane and the title
/// of the selected chapter, or the file's name where none is selected.
pub fn status_left(app: &App, file_name: &str) -> (text: String)
    ensures
        text@ == focus_tag(app@.cursor.focus) + seq![' '] + (match app@.cursor.toc {
            Some(i) => if i < app@.doc.chapters.len() {
                app@.doc.chapters[i as int].title
            } else {
                file_name@
            },
            None => file_name@,
        }),
{
    let mut text = String::from_str(focus_label(app.cursor().focus));
    push_char(&mut text, ' ');
    match app.selected_chapter() {
        Some(chapter) => text.append(chapter.title.as_str()),
        None => text.append(file_name),
    }
    text
}

/// The right half of the footer: the number of the selected line, the
/// number of lines, and the two keys that set bookmarks and show them.
pub fn status_right(app: &App) -> (text: String)
    ensures
        text@ == decimal(app@.progress().0) + seq!['/'] + decimal(app@.progress().1)
            + " [m]Toggle Mark [b]Bookmark"@,
{
    let (line, total) = app.progress();
    let mut text = String::new();
    push_decimal(&mut text, line);
    push_char(&mut text, '/');
    push_decimal(&mut text, total);
    text.append(" [m]Toggle Mark [b]Bookmark");
    text
}

} // verus!
