//! Chapters: header detection, title formatting and the segmentation of a
//! line buffer into chapters.

use crate::text::{decimal, parse_decimal, parse_number, push_char, push_decimal, trim, trimmed};
use regex::Regex;
use vstd::prelude::*;

verus! {

/// The pattern of a localized header: the chapter sign, a number, the
/// closing sign and an optional title.
pub const LOCALIZED_PATTERN: &'static str = "^\\s*第\\s*(\\d+)\\s*章(?:\\s*(.*))?$";

/// The pattern of a generic header: the word "chapter" in any case, a
/// number, an optional separator and an optional title.
pub const GENERIC_PATTERN: &'static str = "(?i)^\\s*chapter\\s*(\\d+)\\s*[:\\.\\s-]*\\s*(.*)?$";

/// A titled run of lines of the document that begins at a header line.
#[derive(Debug, Clone)]
pub struct Chapter {
    pub number: usize,
    pub title: String,
    pub start_line: usize,
    pub content: Vec<String>,
}

/// The mathematical value of a [`Chapter`].
pub struct ChapterView {
    pub number: nat,
    pub title: Seq<char>,
    pub start_line: nat,
    pub content: Seq<Seq<char>>,
}

impl View for Chapter {
    type V = ChapterView;

    open spec fn view(&self) -> ChapterView {
        ChapterView {
            number: self.number as nat,
            title: self.title@,
            start_line: self.start_line as nat,
            content: self.content.deep_view(),
        }
    }
}

impl DeepView for Chapter {
    type V = ChapterView;

    open spec fn deep_view(&self) -> ChapterView {
        self@
    }
}

/// Which of the two header patterns a line matched.
#[derive(Debug, Clone, Copy, PartialEq, Eq, Structural)]
pub enum HeaderKind {
    Localized,
    Generic,
}

/// What a header line says: its kind, its number and the trimmed text
/// behind the number.
#[derive(Debug)]
pub struct Header {
    pub kind: HeaderKind,
    pub number: usize,
    pub rest: String,
}

/// The mathematical value of a [`Header`].
pub struct HeaderView {
    pub kind: HeaderKind,
    pub number: nat,
    pub rest: Seq<char>,
}

impl View for Header {
    type V = HeaderView;

    open spec fn view(&self) -> HeaderView {
        HeaderView { kind: self.kind, number: self.number as nat, rest: self.rest@ }
    }
}

impl DeepView for Header {
    type V = HeaderView;

    open spec fn deep_view(&self) -> HeaderView {
        self@
    }
}

/// Which header pattern could not be compiled.
#[derive(Debug, Clone, Copy, PartialEq, Eq, Structural)]
pub enum PatternError {
    Localized,
    Generic,
}

/// `regex::Regex`, a compiled expression; nothing of its inside is known
/// here.
#[verifier::external_type_specification]
#[verifier::external_body]
pub struct ExRegex(regex::Regex);

/// `regex::Error`, why a pattern did not compile; nothing of its inside
/// is known here.
#[verifier::external_type_specification]
#[verifier::external_body]
pub struct ExRegexError(regex::Error);

/// Whether `Regex::new` accepts a pattern: it does unless the pattern is
/// malformed or its program would exceed the default size limit.
pub uninterp spec fn regex_compiles(pattern: Seq<char>) -> bool;

/// The pattern text that a compiled expression stands for: for one that
/// `Regex::new` built, the string it was given, which `Regex::as_str`
/// hands back.
pub uninterp spec fn regex_source(re: Regex) -> Seq<char>;

/// What `Regex::captures` finds when the expression compiled from
/// `pattern` searches `text`: `None` without a match, else one entry for
/// each capture group in the order of their opening brackets, the whole
/// match first, each holding the matched text or `None` where the group
/// took no part.
pub uninterp spec fn regex_captures(pattern: Seq<char>, text: Seq<char>) -> Option<
    Seq<Option<Seq<char>>>,
>;

/// Compiles a pattern with `Regex::new`. Whether it succeeds is a matter
/// of the pattern alone, and nothing is claimed of which patterns do; a
/// compiled expression stands for the pattern given.
#[verifier::external_body]
fn compile(pattern: &str) -> (r: Result<Regex, regex::Error>)
    ensures
        r is Ok <==> regex_compiles(pattern@),
        r matches Ok(re) ==> regex_source(re) == pattern@,
{
    Regex::new(pattern)
}

/// Searches `text` with `Regex::captures` and copies the text of every
/// capture group out of the match. The result is the one that the
/// expression's pattern and the text determine.
#[verifier::external_body]
fn captures(re: &Regex, text: &str) -> (groups: Option<Vec<Option<String>>>)
    ensures
        groups.deep_view() == regex_captures(regex_source(*re), text@),
{
    re.captures(text).map(|found| found.iter().map(|g| g.map(|m| m.as_str().to_string())).collect())
}

/// The capture group at `i`, or `None` where the match has no such group.
pub open spec fn group(groups: Seq<Option<Seq<char>>>, i: int) -> Option<Seq<char>> {
    if 0 <= i < groups.len() {
        groups[i]
    } else {
        None
    }
}

/// The chapter number that a digit group writes; 0 where the group is
/// missing or its numeral cannot be read.
pub open spec fn header_number(digits: Option<Seq<char>>) -> nat {
    match digits {
        Some(d) => match parse_decimal(d) {
            Some(n) => n,
            None => 0,
        },
        None => 0,
    }
}

/// The title remainder that a group holds, trimmed; empty where the group
/// is missing.
pub open spec fn header_rest(rest: Option<Seq<char>>) -> Seq<char> {
    match rest {
        Some(r) => trim(r),
        None => Seq::empty(),
    }
}

/// The header that the capture groups of a match describe: the number is
/// read from group 1, the remainder from group 2.
pub open spec fn header_from(kind: HeaderKind, groups: Seq<Option<Seq<char>>>) -> HeaderView {
    HeaderView {
        kind,
        number: header_number(group(groups, 1)),
        rest: header_rest(group(groups, 2)),
    }
}

/// The header that a line is, if it is one: the localized pattern is tried
/// first, then the generic one.
pub open spec fn header_of(localized: Seq<char>, generic: Seq<char>, line: Seq<char>) -> Option<
    HeaderView,
> {
    match regex_captures(localized, line) {
        Some(groups) => Some(header_from(HeaderKind::Localized, groups)),
        None => match regex_captures(generic, line) {
            Some(groups) => Some(header_from(HeaderKind::Generic, groups)),
            None => None,
        },
    }
}

/// The headers of all lines of a buffer, line by line.
pub open spec fn headers_of(localized: Seq<char>, generic: Seq<char>, lines: Seq<Seq<char>>) -> Seq<
    Option<HeaderView>,
> {
    Seq::new(lines.len(), |i: int| header_of(localized, generic, lines[i]))
}

/// The title of a chapter: the label of its kind around the number, then
/// the remainder behind one space where there is one.
pub open spec fn title_of(h: HeaderView) -> Seq<char> {
    let label = match h.kind {
        HeaderKind::Localized => "第"@ + decimal(h.number) + "章"@,
        HeaderKind::Generic => "Chapter "@ + decimal(h.number),
    };
    if h.rest.len() > 0 {
        label + seq![' '] + h.rest
    } else {
        label
    }
}

/// Reads a header out of the capture groups of a match.
pub fn header_from_captures(kind: HeaderKind, groups: &Vec<Option<String>>) -> (h: Header)
    ensures
        h@ == header_from(kind, groups.deep_view()),
{
    let number = if groups.len() > 1 {
        match &groups[1] {
            Some(digits) => match parse_number(digits.as_str()) {
                Some(n) => n,
                None => 0,
            },
            None => 0,
        }
    } else {
        0
    };
    let rest = if groups.len() > 2 {
        match &groups[2] {
            Some(r) => trimmed(r.as_str()),
            None => String::new(),
        }
    } else {
        String::new()
    };
    Header { kind, number, rest }
}

/// Formats the title of the chapter that a header opens.
pub fn format_title(h: &Header) -> (title: String)
    ensures
        title@ == title_of(h@),
{
    let mut title = String::new();
    match h.kind {
        HeaderKind::Localized => {
            title.append("第");
            push_decimal(&mut title, h.number);
            title.append("章");
        },
        HeaderKind::Generic => {
            title.append("Chapter ");
            push_decimal(&mut title, h.number);
        },
    }
    if !h.rest.as_str().is_empty() {
        push_char(&mut title, ' ');
        title.append(h.rest.as_str());
    }
    title
}

/// The two compiled header patterns.
pub struct HeaderMatcher {
    localized: Regex,
    generic: Regex,
}

impl HeaderMatcher {
    /// The pattern that this matcher tries first.
    pub closed spec fn localized_pattern(&self) -> Seq<char> {
        regex_source(self.localized)
    }

    /// The pattern that this matcher tries second.
    pub closed spec fn generic_pattern(&self) -> Seq<char> {
        regex_source(self.generic)
    }

    /// Compiles a matcher from two patterns. It fails on the first
    /// pattern that does not compile, and says which one that was.
    pub fn compile(localized: &str, generic: &str) -> (r: Result<HeaderMatcher, PatternError>)
        ensures
            match r {
                Ok(m) => {
                    &&& regex_compiles(localized@)
                    &&& regex_compiles(generic@)
                    &&& m.localized_pattern() == localized@
                    &&& m.generic_pattern() == generic@
                },
                Err(PatternError::Localized) => !regex_compiles(localized@),
                Err(PatternError::Generic) => regex_compiles(localized@) && !regex_compiles(
                    generic@,
                ),
            },
    {
        let first = match compile(localized) {
            Ok(re) => re,
            Err(_) => {
                return Err(PatternError::Localized);
            },
        };
        let second = match compile(generic) {
            Ok(re) => re,
            Err(_) => {
                return Err(PatternError::Generic);
            },
        };
        Ok(HeaderMatcher { localized: first, generic: second })
    }

    /// Compiles the matcher of the two standard header patterns.
    pub fn new() -> (r: Result<HeaderMatcher, PatternError>)
        ensures
            match r {
                Ok(m) => m.localized_pattern() == LOCALIZED_PATTERN@ && m.generic_pattern()
                    == GENERIC_PATTERN@ && pattern_error() is None,
                Err(e) => pattern_error() == Some(e),
            },
    {
        HeaderMatcher::compile(LOCALIZED_PATTERN, GENERIC_PATTERN)
    }

    /// The header that `line` is, or `None` when it matches neither pattern.
    pub fn header(&self, line: &str) -> (h: Option<Header>)
        ensures
            h.deep_view() == header_of(self.localized_pattern(), self.generic_pattern(), line@),
    {
        match captures(&self.localized, line) {
            Some(groups) => Some(header_from_captures(HeaderKind::Localized, &groups)),
            None => match captures(&self.generic, line) {
                Some(groups) => Some(header_from_captures(HeaderKind::Generic, &groups)),
                None => None,
            },
        }
    }

    /// The header of every line of a buffer.
    pub fn headers(&self, lines: &[String]) -> (found: Vec<Option<Header>>)
        ensures
            found.deep_view() == headers_of(
                self.localized_pattern(),
                self.generic_pattern(),
                lines.deep_view(),
            ),
    {
        let mut found: Vec<Option<Header>> = Vec::new();
        let mut i: usize = 0;
        while i < lines.len()
            invariant
                i <= lines.len(),
                found.len() == i,
                forall|k: int|
                    0 <= k < i ==> (#[trigger] found[k]).deep_view() == header_of(
                        self.localized_pattern(),
                        self.generic_pattern(),
                        lines[k]@,
                    ),
            decreases lines.len() - i,
        {
            let h = self.header(lines[i].as_str());
            found.push(h);
            i += 1;
        }
        proof {
            assert(found.deep_view() =~= headers_of(
                self.localized_pattern(),
                self.generic_pattern(),
                lines.deep_view(),
            ));
        }
        found
    }

    /// Cuts a line buffer into chapters with this matcher's patterns.
    pub fn chapters(&self, lines: &[String]) -> (chapters: Vec<Chapter>)
        ensures
            chapters.deep_view() == segmented(
                lines.deep_view(),
                headers_of(self.localized_pattern(), self.generic_pattern(), lines.deep_view()),
            ),
            laid_out(lines.deep_view(), chapters.deep_view()),
    {
        let found = self.headers(lines);
        segment(lines, &found)
    }
}

/// The header of line `i`, where `headers` says so.
pub open spec fn header_at(headers: Seq<Option<HeaderView>>, i: int) -> Option<HeaderView> {
    if 0 <= i < headers.len() {
        headers[i]
    } else {
        None
    }
}

/// The chapter that the header `h` opens at line `at`, holding that line.
pub open spec fn opened(h: HeaderView, at: nat, line: Seq<char>) -> ChapterView {
    ChapterView { number: h.number, title: title_of(h), start_line: at, content: seq![line] }
}

/// A chapter with one more line of content.
pub open spec fn extended(c: ChapterView, line: Seq<char>) -> ChapterView {
    ChapterView { content: c.content.push(line), ..c }
}

/// The chapters of a line buffer whose header lines are known. Each header
/// line opens a chapter that holds it; every other line joins the chapter
/// that is open, and is left out while none is.
pub open spec fn segmented(lines: Seq<Seq<char>>, headers: Seq<Option<HeaderView>>) -> Seq<
    ChapterView,
>
    decreases lines.len(),
{
    if lines.len() == 0 {
        Seq::empty()
    } else {
        let at = lines.len() - 1;
        let before = segmented(lines.drop_last(), headers);
        match header_at(headers, at) {
            Some(h) => before.push(opened(h, at as nat, lines[at])),
            None => if before.len() == 0 {
                before
            } else {
                before.update(before.len() - 1, extended(before.last(), lines[at]))
            },
        }
    }
}

/// The standard header pattern that does not compile, if one does not:
/// the localized one is looked at first.
pub open spec fn pattern_error() -> Option<PatternError> {
    if !regex_compiles(LOCALIZED_PATTERN@) {
        Some(PatternError::Localized)
    } else if !regex_compiles(GENERIC_PATTERN@) {
        Some(PatternError::Generic)
    } else {
        None
    }
}

/// The chapters of a line buffer under the two standard header patterns.
pub open spec fn chapters_of(lines: Seq<Seq<char>>) -> Seq<ChapterView> {
    segmented(lines, headers_of(LOCALIZED_PATTERN@, GENERIC_PATTERN@, lines))
}

/// Cuts a line buffer into chapters, given the header of each line.
/// `headers[i]` says whether `lines[i]` is a header; lines without an entry
/// are none.
pub fn segment(lines: &[String], headers: &Vec<Option<Header>>) -> (chapters: Vec<Chapter>)
    ensures
        chapters.deep_view() == segmented(lines.deep_view(), headers.deep_view()),
        laid_out(lines.deep_view(), chapters.deep_view()),
{
    let mut chapters: Vec<Chapter> = Vec::new();
    let mut current: Option<Chapter> = None;
    let mut i: usize = 0;
    while i < lines.len()
        invariant
            i <= lines.len(),
            current is None ==> chapters.len() == 0,
            segmented(lines.deep_view().take(i as int), headers.deep_view()) == (match current {
                Some(c) => chapters.deep_view().push(c@),
                None => chapters.deep_view(),
            }),
        decreases lines.len() - i,
    {
        let ghost done = chapters.deep_view();
        proof {
            let now = lines.deep_view().take(i + 1);
            assert(now.drop_last() =~= lines.deep_view().take(i as int));
        }
        let header: Option<&Header> = if i < headers.len() {
            headers[i].as_ref()
        } else {
            None
        };
        match header {
            Some(h) => {
                if let Some(previous) = current {
                    chapters.push(previous);
                }
                let mut content: Vec<String> = Vec::new();
                content.push(lines[i].clone());
                proof {
                    assert(content.deep_view() =~= seq![lines[i as int]@]);
                }
                current = Some(
                    Chapter { number: h.number, title: format_title(h), start_line: i, content },
                );
            },
            None => {
                if let Some(open) = &mut current {
                    let ghost held = open@;
                    open.content.push(lines[i].clone());
                    proof {
                        let longer = extended(held, lines[i as int]@);
                        assert(open@.content =~= longer.content);
                        assert(done.push(held).update(done.len() as int, longer) =~= done.push(
                            longer,
                        ));
                    }
                }
            },
        }
        i += 1;
    }
    proof {
        assert(lines.deep_view().take(i as int) =~= lines.deep_view());
        lemma_segmented_laid_out(lines.deep_view(), headers.deep_view());
    }
    if let Some(last) = current {
        chapters.push(last);
    }
    chapters
}

/// Cuts a line buffer into chapters under the two standard header
/// patterns. It fails only where one of the two does not compile, and
/// then says which.
pub fn parse_lines(lines: &[String]) -> (r: Result<Vec<Chapter>, PatternError>)
    ensures
        match r {
            Ok(chapters) => {
                &&& pattern_error() is None
                &&& chapters.deep_view() == chapters_of(lines.deep_view())
                &&& laid_out(lines.deep_view(), chapters.deep_view())
            },
            Err(e) => pattern_error() == Some(e),
        },
{
    match HeaderMatcher::new() {
        Ok(matcher) => Ok(matcher.chapters(lines)),
        Err(e) => Err(e),
    }
}

/// The line index just behind the last line of a chapter.
pub open spec fn chapter_end(c: ChapterView) -> nat {
    c.start_line + c.content.len()
}

/// A chapter sits in the buffer: it holds at least its header line, and
/// its content is the buffer's lines from `start_line` on.
pub open spec fn in_place(lines: Seq<Seq<char>>, c: ChapterView) -> bool {
    &&& c.content.len() >= 1
    &&& chapter_end(c) <= lines.len()
    &&& c.content == lines.subrange(c.start_line as int, chapter_end(c) as int)
}

/// The chapters lie over the buffer one behind the other: each sits in
/// the buffer, each begins where the one before it ends, and the last
/// ends with the buffer.
pub open spec fn laid_out(lines: Seq<Seq<char>>, chapters: Seq<ChapterView>) -> bool {
    &&& forall|j: int| 0 <= j < chapters.len() ==> in_place(lines, #[trigger] chapters[j])
    &&& forall|j: int|
        0 <= j && j + 1 < chapters.len() ==> (#[trigger] chapters[j + 1]).start_line
            == chapter_end(chapters[j])
    &&& chapters.len() > 0 ==> chapter_end(chapters.last()) == lines.len()
}

/// The segmenter lays its chapters out over the buffer, so the content of
/// each is the buffer's slice at its start: `content[k]` is
/// `lines[start_line + k]`.
pub proof fn lemma_segmented_laid_out(lines: Seq<Seq<char>>, headers: Seq<Option<HeaderView>>)
    ensures
        laid_out(lines, segmented(lines, headers)),
        forall|j: int, k: int|
            #![trigger segmented(lines, headers)[j].content[k]]
            0 <= j < segmented(lines, headers).len() && 0 <= k < segmented(
                lines,
                headers,
            )[j].content.len() ==> segmented(lines, headers)[j].content[k] == lines[segmented(
                lines,
                headers,
            )[j].start_line + k],
    decreases lines.len(),
{
    let now = segmented(lines, headers);
    if lines.len() > 0 {
        let at = lines.len() - 1;
        let shorter = lines.drop_last();
        let before = segmented(shorter, headers);
        lemma_segmented_laid_out(shorter, headers);
        assert forall|j: int| 0 <= j < before.len() implies in_place(
            lines,
            #[trigger] before[j],
        ) by {
            let c = before[j];
            assert(in_place(shorter, c));
            assert(shorter.subrange(c.start_line as int, chapter_end(c) as int) =~= lines.subrange(
                c.start_line as int,
                chapter_end(c) as int,
            ));
        }
        match header_at(headers, at) {
            Some(h) => {
                let c = opened(h, at as nat, lines[at]);
                assert(c.content =~= lines.subrange(at, at + 1));
                assert forall|j: int| 0 <= j < now.len() implies in_place(
                    lines,
                    #[trigger] now[j],
                ) by {
                    if j < before.len() {
                        assert(now[j] == before[j]);
                    }
                }
                assert forall|j: int| 0 <= j && j + 1 < now.len() implies (#[trigger] now[j
                    + 1]).start_line == chapter_end(now[j]) by {
                    if j + 1 < before.len() {
                        assert(now[j + 1] == before[j + 1]);
                        assert(now[j] == before[j]);
                    } else {
                        assert(now[j] == before.last());
                    }
                }
            },
            None => {
                if before.len() > 0 {
                    let last = before.len() - 1;
                    let c = extended(before.last(), lines[at]);
                    assert(in_place(lines, before[last]));
                    assert(c.content =~= lines.subrange(c.start_line as int, at + 1));
                    assert forall|j: int| 0 <= j < now.len() implies in_place(
                        lines,
                        #[trigger] now[j],
                    ) by {
                        if j < last {
                            assert(now[j] == before[j]);
                        }
                    }
                    assert forall|j: int| 0 <= j && j + 1 < now.len() implies (#[trigger] now[j
                        + 1]).start_line == chapter_end(now[j]) by {
                        assert(now[j] == before[j]);
                        if j + 1 < last {
                            assert(now[j + 1] == before[j + 1]);
                        }
                    }
                }
            },
        }
    }
    assert forall|j: int, k: int|
        #![trigger now[j].content[k]]
        0 <= j < now.len() && 0 <= k < now[j].content.len() implies now[j].content[k]
        == lines[now[j].start_line + k] by {
        assert(in_place(lines, now[j]));
    }
}

/// A chapter is the one that the header at its first line opens: it has
/// that header's number and title.
pub open spec fn opened_by(headers: Seq<Option<HeaderView>>, c: ChapterView) -> bool {
    header_at(headers, c.start_line as int) matches Some(h) && c.number == h.number && c.title
        == title_of(h)
}

/// Some chapter begins at line `i`.
pub open spec fn starts_chapter(chapters: Seq<ChapterView>, i: int) -> bool {
    exists|j: int| 0 <= j < chapters.len() && (#[trigger] chapters[j]).start_line == i
}

/// The segmenter opens a chapter at every header line and nowhere else,
/// and gives each chapter the number and the title of its header.
pub proof fn lemma_segmented_at_headers(lines: Seq<Seq<char>>, headers: Seq<Option<HeaderView>>)
    ensures
        forall|j: int|
            0 <= j < segmented(lines, headers).len() ==> opened_by(
                headers,
                #[trigger] segmented(lines, headers)[j],
            ),
        forall|i: int|
            0 <= i < lines.len() ==> (header_at(headers, i) is Some <==> #[trigger] starts_chapter(
                segmented(lines, headers),
                i,
            )),
    decreases lines.len(),
{
    let now = segmented(lines, headers);
    if lines.len() > 0 {
        let at = lines.len() - 1;
        let shorter = lines.drop_last();
        let before = segmented(shorter, headers);
        lemma_segmented_at_headers(shorter, headers);
        lemma_segmented_laid_out(shorter, headers);
        assert(now.len() >= before.len());
        assert forall|j: int| 0 <= j < before.len() implies (#[trigger] now[j]).start_line
            == before[j].start_line && now[j].number == before[j].number && now[j].title
            == before[j].title by {}
        assert forall|j: int| 0 <= j < now.len() implies opened_by(headers, #[trigger] now[j]) by {
            if j < before.len() {
                assert(opened_by(headers, before[j]));
            }
        }
        assert forall|i: int| 0 <= i < lines.len() implies (header_at(headers, i) is Some
            <==> #[trigger] starts_chapter(now, i)) by {
            if i < at {
                assert(header_at(headers, i) is Some <==> starts_chapter(before, i));
                if starts_chapter(before, i) {
                    let j = choose|j: int|
                        0 <= j < before.len() && (#[trigger] before[j]).start_line == i;
                    assert(now[j].start_line == i);
                }
                if starts_chapter(now, i) {
                    let j = choose|j: int|
                        0 <= j < now.len() && (#[trigger] now[j]).start_line == i;
                    if j < before.len() {
                        assert(before[j].start_line == i);
                    }
                }
            } else {
                if header_at(headers, at) is Some {
                    assert(now[before.len() as int].start_line == at);
                } else if starts_chapter(now, i) {
                    let j = choose|j: int|
                        0 <= j < now.len() && (#[trigger] now[j]).start_line == i;
                    assert(in_place(shorter, before[j]));
                }
            }
        }
    }
}

/// Chapters that are laid out over a buffer stand in strictly ascending
/// order of their first lines, and no two share a line: an earlier one
/// ends at or before the first line of a later one.
pub proof fn lemma_laid_out_ascending(
    lines: Seq<Seq<char>>,
    chapters: Seq<ChapterView>,
    i: int,
    j: int,
)
    requires
        laid_out(lines, chapters),
        0 <= i < j < chapters.len(),
    ensures
        chapters[i].start_line < chapters[j].start_line,
        chapter_end(chapters[i]) <= chapters[j].start_line,
    decreases j - i,
{
    assert(in_place(lines, chapters[i]));
    if i + 1 < j {
        lemma_laid_out_ascending(lines, chapters, i + 1, j);
        assert(chapters[i + 1].start_line == chapter_end(chapters[i]));
        assert(in_place(lines, chapters[i + 1]));
    } else {
        assert(chapters[i + 1].start_line == chapter_end(chapters[i]));
    }
}

/// The segmenter's chapters begin in strictly ascending order and cover
/// disjoint ranges that follow each other without a gap, up to the end of
/// the buffer.
pub proof fn lemma_segmented_ascending(lines: Seq<Seq<char>>, headers: Seq<Option<HeaderView>>)
    ensures
        forall|i: int, j: int|
            #![trigger segmented(lines, headers)[i], segmented(lines, headers)[j]]
            0 <= i < j < segmented(lines, headers).len() ==> {
                &&& segmented(lines, headers)[i].start_line < segmented(
                    lines,
                    headers,
                )[j].start_line
                &&& chapter_end(segmented(lines, headers)[i]) <= segmented(
                    lines,
                    headers,
                )[j].start_line
            },
        forall|j: int|
            0 <= j && j + 1 < segmented(lines, headers).len() ==> (#[trigger] segmented(
                lines,
                headers,
            )[j + 1]).start_line == chapter_end(segmented(lines, headers)[j]),
        segmented(lines, headers).len() > 0 ==> chapter_end(segmented(lines, headers).last())
            == lines.len(),
{
    let now = segmented(lines, headers);
    lemma_segmented_laid_out(lines, headers);
    assert forall|i: int, j: int| #![trigger now[i], now[j]] 0 <= i < j < now.len() implies {
        &&& now[i].start_line < now[j].start_line
        &&& chapter_end(now[i]) <= now[j].start_line
    } by {
        lemma_laid_out_ascending(lines, now, i, j);
    }
}

} // verus!
