//! Character-level text primitives: white space, trimming, decimal numbers
//! and line splitting, each with a mathematical model over `Seq<char>`.

use vstd::prelude::*;

verus! {

/// The code points that Unicode classes as `White_Space`.
pub open spec fn is_white_space(c: char) -> bool {
    let u = c as u32;
    ||| 0x09 <= u <= 0x0D
    ||| u == 0x20
    ||| u == 0x85
    ||| u == 0xA0
    ||| u == 0x1680
    ||| 0x2000 <= u <= 0x200A
    ||| u == 0x2028
    ||| u == 0x2029
    ||| u == 0x202F
    ||| u == 0x205F
    ||| u == 0x3000
}

/// How many characters of `s` remain once trailing white space is cut.
pub open spec fn trim_end_len(s: Seq<char>) -> nat
    decreases s.len(),
{
    if s.len() > 0 && is_white_space(s.last()) {
        trim_end_len(s.drop_last())
    } else {
        s.len()
    }
}

/// How many white-space characters `s` begins with.
pub open spec fn trim_start_len(s: Seq<char>) -> nat
    decreases s.len(),
{
    if s.len() > 0 && is_white_space(s[0]) {
        1 + trim_start_len(s.drop_first())
    } else {
        0
    }
}

/// `s` without its trailing white space.
pub open spec fn trim_end(s: Seq<char>) -> Seq<char> {
    s.take(trim_end_len(s) as int)
}

/// `s` without its leading white space.
pub open spec fn trim_start(s: Seq<char>) -> Seq<char> {
    s.skip(trim_start_len(s) as int)
}

/// `s` without leading and trailing white space.
pub open spec fn trim(s: Seq<char>) -> Seq<char> {
    trim_end(trim_start(s))
}

/// A line is blank when nothing but white space stands in it.
pub open spec fn is_blank(s: Seq<char>) -> bool {
    trim_end_len(s) == 0
}

/// `trim_end_len` is the one cut point with only white space behind it and
/// none directly before it.
pub proof fn lemma_trim_end_len(s: Seq<char>, e: int)
    requires
        0 <= e <= s.len(),
        forall|i: int| e <= i < s.len() ==> is_white_space(#[trigger] s[i]),
        e == 0 || !is_white_space(s[e - 1]),
    ensures
        trim_end_len(s) == e,
    decreases s.len(),
{
    if e < s.len() {
        lemma_trim_end_len(s.drop_last(), e);
    }
}

/// `trim_start_len` is the one cut point with only white space before it and
/// none directly behind it.
pub proof fn lemma_trim_start_len(s: Seq<char>, a: int)
    requires
        0 <= a <= s.len(),
        forall|i: int| 0 <= i < a ==> is_white_space(#[trigger] s[i]),
        a == s.len() || !is_white_space(s[a]),
    ensures
        trim_start_len(s) == a,
    decreases s.len(),
{
    if a > 0 {
        let t = s.drop_first();
        assert forall|i: int| 0 <= i < a - 1 implies is_white_space(#[trigger] t[i]) by {
            assert(t[i] == s[i + 1]);
        }
        lemma_trim_start_len(t, a - 1);
    }
}

/// What `trim_end_len` cuts at: it is in range, white space follows it, and
/// the character before it, if any, is not white space.
pub proof fn lemma_trim_end_cut(s: Seq<char>)
    ensures
        trim_end_len(s) <= s.len(),
        forall|i: int| trim_end_len(s) <= i < s.len() ==> is_white_space(#[trigger] s[i]),
        trim_end_len(s) > 0 ==> !is_white_space(s[trim_end_len(s) - 1]),
    decreases s.len(),
{
    if s.len() > 0 && is_white_space(s.last()) {
        lemma_trim_end_cut(s.drop_last());
        let t = s.drop_last();
        assert forall|i: int| trim_end_len(s) <= i < s.len() implies is_white_space(
            #[trigger] s[i],
        ) by {
            if i < s.len() - 1 {
                assert(t[i] == s[i]);
            }
        }
    }
}

/// What `trim_start_len` cuts at.
pub proof fn lemma_trim_start_cut(s: Seq<char>)
    ensures
        trim_start_len(s) <= s.len(),
        forall|i: int| 0 <= i < trim_start_len(s) ==> is_white_space(#[trigger] s[i]),
        trim_start_len(s) < s.len() ==> !is_white_space(s[trim_start_len(s) as int]),
    decreases s.len(),
{
    if s.len() > 0 && is_white_space(s[0]) {
        let t = s.drop_first();
        lemma_trim_start_cut(t);
        assert forall|i: int| 0 <= i < trim_start_len(s) implies is_white_space(
            #[trigger] s[i],
        ) by {
            if i > 0 {
                assert(t[i - 1] == s[i]);
            }
        }
    }
}

/// Trailing white space does not count: a white-space character behind
/// `s` leaves its trimmed end where it was.
pub proof fn lemma_trim_end_push_space(s: Seq<char>, c: char)
    requires
        is_white_space(c),
    ensures
        trim_end(s.push(c)) == trim_end(s),
{
    assert(s.push(c).drop_last() =~= s);
    lemma_trim_end_cut(s);
}

/// A string that ends in a character that is not white space is its own
/// trimmed end.
pub proof fn lemma_trim_end_fixed(s: Seq<char>)
    requires
        s.len() == 0 || !is_white_space(s.last()),
    ensures
        trim_end(s) == s,
{
}

/// Trimming both ends leaves the characters between the two cut points: a
/// blank string becomes empty, and any other keeps its first and its last
/// character that is not white space.
pub proof fn lemma_trim_is_subrange(s: Seq<char>)
    ensures
        is_blank(s) <==> trim(s).len() == 0,
        is_blank(s) <==> trim_start_len(s) == s.len(),
        !is_blank(s) ==> trim_start_len(s) < trim_end_len(s) <= s.len(),
        !is_blank(s) ==> trim(s) == s.subrange(trim_start_len(s) as int, trim_end_len(s) as int),
{
    let a = trim_start_len(s) as int;
    let e = trim_end_len(s) as int;
    lemma_trim_start_cut(s);
    lemma_trim_end_cut(s);
    let t = s.skip(a);
    if e == 0 {
        lemma_trim_end_cut(t);
    } else {
        assert forall|i: int| e - a <= i < t.len() implies is_white_space(#[trigger] t[i]) by {
            assert(t[i] == s[i + a]);
        }
        lemma_trim_end_len(t, e - a);
    }
}

/// Tells whether a character is white space.
pub fn white_space(c: char) -> (b: bool)
    ensures
        b == is_white_space(c),
{
    let u: u32 = c as u32;
    (0x09 <= u && u <= 0x0D) || u == 0x20 || u == 0x85 || u == 0xA0 || u == 0x1680 || (0x2000 <= u
        && u <= 0x200A) || u == 0x2028 || u == 0x2029 || u == 0x202F || u == 0x205F || u == 0x3000
}

/// Appends one character to a string: `String::push`, which puts the
/// character behind those already there.
#[verifier::external_body]
pub(crate) fn push_char(s: &mut String, c: char)
    ensures
        final(s)@ == old(s)@.push(c),
{
    s.push(c)
}

/// The characters of a string, in order.
pub fn chars_of(s: &str) -> (v: Vec<char>)
    ensures
        v@ == s@,
{
    let mut v: Vec<char> = Vec::new();
    for c in it: s.chars()
        invariant
            v@ == it.seq().take(it.index() as int),
    {
        v.push(c);
    }
    v
}

/// The string made of `chars[from..to]`.
pub(crate) fn string_of(chars: &Vec<char>, from: usize, to: usize) -> (s: String)
    requires
        from <= to <= chars.len(),
    ensures
        s@ == chars@.subrange(from as int, to as int),
{
    let mut s = String::new();
    let mut i: usize = from;
    while i < to
        invariant
            from <= i <= to <= chars.len(),
            s@ == chars@.subrange(from as int, i as int),
        decreases to - i,
    {
        push_char(&mut s, chars[i]);
        i += 1;
    }
    s
}

/// Where the trailing white space of `chars[..upto]` begins.
pub(crate) fn trim_end_at(chars: &Vec<char>, upto: usize) -> (e: usize)
    requires
        upto <= chars.len(),
    ensures
        e == trim_end_len(chars@.take(upto as int)),
        e <= upto,
{
    let mut e: usize = upto;
    while e > 0 && white_space(chars[e - 1])
        invariant
            e <= upto <= chars.len(),
            forall|i: int| e <= i < upto ==> is_white_space(#[trigger] chars@[i]),
        decreases e,
    {
        e -= 1;
    }
    proof {
        lemma_trim_end_len(chars@.take(upto as int), e as int);
    }
    e
}

/// Where the text of `chars` begins behind its leading white space.
pub(crate) fn trim_start_at(chars: &Vec<char>) -> (a: usize)
    ensures
        a == trim_start_len(chars@),
        a <= chars.len(),
{
    let mut a: usize = 0;
    while a < chars.len() && white_space(chars[a])
        invariant
            a <= chars.len(),
            forall|i: int| 0 <= i < a ==> is_white_space(#[trigger] chars@[i]),
        decreases chars.len() - a,
    {
        a += 1;
    }
    proof {
        lemma_trim_start_len(chars@, a as int);
    }
    a
}

/// A copy of `s` without leading and trailing white space.
pub fn trimmed(s: &str) -> (r: String)
    ensures
        r@ == trim(s@),
{
    let chars = chars_of(s);
    let a = trim_start_at(&chars);
    let e = trim_end_at(&chars, chars.len());
    proof {
        assert(chars@.take(chars.len() as int) =~= chars@);
        lemma_trim_is_subrange(s@);
    }
    if a < e {
        string_of(&chars, a, e)
    } else {
        String::new()
    }
}

/// The character that writes the digit `d`.
pub open spec fn digit_char(d: nat) -> char
    recommends
        d < 10,
{
    (0x30 + d) as char
}

/// The decimal numeral of `n`, most significant digit first.
pub open spec fn decimal(n: nat) -> Seq<char>
    decreases n,
{
    if n < 10 {
        seq![digit_char(n)]
    } else {
        decimal(n / 10).push(digit_char(n % 10))
    }
}

/// Tells whether `c` is one of the digits `0` to `9`.
pub open spec fn is_digit(c: char) -> bool {
    0x30 <= c as u32 <= 0x39
}

/// The number that a run of digits writes, read in base ten.
pub open spec fn digits_value(s: Seq<char>) -> nat
    decreases s.len(),
{
    if s.len() == 0 {
        0
    } else {
        digits_value(s.drop_last()) * 10 + (s.last() as u32 - 0x30) as nat
    }
}

/// The digits of a numeral: all of it but a plus sign at its head.
pub open spec fn unsigned(s: Seq<char>) -> Seq<char> {
    if s.len() > 0 && s[0] == '+' {
        s.drop_first()
    } else {
        s
    }
}

/// The number a numeral stands for: `Some` when `s`, after a plus sign at
/// most, is a non-empty run of the digits `0` to `9` whose value fits the
/// machine word, `None` otherwise.
pub open spec fn parse_decimal(s: Seq<char>) -> Option<nat> {
    let digits = unsigned(s);
    if digits.len() > 0 && (forall|i: int| 0 <= i < digits.len() ==> is_digit(#[trigger] digits[i]))
        && digits_value(digits) <= usize::MAX {
        Some(digits_value(digits))
    } else {
        None
    }
}

/// Appending digits never lowers the value read so far.
pub proof fn lemma_digits_value_grows(s: Seq<char>, k: int)
    requires
        0 <= k <= s.len(),
        forall|i: int| 0 <= i < s.len() ==> is_digit(#[trigger] s[i]),
    ensures
        digits_value(s.take(k)) <= digits_value(s),
    decreases s.len() - k,
{
    if k < s.len() {
        let t = s.take(k + 1);
        assert(t.drop_last() =~= s.take(k));
        lemma_digits_value_grows(s, k + 1);
    } else {
        assert(s.take(k) =~= s);
    }
}

/// Appends the decimal numeral of `n` to `out`.
pub(crate) fn push_decimal(out: &mut String, n: usize)
    ensures
        final(out)@ == old(out)@ + decimal(n as nat),
    decreases n,
{
    if n >= 10 {
        push_decimal(out, n / 10);
    }
    let d: u8 = (n % 10) as u8;
    let c: char = (0x30u8 + d) as char;
    push_char(out, c);
}

/// The decimal numeral of `n`.
pub fn decimal_string(n: usize) -> (s: String)
    ensures
        s@ == decimal(n as nat),
{
    let mut s = String::new();
    push_decimal(&mut s, n);
    s
}

/// Reads a numeral, with a plus sign before it or without; `None` when it
/// has no digit, holds anything but the digits `0` to `9`, or names a
/// number too large for the machine word.
pub fn parse_number(s: &str) -> (r: Option<usize>)
    ensures
        match r {
            Some(n) => parse_decimal(s@) == Some(n as nat),
            None => parse_decimal(s@) is None,
        },
{
    let chars = chars_of(s);
    let first: usize = if chars.len() > 0 && chars[0] == '+' {
        1
    } else {
        0
    };
    if first == chars.len() {
        return None;
    }
    let ghost digits = unsigned(s@);
    let mut value: usize = 0;
    let mut i: usize = first;
    proof {
        assert(digits =~= chars@.skip(first as int));
        assert(digits.take(0) =~= Seq::<char>::empty());
    }
    while i < chars.len()
        invariant
            first <= i <= chars.len(),
            digits == unsigned(s@),
            digits == chars@.skip(first as int),
            forall|k: int| 0 <= k < i - first ==> is_digit(#[trigger] digits[k]),
            value == digits_value(digits.take(i - first)),
        decreases chars.len() - i,
    {
        let u: u32 = chars[i] as u32;
        if u < 0x30 || u > 0x39 {
            proof {
                assert(digits[i - first] == chars@[i as int]);
            }
            return None;
        }
        let d: usize = (u - 0x30) as usize;
        proof {
            let t = digits.take(i - first + 1);
            assert(t.drop_last() =~= digits.take(i - first));
            assert(t.last() == chars@[i as int]);
        }
        if value > (usize::MAX - d) / 10 {
            proof {
                if forall|k: int| 0 <= k < digits.len() ==> is_digit(#[trigger] digits[k]) {
                    lemma_digits_value_grows(digits, i - first + 1);
                }
            }
            return None;
        }
        value = value * 10 + d;
        i += 1;
    }
    proof {
        assert(digits.take(i - first) =~= digits);
    }
    Some(value)
}

/// The index of the first line feed in `s`, or `s.len()` when it holds none.
pub open spec fn line_end(s: Seq<char>) -> nat
    decreases s.len(),
{
    if s.len() == 0 || s[0] == '\n' {
        0
    } else {
        1 + line_end(s.drop_first())
    }
}

/// A line without the carriage return that stood before its line feed.
pub open spec fn strip_return(line: Seq<char>) -> Seq<char> {
    if line.len() > 0 && line.last() == '\r' {
        line.drop_last()
    } else {
        line
    }
}

/// The lines of a text. A line ends at a line feed, which is left out
/// together with one carriage return directly before it. What follows the
/// last line feed is a line of its own unless it is empty.
pub open spec fn split_lines(text: Seq<char>) -> Seq<Seq<char>>
    decreases text.len(),
{
    if text.len() == 0 {
        Seq::empty()
    } else if line_end(text) < text.len() {
        seq![strip_return(text.take(line_end(text) as int))] + split_lines(
            text.skip(line_end(text) as int + 1),
        )
    } else {
        seq![text]
    }
}

/// The lines written one after the other with a line feed between each two.
pub open spec fn join_lines(lines: Seq<Seq<char>>) -> Seq<char>
    decreases lines.len(),
{
    if lines.len() == 0 {
        Seq::empty()
    } else if lines.len() == 1 {
        lines[0]
    } else {
        join_lines(lines.drop_last()) + seq!['\n'] + lines.last()
    }
}

/// The first line feed of `head + tail` is where `tail` begins, when `head`
/// holds none and `tail` is empty or begins with one.
pub proof fn lemma_line_end_at(head: Seq<char>, tail: Seq<char>)
    requires
        forall|i: int| 0 <= i < head.len() ==> #[trigger] head[i] != '\n',
        tail.len() == 0 || tail[0] == '\n',
    ensures
        line_end(head + tail) == head.len(),
    decreases head.len(),
{
    if head.len() > 0 {
        assert((head + tail).drop_first() =~= head.drop_first() + tail);
        let rest = head.drop_first();
        assert forall|i: int| 0 <= i < rest.len() implies #[trigger] rest[i] != '\n' by {
            assert(rest[i] == head[i + 1]);
        }
        lemma_line_end_at(rest, tail);
    }
}

/// A text whose first line feed stands at `n` splits into the line before
/// it and the lines of what follows it.
pub proof fn lemma_split_at_line_feed(text: Seq<char>, n: int)
    requires
        0 <= n < text.len(),
        text[n] == '\n',
        forall|k: int| 0 <= k < n ==> #[trigger] text[k] != '\n',
    ensures
        split_lines(text) == seq![strip_return(text.take(n))] + split_lines(text.skip(n + 1)),
{
    assert(text =~= text.take(n) + text.skip(n));
    lemma_line_end_at(text.take(n), text.skip(n));
}

/// A text without a line feed is one line, or none where it is empty.
pub proof fn lemma_split_last_line(text: Seq<char>)
    requires
        forall|k: int| 0 <= k < text.len() ==> #[trigger] text[k] != '\n',
    ensures
        split_lines(text) == if text.len() == 0 {
            Seq::<Seq<char>>::empty()
        } else {
            seq![text]
        },
{
    lemma_line_end_at(text, Seq::empty());
}

/// Cuts a text into its lines.
pub fn lines_of(text: &str) -> (lines: Vec<String>)
    ensures
        lines.deep_view() == split_lines(text@),
{
    let chars = chars_of(text);
    let mut lines: Vec<String> = Vec::new();
    let mut start: usize = 0;
    let mut i: usize = 0;
    proof {
        assert(chars@.skip(0) =~= chars@);
    }
    while i < chars.len()
        invariant
            start <= i <= chars.len(),
            forall|k: int| start <= k < i ==> #[trigger] chars@[k] != '\n',
            split_lines(chars@) == lines.deep_view() + split_lines(chars@.skip(start as int)),
        decreases chars.len() - i,
    {
        if chars[i] == '\n' {
            let end = if i > start && chars[i - 1] == '\r' {
                i - 1
            } else {
                i
            };
            let line = string_of(&chars, start, end);
            lines.push(line);
            proof {
                let rest = chars@.skip(start as int);
                lemma_split_at_line_feed(rest, i - start);
                assert(line@ =~= strip_return(rest.take(i - start)));
                assert(rest.skip(i - start + 1) =~= chars@.skip(i + 1));
            }
            start = i + 1;
        }
        i += 1;
    }
    proof {
        lemma_split_last_line(chars@.skip(start as int));
    }
    if start < chars.len() {
        lines.push(string_of(&chars, start, chars.len()));
    }
    lines
}

/// Writes the lines one after the other with a line feed between each two.
pub fn joined(lines: &Vec<String>) -> (text: String)
    ensures
        text@ == join_lines(lines.deep_view()),
{
    let mut text = String::new();
    let mut i: usize = 0;
    while i < lines.len()
        invariant
            i <= lines.len(),
            text@ == join_lines(lines.deep_view().take(i as int)),
        decreases lines.len() - i,
    {
        proof {
            let now = lines.deep_view().take(i + 1);
            assert(now.drop_last() =~= lines.deep_view().take(i as int));
        }
        if i > 0 {
            push_char(&mut text, '\n');
        }
        text.append(lines[i].as_str());
        i += 1;
    }
    proof {
        assert(lines.deep_view().take(i as int) =~= lines.deep_view());
    }
    text
}

} // verus!
