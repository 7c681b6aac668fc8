//! Character-level helpers shared by the text handling of the crate.

use vstd::prelude::*;
use vstd::string::*;

verus! {

/// The characters of `s`, in order.
pub fn to_chars(s: &str) -> (chars: Vec<char>)
    ensures
        chars@ == s@,
{
    let mut chars: Vec<char> = Vec::new();
    for c in it: s.chars()
        invariant
            chars@ == it.seq().take(it.index() as int),
            it.seq() == s@,
    {
        chars.push(c);
    }
    chars
}

/// Collects characters into a `String` with std's `FromIterator<&char>` for `String`,
/// which appends each character in turn: the string reads exactly as `chars`.
#[verifier::external_body]
pub(crate) fn string_of(chars: &[char]) -> (s: String)
    ensures
        s@ == chars@,
{
    chars.iter().collect()
}

/// Whether `s` reads exactly as `literal`.
pub fn reads_as(s: &str, literal: &str) -> (same: bool)
    ensures
        same == (s@ == literal@),
{
    String::from_str(s) == String::from_str(literal)
}

/// `s` ends with `suffix`.
pub open spec fn ends_with_spec(s: Seq<char>, suffix: Seq<char>) -> bool {
    suffix.len() <= s.len() && s.subrange(s.len() - suffix.len(), s.len() as int) == suffix
}

/// Whether `s` ends with `suffix`.
pub fn ends_with(s: &Vec<char>, suffix: &Vec<char>) -> (yes: bool)
    ensures
        yes == ends_with_spec(s@, suffix@),
{
    if suffix.len() > s.len() {
        return false;
    }
    let start = s.len() - suffix.len();
    let mut i: usize = 0;
    while i < suffix.len()
        invariant
            i <= suffix.len(),
            start + suffix.len() == s.len(),
            forall|j: int| 0 <= j < i ==> s@[start + j] == suffix@[j],
        decreases suffix.len() - i,
    {
        if s[start + i] != suffix[i] {
            assert(s@.subrange(start as int, s@.len() as int)[i as int] != suffix@[i as int]);
            return false;
        }
        i += 1;
    }
    assert(s@.subrange(start as int, s@.len() as int) =~= suffix@);
    true
}

/// `needle` occurs in `hay` as a run of consecutive characters.
pub open spec fn is_substring(needle: Seq<char>, hay: Seq<char>) -> bool {
    exists|i: int|
        0 <= i <= hay.len() - needle.len() && #[trigger] hay.subrange(i, i + needle.len())
            == needle
}

/// Whether `needle` stands in `hay` at `at`.
fn stands_at(hay: &Vec<char>, at: usize, needle: &Vec<char>) -> (yes: bool)
    requires
        at + needle.len() <= hay.len(),
    ensures
        yes == (hay@.subrange(at as int, at + needle.len()) == needle@),
{
    let mut i: usize = 0;
    while i < needle.len()
        invariant
            i <= needle.len(),
            at + needle.len() <= hay.len(),
            forall|j: int| 0 <= j < i ==> hay@[at + j] == needle@[j],
        decreases needle.len() - i,
    {
        if hay[at + i] != needle[i] {
            assert(hay@.subrange(at as int, at + needle.len())[i as int] != needle@[i as int]);
            return false;
        }
        i += 1;
    }
    assert(hay@.subrange(at as int, at + needle.len()) =~= needle@);
    true
}

/// Whether `needle` occurs in `hay`.
pub fn occurs_in(needle: &Vec<char>, hay: &Vec<char>) -> (found: bool)
    ensures
        found == is_substring(needle@, hay@),
{
    if needle.len() > hay.len() {
        return false;
    }
    if needle.len() == 0 {
        assert(hay@.subrange(0int, 0int + needle@.len()) =~= needle@);
        return true;
    }
    let last: usize = hay.len() - needle.len();
    let mut at: usize = 0;
    while at <= last
        invariant
            at <= last + 1,
            needle.len() > 0,
            last + needle.len() == hay.len(),
            forall|j: int|
                0 <= j < at ==> #[trigger] hay@.subrange(j, j + needle@.len()) != needle@,
        decreases last + 1 - at,
    {
        if stands_at(hay, at, needle) {
            return true;
        }
        at += 1;
    }
    false
}

/// Whether the text `hay` holds the text `needle`.
pub fn contains(hay: &str, needle: &str) -> (found: bool)
    ensures
        found == is_substring(needle@, hay@),
{
    let hay = to_chars(hay);
    let needle = to_chars(needle);
    occurs_in(&needle, &hay)
}

/// `s` begins with `prefix`.
pub open spec fn has_prefix(s: Seq<char>, prefix: Seq<char>) -> bool {
    prefix.len() <= s.len() && s.subrange(0, prefix.len() as int) == prefix
}

/// Whether `s` begins with `prefix`.
pub fn starts_with(s: &Vec<char>, prefix: &Vec<char>) -> (yes: bool)
    ensures
        yes == has_prefix(s@, prefix@),
{
    if prefix.len() > s.len() {
        return false;
    }
    let mut i: usize = 0;
    while i < prefix.len()
        invariant
            i <= prefix.len() <= s.len(),
            forall|j: int| 0 <= j < i ==> s@[j] == prefix@[j],
        decreases prefix.len() - i,
    {
        if s[i] != prefix[i] {
            assert(s@.subrange(0, prefix@.len() as int)[i as int] != prefix@[i as int]);
            return false;
        }
        i += 1;
    }
    assert(s@.subrange(0, prefix@.len() as int) =~= prefix@);
    true
}

/// The characters of `s` from `from` up to `to`.
pub(crate) fn copy_range(s: &Vec<char>, from: usize, to: usize) -> (part: Vec<char>)
    requires
        from <= to <= s.len(),
    ensures
        part@ == s@.subrange(from as int, to as int),
{
    let mut part: Vec<char> = Vec::new();
    let mut i: usize = from;
    while i < to
        invariant
            from <= i <= to <= s.len(),
            part@ == s@.subrange(from as int, i as int),
        decreases to - i,
    {
        part.push(s[i]);
        assert(part@ =~= s@.subrange(from as int, i + 1));
        i += 1;
    }
    part
}

/// The characters with the Unicode property `White_Space`.
pub open spec fn is_whitespace(c: char) -> bool {
    let u = c as u32;
    ||| 0x09 <= u <= 0x0D
    ||| u == 0x20
    ||| u == 0x85
    ||| u == 0xA0
    ||| u == 0x1680
    ||| 0x2000 <= u <= 0x200A
    ||| u == 0x2028
    ||| u == 0x2029
    ||| u == 0x202F
    ||| u == 0x205F
    ||| u == 0x3000
}

/// Whether `c` is white space.
pub fn char_is_whitespace(c: char) -> (yes: bool)
    ensures
        yes == is_whitespace(c),
{
    let u: u32 = c as u32;
    (0x09 <= u && u <= 0x0D) || u == 0x20 || u == 0x85 || u == 0xA0 || u == 0x1680 || (0x2000 <= u
        && u <= 0x200A) || u == 0x2028 || u == 0x2029 || u == 0x202F || u == 0x205F || u == 0x3000
}

/// Where the line that begins at `from` ends: at the next line feed, or at the end
/// of the text.
pub open spec fn line_end(text: Seq<char>, from: int) -> int
    decreases text.len() - from,
{
    if from < 0 || from >= text.len() || text[from] == '\n' {
        from
    } else {
        line_end(text, from + 1)
    }
}

/// A line ends at or after its beginning, within the text, at the first line feed.
pub proof fn lemma_line_end(text: Seq<char>, from: int)
    requires
        0 <= from <= text.len(),
    ensures
        from <= line_end(text, from) <= text.len(),
        line_end(text, from) < text.len() ==> text[line_end(text, from)] == '\n',
        forall|i: int| from <= i < line_end(text, from) ==> text[i] != '\n',
    decreases text.len() - from,
{
    if from < text.len() && text[from] != '\n' {
        lemma_line_end(text, from + 1);
    }
}

/// A line that was ended by a line feed loses the carriage return before it.
pub open spec fn without_cr(line: Seq<char>) -> Seq<char> {
    if line.len() > 0 && line.last() == '\r' {
        line.drop_last()
    } else {
        line
    }
}

/// The lines of the text from `from` on.
pub open spec fn lines_from(text: Seq<char>, from: int) -> Seq<Seq<char>>
    decreases text.len() - from,
{
    if from < 0 || from >= text.len() {
        Seq::empty()
    } else {
        let end = line_end(text, from);
        if end >= text.len() {
            seq![text.subrange(from, text.len() as int)]
        } else {
            proof {
                lemma_line_end(text, from);
            }
            seq![without_cr(text.subrange(from, end))] + lines_from(text, end + 1)
        }
    }
}

/// The lines of a text. A line ends at a line feed, or at a carriage return
/// followed by one, and holds neither. What follows the last line feed is a line
/// of its own unless it is empty.
pub open spec fn lines_of(text: Seq<char>) -> Seq<Seq<char>> {
    lines_from(text, 0)
}

/// Splits a text into its lines.
pub fn split_lines(text: &Vec<char>) -> (lines: Vec<Vec<char>>)
    ensures
        lines.deep_view() == lines_of(text@),
{
    let mut lines: Vec<Vec<char>> = Vec::new();
    let mut start: usize = 0;
    assert(lines.deep_view() + lines_from(text@, 0) =~= lines_of(text@));
    while start < text.len()
        invariant
            start <= text.len(),
            lines.deep_view() + lines_from(text@, start as int) == lines_of(text@),
        decreases text.len() - start,
    {
        let mut end: usize = start;
        while end < text.len() && text[end] != '\n'
            invariant
                start <= end <= text.len(),
                line_end(text@, start as int) == line_end(text@, end as int),
            decreases text.len() - end,
        {
            end += 1;
        }
        let ghost before = lines.deep_view();
        if end < text.len() {
            let stop: usize = if end > start && text[end - 1] == '\r' {
                (end - 1) as usize
            } else {
                end
            };
            let line = copy_range(text, start, stop);
            assert(line@ == without_cr(text@.subrange(start as int, end as int))) by {
                let raw = text@.subrange(start as int, end as int);
                if end > start {
                    assert(raw.last() == text@[end - 1]);
                    assert(raw.drop_last() =~= text@.subrange(start as int, end - 1));
                }
            }
            assert(line.deep_view() =~= line@);
            lines.push(line);
            assert(lines.deep_view() =~= before + seq![
                without_cr(text@.subrange(start as int, end as int)),
            ]);
            start = end + 1;
        } else {
            let line = copy_range(text, start, end);
            assert(line.deep_view() =~= line@);
            lines.push(line);
            assert(lines.deep_view() =~= before + seq![
                text@.subrange(start as int, text@.len() as int),
            ]);
            start = end;
        }
    }
    assert(lines_from(text@, start as int) =~= Seq::<Seq<char>>::empty());
    lines
}

/// Where the word that begins at `from` ends: at the next white space, or at the
/// end of the text.
pub open spec fn word_end(s: Seq<char>, from: int) -> int
    decreases s.len() - from,
{
    if from < 0 || from >= s.len() || is_whitespace(s[from]) {
        from
    } else {
        word_end(s, from + 1)
    }
}

/// A word ends at or after its beginning, and after it where it begins with a
/// character that is no white space.
pub proof fn lemma_word_end(s: Seq<char>, from: int)
    requires
        0 <= from <= s.len(),
    ensures
        from <= word_end(s, from) <= s.len(),
        from < s.len() && !is_whitespace(s[from]) ==> from < word_end(s, from),
    decreases s.len() - from,
{
    if from < s.len() && !is_whitespace(s[from]) {
        lemma_word_end(s, from + 1);
    }
}

/// The words of `s` from `from` on.
pub open spec fn words_from(s: Seq<char>, from: int) -> Seq<Seq<char>>
    decreases s.len() - from,
{
    if from < 0 || from >= s.len() {
        Seq::empty()
    } else if is_whitespace(s[from]) {
        words_from(s, from + 1)
    } else {
        proof {
            lemma_word_end(s, from);
        }
        seq![s.subrange(from, word_end(s, from))] + words_from(s, word_end(s, from))
    }
}

/// The words of a line: its maximal runs of characters that are no white space.
pub open spec fn words_of(s: Seq<char>) -> Seq<Seq<char>> {
    words_from(s, 0)
}

/// Splits a line into its words.
pub fn split_whitespace(s: &Vec<char>) -> (words: Vec<Vec<char>>)
    ensures
        words.deep_view() == words_of(s@),
{
    let mut words: Vec<Vec<char>> = Vec::new();
    let mut start: usize = 0;
    assert(words.deep_view() + words_from(s@, 0) =~= words_of(s@));
    while start < s.len()
        invariant
            start <= s.len(),
            words.deep_view() + words_from(s@, start as int) == words_of(s@),
        decreases s.len() - start,
    {
        if char_is_whitespace(s[start]) {
            start += 1;
        } else {
            let mut end: usize = start;
            while end < s.len() && !char_is_whitespace(s[end])
                invariant
                    start <= end <= s.len(),
                    word_end(s@, start as int) == word_end(s@, end as int),
                decreases s.len() - end,
            {
                end += 1;
            }
            let ghost before = words.deep_view();
            let word = copy_range(s, start, end);
            assert(word.deep_view() =~= word@);
            words.push(word);
            assert(words.deep_view() =~= before + seq![s@.subrange(start as int, end as int)]);
            proof {
                lemma_word_end(s@, start as int);
            }
            start = end;
        }
    }
    assert(words_from(s@, start as int) =~= Seq::<Seq<char>>::empty());
    words
}

/// The small letter for a capital letter of A to Z; any other character itself.
pub open spec fn lower_char(c: char) -> char {
    if 0x41 <= c as u32 <= 0x5A {
        ((c as u32 + 0x20) as u8) as char
    } else {
        c
    }
}

/// The text with its capital letters of A to Z made small.
pub open spec fn lowercased(s: Seq<char>) -> Seq<char> {
    Seq::new(s.len(), |i: int| lower_char(s[i]))
}

/// Makes the capital letters of A to Z small.
pub fn to_lowercase(s: &str) -> (lower: String)
    ensures
        lower@ == lowercased(s@),
{
    let chars = to_chars(s);
    let mut out: Vec<char> = Vec::new();
    let mut i: usize = 0;
    while i < chars.len()
        invariant
            i <= chars.len(),
            out@.len() == i,
            forall|j: int| 0 <= j < i ==> out@[j] == lower_char(chars@[j]),
        decreases chars.len() - i,
    {
        let c = chars[i];
        let u: u32 = c as u32;
        if 0x41 <= u && u <= 0x5A {
            out.push(((u + 0x20) as u8) as char);
        } else {
            out.push(c);
        }
        i += 1;
    }
    assert(out@ =~= lowercased(chars@));
    string_of(out.as_slice())
}

} // verus!
