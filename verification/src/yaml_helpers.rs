//! Turns the serialized-object dialect of Unity into plain structured text.
//!
//! The dialect marks each object with a line such as `--- !u!21 &2100000`, names
//! its type on a line of its own, and indents its fields. The plain text keys
//! each object by its number and carries the type as the field `object_type`.

use vstd::prelude::*;
use vstd::string::*;
use crate::decimal::{decimal, format_i64, parse_i64, parsed_i64};
use crate::text::{
    char_is_whitespace,
    has_prefix,
    is_whitespace,
    lines_of,
    split_lines,
    split_whitespace,
    starts_with,
    string_of,
    to_chars,
    words_of,
};

verus! {

/// What becomes of one line.
pub enum Rewritten {
    /// The line is a header of the dialect and leaves no trace.
    Dropped,
    Kept(Seq<char>),
    /// The line marks an object without saying its number.
    Invalid,
}

/// A word that refers to an object: `&` and what follows.
pub open spec fn is_reference(word: Seq<char>) -> bool {
    word.len() > 0 && word[0] == '&'
}

/// Where the first reference among `words` stands.
pub open spec fn first_reference(words: Seq<Seq<char>>) -> Option<int> {
    if exists|i: int| 0 <= i < words.len() && is_reference(#[trigger] words[i]) {
        Some(
            choose|i: int|
                0 <= i < words.len() && is_reference(#[trigger] words[i]) && forall|j: int|
                    0 <= j < i ==> !is_reference(#[trigger] words[j]),
        )
    } else {
        None
    }
}

/// The number of the object that a marker line announces: what the first word
/// beginning with `&` says after that sign, read as a signed 64-bit integer.
pub open spec fn object_id(line: Seq<char>) -> Option<int> {
    match first_reference(words_of(line)) {
        Some(i) => parsed_i64(words_of(line)[i].skip(1)),
        None => None,
    }
}

/// The line without its colons.
pub open spec fn without_colons(line: Seq<char>) -> Seq<char> {
    line.filter(|c: char| c != ':')
}

/// The rule for one line. Headers (`%YAML`, `%TAG`) are dropped. A marker line
/// (`--- !u!`) becomes the number of its object and a colon. A line that begins
/// with white space stays as it is. Any other line names a type and becomes the
/// field `object_type`, the name stripped of colons.
pub open spec fn rewritten(line: Seq<char>) -> Rewritten {
    if has_prefix(line, "%YAML"@) || has_prefix(line, "%TAG"@) {
        Rewritten::Dropped
    } else if has_prefix(line, "--- !u!"@) {
        match object_id(line) {
            Some(id) => Rewritten::Kept(decimal(id) + ":"@),
            None => Rewritten::Invalid,
        }
    } else if line.len() > 0 && is_whitespace(line[0]) {
        Rewritten::Kept(line)
    } else {
        Rewritten::Kept("  object_type: "@ + without_colons(line))
    }
}

/// The lines that remain of `lines`, in order. `Err` holds the index of the first
/// line that is invalid.
pub open spec fn rewritten_lines(lines: Seq<Seq<char>>) -> Result<Seq<Seq<char>>, int>
    decreases lines.len(),
{
    if lines.len() == 0 {
        Ok(Seq::empty())
    } else {
        match rewritten_lines(lines.drop_last()) {
            Err(at) => Err(at),
            Ok(kept) => match rewritten(lines.last()) {
                Rewritten::Dropped => Ok(kept),
                Rewritten::Kept(line) => Ok(kept.push(line)),
                Rewritten::Invalid => Err(lines.len() - 1),
            },
        }
    }
}

/// The lines, with a line feed between each two.
pub open spec fn joined(lines: Seq<Seq<char>>) -> Seq<char>
    decreases lines.len(),
{
    if lines.len() == 0 {
        Seq::empty()
    } else if lines.len() == 1 {
        lines[0]
    } else {
        joined(lines.drop_last()) + seq!['\n'] + lines.last()
    }
}

/// The plain text for `text`: its lines rewritten one by one, joined by line
/// feeds, and ended by one. `Err` holds the index of the first invalid line.
pub open spec fn normalized(text: Seq<char>) -> Result<Seq<char>, int> {
    match rewritten_lines(lines_of(text)) {
        Ok(lines) => Ok(joined(lines) + seq!['\n']),
        Err(at) => Err(at),
    }
}

/// A marker line does not say which object it announces.
#[derive(Debug, Clone, Copy, PartialEq, Eq)]
pub struct NormalizeError {
    /// The index of the line, counted from zero.
    pub line: usize,
}

/// What became of a line.
pub enum LineOutcome {
    Dropped,
    Kept(Vec<char>),
    Invalid,
}

impl View for LineOutcome {
    type V = Rewritten;

    open spec fn view(&self) -> Rewritten {
        match self {
            LineOutcome::Dropped => Rewritten::Dropped,
            LineOutcome::Kept(line) => Rewritten::Kept(line@),
            LineOutcome::Invalid => Rewritten::Invalid,
        }
    }
}

/// Removes the colons of a line.
pub fn strip_colons(line: &Vec<char>) -> (stripped: Vec<char>)
    ensures
        stripped@ == without_colons(line@),
{
    let mut stripped: Vec<char> = Vec::new();
    let ghost keep = |c: char| c != ':';
    let mut i: usize = 0;
    while i < line.len()
        invariant
            i <= line.len(),
            keep == |c: char| c != ':',
            stripped@ == line@.take(i as int).filter(keep),
        decreases line.len() - i,
    {
        proof {
            assert(line@.take(i + 1).drop_last() == line@.take(i as int));
            assert(line@.take(i + 1).last() == line@[i as int]);
            reveal(Seq::filter);
        }
        if line[i] != ':' {
            stripped.push(line[i]);
        }
        i += 1;
    }
    assert(line@.take(i as int) == line@);
    stripped
}

/// Reads the number of the object off a marker line.
pub fn read_object_id(line: &Vec<char>) -> (id: Option<i64>)
    ensures
        match id {
            Some(n) => object_id(line@) == Some(n as int),
            None => object_id(line@) is None,
        },
{
    let words = split_whitespace(line);
    let ghost all = words.deep_view();
    let mut i: usize = 0;
    while i < words.len()
        invariant
            i <= words.len(),
            all == words.deep_view(),
            all == words_of(line@),
            forall|j: int| 0 <= j < i ==> !is_reference(#[trigger] all[j]),
        decreases words.len() - i,
    {
        let word = &words[i];
        assert(word.deep_view() =~= word@);
        assert(all[i as int] == word@);
        if word.len() > 0 && word[0] == '&' {
            assert(is_reference(all[i as int]));
            assert(first_reference(all) == Some(i as int));
            let mut number: Vec<char> = Vec::new();
            let mut k: usize = 1;
            while k < word.len()
                invariant
                    1 <= k <= word.len(),
                    number@ == word@.subrange(1, k as int),
                decreases word.len() - k,
            {
                number.push(word[k]);
                assert(number@ =~= word@.subrange(1, k + 1));
                k += 1;
            }
            assert(number@ =~= word@.skip(1));
            return parse_i64(&number);
        }
        i += 1;
    }
    None
}

/// Applies the rule of [`rewritten`] to one line.
pub fn rewrite_line(line: &Vec<char>) -> (outcome: LineOutcome)
    ensures
        outcome@ == rewritten(line@),
{
    let yaml = to_chars("%YAML");
    let tag = to_chars("%TAG");
    let marker = to_chars("--- !u!");
    if starts_with(line, &yaml) || starts_with(line, &tag) {
        LineOutcome::Dropped
    } else if starts_with(line, &marker) {
        match read_object_id(line) {
            Some(id) => {
                let mut key = format_i64(id);
                let colon = to_chars(":");
                append(&mut key, &colon);
                LineOutcome::Kept(key)
            },
            None => LineOutcome::Invalid,
        }
    } else if line.len() > 0 && char_is_whitespace(line[0]) {
        let mut same: Vec<char> = Vec::new();
        append(&mut same, line);
        assert(same@ =~= line@);
        LineOutcome::Kept(same)
    } else {
        let mut field = to_chars("  object_type: ");
        let name = strip_colons(line);
        append(&mut field, &name);
        LineOutcome::Kept(field)
    }
}

/// Appends `tail` to `text`.
pub fn append(text: &mut Vec<char>, tail: &Vec<char>)
    ensures
        final(text)@ == old(text)@ + tail@,
{
    let mut i: usize = 0;
    while i < tail.len()
        invariant
            i <= tail.len(),
            text@ == old(text)@ + tail@.take(i as int),
        decreases tail.len() - i,
    {
        text.push(tail[i]);
        assert(text@ =~= old(text)@ + tail@.take(i + 1));
        i += 1;
    }
    assert(tail@.take(i as int) == tail@);
}

/// Rewrites the text of a serialized-object file, given as characters.
pub fn normalize(text: &Vec<char>) -> (plain: Result<Vec<char>, NormalizeError>)
    ensures
        match plain {
            Ok(chars) => normalized(text@) == Ok::<Seq<char>, int>(chars@),
            Err(e) => normalized(text@) == Err::<Seq<char>, int>(e.line as int),
        },
{
    let lines = split_lines(text);
    let ghost all = lines.deep_view();
    let mut out: Vec<char> = Vec::new();
    let ghost mut kept: Seq<Seq<char>> = Seq::empty();
    let mut any = false;
    let mut i: usize = 0;
    while i < lines.len()
        invariant
            i <= lines.len(),
            all == lines.deep_view(),
            all == lines_of(text@),
            rewritten_lines(all.take(i as int)) == Ok::<Seq<Seq<char>>, int>(kept),
            any == (kept.len() > 0),
            out@ == joined(kept),
        decreases lines.len() - i,
    {
        let line = &lines[i];
        proof {
            assert(line.deep_view() =~= line@);
            assert(all.take(i + 1).drop_last() == all.take(i as int));
            assert(all.take(i + 1).last() == line@);
        }
        match rewrite_line(line) {
            LineOutcome::Dropped => {},
            LineOutcome::Kept(new_line) => {
                if any {
                    out.push('\n');
                }
                append(&mut out, &new_line);
                proof {
                    let longer = kept.push(new_line@);
                    assert(longer.drop_last() == kept);
                    assert(longer.last() == new_line@);
                    kept = longer;
                }
                any = true;
            },
            LineOutcome::Invalid => {
                proof {
                    lemma_rewritten_stays_failed(all, i + 1);
                }
                return Err(NormalizeError { line: i });
            },
        }
        i += 1;
    }
    assert(all.take(i as int) == all);
    out.push('\n');
    assert(out@ =~= joined(kept) + seq!['\n']);
    Ok(out)
}

/// Once the first `n` lines hold an invalid one, so does the whole.
proof fn lemma_rewritten_stays_failed(lines: Seq<Seq<char>>, n: int)
    requires
        0 <= n <= lines.len(),
        rewritten_lines(lines.take(n)) is Err,
    ensures
        rewritten_lines(lines) == rewritten_lines(lines.take(n)),
    decreases lines.len() - n,
{
    if n == lines.len() {
        assert(lines.take(n) == lines);
    } else {
        assert(lines.take(n + 1).drop_last() == lines.take(n));
        lemma_rewritten_stays_failed(lines, n + 1);
    }
}

/// Rewrites the text of a serialized-object file into plain structured text, as
/// [`normalized`] describes. The text is refused when a marker line does not say
/// its object's number.
pub fn cleanup_unity_yaml(yaml: &str) -> (plain: Result<String, NormalizeError>)
    ensures
        match plain {
            Ok(text) => normalized(yaml@) == Ok::<Seq<char>, int>(text@),
            Err(e) => normalized(yaml@) == Err::<Seq<char>, int>(e.line as int),
        },
{
    let chars = to_chars(yaml);
    match normalize(&chars) {
        Ok(plain) => Ok(string_of(plain.as_slice())),
        Err(e) => Err(e),
    }
}

} // verus!
