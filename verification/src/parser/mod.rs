//! Reading a whole script: its front matter, then its directives line by line.

pub mod front_matter;
pub mod lexer;
pub mod types;

use vstd::prelude::*;
use vstd::slice::slice_subrange;

use crate::parser::front_matter::{extract_front_matter, front_matter_of};
use crate::parser::lexer::{parse_line, parsed_line, ParseError, ParseErrorView};
use crate::parser::types::{ParsedLine, ParsedLineView, Script, ScriptView};
use crate::text::{chars_of, split, split_at_char, string_of};

verus! {

/// `line` without the carriage return that it may end with.
pub open spec fn without_cr(line: Seq<char>) -> Seq<char> {
    if line.len() > 0 && line.last() == '\r' {
        line.drop_last()
    } else {
        line
    }
}

/// The lines of a text. A line ends with a line feed, or with a carriage
/// return and a line feed; neither belongs to the line. What follows the
/// last line feed is a line too, as it stands, unless it is empty.
pub open spec fn lines_of(input: Seq<char>) -> Seq<Seq<char>> {
    let parts = split(input, '\n');
    let ended = Seq::new((parts.len() - 1) as nat, |i: int| without_cr(parts[i]));
    if parts.last().len() == 0 {
        ended
    } else {
        ended.push(parts.last())
    }
}

/// The directives of the lines from `start` up to, and without, `end`.
/// Line `i`, counted from zero, has the line number `i + 1`. Blank lines
/// and comments give nothing; the first line in error ends the reading.
pub open spec fn content_before(lines: Seq<Seq<char>>, start: int, end: int) -> Result<
    Seq<ParsedLineView>,
    ParseErrorView,
>
    decreases end - start,
{
    if end <= start {
        Ok(Seq::empty())
    } else {
        match content_before(lines, start, end - 1) {
            Err(e) => Err(e),
            Ok(parsed) => match parsed_line(lines[end - 1], end as usize) {
                Err(e) => Err(e),
                Ok(None) => Ok(parsed),
                Ok(Some(p)) => Ok(parsed.push(p)),
            },
        }
    }
}

/// The script that a text stands for: the front matter at its head, then
/// the directives of the lines after it.
pub open spec fn script_of(input: Seq<char>) -> Result<ScriptView, ParseErrorView> {
    let lines = lines_of(input);
    match front_matter_of(lines) {
        Err(e) => Err(e),
        Ok((front_matter, start)) => match content_before(lines, start, lines.len() as int) {
            Err(e) => Err(e),
            Ok(parsed) => Ok(ScriptView { front_matter, lines: parsed }),
        },
    }
}

/// Once a line is in error, reading further lines yields the same error.
pub proof fn lemma_content_error_stays(lines: Seq<Seq<char>>, start: int, failed: int, end: int)
    requires
        failed <= end,
        content_before(lines, start, failed) is Err,
    ensures
        content_before(lines, start, end) == content_before(lines, start, failed),
    decreases end - failed,
{
    if failed < end {
        lemma_content_error_stays(lines, start, failed, end - 1);
    }
}

/// Splits a text into its lines.
pub fn split_lines(input: &str) -> (lines: Vec<String>)
    ensures
        lines.deep_view() == lines_of(input@),
{
    let chars = chars_of(input);
    let parts = split_at_char(chars.as_slice(), '\n');
    let ghost texts = parts.deep_view();
    let mut lines: Vec<String> = Vec::new();
    let mut i: usize = 0;
    while i + 1 < parts.len()
        invariant
            i + 1 <= parts.len(),
            texts == parts.deep_view(),
            lines.len() == i,
            forall|j: int| 0 <= j < i ==> (#[trigger] lines@[j])@ == without_cr(texts[j]),
        decreases parts.len() - i,
    {
        let part = parts[i].as_slice();
        assert(part@ =~= texts[i as int]);
        let n = part.len();
        let line = if n > 0 && part[n - 1] == '\r' {
            slice_subrange(part, 0, n - 1)
        } else {
            part
        };
        assert(line@ =~= without_cr(texts[i as int]));
        lines.push(string_of(line));
        i += 1;
    }
    let last = parts[i].as_slice();
    assert(last@ =~= texts.last());
    if last.len() > 0 {
        lines.push(string_of(last));
    }
    assert(lines.deep_view() =~= lines_of(input@));
    lines
}

/// Parses a script.
///
/// The front matter, where the text begins with one, gives the
/// configuration; each line after it gives a directive or, for blank lines
/// and comments, nothing. Lines are numbered from 1 across the whole text.
/// The first line in error, of the front matter or of the content, fails
/// the parse with that error.
pub fn parse_script(input: &str) -> (script: Result<Script, ParseError>)
    ensures
        match script {
            Ok(s) => script_of(input@) == Ok::<ScriptView, ParseErrorView>(s@),
            Err(e) => script_of(input@) == Err::<ScriptView, ParseErrorView>(e@),
        },
{
    let owned = split_lines(input);
    let ghost texts = lines_of(input@);
    let mut lines: Vec<&str> = Vec::new();
    let mut k: usize = 0;
    while k < owned.len()
        invariant
            k <= owned.len(),
            lines.len() == k,
            forall|j: int| 0 <= j < k ==> (#[trigger] lines@[j])@ == owned@[j]@,
        decreases owned.len() - k,
    {
        lines.push(owned[k].as_str());
        k += 1;
    }
    assert(lines.deep_view() =~= texts);
    let line_refs = lines.as_slice();
    assert(line_refs.deep_view() =~= texts);
    let (front_matter, content_start) = match extract_front_matter(line_refs) {
        Ok(found) => found,
        Err(e) => {
            return Err(e);
        },
    };
    let mut parsed_lines: Vec<ParsedLine> = Vec::new();
    let mut i: usize = content_start;
    assert(parsed_lines.deep_view() =~= Seq::<ParsedLineView>::empty());
    while i < lines.len()
        invariant
            content_start <= i <= lines.len(),
            texts == lines.deep_view(),
            texts == lines_of(input@),
            front_matter_of(texts) == Ok::<_, ParseErrorView>(
                (front_matter@, content_start as int),
            ),
            content_before(texts, content_start as int, i as int) == Ok::<
                Seq<ParsedLineView>,
                ParseErrorView,
            >(parsed_lines.deep_view()),
        decreases lines.len() - i,
    {
        assert(texts[i as int] == lines@[i as int]@);
        let ghost before = parsed_lines.deep_view();
        match parse_line(lines[i], i + 1) {
            Ok(Some(parsed)) => {
                parsed_lines.push(parsed);
                assert(parsed_lines.deep_view() =~= before.push(parsed@));
            },
            Ok(None) => {},
            Err(e) => {
                proof {
                    lemma_content_error_stays(
                        texts,
                        content_start as int,
                        i + 1,
                        lines.len() as int,
                    );
                }
                return Err(e);
            },
        }
        i += 1;
    }
    Ok(Script { front_matter, lines: parsed_lines })
}

} // verus!
