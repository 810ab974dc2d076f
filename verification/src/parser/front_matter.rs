//! Reading the front matter: `key: value` lines between two `---` fences
//! at the head of a script.

use vstd::prelude::*;
use vstd::slice::slice_subrange;
use vstd::string::StringExecFns;

use crate::parser::lexer::{ParseError, ParseErrorView};
use crate::parser::types::{FrontMatter, FrontMatterView};
use crate::text::{
    chars_of, find_char, parse_u64, parse_unsigned, push_chars, same_text, string_of, trim,
    trimmed,
};

verus! {

/// Whether `line` is a fence: three dashes and nothing else but whitespace around them.
pub open spec fn is_fence(line: Seq<char>) -> bool {
    trim(line) == "---"@
}

/// Whether line `i` is the fence that closes the front matter: the first
/// fence after the opening one.
pub open spec fn is_closing(lines: Seq<Seq<char>>, i: int) -> bool {
    &&& 1 <= i < lines.len()
    &&& is_fence(lines[i])
    &&& forall|j: int| 1 <= j < i ==> !is_fence(#[trigger] lines[j])
}

/// Whether some fence closes the front matter.
pub open spec fn has_closing(lines: Seq<Seq<char>>) -> bool {
    exists|i: int| is_closing(lines, i)
}

/// The index of the fence that closes the front matter.
pub open spec fn closing_index(lines: Seq<Seq<char>>) -> int
    recommends
        has_closing(lines),
{
    choose|i: int| is_closing(lines, i)
}

/// The message of the error for a value that is no number.
pub open spec fn invalid_value(key: Seq<char>, value: Seq<char>) -> Seq<char> {
    "Invalid "@ + key + " value: '"@ + value + "'"@
}

/// The key and the value of a front matter line that is not blank: what
/// stands before a `#` is split at its first colon, and both sides are
/// trimmed. `None` where there is no colon.
pub open spec fn key_value(line: Seq<char>) -> Option<(Seq<char>, Seq<char>)> {
    let content = trim(line);
    let setting = match content.index_of_first('#') {
        Some(hash) => trim(content.take(hash)),
        None => content,
    };
    match setting.index_of_first(':') {
        Some(colon) => Some((trim(setting.take(colon)), trim(setting.skip(colon + 1)))),
        None => None,
    }
}

/// The front matter after one more line. A blank line changes nothing, a
/// known key sets its field, an unknown key is passed over. A line without
/// a colon and a number that cannot be read are errors.
pub open spec fn apply_line(fm: FrontMatterView, line: Seq<char>, line_number: usize) -> Result<
    FrontMatterView,
    ParseErrorView,
> {
    if trim(line).len() == 0 {
        Ok(fm)
    } else {
        match key_value(line) {
            None => Err(
                ParseErrorView {
                    line_number,
                    line_content: line,
                    message: "Expected 'key: value' format in front matter"@,
                },
            ),
            Some((key, value)) => {
                if key == "title"@ {
                    Ok(FrontMatterView { title: Some(value), ..fm })
                } else if key == "typing_speed"@ {
                    match parse_unsigned(value, u64::MAX as nat) {
                        Some(n) => Ok(FrontMatterView { typing_speed: n as u64, ..fm }),
                        None => Err(
                            ParseErrorView {
                                line_number,
                                line_content: line,
                                message: invalid_value("typing_speed"@, value),
                            },
                        ),
                    }
                } else if key == "typing_variance"@ {
                    match parse_unsigned(value, u64::MAX as nat) {
                        Some(n) => Ok(FrontMatterView { typing_variance: n as u64, ..fm }),
                        None => Err(
                            ParseErrorView {
                                line_number,
                                line_content: line,
                                message: invalid_value("typing_variance"@, value),
                            },
                        ),
                    }
                } else if key == "agent_port"@ {
                    match parse_unsigned(value, u16::MAX as nat) {
                        Some(n) => Ok(FrontMatterView { agent_port: n as u16, ..fm }),
                        None => Err(
                            ParseErrorView {
                                line_number,
                                line_content: line,
                                message: invalid_value("agent_port"@, value),
                            },
                        ),
                    }
                } else {
                    Ok(fm)
                }
            },
        }
    }
}

/// The front matter after the lines from the second up to, and without,
/// line `end`, starting from the defaults. Line `i`, counted from zero, has
/// the line number `i + 1`. The first error ends the reading.
pub open spec fn settings_before(lines: Seq<Seq<char>>, end: int) -> Result<
    FrontMatterView,
    ParseErrorView,
>
    decreases end,
{
    if end <= 1 {
        Ok(FrontMatterView::defaults())
    } else {
        match settings_before(lines, end - 1) {
            Ok(fm) => apply_line(fm, lines[end - 1], end as usize),
            Err(e) => Err(e),
        }
    }
}

/// The front matter of a script given by its lines, and the index of the
/// first line after it.
///
/// Without an opening fence as the first line there is no front matter: the
/// defaults hold and the content starts at line 0. An opening fence that
/// no later fence closes is an error at line 1. Otherwise the lines
/// between the two fences are read in order, and the content starts after
/// the closing fence.
pub open spec fn front_matter_of(lines: Seq<Seq<char>>) -> Result<
    (FrontMatterView, int),
    ParseErrorView,
> {
    if lines.len() == 0 || !is_fence(lines[0]) {
        Ok((FrontMatterView::defaults(), 0))
    } else if !has_closing(lines) {
        Err(
            ParseErrorView {
                line_number: 1,
                line_content: "---"@,
                message: "Front matter opened but never closed with '---'"@,
            },
        )
    } else {
        match settings_before(lines, closing_index(lines)) {
            Ok(fm) => Ok((fm, closing_index(lines) + 1)),
            Err(e) => Err(e),
        }
    }
}

/// An error at `line_number` for a value of `key` that is no number.
fn error_invalid_value(line_number: usize, line: &[char], key: &str, value: &[char]) -> (e:
    ParseError)
    ensures
        e@ == (ParseErrorView {
            line_number,
            line_content: line@,
            message: invalid_value(key@, value@),
        }),
{
    let mut message = String::from_str("Invalid ");
    message.append(key);
    message.append(" value: '");
    push_chars(&mut message, value);
    message.append("'");
    ParseError { line_number, line_content: string_of(line), message }
}

/// Splits a front matter line that is not blank into key and value.
fn split_key_value(line: &[char]) -> (parts: Option<(&[char], &[char])>)
    ensures
        match parts {
            Some((key, value)) => key_value(line@) == Some((key@, value@)),
            None => key_value(line@) is None,
        },
{
    let content = trimmed(line);
    let setting = match find_char(content, '#') {
        Some(hash) => trimmed(slice_subrange(content, 0, hash)),
        None => content,
    };
    match find_char(setting, ':') {
        Some(colon) => {
            let len = setting.len();
            Some(
                (
                    trimmed(slice_subrange(setting, 0, colon)),
                    trimmed(slice_subrange(setting, colon + 1, len)),
                ),
            )
        },
        None => None,
    }
}

/// Takes one line between the fences into `fm`.
fn read_setting(fm: FrontMatter, line: &str, line_number: usize) -> (updated: Result<
    FrontMatter,
    ParseError,
>)
    ensures
        match updated {
            Ok(next) => apply_line(fm@, line@, line_number) == Ok::<
                FrontMatterView,
                ParseErrorView,
            >(next@),
            Err(e) => apply_line(fm@, line@, line_number) == Err::<
                FrontMatterView,
                ParseErrorView,
            >(e@),
        },
{
    let chars = chars_of(line);
    let chars = chars.as_slice();
    if trimmed(chars).len() == 0 {
        return Ok(fm);
    }
    let (key, value) = match split_key_value(chars) {
        Some(parts) => parts,
        None => {
            return Err(
                ParseError {
                    line_number,
                    line_content: string_of(chars),
                    message: String::from_str("Expected 'key: value' format in front matter"),
                },
            );
        },
    };
    let mut fm = fm;
    if same_text(key, "title") {
        fm.title = Some(string_of(value));
    } else if same_text(key, "typing_speed") {
        match parse_u64(value) {
            Some(n) => {
                fm.typing_speed = n;
            },
            None => {
                return Err(error_invalid_value(line_number, chars, "typing_speed", value));
            },
        }
    } else if same_text(key, "typing_variance") {
        match parse_u64(value) {
            Some(n) => {
                fm.typing_variance = n;
            },
            None => {
                return Err(error_invalid_value(line_number, chars, "typing_variance", value));
            },
        }
    } else if same_text(key, "agent_port") {
        match parse_u64(value) {
            Some(n) if n <= 0xffff => {
                fm.agent_port = n as u16;
            },
            _ => {
                return Err(error_invalid_value(line_number, chars, "agent_port", value));
            },
        }
    }
    Ok(fm)
}

/// Whether `line` is a fence.
fn line_is_fence(line: &str) -> (yes: bool)
    ensures
        yes == is_fence(line@),
{
    let chars = chars_of(line);
    same_text(trimmed(chars.as_slice()), "---")
}

/// Reads the front matter at the head of `lines`.
///
/// Returns the configuration and the index of the first line of content.
/// Keys that are absent keep their defaults; unknown keys are ignored.
pub fn extract_front_matter(lines: &[&str]) -> (extracted: Result<(FrontMatter, usize), ParseError>)
    ensures
        match extracted {
            Ok((fm, start)) => front_matter_of(lines.deep_view()) == Ok::<
                (FrontMatterView, int),
                ParseErrorView,
            >((fm@, start as int)) && start <= lines.len(),
            Err(e) => front_matter_of(lines.deep_view()) == Err::<
                (FrontMatterView, int),
                ParseErrorView,
            >(e@),
        },
{
    let ghost texts = lines.deep_view();
    if lines.len() == 0 || !line_is_fence(lines[0]) {
        return Ok((FrontMatter::default(), 0));
    }
    let mut closing: usize = 1;
    while closing < lines.len() && !line_is_fence(lines[closing])
        invariant
            1 <= closing <= lines.len(),
            texts == lines.deep_view(),
            forall|j: int| 1 <= j < closing ==> !is_fence(#[trigger] texts[j]),
        decreases lines.len() - closing,
    {
        closing += 1;
    }
    if closing >= lines.len() {
        assert(!has_closing(texts)) by {
            if has_closing(texts) {
                let i = closing_index(texts);
                assert(is_closing(texts, i));
                assert(!is_fence(texts[i]));
            }
        }
        return Err(
            ParseError {
                line_number: 1,
                line_content: String::from_str("---"),
                message: String::from_str("Front matter opened but never closed with '---'"),
            },
        );
    }
    proof {
        assert(is_closing(texts, closing as int));
        let i = closing_index(texts);
        assert(is_closing(texts, i));
        if i < closing {
            assert(!is_fence(texts[i]));
        }
        if closing < i {
            assert(!is_fence(texts[closing as int]));
        }
        assert(i == closing);
    }
    let mut fm = FrontMatter::default();
    let mut i: usize = 1;
    while i < closing
        invariant
            1 <= i <= closing < lines.len(),
            texts == lines.deep_view(),
            is_fence(texts[0]),
            has_closing(texts),
            closing == closing_index(texts),
            settings_before(texts, i as int) == Ok::<FrontMatterView, ParseErrorView>(fm@),
        decreases closing - i,
    {
        assert(texts[i as int] == lines@[i as int]@);
        match read_setting(fm, lines[i], i + 1) {
            Ok(next) => {
                fm = next;
            },
            Err(e) => {
                proof {
                    lemma_settings_error_stays(texts, i + 1, closing as int);
                }
                return Err(e);
            },
        }
        i += 1;
    }
    Ok((fm, closing + 1))
}

/// Once a line has failed, reading further lines yields the same error.
pub proof fn lemma_settings_error_stays(lines: Seq<Seq<char>>, failed: int, end: int)
    requires
        failed <= end,
        settings_before(lines, failed) is Err,
    ensures
        settings_before(lines, end) == settings_before(lines, failed),
    decreases end - failed,
{
    if failed < end {
        lemma_settings_error_stays(lines, failed, end - 1);
    }
}

} // verus!
