//! Reading one line of a script.
//!
//! A line is blank, a comment (`# ...`), a section header
//! (`## Section: name`) or a directive in brackets. The argument of a
//! directive stands inside the brackets after the tag (`[WAIT 2]`) or after
//! the closing bracket (`[SAY] hello`); where both are there, what follows
//! the bracket counts.

use vstd::prelude::*;
use vstd::slice::slice_subrange;
use vstd::string::StringExecFns;

use crate::parser::types::{Directive, DirectiveView, ParsedLine, ParsedLineView, SlideAction};
use crate::text::{
    chars_of, decimal, find_char, has_prefix, lowercase_of, parse_u64, parse_unsigned, push_chars,
    push_decimal, same_text, string_of, to_lowercase, to_uppercase, trim, trimmed, uppercase_of,
};

verus! {

/// Why a script was not parsed, and where.
#[derive(Debug)]
pub struct ParseError {
    pub line_number: usize,
    pub line_content: String,
    pub message: String,
}

/// The value of a [`ParseError`].
pub struct ParseErrorView {
    pub line_number: usize,
    pub line_content: Seq<char>,
    pub message: Seq<char>,
}

impl View for ParseError {
    type V = ParseErrorView;

    open spec fn view(&self) -> ParseErrorView {
        ParseErrorView {
            line_number: self.line_number,
            line_content: self.line_content@,
            message: self.message@,
        }
    }
}

impl DeepView for ParseError {
    type V = ParseErrorView;

    open spec fn deep_view(&self) -> ParseErrorView {
        self.view()
    }
}

impl ParseErrorView {
    /// The error as one text: where, why, and the line itself.
    pub open spec fn text(self) -> Seq<char> {
        "Parse error at line "@ + decimal(self.line_number as nat) + ": "@ + self.message
            + "\n  | "@ + self.line_content
    }
}

impl ParseError {
    /// The error as one text: where, why, and the line itself.
    pub fn to_string(&self) -> (text: String)
        ensures
            text@ == self@.text(),
    {
        let mut text = String::from_str("Parse error at line ");
        push_decimal(&mut text, self.line_number as u64);
        text.append(": ");
        text.append(self.message.as_str());
        text.append("\n  | ");
        text.append(self.line_content.as_str());
        text
    }
}

/// The text that opens a section header.
pub open spec fn section_prefix() -> Seq<char> {
    "## Section:"@
}

/// A message made of three texts in a row: what stands before the text that
/// is quoted, that text as it was written, and what stands after it.
pub open spec fn quoting(message: Seq<char>, arg: Seq<char>, tail: Seq<char>) -> Seq<char> {
    message + arg + tail
}

/// The directive that a tag and an argument stand for.
///
/// `tag_upper` is the tag in upper case and decides the kind of directive;
/// `arg_lower` is the argument in lower case and is what a `SLIDE` is read
/// from. `tag` and `arg` as written go into the directive and into error
/// messages, `line` and `line_number` into errors only.
pub open spec fn directive_of(
    tag: Seq<char>,
    tag_upper: Seq<char>,
    arg: Seq<char>,
    arg_lower: Seq<char>,
    line: Seq<char>,
    line_number: usize,
) -> Result<DirectiveView, ParseErrorView> {
    if tag_upper == "SAY"@ {
        Ok(DirectiveView::Say(arg))
    } else if tag_upper == "TYPE"@ {
        Ok(DirectiveView::Type(arg))
    } else if tag_upper == "RUN"@ {
        Ok(DirectiveView::Run)
    } else if tag_upper == "PAUSE"@ {
        if arg.len() == 0 {
            Ok(DirectiveView::Pause(None))
        } else {
            match parse_unsigned(arg, u64::MAX as nat) {
                Some(secs) => Ok(DirectiveView::Pause(Some(secs as u64))),
                None => Err(
                    ParseErrorView {
                        line_number,
                        line_content: line,
                        message: quoting("Invalid PAUSE duration: '"@, arg, "'"@),
                    },
                ),
            }
        }
    } else if tag_upper == "FOCUS"@ {
        Ok(DirectiveView::Focus(arg))
    } else if tag_upper == "SLIDE"@ {
        if arg_lower == "next"@ {
            Ok(DirectiveView::Slide(SlideAction::Next))
        } else if arg_lower == "prev"@ || arg_lower == "previous"@ {
            Ok(DirectiveView::Slide(SlideAction::Prev))
        } else {
            match parse_unsigned(arg_lower, u32::MAX as nat) {
                Some(n) => Ok(DirectiveView::Slide(SlideAction::GoTo(n as u32))),
                None => Err(
                    ParseErrorView {
                        line_number,
                        line_content: line,
                        message: quoting(
                            "Invalid SLIDE argument: '"@,
                            arg,
                            "' (expected 'next', 'prev', or a number)"@,
                        ),
                    },
                ),
            }
        }
    } else if tag_upper == "KEY"@ {
        Ok(DirectiveView::Key(arg))
    } else if tag_upper == "CLEAR"@ {
        Ok(DirectiveView::Clear)
    } else if tag_upper == "WAIT"@ {
        match parse_unsigned(arg, u64::MAX as nat) {
            Some(secs) => Ok(DirectiveView::Wait(secs as u64)),
            None => Err(
                ParseErrorView {
                    line_number,
                    line_content: line,
                    message: quoting("Invalid WAIT duration: '"@, arg, "'"@),
                },
            ),
        }
    } else if tag_upper == "EXEC"@ {
        Ok(DirectiveView::Exec(arg))
    } else {
        Err(
            ParseErrorView {
                line_number,
                line_content: line,
                message: quoting("Unknown directive: ["@, tag, "]"@),
            },
        )
    }
}

/// The tag and the argument of a line that begins with `[` and has its
/// first `]` at `close`.
pub open spec fn bracket_parts(line: Seq<char>, close: int) -> (Seq<char>, Seq<char>) {
    let inside = line.subrange(1, close);
    let after = trim(line.skip(close + 1));
    let (tag, inline_arg) = match inside.index_of_first(' ') {
        Some(space) => (inside.take(space), trim(inside.skip(space + 1))),
        None => (inside, Seq::empty()),
    };
    (
        tag,
        if after.len() > 0 {
            after
        } else {
            inline_arg
        },
    )
}

/// The directive that a line beginning with `[` stands for.
pub open spec fn bracket_directive(line: Seq<char>, line_number: usize) -> Result<
    DirectiveView,
    ParseErrorView,
> {
    match line.index_of_first(']') {
        None => Err(
            ParseErrorView {
                line_number,
                line_content: line,
                message: "Missing closing bracket ']'"@,
            },
        ),
        Some(close) => {
            let (tag, arg) = bracket_parts(line, close);
            directive_of(tag, uppercase_of(tag), arg, lowercase_of(arg), line, line_number)
        },
    }
}

/// What a line of a script stands for: nothing for a blank line and for a
/// comment, a directive with its line number otherwise.
pub open spec fn parsed_line(line: Seq<char>, line_number: usize) -> Result<
    Option<ParsedLineView>,
    ParseErrorView,
> {
    let content = trim(line);
    if content.len() == 0 {
        Ok(None)
    } else if section_prefix().is_prefix_of(content) {
        Ok(
            Some(
                ParsedLineView {
                    line_number,
                    directive: DirectiveView::Section(
                        trim(content.skip(section_prefix().len() as int)),
                    ),
                },
            ),
        )
    } else if content[0] == '#' {
        Ok(None)
    } else if content[0] == '[' {
        match bracket_directive(content, line_number) {
            Ok(directive) => Ok(Some(ParsedLineView { line_number, directive })),
            Err(e) => Err(e),
        }
    } else {
        Err(
            ParseErrorView {
                line_number,
                line_content: line,
                message: "Unrecognized line format"@,
            },
        )
    }
}

/// An error at `line_number` whose message is `head`, `arg`, `tail`.
fn error_quoting(line_number: usize, line: &[char], head: &str, arg: &[char], tail: &str) -> (e:
    ParseError)
    ensures
        e@ == (ParseErrorView {
            line_number,
            line_content: line@,
            message: quoting(head@, arg@, tail@),
        }),
{
    let mut message = String::from_str(head);
    push_chars(&mut message, arg);
    message.append(tail);
    ParseError { line_number, line_content: string_of(line), message }
}

/// Reads `s` as a `u32`.
fn parse_u32(s: &[char]) -> (value: Option<u32>)
    ensures
        match value {
            Some(v) => parse_unsigned(s@, u32::MAX as nat) == Some(v as nat),
            None => parse_unsigned(s@, u32::MAX as nat) is None,
        },
{
    match parse_u64(s) {
        Some(v) => if v <= 0xffff_ffff {
            Some(v as u32)
        } else {
            None
        },
        None => None,
    }
}

/// Builds the directive that a tag and an argument stand for, given the
/// tag in upper case and the argument in lower case.
pub fn directive_from_parts(
    tag: &[char],
    tag_upper: &str,
    arg: &[char],
    arg_lower: &str,
    line: &[char],
    line_number: usize,
) -> (directive: Result<Directive, ParseError>)
    ensures
        match directive {
            Ok(d) => directive_of(tag@, tag_upper@, arg@, arg_lower@, line@, line_number) == Ok::<
                DirectiveView,
                ParseErrorView,
            >(d@),
            Err(e) => directive_of(tag@, tag_upper@, arg@, arg_lower@, line@, line_number) == Err::<
                DirectiveView,
                ParseErrorView,
            >(e@),
        },
{
    let upper = chars_of(tag_upper);
    let upper = upper.as_slice();
    if same_text(upper, "SAY") {
        Ok(Directive::Say(string_of(arg)))
    } else if same_text(upper, "TYPE") {
        Ok(Directive::Type(string_of(arg)))
    } else if same_text(upper, "RUN") {
        Ok(Directive::Run)
    } else if same_text(upper, "PAUSE") {
        if arg.len() == 0 {
            Ok(Directive::Pause(None))
        } else {
            match parse_u64(arg) {
                Some(secs) => Ok(Directive::Pause(Some(secs))),
                None => Err(
                    error_quoting(line_number, line, "Invalid PAUSE duration: '", arg, "'"),
                ),
            }
        }
    } else if same_text(upper, "FOCUS") {
        Ok(Directive::Focus(string_of(arg)))
    } else if same_text(upper, "SLIDE") {
        let lower = chars_of(arg_lower);
        let lower = lower.as_slice();
        if same_text(lower, "next") {
            Ok(Directive::Slide(SlideAction::Next))
        } else if same_text(lower, "prev") || same_text(lower, "previous") {
            Ok(Directive::Slide(SlideAction::Prev))
        } else {
            match parse_u32(lower) {
                Some(n) => Ok(Directive::Slide(SlideAction::GoTo(n))),
                None => Err(
                    error_quoting(
                        line_number,
                        line,
                        "Invalid SLIDE argument: '",
                        arg,
                        "' (expected 'next', 'prev', or a number)",
                    ),
                ),
            }
        }
    } else if same_text(upper, "KEY") {
        Ok(Directive::Key(string_of(arg)))
    } else if same_text(upper, "CLEAR") {
        Ok(Directive::Clear)
    } else if same_text(upper, "WAIT") {
        match parse_u64(arg) {
            Some(secs) => Ok(Directive::Wait(secs)),
            None => Err(error_quoting(line_number, line, "Invalid WAIT duration: '", arg, "'")),
        }
    } else if same_text(upper, "EXEC") {
        Ok(Directive::Exec(string_of(arg)))
    } else {
        Err(error_quoting(line_number, line, "Unknown directive: [", tag, "]"))
    }
}

/// Reads a line that begins with `[` as a directive.
pub(crate) fn parse_bracket_directive(line: &[char], line_number: usize) -> (directive: Result<
    Directive,
    ParseError,
>)
    requires
        line@.len() > 0,
        line@[0] == '[',
    ensures
        match directive {
            Ok(d) => bracket_directive(line@, line_number) == Ok::<DirectiveView, ParseErrorView>(
                d@,
            ),
            Err(e) => bracket_directive(line@, line_number) == Err::<
                DirectiveView,
                ParseErrorView,
            >(e@),
        },
{
    let close = match find_char(line, ']') {
        Some(close) => close,
        None => {
            return Err(
                ParseError {
                    line_number,
                    line_content: string_of(line),
                    message: String::from_str("Missing closing bracket ']'"),
                },
            );
        },
    };
    let len = line.len();
    let inside = slice_subrange(line, 1, close);
    let after = trimmed(slice_subrange(line, close + 1, len));
    let nothing = slice_subrange(line, 0, 0);
    let (tag, inline_arg) = match find_char(inside, ' ') {
        Some(space) => (
            slice_subrange(inside, 0, space),
            trimmed(slice_subrange(inside, space + 1, close - 1)),
        ),
        None => (inside, nothing),
    };
    let arg = if after.len() > 0 {
        after
    } else {
        inline_arg
    };
    assert(nothing@ =~= Seq::<char>::empty());
    assert((tag@, arg@) == bracket_parts(line@, close as int));
    let tag_upper = to_uppercase(string_of(tag).as_str());
    let arg_lower = to_lowercase(string_of(arg).as_str());
    directive_from_parts(tag, tag_upper.as_str(), arg, arg_lower.as_str(), line, line_number)
}

/// Reads one line of a script.
///
/// Returns `Ok(None)` for a blank line and for a comment, the directive
/// with `line_number` for a section header and for a directive in
/// brackets, and an error for anything else.
pub fn parse_line(line: &str, line_number: usize) -> (parsed: Result<Option<ParsedLine>, ParseError>)
    ensures
        match parsed {
            Ok(Some(p)) => parsed_line(line@, line_number) == Ok::<_, ParseErrorView>(Some(p@)),
            Ok(None) => parsed_line(line@, line_number) == Ok::<
                Option<ParsedLineView>,
                ParseErrorView,
            >(None),
            Err(e) => parsed_line(line@, line_number) == Err::<
                Option<ParsedLineView>,
                ParseErrorView,
            >(e@),
        },
{
    let chars = chars_of(line);
    let content = trimmed(chars.as_slice());
    if content.len() == 0 {
        return Ok(None);
    }
    if has_prefix(content, "## Section:") {
        let prefix_len = chars_of("## Section:").len();
        let name = trimmed(slice_subrange(content, prefix_len, content.len()));
        return Ok(Some(ParsedLine { line_number, directive: Directive::Section(string_of(name)) }));
    }
    if content[0] == '#' {
        return Ok(None);
    }
    if content[0] == '[' {
        return match parse_bracket_directive(content, line_number) {
            Ok(directive) => Ok(Some(ParsedLine { line_number, directive })),
            Err(e) => Err(e),
        };
    }
    Err(
        ParseError {
            line_number,
            line_content: string_of(chars.as_slice()),
            message: String::from_str("Unrecognized line format"),
        },
    )
}

} // verus!
