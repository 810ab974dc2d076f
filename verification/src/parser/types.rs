//! The directives of a script, its configuration, and their mathematical views.

use vstd::prelude::*;
use vstd::string::StringExecFns;

use crate::text::{decimal, push_decimal};

verus! {

/// What a slide directive asks the slide show to do.
#[derive(Debug, PartialEq, Eq, Clone, Copy, Structural)]
pub enum SlideAction {
    Next,
    Prev,
    GoTo(u32),
}

/// One instruction of a script.
#[derive(Debug, PartialEq)]
pub enum Directive {
    Say(String),
    Type(String),
    Run,
    Pause(Option<u64>),
    Focus(String),
    Slide(SlideAction),
    Key(String),
    Clear,
    Wait(u64),
    Exec(String),
    Section(String),
}

/// The value of a [`Directive`], with its text as a sequence of characters.
pub enum DirectiveView {
    Say(Seq<char>),
    Type(Seq<char>),
    Run,
    Pause(Option<u64>),
    Focus(Seq<char>),
    Slide(SlideAction),
    Key(Seq<char>),
    Clear,
    Wait(u64),
    Exec(Seq<char>),
    Section(Seq<char>),
}

impl DirectiveView {
    /// `Say`, `Pause` and `Section` stay with the presenter; every other
    /// directive is carried out by the agent.
    pub open spec fn is_executable(self) -> bool {
        !(self is Say || self is Pause || self is Section)
    }

    /// The directive as it is written in a script.
    pub open spec fn text(self) -> Seq<char> {
        match self {
            DirectiveView::Say(text) => "[SAY] "@ + text,
            DirectiveView::Type(text) => "[TYPE] "@ + text,
            DirectiveView::Run => "[RUN]"@,
            DirectiveView::Pause(None) => "[PAUSE]"@,
            DirectiveView::Pause(Some(secs)) => "[PAUSE "@ + decimal(secs as nat) + "]"@,
            DirectiveView::Focus(app) => "[FOCUS] "@ + app,
            DirectiveView::Slide(SlideAction::Next) => "[SLIDE next]"@,
            DirectiveView::Slide(SlideAction::Prev) => "[SLIDE prev]"@,
            DirectiveView::Slide(SlideAction::GoTo(n)) => "[SLIDE "@ + decimal(n as nat) + "]"@,
            DirectiveView::Key(combo) => "[KEY "@ + combo + "]"@,
            DirectiveView::Clear => "[CLEAR]"@,
            DirectiveView::Wait(secs) => "[WAIT "@ + decimal(secs as nat) + "]"@,
            DirectiveView::Exec(command) => "[EXEC "@ + command + "]"@,
            DirectiveView::Section(name) => "## Section: "@ + name,
        }
    }
}

impl View for Directive {
    type V = DirectiveView;

    open spec fn view(&self) -> DirectiveView {
        match *self {
            Directive::Say(text) => DirectiveView::Say(text@),
            Directive::Type(text) => DirectiveView::Type(text@),
            Directive::Run => DirectiveView::Run,
            Directive::Pause(timeout) => DirectiveView::Pause(timeout),
            Directive::Focus(app) => DirectiveView::Focus(app@),
            Directive::Slide(action) => DirectiveView::Slide(action),
            Directive::Key(combo) => DirectiveView::Key(combo@),
            Directive::Clear => DirectiveView::Clear,
            Directive::Wait(secs) => DirectiveView::Wait(secs),
            Directive::Exec(command) => DirectiveView::Exec(command@),
            Directive::Section(name) => DirectiveView::Section(name@),
        }
    }
}

impl DeepView for Directive {
    type V = DirectiveView;

    open spec fn deep_view(&self) -> DirectiveView {
        self.view()
    }
}

impl Clone for Directive {
    fn clone(&self) -> (copy: Self)
        ensures
            copy@ == self@,
    {
        match self {
            Directive::Say(text) => Directive::Say(text.clone()),
            Directive::Type(text) => Directive::Type(text.clone()),
            Directive::Run => Directive::Run,
            Directive::Pause(timeout) => Directive::Pause(*timeout),
            Directive::Focus(app) => Directive::Focus(app.clone()),
            Directive::Slide(action) => Directive::Slide(*action),
            Directive::Key(combo) => Directive::Key(combo.clone()),
            Directive::Clear => Directive::Clear,
            Directive::Wait(secs) => Directive::Wait(*secs),
            Directive::Exec(command) => Directive::Exec(command.clone()),
            Directive::Section(name) => Directive::Section(name.clone()),
        }
    }
}

impl Directive {
    /// The directive as it is written in a script.
    pub fn to_string(&self) -> (text: String)
        ensures
            text@ == self@.text(),
    {
        match self {
            Directive::Say(text) => String::from_str("[SAY] ").concat(text.as_str()),
            Directive::Type(text) => String::from_str("[TYPE] ").concat(text.as_str()),
            Directive::Run => String::from_str("[RUN]"),
            Directive::Pause(None) => String::from_str("[PAUSE]"),
            Directive::Pause(Some(secs)) => {
                let mut out = String::from_str("[PAUSE ");
                push_decimal(&mut out, *secs);
                out.concat("]")
            },
            Directive::Focus(app) => String::from_str("[FOCUS] ").concat(app.as_str()),
            Directive::Slide(SlideAction::Next) => String::from_str("[SLIDE next]"),
            Directive::Slide(SlideAction::Prev) => String::from_str("[SLIDE prev]"),
            Directive::Slide(SlideAction::GoTo(n)) => {
                let mut out = String::from_str("[SLIDE ");
                push_decimal(&mut out, *n as u64);
                out.concat("]")
            },
            Directive::Key(combo) => String::from_str("[KEY ").concat(combo.as_str()).concat("]"),
            Directive::Clear => String::from_str("[CLEAR]"),
            Directive::Wait(secs) => {
                let mut out = String::from_str("[WAIT ");
                push_decimal(&mut out, *secs);
                out.concat("]")
            },
            Directive::Exec(command) => String::from_str("[EXEC ").concat(command.as_str()).concat(
                "]",
            ),
            Directive::Section(name) => String::from_str("## Section: ").concat(name.as_str()),
        }
    }
}

/// A copy of `directives`, element by element.
pub fn clone_directives(directives: &[Directive]) -> (copy: Vec<Directive>)
    ensures
        copy.deep_view() == directives.deep_view(),
{
    let mut copy: Vec<Directive> = Vec::new();
    let mut i: usize = 0;
    while i < directives.len()
        invariant
            i <= directives.len(),
            copy.len() == i,
            forall|j: int| 0 <= j < i ==> copy@[j]@ == directives@[j]@,
        decreases directives.len() - i,
    {
        copy.push(directives[i].clone());
        i += 1;
    }
    assert(copy.deep_view() =~= directives.deep_view());
    copy
}

/// A copy of an optional string.
pub fn clone_text(text: &Option<String>) -> (copy: Option<String>)
    ensures
        copy.deep_view() == text.deep_view(),
{
    match text {
        Some(s) => Some(s.clone()),
        None => None,
    }
}

/// Typing delay between two characters when the script names none, in milliseconds.
pub const DEFAULT_TYPING_SPEED: u64 = 40;

/// Largest random addition to the typing delay when the script names none, in milliseconds.
pub const DEFAULT_TYPING_VARIANCE: u64 = 15;

/// Port of the agent when the script names none.
pub const DEFAULT_AGENT_PORT: u16 = 9876;

/// The configuration at the head of a script.
#[derive(Debug, PartialEq)]
pub struct FrontMatter {
    pub title: Option<String>,
    pub typing_speed: u64,
    pub typing_variance: u64,
    pub agent_port: u16,
}

/// The value of a [`FrontMatter`].
pub struct FrontMatterView {
    pub title: Option<Seq<char>>,
    pub typing_speed: u64,
    pub typing_variance: u64,
    pub agent_port: u16,
}

impl FrontMatterView {
    /// The configuration of a script that sets nothing.
    pub open spec fn defaults() -> FrontMatterView {
        FrontMatterView {
            title: None,
            typing_speed: DEFAULT_TYPING_SPEED,
            typing_variance: DEFAULT_TYPING_VARIANCE,
            agent_port: DEFAULT_AGENT_PORT,
        }
    }
}

impl View for FrontMatter {
    type V = FrontMatterView;

    open spec fn view(&self) -> FrontMatterView {
        FrontMatterView {
            title: self.title.deep_view(),
            typing_speed: self.typing_speed,
            typing_variance: self.typing_variance,
            agent_port: self.agent_port,
        }
    }
}

impl DeepView for FrontMatter {
    type V = FrontMatterView;

    open spec fn deep_view(&self) -> FrontMatterView {
        self.view()
    }
}

impl Default for FrontMatter {
    fn default() -> (fm: Self)
        ensures
            fm@ == FrontMatterView::defaults(),
    {
        FrontMatter {
            title: None,
            typing_speed: DEFAULT_TYPING_SPEED,
            typing_variance: DEFAULT_TYPING_VARIANCE,
            agent_port: DEFAULT_AGENT_PORT,
        }
    }
}

impl Clone for FrontMatter {
    fn clone(&self) -> (copy: Self)
        ensures
            copy@ == self@,
    {
        FrontMatter {
            title: clone_text(&self.title),
            typing_speed: self.typing_speed,
            typing_variance: self.typing_variance,
            agent_port: self.agent_port,
        }
    }
}

/// A directive together with the number of the line it was read from.
#[derive(Debug)]
pub struct ParsedLine {
    pub line_number: usize,
    pub directive: Directive,
}

/// The value of a [`ParsedLine`].
pub struct ParsedLineView {
    pub line_number: usize,
    pub directive: DirectiveView,
}

impl View for ParsedLine {
    type V = ParsedLineView;

    open spec fn view(&self) -> ParsedLineView {
        ParsedLineView { line_number: self.line_number, directive: self.directive@ }
    }
}

impl DeepView for ParsedLine {
    type V = ParsedLineView;

    open spec fn deep_view(&self) -> ParsedLineView {
        self.view()
    }
}

impl Clone for ParsedLine {
    fn clone(&self) -> (copy: Self)
        ensures
            copy@ == self@,
    {
        ParsedLine { line_number: self.line_number, directive: self.directive.clone() }
    }
}

/// A parsed script: its configuration and its directives in source order.
#[derive(Debug)]
pub struct Script {
    pub front_matter: FrontMatter,
    pub lines: Vec<ParsedLine>,
}

/// The value of a [`Script`].
pub struct ScriptView {
    pub front_matter: FrontMatterView,
    pub lines: Seq<ParsedLineView>,
}

impl ScriptView {
    /// The directives of the script, in order, without their line numbers.
    pub open spec fn directives(self) -> Seq<DirectiveView> {
        Seq::new(self.lines.len(), |i: int| self.lines[i].directive)
    }
}

impl View for Script {
    type V = ScriptView;

    open spec fn view(&self) -> ScriptView {
        ScriptView { front_matter: self.front_matter@, lines: self.lines.deep_view() }
    }
}

impl DeepView for Script {
    type V = ScriptView;

    open spec fn deep_view(&self) -> ScriptView {
        self.view()
    }
}

impl Clone for Script {
    fn clone(&self) -> (copy: Self)
        ensures
            copy@ == self@,
    {
        let mut lines: Vec<ParsedLine> = Vec::new();
        let mut i: usize = 0;
        while i < self.lines.len()
            invariant
                i <= self.lines.len(),
                lines.len() == i,
                forall|j: int| 0 <= j < i ==> lines@[j]@ == self.lines@[j]@,
            decreases self.lines.len() - i,
        {
            lines.push(self.lines[i].clone());
            i += 1;
        }
        assert(lines.deep_view() =~= self.lines.deep_view());
        Script { front_matter: self.front_matter.clone(), lines }
    }
}

} // verus!
