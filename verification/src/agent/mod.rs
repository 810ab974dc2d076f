//! The agent: what it answers to each message, how it keeps the books of
//! one connection, and what carrying out a directive consists of.
//!
//! Nothing here touches a socket or runs a script. The owner of the socket
//! reports each read to [`Connection::on_read`], takes the frames that
//! [`Connection::next_frame`] hands out, and sends what
//! [`Agent::handle_message`] answers.

pub mod applescript;
pub mod typewriter;

use vstd::prelude::*;
use vstd::string::StringExecFns;

use crate::agent::applescript::{
    clear_script, clear_text, focus_app_script, focus_app_text, keystroke_script, keystroke_text,
    slide_goto_script, slide_goto_text, slide_next_script, slide_next_text, slide_prev_script,
    slide_prev_text,
};
use crate::agent::typewriter::{typewriter_to_applescript, types_text};
use crate::parser::types::{Directive, DirectiveView, SlideAction};
use crate::protocol::codec::{
    decode, decode_message, frame, lemma_decode_leading_frame, CodecError, MAX_PAYLOAD_LEN,
};
use crate::protocol::messages::{AckStatus, Message, MessageView};
use crate::protocol::stream::ReadEvent;

verus! {

/// The capability that performs directives on the machine of the agent.
/// A failure is reported by its description.
pub trait ActionExecutor: Send {
    /// Whether carrying out `actions` at the given typing cadence may end
    /// in `outcome`. An executor that says nothing of itself may end in
    /// any outcome.
    open spec fn may_return(
        &self,
        actions: Seq<DirectiveView>,
        typing_speed: u64,
        typing_variance: u64,
        outcome: Result<(), Seq<char>>,
    ) -> bool {
        true
    }

    /// Carries out `actions`, in order, at the given typing cadence.
    fn execute(&self, actions: &[Directive], typing_speed: u64, typing_variance: u64) -> (outcome:
        Result<(), String>)
        ensures
            self.may_return(
                actions.deep_view(),
                typing_speed,
                typing_variance,
                outcome_view(outcome),
            ),
    ;
}

/// A boxed executor is an executor: it does what the executor in the box does.
impl<T: ActionExecutor + ?Sized> ActionExecutor for Box<T> {
    open spec fn may_return(
        &self,
        actions: Seq<DirectiveView>,
        typing_speed: u64,
        typing_variance: u64,
        outcome: Result<(), Seq<char>>,
    ) -> bool {
        (**self).may_return(actions, typing_speed, typing_variance, outcome)
    }

    fn execute(&self, actions: &[Directive], typing_speed: u64, typing_variance: u64) -> (outcome:
        Result<(), String>) {
        (**self).execute(actions, typing_speed, typing_variance)
    }
}

/// The text that answers a message which an agent does not expect.
pub open spec fn unexpected_message_type() -> Seq<char> {
    "unexpected message type"@
}

/// The reply to an `Execute`, by what the executor returned: success is
/// acknowledged without a text, a failure with its description.
pub open spec fn ack_of(outcome: Result<(), Seq<char>>) -> MessageView {
    match outcome {
        Ok(()) => MessageView::Ack { status: AckStatus::Success, message: None },
        Err(description) => MessageView::Ack {
            status: AckStatus::Error,
            message: Some(description),
        },
    }
}

/// The reply to a message that needs no executor: `Pong` to a `Ping`, an
/// error to whatever only an agent may send. `None` for an `Execute`.
pub open spec fn reply_without_executor(message: MessageView) -> Option<MessageView> {
    match message {
        MessageView::Execute { .. } => None,
        MessageView::Ping => Some(MessageView::Pong),
        _ => Some(
            MessageView::Ack {
                status: AckStatus::Error,
                message: Some(unexpected_message_type()),
            },
        ),
    }
}

/// The value of what an executor returns.
pub open spec fn outcome_view(outcome: Result<(), String>) -> Result<(), Seq<char>> {
    match outcome {
        Ok(()) => Ok(()),
        Err(description) => Err(description@),
    }
}

/// Builds the reply to an `Execute` from what the executor returned.
pub fn ack_for(outcome: Result<(), String>) -> (reply: Message)
    ensures
        reply@ == ack_of(outcome_view(outcome)),
{
    match outcome {
        Ok(()) => Message::Ack { status: AckStatus::Success, message: None },
        Err(description) => Message::Ack { status: AckStatus::Error, message: Some(description) },
    }
}

/// An agent: the executor it dispatches to and the port it serves.
pub struct Agent<E: ActionExecutor> {
    executor: E,
    port: u16,
}

impl<E: ActionExecutor> Agent<E> {
    /// The port that the agent was made for.
    pub closed spec fn spec_port(&self) -> u16 {
        self.port
    }

    /// The executor that the agent dispatches to.
    pub closed spec fn spec_executor(&self) -> E {
        self.executor
    }

    /// An agent that dispatches to `executor` and serves `port`.
    pub fn new(executor: E, port: u16) -> (agent: Self)
        ensures
            agent.spec_port() == port,
            agent.spec_executor() == executor,
    {
        Agent { executor, port }
    }

    /// The port to listen on.
    pub fn port(&self) -> (port: u16)
        ensures
            port == self.spec_port(),
    {
        self.port
    }

    /// Answers one message.
    ///
    /// A `Ping` is answered with `Pong`. An `Execute` is handed to the
    /// executor once, with its actions and its typing cadence, and
    /// answered with what [`ack_for`] makes of the result: which of the two
    /// acknowledgements comes back is the executor's to decide. Any other
    /// message is answered with an error that names it unexpected; the
    /// executor is not called for it.
    pub fn handle_message(&self, message: Message) -> (reply: Message)
        ensures
            message@ matches MessageView::Execute { actions, typing_speed, typing_variance }
                ==> exists|outcome: Result<(), Seq<char>>|
                #![auto]
                self.spec_executor().may_return(actions, typing_speed, typing_variance, outcome)
                    && reply@ == ack_of(outcome),
            !(message@ is Execute) ==> Some(reply@) == reply_without_executor(message@),
    {
        match message {
            Message::Execute { actions, typing_speed, typing_variance } => {
                let outcome = self.executor.execute(
                    actions.as_slice(),
                    typing_speed,
                    typing_variance,
                );
                assert(self.spec_executor().may_return(
                    actions.deep_view(),
                    typing_speed,
                    typing_variance,
                    outcome_view(outcome),
                ));
                ack_for(outcome)
            },
            Message::Ping => Message::Pong,
            _ => Message::Ack {
                status: AckStatus::Error,
                message: Some(String::from_str("unexpected message type")),
            },
        }
    }
}

/// Number of read windows in a row without a byte after which a connection is closed.
pub const MAX_IDLE_TIMEOUTS: u32 = 10;

/// Length of one read window, in seconds.
pub const READ_WINDOW_SECS: u64 = 60;

/// Idle time after which keepalive probes start, in seconds.
pub const KEEPALIVE_SECS: u64 = 30;

/// Why a connection ended.
#[derive(Debug, PartialEq, Eq, Clone, Copy, Structural)]
pub enum CloseReason {
    /// The peer closed the connection.
    PeerClosed,
    /// The peer stayed silent for [`MAX_IDLE_TIMEOUTS`] read windows in a row.
    IdleTimeout,
    /// A read failed.
    ReadError,
    /// The bytes received are no frame, or a frame holds no message.
    ProtocolError,
}

/// What to do after a read.
#[derive(Debug, PartialEq, Eq, Clone, Copy, Structural)]
pub enum ReadAction {
    /// Take the frames that are complete, answer each, then read again.
    Dispatch,
    /// Nothing arrived: read again.
    KeepReading,
    /// The connection has ended.
    Close(CloseReason),
}

/// The books of one connection.
pub struct ConnectionView {
    /// Bytes received and not yet taken as frames.
    pub pending: Seq<u8>,
    /// Read windows without a byte since the last byte.
    pub idle_timeouts: nat,
    /// Why the connection ended, once it has.
    pub closed: Option<CloseReason>,
}

impl ConnectionView {
    /// A connection that was just accepted.
    pub open spec fn accepted() -> ConnectionView {
        ConnectionView { pending: Seq::empty(), idle_timeouts: 0, closed: None }
    }

    /// The same connection, ended for `reason`.
    pub open spec fn close(self, reason: CloseReason) -> ConnectionView {
        ConnectionView { closed: Some(reason), ..self }
    }

    /// The books and the next action after a read. Bytes are appended and
    /// reset the idle count. A window without a byte adds to the idle
    /// count and ends the connection once the count reaches
    /// [`MAX_IDLE_TIMEOUTS`]. A read of no byte and a failed read end it at
    /// once. On a connection that has ended nothing changes any more.
    pub open spec fn on_read(self, event: ReadEvent) -> (ConnectionView, ReadAction) {
        match self.closed {
            Some(reason) => (self, ReadAction::Close(reason)),
            None => match event {
                ReadEvent::Data(bytes) => if bytes@.len() == 0 {
                    (self.close(CloseReason::PeerClosed), ReadAction::Close(CloseReason::PeerClosed))
                } else {
                    (
                        ConnectionView {
                            pending: self.pending + bytes@,
                            idle_timeouts: 0,
                            closed: None,
                        },
                        ReadAction::Dispatch,
                    )
                },
                ReadEvent::Closed => (
                    self.close(CloseReason::PeerClosed),
                    ReadAction::Close(CloseReason::PeerClosed),
                ),
                ReadEvent::TimedOut => if self.idle_timeouts + 1 >= MAX_IDLE_TIMEOUTS {
                    (
                        ConnectionView {
                            idle_timeouts: MAX_IDLE_TIMEOUTS as nat,
                            closed: Some(CloseReason::IdleTimeout),
                            ..self
                        },
                        ReadAction::Close(CloseReason::IdleTimeout),
                    )
                } else {
                    (
                        ConnectionView { idle_timeouts: self.idle_timeouts + 1, ..self },
                        ReadAction::KeepReading,
                    )
                },
                ReadEvent::Failed => (
                    self.close(CloseReason::ReadError),
                    ReadAction::Close(CloseReason::ReadError),
                ),
            },
        }
    }

    /// The books after taking one frame from the pending bytes, and what was
    /// taken: the payload of the first frame once it is complete, with the
    /// frame removed from the pending bytes; nothing while it is
    /// incomplete; an error, which ends the connection, when the bytes
    /// declare a length beyond the limit. A connection that has ended hands
    /// out nothing.
    pub open spec fn next_frame(self) -> (ConnectionView, Result<Option<Seq<u8>>, CodecError>) {
        if self.closed is Some {
            (self, Ok(None))
        } else {
            match decode(self.pending) {
                Ok(Some((payload, consumed))) => (
                    ConnectionView { pending: self.pending.skip(consumed as int), ..self },
                    Ok(Some(payload)),
                ),
                Ok(None) => (self, Ok(None)),
                Err(e) => (self.close(CloseReason::ProtocolError), Err(e)),
            }
        }
    }
}

/// The books of one accepted connection: the bytes received and not yet
/// taken as frames, and the count of idle read windows.
pub struct Connection {
    pending: Vec<u8>,
    idle_timeouts: u32,
    closed: Option<CloseReason>,
}

impl View for Connection {
    type V = ConnectionView;

    closed spec fn view(&self) -> ConnectionView {
        ConnectionView {
            pending: self.pending@,
            idle_timeouts: self.idle_timeouts as nat,
            closed: self.closed,
        }
    }
}

impl Connection {
    /// The books of a connection that was just accepted.
    pub fn new() -> (connection: Self)
        ensures
            connection@ == ConnectionView::accepted(),
    {
        Connection { pending: Vec::new(), idle_timeouts: 0, closed: None }
    }

    /// Whether the connection has not ended.
    pub fn is_open(&self) -> (open: bool)
        ensures
            open == (self@.closed is None),
    {
        self.closed.is_none()
    }

    /// Number of read windows without a byte since the last byte.
    pub fn idle_timeouts(&self) -> (count: u32)
        ensures
            count == self@.idle_timeouts,
    {
        self.idle_timeouts
    }

    /// Takes in what a read came to and says what to do next.
    pub fn on_read(&mut self, event: ReadEvent) -> (action: ReadAction)
        ensures
            final(self)@ == old(self)@.on_read(event).0,
            action == old(self)@.on_read(event).1,
    {
        if let Some(reason) = self.closed {
            return ReadAction::Close(reason);
        }
        match event {
            ReadEvent::Data(bytes) => {
                if bytes.len() == 0 {
                    self.closed = Some(CloseReason::PeerClosed);
                    ReadAction::Close(CloseReason::PeerClosed)
                } else {
                    self.pending.extend_from_slice(bytes.as_slice());
                    self.idle_timeouts = 0;
                    assert(self.pending@ =~= old(self).pending@ + bytes@);
                    ReadAction::Dispatch
                }
            },
            ReadEvent::Closed => {
                self.closed = Some(CloseReason::PeerClosed);
                ReadAction::Close(CloseReason::PeerClosed)
            },
            ReadEvent::TimedOut => {
                if self.idle_timeouts >= MAX_IDLE_TIMEOUTS - 1 {
                    self.idle_timeouts = MAX_IDLE_TIMEOUTS;
                    self.closed = Some(CloseReason::IdleTimeout);
                    ReadAction::Close(CloseReason::IdleTimeout)
                } else {
                    self.idle_timeouts += 1;
                    ReadAction::KeepReading
                }
            },
            ReadEvent::Failed => {
                self.closed = Some(CloseReason::ReadError);
                ReadAction::Close(CloseReason::ReadError)
            },
        }
    }

    /// Takes the first frame from the bytes received, if it is complete.
    /// Called until it returns `Ok(None)`, it hands out every message that
    /// has arrived, in arrival order.
    pub fn next_frame(&mut self) -> (frame: Result<Option<Vec<u8>>, CodecError>)
        ensures
            final(self)@ == old(self)@.next_frame().0,
            match frame {
                Ok(Some(payload)) => old(self)@.next_frame().1 == Ok::<_, CodecError>(
                    Some(payload@),
                ),
                Ok(None) => old(self)@.next_frame().1 == Ok::<Option<Seq<u8>>, CodecError>(None),
                Err(e) => old(self)@.next_frame().1 == Err::<Option<Seq<u8>>, CodecError>(e),
            },
    {
        if self.closed.is_some() {
            return Ok(None);
        }
        let ghost before = self.pending@;
        let consumed: usize;
        let payload: Vec<u8>;
        match decode_message(self.pending.as_slice()) {
            Ok(Some((bytes, n))) => {
                consumed = n;
                payload = vstd::slice::slice_to_vec(bytes);
            },
            Ok(None) => {
                return Ok(None);
            },
            Err(e) => {
                self.closed = Some(CloseReason::ProtocolError);
                return Err(e);
            },
        }
        let rest = self.pending.split_off(consumed);
        self.pending = rest;
        assert(self.pending@ =~= before.skip(consumed as int));
        Ok(Some(payload))
    }

    /// Ends the connection because a frame that was handed out holds no message.
    pub fn reject_payload(&mut self)
        ensures
            final(self)@ == (if old(self)@.closed is Some {
                old(self)@
            } else {
                old(self)@.close(CloseReason::ProtocolError)
            }),
    {
        if self.closed.is_none() {
            self.closed = Some(CloseReason::ProtocolError);
        }
    }
}

/// A connection that has ended stays ended: no read changes its books
/// and every read is answered with the reason it ended for.
pub proof fn lemma_closed_is_terminal(connection: ConnectionView, event: ReadEvent)
    requires
        connection.closed is Some,
    ensures
        connection.on_read(event) == (connection, ReadAction::Close(connection.closed->0)),
        connection.next_frame() == (connection, Ok::<Option<Seq<u8>>, CodecError>(None)),
{
}

/// Any byte that arrives resets the idle count, and a connection is closed for
/// idleness exactly by the read window that brings the count to
/// [`MAX_IDLE_TIMEOUTS`].
pub proof fn lemma_idle_policy(connection: ConnectionView, event: ReadEvent)
    requires
        connection.closed is None,
        connection.idle_timeouts < MAX_IDLE_TIMEOUTS,
    ensures
        event matches ReadEvent::Data(bytes) && bytes@.len() > 0 ==> connection.on_read(
            event,
        ).0.idle_timeouts == 0,
        connection.on_read(event).1 == ReadAction::Close(CloseReason::IdleTimeout) <==> event
            == ReadEvent::TimedOut && connection.idle_timeouts + 1 == MAX_IDLE_TIMEOUTS,
        connection.on_read(event).0.idle_timeouts <= MAX_IDLE_TIMEOUTS,
{
}

/// Frames that arrived back to back are handed out one by one, in arrival
/// order, each taking exactly its own bytes from the pending ones; after the
/// last there is nothing to hand out and the connection is still open.
pub proof fn lemma_frames_are_drained_in_order(
    connection: ConnectionView,
    first: Seq<u8>,
    second: Seq<u8>,
)
    requires
        connection.closed is None,
        connection.pending == frame(first) + frame(second),
        first.len() <= MAX_PAYLOAD_LEN,
        second.len() <= MAX_PAYLOAD_LEN,
    ensures
        ({
            let (after_first, one) = connection.next_frame();
            let (after_second, two) = after_first.next_frame();
            let (after_all, three) = after_second.next_frame();
            &&& one == Ok::<_, CodecError>(Some(first))
            &&& after_first.pending == frame(second)
            &&& two == Ok::<_, CodecError>(Some(second))
            &&& after_second.pending == Seq::<u8>::empty()
            &&& three == Ok::<Option<Seq<u8>>, CodecError>(None)
            &&& after_all == after_second
            &&& after_all.closed is None
            &&& after_all.idle_timeouts == connection.idle_timeouts
        }),
{
    lemma_decode_leading_frame(first, frame(second));
    lemma_decode_leading_frame(second, Seq::<u8>::empty());
    assert(frame(second) + Seq::<u8>::empty() =~= frame(second));
    assert(frame(second).skip(frame(second).len() as int) =~= Seq::<u8>::empty());
}

/// One step of carrying out a directive on the machine of the agent.
#[derive(Debug, PartialEq)]
pub enum Effect {
    /// Run this AppleScript source.
    RunScript(String),
    /// Do nothing for this many milliseconds.
    SleepMillis(u64),
    /// Do nothing for this many seconds.
    SleepSecs(u64),
    /// Start this shell command and do not wait for it.
    Spawn(String),
}

/// The value of an [`Effect`].
pub enum EffectView {
    RunScript(Seq<char>),
    SleepMillis(u64),
    SleepSecs(u64),
    Spawn(Seq<char>),
}

impl View for Effect {
    type V = EffectView;

    open spec fn view(&self) -> EffectView {
        match *self {
            Effect::RunScript(source) => EffectView::RunScript(source@),
            Effect::SleepMillis(millis) => EffectView::SleepMillis(millis),
            Effect::SleepSecs(secs) => EffectView::SleepSecs(secs),
            Effect::Spawn(command) => EffectView::Spawn(command@),
        }
    }
}

impl DeepView for Effect {
    type V = EffectView;

    open spec fn deep_view(&self) -> EffectView {
        self.view()
    }
}

/// The effects of typing: for each step its script, then its delay.
pub open spec fn typing_effects(steps: Seq<(Seq<char>, u64)>) -> Seq<EffectView> {
    Seq::new(
        2 * steps.len(),
        |i: int|
            if i % 2 == 0 {
                EffectView::RunScript(steps[i / 2].0)
            } else {
                EffectView::SleepMillis(steps[i / 2].1)
            },
    )
}

/// The effects of a directive that is not typed text: one script for what
/// AppleScript does, a sleep for `Wait`, a spawned shell for `Exec`, and
/// nothing for the directives that stay with the presenter.
pub open spec fn fixed_effects(directive: DirectiveView) -> Seq<EffectView> {
    match directive {
        DirectiveView::Focus(app) => seq![EffectView::RunScript(focus_app_text(app))],
        DirectiveView::Run => seq![EffectView::RunScript(keystroke_text("return"@))],
        DirectiveView::Slide(SlideAction::Next) => seq![EffectView::RunScript(slide_next_text())],
        DirectiveView::Slide(SlideAction::Prev) => seq![EffectView::RunScript(slide_prev_text())],
        DirectiveView::Slide(SlideAction::GoTo(n)) => seq![
            EffectView::RunScript(slide_goto_text(n)),
        ],
        DirectiveView::Key(combo) => seq![EffectView::RunScript(keystroke_text(combo))],
        DirectiveView::Clear => seq![EffectView::RunScript(clear_text())],
        DirectiveView::Wait(secs) => seq![EffectView::SleepSecs(secs)],
        DirectiveView::Exec(command) => seq![EffectView::Spawn(command)],
        DirectiveView::Type(_) => Seq::empty(),
        DirectiveView::Say(_) | DirectiveView::Pause(_) | DirectiveView::Section(_) => Seq::empty(),
    }
}

/// Whether `effects` carries out `directive` at the given typing cadence:
/// typed text is typed character by character, each followed by its delay;
/// every other directive has the effects that [`fixed_effects`] lists.
pub open spec fn carries_out(
    effects: Seq<EffectView>,
    directive: DirectiveView,
    typing_speed: u64,
    typing_variance: u64,
) -> bool {
    match directive {
        DirectiveView::Type(text) => exists|steps: Seq<(Seq<char>, u64)>|
            #![auto]
            types_text(steps, text, typing_speed, typing_variance) && effects == typing_effects(
                steps,
            ),
        _ => effects == fixed_effects(directive),
    }
}

/// The executor that drives the machine through AppleScript. It decides
/// what each directive consists of; performing the effects is left to
/// whoever may run scripts and processes.
#[derive(Debug, Clone, Copy)]
pub struct AppleScriptExecutor;

impl AppleScriptExecutor {
    /// The effects that carry out `action`, in the order to perform them.
    pub fn effects(&self, action: &Directive, typing_speed: u64, typing_variance: u64) -> (effects:
        Vec<Effect>)
        requires
            typing_speed + typing_variance <= u64::MAX,
        ensures
            carries_out(effects.deep_view(), action@, typing_speed, typing_variance),
    {
        let mut effects: Vec<Effect> = Vec::new();
        match action {
            Directive::Focus(app) => {
                effects.push(Effect::RunScript(focus_app_script(app.as_str())));
            },
            Directive::Type(text) => {
                let steps = typewriter_to_applescript(text.as_str(), typing_speed, typing_variance);
                let ghost planned = steps.deep_view();
                let mut i: usize = 0;
                while i < steps.len()
                    invariant
                        i <= steps.len(),
                        planned == steps.deep_view(),
                        effects.len() == 2 * i,
                        forall|j: int|
                            0 <= j < 2 * i ==> (#[trigger] effects@[j])@ == typing_effects(
                                planned,
                            )[j],
                    decreases steps.len() - i,
                {
                    let script = steps[i].0.clone();
                    let delay = steps[i].1;
                    assert(planned[i as int] == (steps@[i as int].0@, steps@[i as int].1));
                    effects.push(Effect::RunScript(script));
                    effects.push(Effect::SleepMillis(delay));
                    i += 1;
                }
                assert(effects.deep_view() =~= typing_effects(planned));
                return effects;
            },
            Directive::Run => {
                effects.push(Effect::RunScript(keystroke_script("return")));
            },
            Directive::Slide(slide_action) => {
                let script = match slide_action {
                    SlideAction::Next => slide_next_script(),
                    SlideAction::Prev => slide_prev_script(),
                    SlideAction::GoTo(n) => slide_goto_script(*n),
                };
                effects.push(Effect::RunScript(script));
            },
            Directive::Key(combo) => {
                effects.push(Effect::RunScript(keystroke_script(combo.as_str())));
            },
            Directive::Clear => {
                effects.push(Effect::RunScript(clear_script()));
            },
            Directive::Wait(secs) => {
                effects.push(Effect::SleepSecs(*secs));
            },
            Directive::Exec(command) => {
                effects.push(Effect::Spawn(command.clone()));
            },
            Directive::Say(_) | Directive::Pause(_) | Directive::Section(_) => {},
        }
        assert(effects.deep_view() =~= fixed_effects(action@));
        effects
    }
}

} // verus!
