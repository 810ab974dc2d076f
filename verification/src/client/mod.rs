//! The presenter: a cursor over the blocks of a script, moved one block at a
//! time, with one request to the agent for each block that has actions.
//!
//! The presenter owns no socket. Before a step, whoever holds the connection
//! asks [`Presenter::pending_request`] for the message to send, exchanges it
//! with the agent, and hands the [`Exchange`] that came of it to
//! [`Presenter::step`]. While the reply is awaited, each read goes to a
//! [`ReplyBuffer`], which says when the reply is whole. A connection counts
//! as usable only after [`Presenter::connect`] has seen the agent answer a
//! `Ping` with a `Pong`.

use vstd::prelude::*;
use vstd::string::StringExecFns;

use crate::grouper::{group, group_into_blocks, ActionBlock, ActionBlockView, BlockType};
use crate::parser::types::{clone_directives, FrontMatter, FrontMatterView, Script, ScriptView};
use crate::protocol::codec::{
    decode, decode_message, frame, lemma_decode_frame, lemma_decode_partial, MAX_PAYLOAD_LEN,
};
use crate::protocol::messages::{AckStatus, Message, MessageView};
use crate::protocol::stream::ReadEvent;

verus! {

/// Longest wait for the connection to the agent to open, in seconds.
pub const CONNECT_TIMEOUT_SECS: u64 = 5;

/// Longest wait for a byte of a reply, in seconds.
pub const REPLY_TIMEOUT_SECS: u64 = 30;

/// Longest wait for a request to be written, in seconds.
pub const SEND_TIMEOUT_SECS: u64 = 5;

/// What one step of the presenter came to.
#[derive(Debug, PartialEq)]
pub enum StepResult {
    Executed,
    Paused(Option<u64>),
    NarrationOnly,
    Finished,
    AgentError(String),
    ConnectionLost,
}

/// The value of a [`StepResult`].
pub enum StepResultView {
    Executed,
    Paused(Option<u64>),
    NarrationOnly,
    Finished,
    AgentError(Seq<char>),
    ConnectionLost,
}

impl View for StepResult {
    type V = StepResultView;

    open spec fn view(&self) -> StepResultView {
        match *self {
            StepResult::Executed => StepResultView::Executed,
            StepResult::Paused(timeout) => StepResultView::Paused(timeout),
            StepResult::NarrationOnly => StepResultView::NarrationOnly,
            StepResult::Finished => StepResultView::Finished,
            StepResult::AgentError(message) => StepResultView::AgentError(message@),
            StepResult::ConnectionLost => StepResultView::ConnectionLost,
        }
    }
}

impl DeepView for StepResult {
    type V = StepResultView;

    open spec fn deep_view(&self) -> StepResultView {
        self.view()
    }
}

/// How one request to the agent went, as the holder of the connection saw it.
#[derive(Debug, PartialEq)]
pub enum Exchange {
    /// The agent answered with this message.
    Reply(Message),
    /// A whole frame came back, but what it holds is no message.
    Malformed,
    /// Nothing came back: there was no connection, writing or reading
    /// failed, or the agent closed the connection.
    Lost,
}

/// The value of an [`Exchange`].
pub enum ExchangeView {
    Reply(MessageView),
    Malformed,
    Lost,
}

impl View for Exchange {
    type V = ExchangeView;

    open spec fn view(&self) -> ExchangeView {
        match *self {
            Exchange::Reply(message) => ExchangeView::Reply(message@),
            Exchange::Malformed => ExchangeView::Malformed,
            Exchange::Lost => ExchangeView::Lost,
        }
    }
}

impl DeepView for Exchange {
    type V = ExchangeView;

    open spec fn deep_view(&self) -> ExchangeView {
        self.view()
    }
}

/// Why a handshake did not make the connection usable.
#[derive(Debug, PartialEq)]
pub enum HandshakeError {
    /// The agent did not answer the `Ping`.
    NoReply,
    /// The agent answered with something that is no message.
    Malformed,
    /// The agent answered with this message instead of `Pong`.
    Unexpected(Message),
}

/// The value of a [`HandshakeError`].
pub enum HandshakeErrorView {
    NoReply,
    Malformed,
    Unexpected(MessageView),
}

impl View for HandshakeError {
    type V = HandshakeErrorView;

    open spec fn view(&self) -> HandshakeErrorView {
        match *self {
            HandshakeError::NoReply => HandshakeErrorView::NoReply,
            HandshakeError::Malformed => HandshakeErrorView::Malformed,
            HandshakeError::Unexpected(message) => HandshakeErrorView::Unexpected(message@),
        }
    }
}

impl DeepView for HandshakeError {
    type V = HandshakeErrorView;

    open spec fn deep_view(&self) -> HandshakeErrorView {
        self.view()
    }
}

/// Where the wait for one reply stands after a read.
#[derive(Debug, PartialEq, Eq)]
pub enum Received {
    /// The reply is not whole yet: read again.
    Incomplete,
    /// The reply is whole; this is its payload.
    Payload(Vec<u8>),
    /// What arrived is no frame.
    Malformed,
    /// The read brought nothing: it failed, ran out of time, or the agent
    /// closed the connection.
    Lost,
}

/// The value of a [`Received`].
pub enum ReceivedView {
    Incomplete,
    Payload(Seq<u8>),
    Malformed,
    Lost,
}

impl View for Received {
    type V = ReceivedView;

    open spec fn view(&self) -> ReceivedView {
        match *self {
            Received::Incomplete => ReceivedView::Incomplete,
            Received::Payload(payload) => ReceivedView::Payload(payload@),
            Received::Malformed => ReceivedView::Malformed,
            Received::Lost => ReceivedView::Lost,
        }
    }
}

/// The bytes of a reply after one more read, and where the wait stands.
/// Bytes that arrive are appended; the reply is whole as soon as the bytes
/// hold one frame. A read without bytes loses the exchange.
pub open spec fn receive(pending: Seq<u8>, event: ReadEvent) -> (Seq<u8>, ReceivedView) {
    match event {
        ReadEvent::Data(bytes) => if bytes@.len() == 0 {
            (pending, ReceivedView::Lost)
        } else {
            let all = pending + bytes@;
            match decode(all) {
                Ok(Some((payload, _))) => (all, ReceivedView::Payload(payload)),
                Ok(None) => (all, ReceivedView::Incomplete),
                Err(_) => (all, ReceivedView::Malformed),
            }
        },
        _ => (pending, ReceivedView::Lost),
    }
}

/// The bytes of one reply as they arrive. A buffer serves one exchange.
pub struct ReplyBuffer {
    pending: Vec<u8>,
}

impl View for ReplyBuffer {
    type V = Seq<u8>;

    closed spec fn view(&self) -> Seq<u8> {
        self.pending@
    }
}

impl ReplyBuffer {
    /// A buffer that holds nothing yet.
    pub fn new() -> (buffer: Self)
        ensures
            buffer@ == Seq::<u8>::empty(),
    {
        ReplyBuffer { pending: Vec::new() }
    }

    /// Takes in what a read came to and says where the wait stands.
    pub fn on_read(&mut self, event: ReadEvent) -> (received: Received)
        ensures
            final(self)@ == receive(old(self)@, event).0,
            received@ == receive(old(self)@, event).1,
    {
        match event {
            ReadEvent::Data(bytes) => {
                if bytes.len() == 0 {
                    return Received::Lost;
                }
                self.pending.extend_from_slice(bytes.as_slice());
                assert(self.pending@ =~= old(self).pending@ + bytes@);
                match decode_message(self.pending.as_slice()) {
                    Ok(Some((payload, _))) => Received::Payload(vstd::slice::slice_to_vec(payload)),
                    Ok(None) => Received::Incomplete,
                    Err(_) => Received::Malformed,
                }
            },
            _ => Received::Lost,
        }
    }
}

/// A reply that arrives in two reads, cut anywhere, is incomplete after the
/// first and whole after the second, with the payload that was framed.
pub proof fn lemma_reply_in_two_reads(payload: Seq<u8>, first: ReadEvent, second: ReadEvent)
    requires
        payload.len() <= MAX_PAYLOAD_LEN,
        first matches ReadEvent::Data(head) && second matches ReadEvent::Data(tail) && head@.len()
            > 0 && tail@.len() > 0 && head@ + tail@ == frame(payload),
    ensures
        ({
            let (buffered, after_first) = receive(Seq::<u8>::empty(), first);
            let (_, after_second) = receive(buffered, second);
            &&& after_first == ReceivedView::Incomplete
            &&& after_second == ReceivedView::Payload(payload)
        }),
{
    let head = first->Data_0@;
    let tail = second->Data_0@;
    assert(Seq::<u8>::empty() + head =~= head);
    assert(head =~= frame(payload).take(head.len() as int));
    lemma_decode_partial(payload, head.len() as int);
    lemma_decode_frame(payload);
}

/// The text reported when the agent signals an error without a description.
pub open spec fn unknown_agent_error() -> Seq<char> {
    "Unknown agent error"@
}

/// The text reported when the agent answers an `Execute` with anything but an `Ack`.
pub open spec fn unexpected_response() -> Seq<char> {
    "unexpected response"@
}

/// The state of a presenter.
pub struct PresenterView {
    pub blocks: Seq<ActionBlockView>,
    pub cursor: nat,
    pub front_matter: FrontMatterView,
    pub connected: bool,
}

impl PresenterView {
    /// The cursor points at a block or just past the last one.
    pub open spec fn well_formed(self) -> bool {
        self.cursor <= self.blocks.len()
    }

    /// The presenter of a script before its first step: the blocks that the
    /// script is grouped into, the cursor on the first, no connection.
    pub open spec fn start(script: ScriptView) -> PresenterView {
        PresenterView {
            blocks: group(script.directives()),
            cursor: 0,
            front_matter: script.front_matter,
            connected: false,
        }
    }

    /// Position of the cursor and number of blocks.
    pub open spec fn progress(self) -> (nat, nat) {
        (self.cursor, self.blocks.len())
    }

    /// All blocks have been stepped over.
    pub open spec fn finished(self) -> bool {
        self.cursor >= self.blocks.len()
    }

    /// The block at the cursor, if the presenter has not finished.
    pub open spec fn current_block(self) -> Option<ActionBlockView> {
        if self.finished() {
            None
        } else {
            Some(self.blocks[self.cursor as int])
        }
    }

    /// The message that the next step has to exchange with the agent: an
    /// `Execute` with the actions of the block at the cursor and the typing
    /// cadence of the front matter, where that block is an `Action` block with
    /// at least one action; nothing for every other block and at the end.
    pub open spec fn request(self) -> Option<MessageView> {
        match self.current_block() {
            Some(block) if block.block_type == BlockType::Action && block.actions.len() > 0 => Some(
                MessageView::Execute {
                    actions: block.actions,
                    typing_speed: self.front_matter.typing_speed,
                    typing_variance: self.front_matter.typing_variance,
                },
            ),
            _ => None,
        }
    }

    /// The same presenter with the cursor one block further.
    pub open spec fn advanced(self) -> PresenterView {
        PresenterView { cursor: self.cursor + 1, ..self }
    }

    /// What an exchanged `Execute` comes to.
    pub open spec fn resolve(self, outcome: ExchangeView) -> (PresenterView, StepResultView) {
        match outcome {
            ExchangeView::Reply(MessageView::Ack { status: AckStatus::Success, .. }) => (
                self.advanced(),
                StepResultView::Executed,
            ),
            ExchangeView::Reply(MessageView::Ack { status: AckStatus::Error, message: Some(text) }) => (
                self,
                StepResultView::AgentError(text),
            ),
            ExchangeView::Reply(MessageView::Ack { status: AckStatus::Error, message: None }) => (
                self,
                StepResultView::AgentError(unknown_agent_error()),
            ),
            ExchangeView::Reply(_) => (self, StepResultView::AgentError(unexpected_response())),
            ExchangeView::Malformed => (self, StepResultView::AgentError(unexpected_response())),
            ExchangeView::Lost => (
                PresenterView { connected: false, ..self },
                StepResultView::ConnectionLost,
            ),
        }
    }

    /// One step. `outcome` is how the exchange of [`Self::request`] went; it
    /// is not looked at where there is no request.
    pub open spec fn step(self, outcome: ExchangeView) -> (PresenterView, StepResultView) {
        match self.current_block() {
            None => (self, StepResultView::Finished),
            Some(block) => match block.block_type {
                BlockType::NarrationOnly => (self.advanced(), StepResultView::NarrationOnly),
                BlockType::Pause(timeout) => (self.advanced(), StepResultView::Paused(timeout)),
                BlockType::Action => if block.actions.len() == 0 {
                    (self.advanced(), StepResultView::Executed)
                } else {
                    self.resolve(outcome)
                },
            },
        }
    }

    /// One block back, not before the first.
    pub open spec fn go_back(self) -> PresenterView {
        if self.cursor > 0 {
            PresenterView { cursor: (self.cursor - 1) as nat, ..self }
        } else {
            self
        }
    }

    /// One block on, not beyond the end.
    pub open spec fn skip(self) -> PresenterView {
        if self.cursor < self.blocks.len() {
            self.advanced()
        } else {
            self
        }
    }

    /// What a handshake comes to: the connection is usable if and only if the
    /// agent answered the `Ping` with a `Pong`.
    pub open spec fn connect(self, handshake: ExchangeView) -> (
        PresenterView,
        Result<(), HandshakeErrorView>,
    ) {
        match handshake {
            ExchangeView::Reply(MessageView::Pong) => (
                PresenterView { connected: true, ..self },
                Ok(()),
            ),
            ExchangeView::Reply(other) => (
                PresenterView { connected: false, ..self },
                Err(HandshakeErrorView::Unexpected(other)),
            ),
            ExchangeView::Malformed => (
                PresenterView { connected: false, ..self },
                Err(HandshakeErrorView::Malformed),
            ),
            ExchangeView::Lost => (
                PresenterView { connected: false, ..self },
                Err(HandshakeErrorView::NoReply),
            ),
        }
    }
}

/// The client side of a presentation: the blocks of the script, the cursor,
/// the typing cadence, and whether the connection to the agent is usable.
pub struct Presenter {
    blocks: Vec<ActionBlock>,
    current: usize,
    front_matter: FrontMatter,
    connected: bool,
}

impl View for Presenter {
    type V = PresenterView;

    closed spec fn view(&self) -> PresenterView {
        PresenterView {
            blocks: self.blocks.deep_view(),
            cursor: self.current as nat,
            front_matter: self.front_matter@,
            connected: self.connected,
        }
    }
}

impl Presenter {
    #[verifier::type_invariant]
    spec fn cursor_in_range(&self) -> bool {
        self.current <= self.blocks.len()
    }

    /// A presenter at the first block of `script`, not connected.
    pub fn new(script: Script) -> (presenter: Self)
        ensures
            presenter@ == PresenterView::start(script@),
    {
        let blocks = group_into_blocks(&script);
        Presenter { blocks, current: 0, front_matter: script.front_matter, connected: false }
    }

    /// The message that opens the handshake.
    pub fn handshake_request(&self) -> (ping: Message)
        ensures
            ping@ == MessageView::Ping,
    {
        Message::Ping
    }

    /// Takes in how the handshake went. The connection is usable afterwards
    /// if and only if the agent answered `Pong`; any other reply, a
    /// malformed one, or none leaves the presenter not connected and fails.
    pub fn connect(&mut self, handshake: Exchange) -> (connected: Result<(), HandshakeError>)
        ensures
            final(self)@ == old(self)@.connect(handshake@).0,
            match connected {
                Ok(()) => old(self)@.connect(handshake@).1 == Ok::<(), HandshakeErrorView>(()),
                Err(e) => old(self)@.connect(handshake@).1 == Err::<(), HandshakeErrorView>(e@),
            },
            final(self)@.connected <==> handshake@ == ExchangeView::Reply(MessageView::Pong),
            connected is Ok <==> handshake@ == ExchangeView::Reply(MessageView::Pong),
    {
        proof {
            use_type_invariant(&*self);
        }
        match handshake {
            Exchange::Reply(Message::Pong) => {
                self.connected = true;
                Ok(())
            },
            Exchange::Reply(other) => {
                self.connected = false;
                Err(HandshakeError::Unexpected(other))
            },
            Exchange::Malformed => {
                self.connected = false;
                Err(HandshakeError::Malformed)
            },
            Exchange::Lost => {
                self.connected = false;
                Err(HandshakeError::NoReply)
            },
        }
    }

    /// Whether the last handshake succeeded and no exchange was lost since.
    pub fn is_connected(&self) -> (connected: bool)
        ensures
            connected == self@.connected,
    {
        self.connected
    }

    /// The block at the cursor, or `None` once the presenter has finished.
    pub fn current_block(&self) -> (block: Option<&ActionBlock>)
        ensures
            block.deep_view() == self@.current_block(),
    {
        proof {
            use_type_invariant(self);
        }
        if self.current < self.blocks.len() {
            Some(&self.blocks[self.current])
        } else {
            None
        }
    }

    /// Position of the cursor and number of blocks.
    pub fn progress(&self) -> (progress: (usize, usize))
        ensures
            progress.0 == self@.cursor,
            progress.1 == self@.blocks.len(),
            progress.0 <= progress.1,
    {
        proof {
            use_type_invariant(self);
        }
        (self.current, self.blocks.len())
    }

    /// Moves the cursor one block back; at the first block it stays.
    pub fn go_back(&mut self)
        ensures
            final(self)@ == old(self)@.go_back(),
    {
        proof {
            use_type_invariant(&*self);
        }
        if self.current > 0 {
            self.current -= 1;
        }
    }

    /// Moves the cursor one block on; past the last block it stays.
    pub fn skip(&mut self)
        ensures
            final(self)@ == old(self)@.skip(),
    {
        proof {
            use_type_invariant(&*self);
        }
        if self.current < self.blocks.len() {
            self.current += 1;
        }
    }

    /// The message that the next [`Self::step`] needs exchanged with the
    /// agent, or `None` where the step touches no network: at a
    /// `NarrationOnly` block, a `Pause` block, an `Action` block without
    /// actions, and at the end.
    pub fn pending_request(&self) -> (request: Option<Message>)
        ensures
            request.deep_view() == self@.request(),
    {
        proof {
            use_type_invariant(self);
        }
        if self.current >= self.blocks.len() {
            return None;
        }
        let block = &self.blocks[self.current];
        match block.block_type {
            BlockType::Action => {
                if block.actions.len() == 0 {
                    None
                } else {
                    Some(
                        Message::Execute {
                            actions: clone_directives(block.actions.as_slice()),
                            typing_speed: self.front_matter.typing_speed,
                            typing_variance: self.front_matter.typing_variance,
                        },
                    )
                }
            },
            _ => None,
        }
    }

    /// Steps over the block at the cursor.
    ///
    /// `outcome` is how the exchange of [`Self::pending_request`] went; where
    /// that is `None` no exchange is needed and `outcome` is not looked at.
    ///
    /// The cursor advances for `NarrationOnly`, `Paused` and `Executed`, and
    /// for nothing else. An error that the agent reports, a reply that is no
    /// `Ack`, and a malformed reply give `AgentError` and leave the
    /// connection as it is. A lost exchange gives `ConnectionLost` and marks
    /// the presenter not connected. At the end every call gives `Finished`
    /// and changes nothing.
    pub fn step(&mut self, outcome: Exchange) -> (result: StepResult)
        ensures
            final(self)@ == old(self)@.step(outcome@).0,
            result@ == old(self)@.step(outcome@).1,
            final(self)@.blocks == old(self)@.blocks,
            result is AgentError || result is ConnectionLost || result is Finished
                ==> final(self)@.progress() == old(self)@.progress(),
            result is Executed || result is Paused || result is NarrationOnly
                ==> final(self)@.cursor == old(self)@.cursor + 1,
    {
        proof {
            use_type_invariant(&*self);
        }
        if self.current >= self.blocks.len() {
            return StepResult::Finished;
        }
        let block_type = self.blocks[self.current].block_type;
        let no_actions = self.blocks[self.current].actions.len() == 0;
        match block_type {
            BlockType::NarrationOnly => {
                self.current += 1;
                StepResult::NarrationOnly
            },
            BlockType::Pause(timeout) => {
                self.current += 1;
                StepResult::Paused(timeout)
            },
            BlockType::Action => {
                if no_actions {
                    self.current += 1;
                    return StepResult::Executed;
                }
                match outcome {
                    Exchange::Reply(Message::Ack { status: AckStatus::Success, .. }) => {
                        self.current += 1;
                        StepResult::Executed
                    },
                    Exchange::Reply(Message::Ack { status: AckStatus::Error, message }) => {
                        match message {
                            Some(text) => StepResult::AgentError(text),
                            None => StepResult::AgentError(
                                String::from_str("Unknown agent error"),
                            ),
                        }
                    },
                    Exchange::Reply(_) => StepResult::AgentError(
                        String::from_str("unexpected response"),
                    ),
                    Exchange::Malformed => StepResult::AgentError(
                        String::from_str("unexpected response"),
                    ),
                    Exchange::Lost => {
                        self.connected = false;
                        StepResult::ConnectionLost
                    },
                }
            },
        }
    }
}

/// A step that ends in `AgentError` or `ConnectionLost` leaves the progress
/// as it was, whatever the block and whatever came of the exchange.
pub proof fn lemma_failure_keeps_progress(presenter: PresenterView, outcome: ExchangeView)
    ensures
        ({
            let (after, result) = presenter.step(outcome);
            result is AgentError || result is ConnectionLost ==> after.progress()
                == presenter.progress() && after.blocks == presenter.blocks
        }),
{
}

/// The cursor advances, by one block, exactly on `NarrationOnly`, `Paused`
/// and `Executed`; on every other result it stays. It never leaves the range
/// from the first block to just past the last.
pub proof fn lemma_step_moves_cursor(presenter: PresenterView, outcome: ExchangeView)
    requires
        presenter.well_formed(),
    ensures
        ({
            let (after, result) = presenter.step(outcome);
            &&& after.well_formed()
            &&& after.blocks == presenter.blocks
            &&& after.front_matter == presenter.front_matter
            &&& (result is NarrationOnly || result is Paused || result is Executed) ==> after.cursor
                == presenter.cursor + 1
            &&& !(result is NarrationOnly || result is Paused || result is Executed)
                ==> after.cursor == presenter.cursor
        }),
{
}

/// A step exchanges a message with the agent only where there is a request:
/// without one, the step is the same whatever is handed in as the outcome,
/// and it neither fails nor touches the connection state.
pub proof fn lemma_step_without_request(
    presenter: PresenterView,
    one: ExchangeView,
    other: ExchangeView,
)
    requires
        presenter.request() is None,
    ensures
        presenter.step(one) == presenter.step(other),
        presenter.step(one).0.connected == presenter.connected,
        !(presenter.step(one).1 is AgentError || presenter.step(one).1 is ConnectionLost),
{
}

/// At the end, a step gives `Finished` and changes nothing, however often it
/// is taken.
pub proof fn lemma_finished_is_stable(presenter: PresenterView, outcome: ExchangeView)
    requires
        presenter.finished(),
    ensures
        presenter.step(outcome) == (presenter, StepResultView::Finished),
{
}

/// A handshake makes the connection usable only if the agent answered
/// `Pong`: after any other outcome the presenter is not connected and
/// `connect` has failed, whether or not it was connected before.
pub proof fn lemma_handshake_needs_pong(presenter: PresenterView, handshake: ExchangeView)
    requires
        handshake != ExchangeView::Reply(MessageView::Pong),
    ensures
        !presenter.connect(handshake).0.connected,
        presenter.connect(handshake).1 is Err,
        presenter.connect(handshake).0.progress() == presenter.progress(),
{
}

/// `go_back` and `skip` keep the cursor in range and move it by at most one block.
pub proof fn lemma_navigation_is_clamped(presenter: PresenterView)
    requires
        presenter.well_formed(),
    ensures
        presenter.go_back().well_formed(),
        presenter.skip().well_formed(),
        presenter.cursor == 0 ==> presenter.go_back().cursor == 0,
        presenter.cursor > 0 ==> presenter.go_back().cursor == presenter.cursor - 1,
        presenter.cursor == presenter.blocks.len() ==> presenter.skip().cursor == presenter.cursor,
        presenter.cursor < presenter.blocks.len() ==> presenter.skip().cursor == presenter.cursor
            + 1,
{
}

} // verus!
