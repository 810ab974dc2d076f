//! The vocabulary of the session protocol.

use vstd::prelude::*;

use crate::parser::types::{clone_directives, clone_text, Directive, DirectiveView};

verus! {

/// Whether the agent carried out what it was asked.
#[derive(Debug, PartialEq, Eq, Clone, Copy, Structural)]
pub enum AckStatus {
    Success,
    Error,
}

/// One message of the session protocol. `Execute` and `Ping` travel from the
/// presenter to the agent, `Ack` and `Pong` from the agent to the presenter.
#[derive(Debug, PartialEq)]
pub enum Message {
    Execute { actions: Vec<Directive>, typing_speed: u64, typing_variance: u64 },
    Ack { status: AckStatus, message: Option<String> },
    Ping,
    Pong,
}

/// The value of a [`Message`].
pub enum MessageView {
    Execute { actions: Seq<DirectiveView>, typing_speed: u64, typing_variance: u64 },
    Ack { status: AckStatus, message: Option<Seq<char>> },
    Ping,
    Pong,
}

impl View for Message {
    type V = MessageView;

    open spec fn view(&self) -> MessageView {
        match *self {
            Message::Execute { actions, typing_speed, typing_variance } => MessageView::Execute {
                actions: actions.deep_view(),
                typing_speed,
                typing_variance,
            },
            Message::Ack { status, message } => MessageView::Ack {
                status,
                message: message.deep_view(),
            },
            Message::Ping => MessageView::Ping,
            Message::Pong => MessageView::Pong,
        }
    }
}

impl DeepView for Message {
    type V = MessageView;

    open spec fn deep_view(&self) -> MessageView {
        self.view()
    }
}

impl Clone for Message {
    fn clone(&self) -> (copy: Self)
        ensures
            copy@ == self@,
    {
        match self {
            Message::Execute { actions, typing_speed, typing_variance } => Message::Execute {
                actions: clone_directives(actions.as_slice()),
                typing_speed: *typing_speed,
                typing_variance: *typing_variance,
            },
            Message::Ack { status, message } => Message::Ack {
                status: *status,
                message: clone_text(message),
            },
            Message::Ping => Message::Ping,
            Message::Pong => Message::Pong,
        }
    }
}

} // verus!
