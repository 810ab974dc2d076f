use code_monkey::client::{
    Exchange, HandshakeError, Presenter, Received, ReplyBuffer, StepResult, CONNECT_TIMEOUT_SECS,
    REPLY_TIMEOUT_SECS, SEND_TIMEOUT_SECS,
};
use code_monkey::grouper::BlockType;
use code_monkey::parser::types::{Directive, FrontMatter, ParsedLine, Script};
use code_monkey::protocol::codec::encode_message;
use code_monkey::protocol::messages::{AckStatus, Message};
use code_monkey::protocol::stream::ReadEvent;

fn make_test_script(directives: Vec<Directive>) -> Script {
    Script {
        front_matter: FrontMatter::default(),
        lines: directives
            .into_iter()
            .enumerate()
            .map(|(i, directive)| ParsedLine {
                line_number: i + 1,
                directive,
            })
            .collect(),
    }
}

fn ack_ok() -> Message {
    Message::Ack {
        status: AckStatus::Success,
        message: None,
    }
}

/// Stands in for the agent and the connection to it: answers the handshake,
/// then each request with the next of the prepared responses, and counts
/// as closed by the peer once they are used up.
struct MockServer {
    responses: std::vec::IntoIter<Message>,
    received: Vec<Message>,
}

impl MockServer {
    fn start(responses: Vec<Message>) -> Self {
        MockServer {
            responses: responses.into_iter(),
            received: Vec::new(),
        }
    }

    fn connect(&self, presenter: &mut Presenter) -> Result<(), HandshakeError> {
        let ping = presenter.handshake_request();
        assert_eq!(ping, Message::Ping);
        presenter.connect(Exchange::Reply(Message::Pong))
    }

    fn step(&mut self, presenter: &mut Presenter) -> StepResult {
        let outcome = match presenter.pending_request() {
            None => Exchange::Lost,
            Some(_) if !presenter.is_connected() => Exchange::Lost,
            Some(request) => {
                self.received.push(request);
                match self.responses.next() {
                    Some(response) => Exchange::Reply(response),
                    None => Exchange::Lost,
                }
            }
        };
        presenter.step(outcome)
    }
}

#[test]
fn test_client_connects() {
    let server = MockServer::start(vec![]);
    let script = make_test_script(vec![Directive::Run]);
    let mut presenter = Presenter::new(script);
    assert!(server.connect(&mut presenter).is_ok());
    assert!(presenter.is_connected());
}

#[test]
fn test_client_sends_execute_receives_ack() {
    let mut server = MockServer::start(vec![ack_ok()]);

    let script = make_test_script(vec![Directive::Focus("Terminal".into()), Directive::Run]);
    let mut presenter = Presenter::new(script);
    server.connect(&mut presenter).unwrap();

    let result = server.step(&mut presenter);
    assert_eq!(result, StepResult::Executed);
    assert_eq!(presenter.progress(), (1, 1));

    let received = server.received;
    assert_eq!(received.len(), 1);
    assert_eq!(
        received[0],
        Message::Execute {
            actions: vec![Directive::Focus("Terminal".into()), Directive::Run],
            typing_speed: 40,
            typing_variance: 15,
        }
    );
}

#[test]
fn test_client_handles_error_ack() {
    let mut server = MockServer::start(vec![Message::Ack {
        status: AckStatus::Error,
        message: Some("no accessibility".into()),
    }]);

    let script = make_test_script(vec![Directive::Run]);
    let mut presenter = Presenter::new(script);
    server.connect(&mut presenter).unwrap();

    let result = server.step(&mut presenter);
    match result {
        StepResult::AgentError(msg) => assert!(msg.contains("no accessibility")),
        other => panic!("Expected AgentError, got {other:?}"),
    }
    // current should NOT advance on error
    assert_eq!(presenter.progress(), (0, 1));
}

#[test]
fn test_client_tracks_block_progress() {
    let responses = vec![ack_ok(), ack_ok(), ack_ok()];
    let mut server = MockServer::start(responses);

    let script = make_test_script(vec![
        Directive::Say("one".into()),
        Directive::Run,
        Directive::Say("two".into()),
        Directive::Run,
        Directive::Say("three".into()),
        Directive::Run,
    ]);
    let mut presenter = Presenter::new(script);
    server.connect(&mut presenter).unwrap();

    assert_eq!(presenter.progress(), (0, 3));
    server.step(&mut presenter);
    assert_eq!(presenter.progress(), (1, 3));
    server.step(&mut presenter);
    assert_eq!(presenter.progress(), (2, 3));
    server.step(&mut presenter);
    assert_eq!(presenter.progress(), (3, 3));
}

#[test]
fn test_client_narration_only_no_network() {
    // No server needed: narration-only blocks don't use the network
    let script = make_test_script(vec![Directive::Say("hello".into())]);
    let mut presenter = Presenter::new(script);
    // Don't connect: narration only shouldn't need it
    assert_eq!(presenter.pending_request(), None);

    let result = presenter.step(Exchange::Lost);
    assert_eq!(result, StepResult::NarrationOnly);
}

#[test]
fn test_client_reconnects_after_disconnect() {
    // First server: handles handshake + one Execute, then shuts down
    let mut server1 = MockServer::start(vec![ack_ok()]);

    let script = make_test_script(vec![
        Directive::Say("first".into()),
        Directive::Run,
        Directive::Say("second".into()),
        Directive::Run,
    ]);
    let mut presenter = Presenter::new(script);
    server1.connect(&mut presenter).unwrap();

    // First step succeeds
    let result = server1.step(&mut presenter);
    assert_eq!(result, StepResult::Executed);

    // Server closes connection, so second step loses connection
    let result = server1.step(&mut presenter);
    assert_eq!(result, StepResult::ConnectionLost);
    assert!(!presenter.is_connected());

    // Start a new server: handles handshake + Execute
    let mut server2 = MockServer::start(vec![ack_ok()]);

    // Reconnect (includes ping/pong handshake)
    assert!(server2.connect(&mut presenter).is_ok());
    assert!(presenter.is_connected());

    // Step should work again
    let result = server2.step(&mut presenter);
    assert_eq!(result, StepResult::Executed);
}

#[test]
fn test_client_pause_no_network() {
    let script = make_test_script(vec![Directive::Pause(Some(3))]);
    let mut presenter = Presenter::new(script);
    assert_eq!(presenter.pending_request(), None);

    let result = presenter.step(Exchange::Lost);
    assert_eq!(result, StepResult::Paused(Some(3)));
}

#[test]
fn two_narrated_runs_advance_one_block_per_ack() {
    let mut server = MockServer::start(vec![ack_ok(), ack_ok()]);
    let script = make_test_script(vec![
        Directive::Say("one".into()),
        Directive::Run,
        Directive::Say("two".into()),
        Directive::Run,
    ]);
    let mut presenter = Presenter::new(script);
    server.connect(&mut presenter).unwrap();
    assert_eq!(presenter.progress(), (0, 2));
    assert_eq!(server.step(&mut presenter), StepResult::Executed);
    assert_eq!(presenter.progress(), (1, 2));
    assert_eq!(server.step(&mut presenter), StepResult::Executed);
    assert_eq!(presenter.progress(), (2, 2));
    assert_eq!(server.received.len(), 2);
}

#[test]
fn narration_only_and_pause_need_no_connection() {
    let script = make_test_script(vec![Directive::Say("hello".into())]);
    let mut presenter = Presenter::new(script);
    assert!(!presenter.is_connected());
    assert_eq!(
        presenter.current_block().unwrap().block_type,
        BlockType::NarrationOnly
    );
    assert_eq!(presenter.step(Exchange::Malformed), StepResult::NarrationOnly);
    assert_eq!(presenter.progress(), (1, 1));
    assert!(!presenter.is_connected());

    let script = make_test_script(vec![Directive::Pause(None), Directive::Pause(Some(3))]);
    let mut presenter = Presenter::new(script);
    assert_eq!(presenter.step(Exchange::Reply(Message::Ping)), StepResult::Paused(None));
    assert_eq!(presenter.step(Exchange::Lost), StepResult::Paused(Some(3)));
    assert_eq!(presenter.progress(), (2, 2));
}

#[test]
fn finished_is_returned_again_and_again() {
    let mut presenter = Presenter::new(make_test_script(vec![]));
    assert_eq!(presenter.progress(), (0, 0));
    assert!(presenter.current_block().is_none());
    assert_eq!(presenter.pending_request(), None);
    for _ in 0..3 {
        assert_eq!(presenter.step(Exchange::Reply(ack_ok())), StepResult::Finished);
        assert_eq!(presenter.step(Exchange::Lost), StepResult::Finished);
        assert_eq!(presenter.progress(), (0, 0));
    }
    let mut presenter = Presenter::new(make_test_script(vec![Directive::Say("x".into())]));
    presenter.connect(Exchange::Reply(Message::Pong)).unwrap();
    assert_eq!(presenter.step(Exchange::Lost), StepResult::NarrationOnly);
    assert_eq!(presenter.step(Exchange::Lost), StepResult::Finished);
    assert_eq!(presenter.progress(), (1, 1));
    assert!(presenter.is_connected());
}

#[test]
fn failures_leave_the_progress_unchanged() {
    let script = make_test_script(vec![
        Directive::Say("x".into()),
        Directive::Run,
        Directive::Pause(None),
    ]);
    let mut presenter = Presenter::new(script);
    presenter.connect(Exchange::Reply(Message::Pong)).unwrap();
    let failures = vec![
        (
            Exchange::Reply(Message::Ack {
                status: AckStatus::Error,
                message: Some("boom".into()),
            }),
            StepResult::AgentError("boom".into()),
            true,
        ),
        (
            Exchange::Reply(Message::Ack {
                status: AckStatus::Error,
                message: None,
            }),
            StepResult::AgentError("Unknown agent error".into()),
            true,
        ),
        (
            Exchange::Reply(Message::Pong),
            StepResult::AgentError("unexpected response".into()),
            true,
        ),
        (
            Exchange::Reply(Message::Ping),
            StepResult::AgentError("unexpected response".into()),
            true,
        ),
        (
            Exchange::Reply(Message::Execute {
                actions: vec![],
                typing_speed: 0,
                typing_variance: 0,
            }),
            StepResult::AgentError("unexpected response".into()),
            true,
        ),
        (
            Exchange::Malformed,
            StepResult::AgentError("unexpected response".into()),
            true,
        ),
        (Exchange::Lost, StepResult::ConnectionLost, false),
    ];
    for (outcome, expected, still_connected) in failures {
        assert_eq!(presenter.step(outcome), expected);
        assert_eq!(presenter.progress(), (0, 2));
        assert_eq!(presenter.is_connected(), still_connected);
    }
    assert_eq!(
        presenter.step(Exchange::Reply(Message::Ack {
            status: AckStatus::Success,
            message: Some("note".into()),
        })),
        StepResult::Executed
    );
    assert_eq!(presenter.progress(), (1, 2));
}

#[test]
fn handshake_succeeds_only_on_pong() {
    let mut presenter = Presenter::new(make_test_script(vec![Directive::Run]));
    assert!(!presenter.is_connected());
    assert_eq!(presenter.handshake_request(), Message::Ping);

    assert_eq!(
        presenter.connect(Exchange::Reply(ack_ok())),
        Err(HandshakeError::Unexpected(ack_ok()))
    );
    assert!(!presenter.is_connected());
    assert_eq!(
        presenter.connect(Exchange::Reply(Message::Ping)),
        Err(HandshakeError::Unexpected(Message::Ping))
    );
    assert!(!presenter.is_connected());
    assert_eq!(
        presenter.connect(Exchange::Malformed),
        Err(HandshakeError::Malformed)
    );
    assert!(!presenter.is_connected());
    assert_eq!(presenter.connect(Exchange::Lost), Err(HandshakeError::NoReply));
    assert!(!presenter.is_connected());

    assert_eq!(presenter.connect(Exchange::Reply(Message::Pong)), Ok(()));
    assert!(presenter.is_connected());
    assert_eq!(presenter.progress(), (0, 1));

    assert_eq!(
        presenter.connect(Exchange::Reply(ack_ok())),
        Err(HandshakeError::Unexpected(ack_ok()))
    );
    assert!(!presenter.is_connected());
}

#[test]
fn request_carries_the_actions_and_the_typing_cadence() {
    let mut script = make_test_script(vec![
        Directive::Section("S".into()),
        Directive::Say("n".into()),
        Directive::Type("ls".into()),
        Directive::Run,
        Directive::Pause(None),
    ]);
    script.front_matter.typing_speed = 7;
    script.front_matter.typing_variance = 0;
    let mut presenter = Presenter::new(script);
    assert_eq!(
        presenter.pending_request(),
        Some(Message::Execute {
            actions: vec![Directive::Type("ls".into()), Directive::Run],
            typing_speed: 7,
            typing_variance: 0,
        })
    );
    let block = presenter.current_block().unwrap();
    assert_eq!(block.narration.as_deref(), Some("n"));
    assert_eq!(block.section.as_deref(), Some("S"));
    assert_eq!(presenter.step(Exchange::Reply(ack_ok())), StepResult::Executed);
    assert_eq!(presenter.pending_request(), None);
    assert_eq!(
        presenter.current_block().unwrap().block_type,
        BlockType::Pause(None)
    );
}

#[test]
fn go_back_and_skip_are_clamped() {
    let script = make_test_script(vec![
        Directive::Run,
        Directive::Pause(None),
        Directive::Run,
    ]);
    let mut presenter = Presenter::new(script);
    presenter.go_back();
    assert_eq!(presenter.progress(), (0, 3));
    presenter.skip();
    assert_eq!(presenter.progress(), (1, 3));
    presenter.skip();
    presenter.skip();
    assert_eq!(presenter.progress(), (3, 3));
    presenter.skip();
    assert_eq!(presenter.progress(), (3, 3));
    assert!(presenter.current_block().is_none());
    presenter.go_back();
    assert_eq!(presenter.progress(), (2, 3));
    assert_eq!(
        presenter.current_block().unwrap().block_type,
        BlockType::Action
    );
    assert_eq!(presenter.step(Exchange::Lost), StepResult::ConnectionLost);
    presenter.skip();
    assert_eq!(presenter.step(Exchange::Lost), StepResult::Finished);
}

#[test]
fn reply_is_whole_once_its_frame_has_arrived() {
    let framed = encode_message(b"reply").unwrap();
    for cut in 1..framed.len() {
        let mut buffer = ReplyBuffer::new();
        assert_eq!(
            buffer.on_read(ReadEvent::Data(framed[..cut].to_vec())),
            Received::Incomplete,
            "after {cut} bytes"
        );
        assert_eq!(
            buffer.on_read(ReadEvent::Data(framed[cut..].to_vec())),
            Received::Payload(b"reply".to_vec())
        );
    }
    let mut buffer = ReplyBuffer::new();
    let mut more = framed.clone();
    more.extend_from_slice(b"extra");
    assert_eq!(
        buffer.on_read(ReadEvent::Data(more)),
        Received::Payload(b"reply".to_vec())
    );
}

#[test]
fn reply_is_lost_when_a_read_brings_nothing() {
    let framed = encode_message(b"reply").unwrap();
    for event in [
        ReadEvent::Closed,
        ReadEvent::TimedOut,
        ReadEvent::Failed,
        ReadEvent::Data(vec![]),
    ] {
        let mut buffer = ReplyBuffer::new();
        assert_eq!(
            buffer.on_read(ReadEvent::Data(framed[..3].to_vec())),
            Received::Incomplete
        );
        assert_eq!(buffer.on_read(event), Received::Lost);
    }
}

#[test]
fn reply_beyond_the_limit_is_malformed() {
    let mut buffer = ReplyBuffer::new();
    assert_eq!(
        buffer.on_read(ReadEvent::Data(vec![0xff, 0xff])),
        Received::Incomplete
    );
    assert_eq!(
        buffer.on_read(ReadEvent::Data(vec![0xff, 0xff])),
        Received::Malformed
    );
}

#[test]
fn client_timeouts_are_bounded() {
    assert_eq!(CONNECT_TIMEOUT_SECS, 5);
    assert_eq!(REPLY_TIMEOUT_SECS, 30);
    assert_eq!(SEND_TIMEOUT_SECS, 5);
}
