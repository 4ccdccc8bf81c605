//! Tests of the relay: the busy gate, frame dispatch, and the four
//! end-to-end scenarios of one connection's life.

use chat_base::adapter::{step_ends, step_message, turn_step, TurnStep, UpstreamEvent};
use chat_base::codec::{decode, encode, TransportFrame};
use chat_base::protocol::{AppError, AppMessage, Message, Role};
use chat_base::relay::{chat, dispatch_frame, Dispatch};
use chat_base::session::SessionState;

fn start_chat_frame(messages: Vec<Message>) -> TransportFrame {
    TransportFrame::Binary(encode(&AppMessage::StartChat(messages)))
}

#[test]
fn session_gate_grants_once() {
    let mut s = SessionState::new();
    assert!(s.try_begin());
    assert!(!s.try_begin());
    s.end();
    assert!(s.try_begin());
}

#[test]
fn dispatch_accepts_start_chat() {
    let messages = vec![Role::System.message("be terse".to_string())];
    match dispatch_frame(&start_chat_frame(messages.clone())) {
        Dispatch::Begin(ms) => assert_eq!(ms, messages),
        _ => panic!("a chat request must begin a turn"),
    }
}

#[test]
fn dispatch_flags_server_only_messages() {
    for m in [
        AppMessage::NextChatFragment("x".to_string()),
        AppMessage::ChatCompleted,
        AppMessage::Error(AppError::ChatError),
    ] {
        match dispatch_frame(&TransportFrame::Binary(encode(&m))) {
            Dispatch::Violation => {},
            _ => panic!("a server-only message from the client is a protocol violation"),
        }
    }
}

#[test]
fn dispatch_ignores_undecodable_payload() {
    match dispatch_frame(&TransportFrame::Binary(vec![0xba, 0xd1])) {
        Dispatch::Ignore => {},
        _ => panic!("garbage is ignored"),
    }
}

#[test]
fn turn_step_cases() {
    assert!(matches!(turn_step(&UpstreamEvent::Failed), TurnStep::Failed));
    assert!(matches!(turn_step(&UpstreamEvent::NoChoices), TurnStep::Failed));
    assert!(matches!(turn_step(&UpstreamEvent::Finished), TurnStep::Finished));
    assert!(matches!(turn_step(&UpstreamEvent::Closed), TurnStep::Finished));
    assert!(matches!(turn_step(&UpstreamEvent::Delta(None)), TurnStep::Failed));
    assert!(matches!(turn_step(&UpstreamEvent::Delta(Some(String::new()))), TurnStep::Continue));
    match turn_step(&UpstreamEvent::Delta(Some("Hel".to_string()))) {
        TurnStep::Emit(s) => assert_eq!(s, "Hel"),
        _ => panic!("a non-empty delta yields a fragment"),
    }
}

#[test]
fn step_messages_and_ends() {
    let emit = turn_step(&UpstreamEvent::Delta(Some("x".to_string())));
    assert!(!step_ends(&emit));
    assert_eq!(step_message(emit), Some(AppMessage::NextChatFragment("x".to_string())));

    let finished = turn_step(&UpstreamEvent::Finished);
    assert!(step_ends(&finished));
    assert_eq!(step_message(finished), Some(AppMessage::ChatCompleted));

    let failed = turn_step(&UpstreamEvent::Failed);
    assert!(step_ends(&failed));
    assert_eq!(step_message(failed), Some(AppMessage::Error(AppError::ChatError)));

    let quiet = turn_step(&UpstreamEvent::Delta(Some(String::new())));
    assert!(!step_ends(&quiet));
    assert_eq!(step_message(quiet), None);
}

/// A completed turn: both fragments arrive in order, then the success
/// conclusion, and the session takes the next request.
#[test]
fn scenario_completed_turn() {
    let mut s = SessionState::new();
    let frame = start_chat_frame(vec![
        Role::System.message("be terse".to_string()),
        Role::User.message("hi".to_string()),
    ]);
    let events = match dispatch_frame(&frame) {
        Dispatch::Begin(_messages) => vec![
            UpstreamEvent::Delta(Some("Hel".to_string())),
            UpstreamEvent::Delta(Some("lo!".to_string())),
            UpstreamEvent::Finished,
        ],
        _ => panic!("the request must begin a turn"),
    };
    let frames = chat(&mut s, &events);
    assert_eq!(
        frames,
        vec![
            AppMessage::NextChatFragment("Hel".to_string()),
            AppMessage::NextChatFragment("lo!".to_string()),
            AppMessage::ChatCompleted,
        ]
    );
    assert!(s.try_begin());
}

/// Scenario B: a second chat request arriving while a turn is in flight
/// produces no frames and does not disturb the turn in flight.
#[test]
fn scenario_busy_rejection() {
    let mut s = SessionState::new();
    // A first turn has been accepted and has not ended yet.
    assert!(s.try_begin());

    // A second request arrives and is dropped silently.
    let second = start_chat_frame(vec![Role::User.message("again".to_string())]);
    match dispatch_frame(&second) {
        Dispatch::Begin(_messages) => {
            let frames = chat(&mut s, &vec![UpstreamEvent::Finished]);
            assert_eq!(frames, vec![]);
        },
        _ => panic!("the request itself still decodes"),
    }

    // The first turn streams on, unaffected.
    let mut frames: Vec<AppMessage> = Vec::new();
    for ev in [
        UpstreamEvent::Delta(Some("Hel".to_string())),
        UpstreamEvent::Delta(Some("lo!".to_string())),
        UpstreamEvent::Finished,
    ] {
        let step = turn_step(&ev);
        let ended = step_ends(&step);
        if let Some(m) = step_message(step) {
            frames.push(m);
        }
        if ended {
            s.end();
            break;
        }
    }
    assert_eq!(
        frames,
        vec![
            AppMessage::NextChatFragment("Hel".to_string()),
            AppMessage::NextChatFragment("lo!".to_string()),
            AppMessage::ChatCompleted,
        ]
    );
    assert!(s.try_begin());
}

/// Scenario C: a text frame is no protocol payload: no decode error, no
/// frames, the connection stays open.
#[test]
fn scenario_text_frame_ignored() {
    match dispatch_frame(&TransportFrame::Text("not a payload".to_string())) {
        Dispatch::Ignore => {},
        _ => panic!("a text frame carries no protocol message"),
    }
}

/// Scenario D: an upstream failure after one fragment yields that fragment,
/// then the error terminal frame; a following request is accepted.
#[test]
fn scenario_failed_turn() {
    let mut s = SessionState::new();
    let events = vec![UpstreamEvent::Delta(Some("par".to_string())), UpstreamEvent::Failed];
    let frames = chat(&mut s, &events);
    assert_eq!(
        frames,
        vec![
            AppMessage::NextChatFragment("par".to_string()),
            AppMessage::Error(AppError::ChatError),
        ]
    );
    assert!(s.try_begin());
}

/// An upstream that yields a fragment and then nothing at all leaves the
/// turn unfinished: no conclusion is sent and the session stays busy.
#[test]
fn stalled_upstream_keeps_gate() {
    let mut s = SessionState::new();
    let events = vec![UpstreamEvent::Delta(Some("...".to_string()))];
    let frames = chat(&mut s, &events);
    assert_eq!(frames, vec![AppMessage::NextChatFragment("...".to_string())]);
    assert!(!s.try_begin());
}

/// Events after the terminal event are never observed.
#[test]
fn events_after_terminal_are_discarded() {
    let mut s = SessionState::new();
    let events = vec![
        UpstreamEvent::Finished,
        UpstreamEvent::Delta(Some("late".to_string())),
        UpstreamEvent::Failed,
    ];
    let frames = chat(&mut s, &events);
    assert_eq!(frames, vec![AppMessage::ChatCompleted]);
    assert!(s.try_begin());
}

/// An upstream stream that ends without a finish indicator still concludes
/// the turn successfully: there is nothing more to wait for.
#[test]
fn stream_end_concludes_turn() {
    let mut s = SessionState::new();
    let events = vec![UpstreamEvent::Delta(Some("all".to_string())), UpstreamEvent::Closed];
    let frames = chat(&mut s, &events);
    assert_eq!(
        frames,
        vec![AppMessage::NextChatFragment("all".to_string()), AppMessage::ChatCompleted]
    );
    assert!(s.try_begin());
}

/// An upstream that fails before producing anything (a conversion failure,
/// a request that cannot be built, a stream that cannot be created) yields
/// only the error terminal frame.
#[test]
fn immediate_failure_yields_only_error() {
    let mut s = SessionState::new();
    let frames = chat(&mut s, &vec![UpstreamEvent::Failed]);
    assert_eq!(frames, vec![AppMessage::Error(AppError::ChatError)]);
    assert!(s.try_begin());
}

/// End to end over the wire: the client's encoded request is decoded and
/// dispatched, the turn is serviced, and every outgoing frame decodes on
/// the client side to the message the server meant.
#[test]
fn end_to_end_wire_exchange() {
    let mut s = SessionState::new();
    let request = AppMessage::StartChat(vec![
        Role::System.message("be terse".to_string()),
        Role::User.message("hi".to_string()),
    ]);
    let wire = encode(&request);
    let frames = match dispatch_frame(&TransportFrame::Binary(wire)) {
        Dispatch::Begin(_messages) => chat(
            &mut s,
            &vec![
                UpstreamEvent::Delta(Some("Hel".to_string())),
                UpstreamEvent::Delta(Some("lo!".to_string())),
                UpstreamEvent::Finished,
            ],
        ),
        _ => panic!("the encoded request must begin a turn"),
    };
    let mut seen: Vec<AppMessage> = Vec::new();
    for frame in &frames {
        let bytes = encode(frame);
        seen.push(decode(&bytes).expect("every outgoing frame decodes"));
    }
    assert_eq!(seen, frames);
    assert_eq!(
        seen,
        vec![
            AppMessage::NextChatFragment("Hel".to_string()),
            AppMessage::NextChatFragment("lo!".to_string()),
            AppMessage::ChatCompleted,
        ]
    );
}
