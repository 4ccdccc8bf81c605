//! Tests of the wire protocol codec: round trips, byte-for-byte
//! compatibility with the peer's serializer, inert non-binary frames, and
//! rejection of malformed payloads.

use chat_base::codec::{decode, decode_message, encode, TransportFrame};
use chat_base::protocol::{AppError, AppMessage, Message, Role};

fn round_trip(m: AppMessage) {
    let bytes = encode(&m);
    let back = decode(bytes.as_slice()).expect("a fresh encoding must decode");
    assert_eq!(back, m);
}

#[test]
fn round_trip_chat_completed() {
    round_trip(AppMessage::ChatCompleted);
}

#[test]
fn round_trip_fragment() {
    round_trip(AppMessage::NextChatFragment(String::new()));
    round_trip(AppMessage::NextChatFragment("Hel".to_string()));
    round_trip(AppMessage::NextChatFragment("snowman \u{2603} and beyond \u{1F600}".to_string()));
}

#[test]
fn round_trip_errors() {
    round_trip(AppMessage::Error(AppError::NotFound));
    round_trip(AppMessage::Error(AppError::ChatError));
    round_trip(AppMessage::Error(AppError::ServerError));
}

#[test]
fn round_trip_start_chat() {
    round_trip(AppMessage::StartChat(vec![]));
    round_trip(AppMessage::StartChat(vec![
        Role::System.message("be terse".to_string()),
        Role::User.message("hi".to_string()),
    ]));
    round_trip(AppMessage::StartChat(vec![
        Role::Assistant.message(String::new()),
        Role::User.message("caf\u{e9}".to_string()),
        Role::System.empty(),
    ]));
}

#[test]
fn bytes_match_peer_serializer_completed() {
    // The peer serializes the tagged union with a little-endian u32 variant
    // tag; a variant without fields is just its tag.
    let expected = bincode::serialize(&2u32).unwrap();
    assert_eq!(encode(&AppMessage::ChatCompleted), expected);
}

#[test]
fn bytes_match_peer_serializer_fragment() {
    let expected = bincode::serialize(&(1u32, "Hel".to_string())).unwrap();
    assert_eq!(encode(&AppMessage::NextChatFragment("Hel".to_string())), expected);
}

#[test]
fn bytes_match_peer_serializer_error() {
    let expected = bincode::serialize(&(3u32, 1u32)).unwrap();
    assert_eq!(encode(&AppMessage::Error(AppError::ChatError)), expected);
}

#[test]
fn bytes_match_peer_serializer_start_chat() {
    // A message is its role tag then its content; a sequence carries its
    // length as a little-endian u64.
    let expected = bincode::serialize(&(
        0u32,
        vec![(1u32, "be terse".to_string()), (2u32, "hi".to_string())],
    ))
    .unwrap();
    let ours = encode(&AppMessage::StartChat(vec![
        Role::System.message("be terse".to_string()),
        Role::User.message("hi".to_string()),
    ]));
    assert_eq!(ours, expected);
}

#[test]
fn bytes_match_peer_serializer_unicode() {
    let expected = bincode::serialize(&(1u32, "caf\u{e9} \u{2603}".to_string())).unwrap();
    assert_eq!(encode(&AppMessage::NextChatFragment("caf\u{e9} \u{2603}".to_string())), expected);
}

#[test]
fn decode_accepts_peer_serialized_bytes() {
    let bytes = bincode::serialize(&(
        0u32,
        vec![(0u32, "earlier answer".to_string()), (2u32, "go on".to_string())],
    ))
    .unwrap();
    let m = decode(&bytes).expect("peer-serialized bytes must decode");
    assert_eq!(
        m,
        AppMessage::StartChat(vec![
            Role::Assistant.message("earlier answer".to_string()),
            Role::User.message("go on".to_string()),
        ])
    );
}

#[test]
fn decode_rejects_empty() {
    assert!(decode(&[]).is_err());
}

#[test]
fn decode_rejects_truncated_tag() {
    assert!(decode(&[1, 0, 0]).is_err());
}

#[test]
fn decode_rejects_unknown_tag() {
    assert!(decode(&[7, 0, 0, 0]).is_err());
}

#[test]
fn decode_rejects_truncated_fragment() {
    // Fragment tag, length 5, but only three bytes of content.
    let bytes = [1, 0, 0, 0, 5, 0, 0, 0, 0, 0, 0, 0, b'a', b'b', b'c'];
    assert!(decode(&bytes).is_err());
}

#[test]
fn decode_rejects_invalid_utf8() {
    // Fragment tag, length 1, one byte that is no UTF-8 encoding.
    let bytes = [1, 0, 0, 0, 1, 0, 0, 0, 0, 0, 0, 0, 0xff];
    assert!(decode(&bytes).is_err());
}

#[test]
fn decode_rejects_unknown_role_tag() {
    let bytes = bincode::serialize(&(0u32, vec![(9u32, "x".to_string())])).unwrap();
    assert!(decode(&bytes).is_err());
}

#[test]
fn decode_rejects_unknown_error_tag() {
    assert!(decode(&[3, 0, 0, 0, 9, 0, 0, 0]).is_err());
}

#[test]
fn decode_rejects_short_message_count() {
    // StartChat tag, two messages announced, none present.
    let bytes = [0, 0, 0, 0, 2, 0, 0, 0, 0, 0, 0, 0];
    assert!(decode(&bytes).is_err());
}

#[test]
fn decode_allows_trailing_bytes() {
    // The peer's deserializer reads one value from the front and ignores
    // what follows; ours does the same.
    let mut bytes = encode(&AppMessage::ChatCompleted);
    bytes.extend_from_slice(&[0xde, 0xad]);
    assert_eq!(decode(&bytes).unwrap(), AppMessage::ChatCompleted);
}

#[test]
fn non_binary_frames_are_inert() {
    assert_eq!(decode_message(&TransportFrame::Text("hello".to_string())), None);
    assert_eq!(decode_message(&TransportFrame::Ping(vec![1, 2])), None);
    assert_eq!(decode_message(&TransportFrame::Pong(vec![])), None);
    assert_eq!(decode_message(&TransportFrame::Close), None);
}

#[test]
fn binary_frame_decodes() {
    let payload = encode(&AppMessage::NextChatFragment("lo!".to_string()));
    assert_eq!(
        decode_message(&TransportFrame::Binary(payload)),
        Some(AppMessage::NextChatFragment("lo!".to_string()))
    );
}

#[test]
fn binary_frame_with_garbage_yields_no_message() {
    assert_eq!(decode_message(&TransportFrame::Binary(vec![9, 9, 9])), None);
}
