//! Tests of the protocol types and of the conversion into the upstream
//! request shape.

use chat_base::protocol::{AppMessage, Message, Role};
use chat_base::request::to_request_messages;

#[test]
fn role_empty_makes_empty_message() {
    let m = Role::User.empty();
    assert_eq!(m.role(), Role::User);
    assert_eq!(m.content(), "");
}

#[test]
fn role_message_keeps_content() {
    let m = Role::Assistant.message("fine, thanks".to_string());
    assert_eq!(m.role(), Role::Assistant);
    assert_eq!(m.content(), "fine, thanks");
}

#[test]
fn message_equality_is_by_fields() {
    let a = Role::System.message("x".to_string());
    let b = Role::System.message("x".to_string());
    let c = Role::User.message("x".to_string());
    let d = Role::System.message("y".to_string());
    assert_eq!(a, b);
    assert_ne!(a, c);
    assert_ne!(a, d);
}

#[test]
fn app_message_equality() {
    let a = AppMessage::StartChat(vec![Role::User.message("hi".to_string())]);
    let b = AppMessage::StartChat(vec![Role::User.message("hi".to_string())]);
    let c = AppMessage::StartChat(vec![Role::User.message("ho".to_string())]);
    assert_eq!(a, b);
    assert_ne!(a, c);
    assert_ne!(a, AppMessage::ChatCompleted);
    assert_eq!(AppMessage::ChatCompleted, AppMessage::ChatCompleted);
}

#[test]
fn conversion_yields_one_request_message_per_message() {
    let conversation = vec![
        Role::System.message("be terse".to_string()),
        Role::User.message("hi".to_string()),
        Role::Assistant.message("hello".to_string()),
    ];
    let converted = to_request_messages(&conversation).expect("plain text converts");
    assert_eq!(converted.len(), conversation.len());
}

#[test]
fn conversion_of_empty_conversation() {
    let converted = to_request_messages(&vec![]).expect("an empty conversation converts");
    assert_eq!(converted.len(), 0);
}
