//! Conversion of a conversation into the upstream completion request
//! shape: each chat message becomes one role-tagged request message of the
//! upstream client's API. A conversion failure is mapped to the generic
//! chat error and surfaced to the client as an error frame.

use vstd::prelude::*;

use crate::protocol::{AppError, Message, Role};

verus! {

#[verifier::external_type_specification]
#[verifier::external_body]
pub struct ExChatCompletionRequestMessage(
    async_openai::types::chat::ChatCompletionRequestMessage,
);

#[verifier::external_type_specification]
#[verifier::external_body]
pub struct ExOpenAIError(async_openai::error::OpenAIError);

/// Relies on `ChatCompletionRequestSystemMessageArgs`: builds the upstream
/// request message for a system message with the given content. The call
/// always succeeds: the builder declares a default for every field, so
/// `build` has no failure path.
#[verifier::external_body]
fn system_request(content: String) -> (r: Result<
    async_openai::types::chat::ChatCompletionRequestMessage,
    async_openai::error::OpenAIError,
>)
    ensures
        r is Ok,
{
    async_openai::types::chat::ChatCompletionRequestSystemMessageArgs::default()
        .content(content)
        .build()
        .map(Into::into)
}

/// Relies on `ChatCompletionRequestUserMessageArgs`: builds the upstream
/// request message for a user message with the given content. The call
/// always succeeds: the builder declares a default for every field, so
/// `build` has no failure path.
#[verifier::external_body]
fn user_request(content: String) -> (r: Result<
    async_openai::types::chat::ChatCompletionRequestMessage,
    async_openai::error::OpenAIError,
>)
    ensures
        r is Ok,
{
    async_openai::types::chat::ChatCompletionRequestUserMessageArgs::default()
        .content(content)
        .build()
        .map(Into::into)
}

/// Relies on `ChatCompletionRequestAssistantMessageArgs`: builds the
/// upstream request message for an assistant message with the given
/// content. The call always succeeds: the builder declares a default for
/// every field, so `build` has no failure path.
#[verifier::external_body]
fn assistant_request(content: String) -> (r: Result<
    async_openai::types::chat::ChatCompletionRequestMessage,
    async_openai::error::OpenAIError,
>)
    ensures
        r is Ok,
{
    async_openai::types::chat::ChatCompletionRequestAssistantMessageArgs::default()
        .content(content)
        .build()
        .map(Into::into)
}

/// Convert one chat message into the upstream request shape, by its role.
/// Every role is convertible, so the conversion succeeds on every message;
/// a failure reported by the upstream builder would be mapped to the
/// generic chat error.
pub fn to_request_message(m: &Message) -> (r: Result<
    async_openai::types::chat::ChatCompletionRequestMessage,
    AppError,
>)
    ensures
        r is Ok,
        r matches Err(e) ==> e == AppError::ChatError,
{
    let built = match m.role {
        Role::Assistant => assistant_request(m.content.clone()),
        Role::System => system_request(m.content.clone()),
        Role::User => user_request(m.content.clone()),
    };
    match built {
        Ok(v) => Ok(v),
        Err(_) => Err(AppError::ChatError),
    }
}

/// Convert a whole conversation into the upstream request shape, in order.
/// Conversion succeeds on every conversation, with exactly one request
/// message per chat message; a message that failed to convert would abort
/// the conversion with the generic chat error.
#[verifier::loop_isolation(false)]
pub fn to_request_messages(messages: &Vec<Message>) -> (r: Result<
    Vec<async_openai::types::chat::ChatCompletionRequestMessage>,
    AppError,
>)
    ensures
        r is Ok,
        r matches Ok(v) ==> v@.len() == messages@.len(),
        r matches Err(e) ==> e == AppError::ChatError,
{
    let mut out: Vec<async_openai::types::chat::ChatCompletionRequestMessage> = Vec::new();
    let mut i: usize = 0;
    while i < messages.len()
        invariant
            i <= messages@.len(),
            out@.len() == i,
        decreases messages@.len() - i,
    {
        match to_request_message(&messages[i]) {
            Ok(v) => out.push(v),
            Err(e) => {
                return Err(e);
            },
        }
        i = i + 1;
    }
    Ok(out)
}

} // verus!
