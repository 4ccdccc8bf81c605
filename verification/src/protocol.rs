//! The application message protocol: chat roles, chat messages, the wire
//! envelope exchanged over a connection, and the error kinds a server can
//! report.

use vstd::prelude::*;

verus! {

/// The role of a message in the chat.
#[derive(Debug, Copy, Clone, PartialEq, Eq, Structural)]
pub enum Role {
    /// The assistant's role: the side that generates the chat responses.
    Assistant,
    /// The system's role: the prompt that constrains how the assistant
    /// generates the chat responses.
    System,
    /// The user's role: the person interacting with the chat.
    User,
}

/// The error kinds the application reports.
#[derive(Debug, Copy, Clone, PartialEq, Eq, Structural)]
pub enum AppError {
    /// A resource was not found.
    NotFound,
    /// A chat turn could not be serviced.
    ChatError,
    /// The server failed internally.
    ServerError,
}

/// A message in the chat: a system prompt, or a message sent between the
/// user and the assistant.
#[derive(Debug, Clone)]
pub struct Message {
    /// The role of the message in the chat.
    pub role: Role,
    /// The content of the message.
    pub content: String,
}

/// The mathematical model of a [`Message`]: its role and the characters of
/// its content.
pub struct MessageView {
    pub role: Role,
    pub content: Seq<char>,
}

impl View for Message {
    type V = MessageView;

    open spec fn view(&self) -> MessageView {
        MessageView { role: self.role, content: self.content@ }
    }
}

impl Role {
    /// Create a message with no content, using the receiver as the role.
    pub fn empty(self) -> (m: Message)
        ensures
            m.role == self,
            m@.content == Seq::<char>::empty(),
    {
        self.message(String::new())
    }

    /// Create a message with the given content, using the receiver as the
    /// role.
    pub fn message(self, content: String) -> (m: Message)
        ensures
            m.role == self,
            m.content == content,
    {
        Message { role: self, content }
    }
}

impl Message {
    /// Get the role of the message.
    #[inline]
    pub fn role(&self) -> (r: Role)
        ensures
            r == self.role,
    {
        self.role
    }

    /// Get the content of the message.
    #[inline]
    pub fn content(&self) -> (c: &str)
        ensures
            c@ == self@.content,
    {
        self.content.as_str()
    }
}

impl PartialEq for Message {
    fn eq(&self, other: &Message) -> (r: bool) {
        self.role == other.role && self.content == other.content
    }
}

impl vstd::std_specs::cmp::PartialEqSpecImpl for Message {
    open spec fn obeys_eq_spec() -> bool {
        true
    }

    open spec fn eq_spec(&self, other: &Message) -> bool {
        self@ == other@
    }
}

impl Eq for Message {}

/// The application messages carried over the wire.
#[derive(Debug, Clone)]
pub enum AppMessage {
    /// A chat completion request, sent by the client: the entire
    /// conversation so far, including the user's newest turn.
    StartChat(Vec<Message>),
    /// A chat fragment reply, sent by the server in response to a
    /// [`StartChat`](Self::StartChat) message.
    NextChatFragment(String),
    /// A chat conclusion reply, sent by the server in response to a
    /// [`StartChat`](Self::StartChat) message.
    ChatCompleted,
    /// An error reply, sent by the server.
    Error(AppError),
}

/// The mathematical model of an [`AppMessage`].
pub enum AppMessageView {
    StartChat(Seq<MessageView>),
    NextChatFragment(Seq<char>),
    ChatCompleted,
    Error(AppError),
}

impl View for AppMessage {
    type V = AppMessageView;

    open spec fn view(&self) -> AppMessageView {
        match self {
            AppMessage::StartChat(messages) => AppMessageView::StartChat(
                messages@.map_values(|m: Message| m@),
            ),
            AppMessage::NextChatFragment(fragment) => AppMessageView::NextChatFragment(fragment@),
            AppMessage::ChatCompleted => AppMessageView::ChatCompleted,
            AppMessage::Error(e) => AppMessageView::Error(*e),
        }
    }
}

/// Decide whether two message sequences have equal models, element by
/// element.
fn messages_eq(a: &Vec<Message>, b: &Vec<Message>) -> (r: bool)
    ensures
        r == (a@.map_values(|m: Message| m@) == b@.map_values(|m: Message| m@)),
{
    proof {
        assert(a@.map_values(|m: Message| m@).len() == a@.len());
        assert(b@.map_values(|m: Message| m@).len() == b@.len());
    }
    if a.len() != b.len() {
        return false;
    }
    let mut i: usize = 0;
    while i < a.len()
        invariant
            i <= a@.len(),
            a@.len() == b@.len(),
            forall|j: int| 0 <= j < i ==> a@[j]@ == b@[j]@,
        decreases a@.len() - i,
    {
        if !(a[i] == b[i]) {
            proof {
                assert(a@.map_values(|m: Message| m@)[i as int] == a@[i as int]@);
                assert(b@.map_values(|m: Message| m@)[i as int] == b@[i as int]@);
            }
            return false;
        }
        i = i + 1;
    }
    assert(a@.map_values(|m: Message| m@) =~= b@.map_values(|m: Message| m@));
    true
}

impl PartialEq for AppMessage {
    fn eq(&self, other: &AppMessage) -> (r: bool) {
        match self {
            AppMessage::StartChat(a) => match other {
                AppMessage::StartChat(b) => messages_eq(a, b),
                _ => false,
            },
            AppMessage::NextChatFragment(a) => match other {
                AppMessage::NextChatFragment(b) => *a == *b,
                _ => false,
            },
            AppMessage::ChatCompleted => match other {
                AppMessage::ChatCompleted => true,
                _ => false,
            },
            AppMessage::Error(a) => match other {
                AppMessage::Error(b) => a == b,
                _ => false,
            },
        }
    }
}

impl vstd::std_specs::cmp::PartialEqSpecImpl for AppMessage {
    open spec fn obeys_eq_spec() -> bool {
        true
    }

    open spec fn eq_spec(&self, other: &AppMessage) -> bool {
        self@ == other@
    }
}

impl Eq for AppMessage {}

} // verus!
