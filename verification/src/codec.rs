//! The wire protocol codec: a total, symmetric mapping between an
//! [`AppMessage`] and the binary payload carried inside one transport frame.
//!
//! The encoding is a fixed, self-describing serialization of the tagged
//! union: every enum variant is a little-endian `u32` tag, every sequence is
//! prefixed with its length as a little-endian `u64`, and text is the UTF-8
//! encoding of its characters prefixed with its byte length as a
//! little-endian `u64`. Decoding reads one message from the front of the
//! payload and permits trailing bytes.

use vstd::bytes::*;
use vstd::prelude::*;
use vstd::utf8::*;

use crate::protocol::{AppError, AppMessage, AppMessageView, Message, MessageView, Role};

verus! {

/// The error reported when a binary payload does not hold a valid encoding
/// of an [`AppMessage`]: truncated input, a corrupt tag, or a malformed
/// field.
#[derive(Debug, Copy, Clone, PartialEq, Eq, Structural)]
pub struct DecodeError;

/// The wire tag of a role, in declaration order.
pub open spec fn role_tag(r: Role) -> u32 {
    match r {
        Role::Assistant => 0,
        Role::System => 1,
        Role::User => 2,
    }
}

/// The role a wire tag stands for, if any.
pub open spec fn spec_role_of_tag(t: u32) -> Option<Role> {
    if t == 0 {
        Some(Role::Assistant)
    } else if t == 1 {
        Some(Role::System)
    } else if t == 2 {
        Some(Role::User)
    } else {
        None
    }
}

/// The wire tag of an error kind, in declaration order.
pub open spec fn error_tag(e: AppError) -> u32 {
    match e {
        AppError::NotFound => 0,
        AppError::ChatError => 1,
        AppError::ServerError => 2,
    }
}

/// The error kind a wire tag stands for, if any.
pub open spec fn spec_error_of_tag(t: u32) -> Option<AppError> {
    if t == 0 {
        Some(AppError::NotFound)
    } else if t == 1 {
        Some(AppError::ChatError)
    } else if t == 2 {
        Some(AppError::ServerError)
    } else {
        None
    }
}

/// The encoding of text: the byte length of its UTF-8 encoding as a
/// little-endian `u64`, then the encoding itself.
pub open spec fn spec_encode_str(s: Seq<char>) -> Seq<u8> {
    spec_u64_to_le_bytes(encode_utf8(s).len() as u64) + encode_utf8(s)
}

/// The encoding of one chat message: its role tag, then its content.
pub open spec fn spec_encode_message(m: MessageView) -> Seq<u8> {
    spec_u32_to_le_bytes(role_tag(m.role)) + spec_encode_str(m.content)
}

/// The encoding of a sequence of chat messages, in order, with no separator.
pub open spec fn spec_encode_messages(ms: Seq<MessageView>) -> Seq<u8>
    decreases ms.len(),
{
    if ms.len() == 0 {
        Seq::empty()
    } else {
        spec_encode_message(ms.first()) + spec_encode_messages(ms.drop_first())
    }
}

/// The encoding of an application message: its variant tag, then its
/// payload. A message sequence is prefixed with its length as a
/// little-endian `u64`.
pub open spec fn spec_encode(m: AppMessageView) -> Seq<u8> {
    match m {
        AppMessageView::StartChat(ms) => spec_u32_to_le_bytes(0) + spec_u64_to_le_bytes(
            ms.len() as u64,
        ) + spec_encode_messages(ms),
        AppMessageView::NextChatFragment(s) => spec_u32_to_le_bytes(1) + spec_encode_str(s),
        AppMessageView::ChatCompleted => spec_u32_to_le_bytes(2),
        AppMessageView::Error(e) => spec_u32_to_le_bytes(3) + spec_u32_to_le_bytes(error_tag(e)),
    }
}

/// Whether the content of a message is short enough for its byte length to
/// be carried in the `u64` length prefix. Every content held in a `String`
/// satisfies this.
pub open spec fn message_encodable(m: MessageView) -> bool {
    encode_utf8(m.content).len() <= u64::MAX
}

/// Whether a message value is short enough for its length prefixes to be
/// faithful. Every value held in an [`AppMessage`] satisfies this.
pub open spec fn encodable(m: AppMessageView) -> bool {
    match m {
        AppMessageView::StartChat(ms) => ms.len() <= u64::MAX && forall|i: int|
            0 <= i < ms.len() ==> message_encodable(#[trigger] ms[i]),
        AppMessageView::NextChatFragment(s) => encode_utf8(s).len() <= u64::MAX,
        AppMessageView::ChatCompleted => true,
        AppMessageView::Error(_) => true,
    }
}

/// The little-endian `u32` at the given offset, if the bytes reach.
pub open spec fn dec_u32_at(b: Seq<u8>, off: int) -> Option<u32> {
    if 0 <= off && off + 4 <= b.len() {
        Some(spec_u32_from_le_bytes(b.subrange(off, off + 4)))
    } else {
        None
    }
}

/// The little-endian `u64` at the given offset, if the bytes reach.
pub open spec fn dec_u64_at(b: Seq<u8>, off: int) -> Option<u64> {
    if 0 <= off && off + 8 <= b.len() {
        Some(spec_u64_from_le_bytes(b.subrange(off, off + 8)))
    } else {
        None
    }
}

/// The length-prefixed text at the given offset and the offset just past
/// it, if the bytes reach and hold valid UTF-8.
pub open spec fn dec_str_at(b: Seq<u8>, off: int) -> Option<(Seq<char>, int)> {
    match dec_u64_at(b, off) {
        Some(n) => {
            let start = off + 8;
            if start + n <= b.len() {
                let bytes = b.subrange(start, start + n);
                if valid_utf8(bytes) {
                    Some((decode_utf8(bytes), start + n))
                } else {
                    None
                }
            } else {
                None
            }
        },
        None => None,
    }
}

/// The chat message at the given offset and the offset just past it, if
/// the bytes hold a known role tag and well-formed content.
pub open spec fn dec_message_at(b: Seq<u8>, off: int) -> Option<(MessageView, int)> {
    match dec_u32_at(b, off) {
        Some(t) => match spec_role_of_tag(t) {
            Some(role) => match dec_str_at(b, off + 4) {
                Some((content, end)) => Some((MessageView { role, content }, end)),
                None => None,
            },
            None => None,
        },
        None => None,
    }
}

/// The given number of consecutive chat messages starting at the given
/// offset and the offset just past them, if all of them are well formed.
pub open spec fn dec_messages_at(b: Seq<u8>, off: int, count: nat) -> Option<
    (Seq<MessageView>, int),
>
    decreases count,
{
    if count == 0 {
        Some((Seq::empty(), off))
    } else {
        match dec_message_at(b, off) {
            Some((m, next)) => match dec_messages_at(b, next, (count - 1) as nat) {
                Some((ms, end)) => Some((seq![m] + ms, end)),
                None => None,
            },
            None => None,
        }
    }
}

/// The application message encoded at the front of the payload, if any.
/// Trailing bytes after one complete message are permitted and ignored.
pub open spec fn spec_decode(b: Seq<u8>) -> Option<AppMessageView> {
    match dec_u32_at(b, 0) {
        Some(tag) => {
            if tag == 0 {
                match dec_u64_at(b, 4) {
                    Some(n) => match dec_messages_at(b, 12, n as nat) {
                        Some((ms, _)) => Some(AppMessageView::StartChat(ms)),
                        None => None,
                    },
                    None => None,
                }
            } else if tag == 1 {
                match dec_str_at(b, 4) {
                    Some((s, _)) => Some(AppMessageView::NextChatFragment(s)),
                    None => None,
                }
            } else if tag == 2 {
                Some(AppMessageView::ChatCompleted)
            } else if tag == 3 {
                match dec_u32_at(b, 4) {
                    Some(t) => match spec_error_of_tag(t) {
                        Some(e) => Some(AppMessageView::Error(e)),
                        None => None,
                    },
                    None => None,
                }
            } else {
                None
            }
        },
        None => None,
    }
}

/// Relies on `String::from_utf8`: succeeds exactly on valid UTF-8 input and
/// returns the string whose characters are the decoding of those bytes.
#[verifier::external_body]
fn string_from_utf8(bytes: Vec<u8>) -> (r: Option<String>)
    ensures
        r is Some <==> valid_utf8(bytes@),
        r matches Some(s) ==> s@ == decode_utf8(bytes@),
{
    String::from_utf8(bytes).ok()
}

/// The wire tag of a role.
fn role_tag_of(r: Role) -> (t: u32)
    ensures
        t == role_tag(r),
{
    match r {
        Role::Assistant => 0,
        Role::System => 1,
        Role::User => 2,
    }
}

/// The wire tag of an error kind.
fn error_tag_of(e: AppError) -> (t: u32)
    ensures
        t == error_tag(e),
{
    match e {
        AppError::NotFound => 0,
        AppError::ChatError => 1,
        AppError::ServerError => 2,
    }
}

/// Append a `u32` to the output in little-endian order.
fn push_u32_le(out: &mut Vec<u8>, x: u32)
    ensures
        final(out)@ == old(out)@ + spec_u32_to_le_bytes(x),
{
    let mut bytes = u32_to_le_bytes(x);
    out.append(&mut bytes);
}

/// Append a `u64` to the output in little-endian order.
fn push_u64_le(out: &mut Vec<u8>, x: u64)
    ensures
        final(out)@ == old(out)@ + spec_u64_to_le_bytes(x),
{
    let mut bytes = u64_to_le_bytes(x);
    out.append(&mut bytes);
}

/// Append the length-prefixed encoding of text to the output.
fn encode_str_into(out: &mut Vec<u8>, s: &str)
    ensures
        final(out)@ == old(out)@ + spec_encode_str(s@),
        encode_utf8(s@).len() <= u64::MAX,
{
    let bytes = s.as_bytes();
    push_u64_le(out, bytes.len() as u64);
    let mut content = vstd::slice::slice_to_vec(bytes);
    out.append(&mut content);
    assert(out@ =~= old(out)@ + spec_encode_str(s@));
}

/// Append the encoding of one chat message to the output.
fn encode_message_into(out: &mut Vec<u8>, m: &Message)
    ensures
        final(out)@ == old(out)@ + spec_encode_message(m@),
        message_encodable(m@),
{
    push_u32_le(out, role_tag_of(m.role));
    encode_str_into(out, m.content.as_str());
    assert(out@ =~= old(out)@ + spec_encode_message(m@));
}

/// Appending one message to a sequence appends its encoding to the
/// sequence's encoding.
proof fn lemma_encode_messages_push_back(ms: Seq<MessageView>, m: MessageView)
    ensures
        spec_encode_messages(ms.push(m)) == spec_encode_messages(ms) + spec_encode_message(m),
    decreases ms.len(),
{
    if ms.len() == 0 {
        assert(ms.push(m).drop_first() =~= Seq::<MessageView>::empty());
        assert(ms.push(m).first() == m);
        assert(spec_encode_messages(ms.push(m)) == spec_encode_message(m) + spec_encode_messages(
            Seq::<MessageView>::empty(),
        ));
        assert(spec_encode_messages(ms.push(m)) =~= spec_encode_messages(ms)
            + spec_encode_message(m));
    } else {
        assert(ms.push(m).drop_first() =~= ms.drop_first().push(m));
        lemma_encode_messages_push_back(ms.drop_first(), m);
        assert(spec_encode_messages(ms.push(m)) =~= spec_encode_messages(ms)
            + spec_encode_message(m));
    }
}

/// Encode an application message into the binary payload of one transport
/// frame. Encoding is total and deterministic: it never fails.
#[verifier::loop_isolation(false)]
pub fn encode(m: &AppMessage) -> (r: Vec<u8>)
    ensures
        r@ == spec_encode(m@),
        encodable(m@),
{
    let mut out: Vec<u8> = Vec::new();
    match m {
        AppMessage::StartChat(ms) => {
            let ghost msv = ms@.map_values(|x: Message| x@);
            push_u32_le(&mut out, 0);
            push_u64_le(&mut out, ms.len() as u64);
            let ghost header = out@;
            let mut i: usize = 0;
            while i < ms.len()
                invariant
                    i <= ms@.len(),
                    out@ == header + spec_encode_messages(msv.take(i as int)),
                    forall|j: int| 0 <= j < i ==> message_encodable(#[trigger] msv[j]),
                decreases ms@.len() - i,
            {
                encode_message_into(&mut out, &ms[i]);
                proof {
                    assert(msv.take(i + 1) =~= msv.take(i as int).push(msv[i as int]));
                    lemma_encode_messages_push_back(msv.take(i as int), msv[i as int]);
                    assert(msv[i as int] == ms@[i as int]@);
                }
                i = i + 1;
            }
            proof {
                assert(msv.take(ms@.len() as int) =~= msv);
                assert(header + spec_encode_messages(msv) =~= spec_encode(m@));
            }
        },
        AppMessage::NextChatFragment(s) => {
            push_u32_le(&mut out, 1);
            encode_str_into(&mut out, s.as_str());
            assert(out@ =~= spec_encode(m@));
        },
        AppMessage::ChatCompleted => {
            push_u32_le(&mut out, 2);
            assert(out@ =~= spec_encode(m@));
        },
        AppMessage::Error(e) => {
            push_u32_le(&mut out, 3);
            push_u32_le(&mut out, error_tag_of(*e));
            assert(out@ =~= spec_encode(m@));
        },
    }
    out
}

/// Read the little-endian `u32` at the given offset.
fn read_u32(b: &[u8], off: usize) -> (r: Option<(u32, usize)>)
    ensures
        match r {
            Some((x, next)) => dec_u32_at(b@, off as int) == Some(x) && next as int == off + 4,
            None => dec_u32_at(b@, off as int) is None,
        },
{
    if b.len() >= 4 && off <= b.len() - 4 {
        let s = vstd::slice::slice_subrange(b, off, off + 4);
        Some((u32_from_le_bytes(s), off + 4))
    } else {
        None
    }
}

/// Read the little-endian `u64` at the given offset.
fn read_u64(b: &[u8], off: usize) -> (r: Option<(u64, usize)>)
    ensures
        match r {
            Some((x, next)) => dec_u64_at(b@, off as int) == Some(x) && next as int == off + 8,
            None => dec_u64_at(b@, off as int) is None,
        },
{
    if b.len() >= 8 && off <= b.len() - 8 {
        let s = vstd::slice::slice_subrange(b, off, off + 8);
        Some((u64_from_le_bytes(s), off + 8))
    } else {
        None
    }
}

/// Read the length-prefixed text at the given offset.
fn read_string(b: &[u8], off: usize) -> (r: Option<(String, usize)>)
    ensures
        match r {
            Some((s, next)) => dec_str_at(b@, off as int) == Some((s@, next as int)),
            None => dec_str_at(b@, off as int) is None,
        },
{
    match read_u64(b, off) {
        None => None,
        Some((n, start)) => {
            if n <= (b.len() - start) as u64 {
                let end = start + (n as usize);
                let s = vstd::slice::slice_subrange(b, start, end);
                let v = vstd::slice::slice_to_vec(s);
                match string_from_utf8(v) {
                    Some(text) => Some((text, end)),
                    None => None,
                }
            } else {
                None
            }
        },
    }
}

/// Read the chat message at the given offset.
fn read_message(b: &[u8], off: usize) -> (r: Option<(Message, usize)>)
    ensures
        match r {
            Some((m, next)) => dec_message_at(b@, off as int) == Some((m@, next as int)),
            None => dec_message_at(b@, off as int) is None,
        },
{
    match read_u32(b, off) {
        None => None,
        Some((t, off1)) => {
            let role = if t == 0 {
                Role::Assistant
            } else if t == 1 {
                Role::System
            } else if t == 2 {
                Role::User
            } else {
                return None;
            };
            match read_string(b, off1) {
                None => None,
                Some((content, end)) => Some((Message { role, content }, end)),
            }
        },
    }
}

/// Decode the application message carried at the front of a binary payload.
/// Fails with [`DecodeError`] exactly when the bytes do not hold a valid
/// encoding; trailing bytes after one complete message are ignored, as the
/// peer's decoder ignores them.
#[verifier::loop_isolation(false)]
pub fn decode(bytes: &[u8]) -> (r: Result<AppMessage, DecodeError>)
    ensures
        r is Ok <==> spec_decode(bytes@) is Some,
        r matches Ok(m) ==> spec_decode(bytes@) == Some(m@),
{
    let b = bytes;
    match read_u32(b, 0) {
        None => Err(DecodeError),
        Some((tag, off)) => {
            if tag == 0 {
                match read_u64(b, off) {
                    None => Err(DecodeError),
                    Some((count, start)) => {
                        let mut out: Vec<Message> = Vec::new();
                        let mut cursor: usize = start;
                        let mut i: u64 = 0;
                        while i < count
                            invariant
                                i <= count,
                                dec_messages_at(b@, start as int, count as nat) == (
                                match dec_messages_at(b@, cursor as int, (count - i) as nat) {
                                    Some((ms, end)) => Some(
                                        (out@.map_values(|x: Message| x@) + ms, end),
                                    ),
                                    None => None::<(Seq<MessageView>, int)>,
                                }),
                            decreases count - i,
                        {
                            let ghost out_before = out@;
                            let ghost cursor_before = cursor as int;
                            match read_message(b, cursor) {
                                None => {
                                    return Err(DecodeError);
                                },
                                Some((m, next)) => {
                                    out.push(m);
                                    cursor = next;
                                    proof {
                                        let rest = (count - i - 1) as nat;
                                        match dec_messages_at(b@, next as int, rest) {
                                            Some((ms2, end)) => {
                                                assert(out_before.map_values(|x: Message| x@) + (
                                                seq![m@] + ms2) =~= out@.map_values(
                                                    |x: Message| x@,
                                                ) + ms2);
                                            },
                                            None => {},
                                        }
                                    }
                                    i = i + 1;
                                },
                            }
                        }
                        proof {
                            let outv = out@.map_values(|x: Message| x@);
                            assert(dec_messages_at(b@, cursor as int, 0) == Some(
                                (Seq::<MessageView>::empty(), cursor as int),
                            ));
                            assert(outv + Seq::<MessageView>::empty() =~= outv);
                        }
                        Ok(AppMessage::StartChat(out))
                    },
                }
            } else if tag == 1 {
                match read_string(b, off) {
                    None => Err(DecodeError),
                    Some((s, _)) => Ok(AppMessage::NextChatFragment(s)),
                }
            } else if tag == 2 {
                Ok(AppMessage::ChatCompleted)
            } else if tag == 3 {
                match read_u32(b, off) {
                    None => Err(DecodeError),
                    Some((t, _)) => {
                        if t == 0 {
                            Ok(AppMessage::Error(AppError::NotFound))
                        } else if t == 1 {
                            Ok(AppMessage::Error(AppError::ChatError))
                        } else if t == 2 {
                            Ok(AppMessage::Error(AppError::ServerError))
                        } else {
                            Err(DecodeError)
                        }
                    },
                }
            } else {
                Err(DecodeError)
            }
        },
    }
}

/// Whether the byte sequence `e` lies at offset `off` in `b`.
pub open spec fn bytes_at(b: Seq<u8>, off: int, e: Seq<u8>) -> bool {
    0 <= off && off + e.len() <= b.len() && b.subrange(off, off + e.len()) == e
}

/// A concatenation lying at an offset splits into its parts.
proof fn lemma_bytes_at_concat(b: Seq<u8>, off: int, x: Seq<u8>, y: Seq<u8>)
    requires
        bytes_at(b, off, x + y),
    ensures
        bytes_at(b, off, x),
        bytes_at(b, off + x.len(), y),
{
    let whole = b.subrange(off, off + (x + y).len());
    assert forall|i: int| 0 <= i < x.len() implies b.subrange(off, off + x.len() as int)[i]
        == x[i] by {
        assert(whole[i] == (x + y)[i]);
    }
    assert(b.subrange(off, off + x.len() as int) =~= x);
    assert forall|i: int| 0 <= i < y.len() implies b.subrange(
        off + x.len(),
        off + x.len() + y.len() as int,
    )[i] == y[i] by {
        assert(whole[x.len() + i] == (x + y)[x.len() + i]);
    }
    assert(b.subrange(off + x.len(), off + x.len() + y.len() as int) =~= y);
}

/// A `u32` encoded at an offset decodes to itself.
proof fn lemma_dec_u32_at(b: Seq<u8>, off: int, x: u32)
    requires
        bytes_at(b, off, spec_u32_to_le_bytes(x)),
    ensures
        dec_u32_at(b, off) == Some(x),
{
    lemma_auto_spec_u32_to_from_le_bytes();
}

/// A `u64` encoded at an offset decodes to itself.
proof fn lemma_dec_u64_at(b: Seq<u8>, off: int, x: u64)
    requires
        bytes_at(b, off, spec_u64_to_le_bytes(x)),
    ensures
        dec_u64_at(b, off) == Some(x),
{
    lemma_auto_spec_u64_to_from_le_bytes();
}

/// Text encoded at an offset decodes to itself, whatever follows it.
proof fn lemma_dec_str_at(b: Seq<u8>, off: int, s: Seq<char>)
    requires
        bytes_at(b, off, spec_encode_str(s)),
        encode_utf8(s).len() <= u64::MAX,
    ensures
        dec_str_at(b, off) == Some((s, off + spec_encode_str(s).len())),
{
    let u = encode_utf8(s);
    let n = u.len() as u64;
    lemma_auto_spec_u64_to_from_le_bytes();
    lemma_bytes_at_concat(b, off, spec_u64_to_le_bytes(n), u);
    lemma_dec_u64_at(b, off, n);
    encode_utf8_valid_utf8(s);
    encode_utf8_decode_utf8(s);
    assert(b.subrange(off + 8, off + 8 + u.len() as int) == u);
}

/// A chat message encoded at an offset decodes to itself.
proof fn lemma_dec_message_at(b: Seq<u8>, off: int, m: MessageView)
    requires
        bytes_at(b, off, spec_encode_message(m)),
        message_encodable(m),
    ensures
        dec_message_at(b, off) == Some((m, off + spec_encode_message(m).len())),
{
    lemma_auto_spec_u32_to_from_le_bytes();
    lemma_auto_spec_u64_to_from_le_bytes();
    lemma_bytes_at_concat(
        b,
        off,
        spec_u32_to_le_bytes(role_tag(m.role)),
        spec_encode_str(m.content),
    );
    lemma_dec_u32_at(b, off, role_tag(m.role));
    lemma_dec_str_at(b, off + 4, m.content);
}

/// A message sequence encoded at an offset decodes to itself.
proof fn lemma_dec_messages_at(b: Seq<u8>, off: int, ms: Seq<MessageView>)
    requires
        bytes_at(b, off, spec_encode_messages(ms)),
        forall|i: int| 0 <= i < ms.len() ==> message_encodable(#[trigger] ms[i]),
    ensures
        dec_messages_at(b, off, ms.len()) == Some((ms, off + spec_encode_messages(ms).len())),
    decreases ms.len(),
{
    if ms.len() == 0 {
    } else {
        let head = spec_encode_message(ms.first());
        let tail = spec_encode_messages(ms.drop_first());
        lemma_bytes_at_concat(b, off, head, tail);
        lemma_dec_message_at(b, off, ms.first());
        lemma_dec_messages_at(b, off + head.len(), ms.drop_first());
        assert(seq![ms.first()] + ms.drop_first() =~= ms);
    }
}

/// Round trip: every message value that fits its length prefixes decodes
/// from its own encoding, to itself. Together with the contracts of
/// [`encode`] and [`decode`] this gives `decode(encode(m)) == m` for every
/// constructible [`AppMessage`], since [`encode`] also establishes
/// [`encodable`].
pub proof fn lemma_decode_encode(m: AppMessageView)
    requires
        encodable(m),
    ensures
        spec_decode(spec_encode(m)) == Some(m),
{
    let b = spec_encode(m);
    lemma_auto_spec_u32_to_from_le_bytes();
    lemma_auto_spec_u64_to_from_le_bytes();
    assert(b.subrange(0, b.len() as int) =~= b);
    match m {
        AppMessageView::StartChat(ms) => {
            let t = spec_u32_to_le_bytes(0);
            let l = spec_u64_to_le_bytes(ms.len() as u64);
            let body = spec_encode_messages(ms);
            assert(t + l + body =~= t + (l + body));
            assert(bytes_at(b, 0, t + (l + body)));
            lemma_bytes_at_concat(b, 0, t, l + body);
            lemma_dec_u32_at(b, 0, 0);
            lemma_bytes_at_concat(b, 4, l, body);
            lemma_dec_u64_at(b, 4, ms.len() as u64);
            lemma_dec_messages_at(b, 12, ms);
        },
        AppMessageView::NextChatFragment(s) => {
            let t = spec_u32_to_le_bytes(1);
            let body = spec_encode_str(s);
            assert(bytes_at(b, 0, t + body));
            lemma_bytes_at_concat(b, 0, t, body);
            lemma_dec_u32_at(b, 0, 1);
            lemma_dec_str_at(b, 4, s);
        },
        AppMessageView::ChatCompleted => {
            assert(bytes_at(b, 0, spec_u32_to_le_bytes(2)));
            lemma_dec_u32_at(b, 0, 2);
        },
        AppMessageView::Error(e) => {
            let t = spec_u32_to_le_bytes(3);
            let body = spec_u32_to_le_bytes(error_tag(e));
            assert(bytes_at(b, 0, t + body));
            lemma_bytes_at_concat(b, 0, t, body);
            lemma_dec_u32_at(b, 0, 3);
            lemma_dec_u32_at(b, 4, error_tag(e));
        },
    }
}

/// One frame of the underlying transport, as far as the protocol reads it:
/// a binary frame carries a payload; every other frame kind carries none.
#[derive(Debug, Clone)]
pub enum TransportFrame {
    /// A binary frame: the only kind that carries a protocol payload.
    Binary(Vec<u8>),
    /// A text frame: carries no protocol payload.
    Text(String),
    /// A ping control frame.
    Ping(Vec<u8>),
    /// A pong control frame.
    Pong(Vec<u8>),
    /// A close control frame.
    Close,
}

impl TransportFrame {
    /// Whether this frame is a binary frame.
    pub open spec fn is_binary(&self) -> bool {
        self is Binary
    }
}

/// Decode an application message from a transport frame. Only a binary
/// frame is read as carrying a protocol message; any other frame kind
/// yields no message and no error, since it is not a payload to interpret.
pub fn decode_message(frame: &TransportFrame) -> (r: Option<AppMessage>)
    ensures
        frame matches TransportFrame::Binary(payload) ==> {
            &&& r is Some <==> spec_decode(payload@) is Some
            &&& (r matches Some(m) ==> spec_decode(payload@) == Some(m@))
        },
        !frame.is_binary() ==> r is None,
{
    match frame {
        TransportFrame::Binary(payload) => match decode(payload.as_slice()) {
            Ok(m) => Some(m),
            Err(_) => None,
        },
        _ => None,
    }
}

} // verus!
