//! The connection handler: the state machine tying codec, session gate and
//! adapter together for one connection's lifetime.
//!
//! The handler dispatches each inbound frame with [`dispatch_frame`]; a
//! chat request is serviced subject to the busy gate, and the frames of a
//! whole serviced turn are the fold [`spec_chat_frames`] that [`chat`]
//! computes.

use vstd::prelude::*;

use crate::adapter::{
    lemma_terminal_after_fragments, spec_step_frames, spec_turn_ends, spec_turn_frames,
    step_ends, step_message, turn_step, UpstreamEvent, UpstreamEventView,
};
use crate::codec::{decode_message, spec_decode, TransportFrame};
use crate::protocol::{AppError, AppMessage, AppMessageView, Message};
use crate::session::SessionState;

verus! {

/// What the connection handler does with one inbound transport frame.
#[derive(Debug)]
pub enum Dispatch {
    /// The frame holds a chat request: service it, subject to the busy
    /// gate.
    Begin(Vec<Message>),
    /// The frame holds a server-only message sent by the client: a
    /// protocol violation. It is ignored and the connection stays open.
    Violation,
    /// The frame carries no protocol message (a non-binary frame, or a
    /// payload that does not decode): it is ignored.
    Ignore,
}

/// Dispatch one inbound transport frame, as the connection's receive loop
/// does: only a binary frame decoding to a chat request begins a turn;
/// everything else is ignored without an answer.
pub fn dispatch_frame(frame: &TransportFrame) -> (d: Dispatch)
    ensures
        d matches Dispatch::Begin(ms) ==> (frame matches TransportFrame::Binary(p)
            && spec_decode(p@) == Some(
            AppMessageView::StartChat(ms@.map_values(|m: Message| m@)),
        )),
        d is Begin <==> (frame matches TransportFrame::Binary(p) && spec_decode(p@) is Some
            && spec_decode(p@).unwrap() is StartChat),
        d is Violation <==> (frame matches TransportFrame::Binary(p) && spec_decode(p@) is Some
            && !(spec_decode(p@).unwrap() is StartChat)),
        d is Ignore <==> !(frame matches TransportFrame::Binary(p) && spec_decode(p@) is Some),
{
    match decode_message(frame) {
        None => Dispatch::Ignore,
        Some(m) => match m {
            AppMessage::StartChat(ms) => Dispatch::Begin(ms),
            AppMessage::NextChatFragment(_) => Dispatch::Violation,
            AppMessage::ChatCompleted => Dispatch::Violation,
            AppMessage::Error(_) => Dispatch::Violation,
        },
    }
}

/// The frames one chat request causes the server to send, given the busy
/// flag at its arrival and the upstream events of its stream: nothing at
/// all while another turn is in flight, else the turn's frames.
pub open spec fn spec_chat_frames(busy: bool, events: Seq<UpstreamEventView>) -> Seq<
    AppMessageView,
> {
    if busy {
        Seq::empty()
    } else {
        spec_turn_frames(events)
    }
}

/// The busy flag after one chat request is handled: a refused request
/// changes nothing; an accepted one keeps the session busy until an event
/// ends the turn.
pub open spec fn spec_chat_busy(busy: bool, events: Seq<UpstreamEventView>) -> bool {
    if busy {
        true
    } else {
        !spec_turn_ends(events)
    }
}

/// Service one chat request against the events of its upstream stream,
/// and return the frames sent to the client, in order.
///
/// If the session is busy the request is rejected silently: no frame is
/// sent and the session is left unchanged. Otherwise the session becomes
/// busy, each upstream event is relayed as [`turn_step`] directs, and on
/// the first event that ends the turn the terminal frame is sent and the
/// session returns to idle. If the events run out without ending the turn,
/// the turn is still in flight and the session stays busy.
#[verifier::loop_isolation(false)]
pub fn chat(session: &mut SessionState, events: &Vec<UpstreamEvent>) -> (frames: Vec<AppMessage>)
    ensures
        frames@.map_values(|m: AppMessage| m@) == spec_chat_frames(
            old(session).busy(),
            events@.map_values(|e: UpstreamEvent| e@),
        ),
        final(session).busy() == spec_chat_busy(
            old(session).busy(),
            events@.map_values(|e: UpstreamEvent| e@),
        ),
        old(session).busy() ==> *final(session) == *old(session),
{
    let ghost evs = events@.map_values(|e: UpstreamEvent| e@);
    let mut frames: Vec<AppMessage> = Vec::new();
    if !session.try_begin() {
        return frames;
    }
    let mut i: usize = 0;
    let mut done = false;
    proof {
        assert(evs.skip(0) =~= evs);
        assert(frames@.map_values(|m: AppMessage| m@) + spec_turn_frames(evs) =~= spec_turn_frames(
            evs,
        ));
    }
    while i < events.len() && !done
        invariant
            i <= events@.len(),
            session.busy(),
            !done ==> {
                &&& spec_turn_frames(evs) == frames@.map_values(|m: AppMessage| m@)
                    + spec_turn_frames(evs.skip(i as int))
                &&& spec_turn_ends(evs) == spec_turn_ends(evs.skip(i as int))
            },
            done ==> {
                &&& frames@.map_values(|m: AppMessage| m@) == spec_turn_frames(evs)
                &&& spec_turn_ends(evs)
            },
        decreases events@.len() - i,
    {
        let ghost frames_before = frames@;
        let step = turn_step(&events[i]);
        let ended = step_ends(&step);
        let ghost stepv = step@;
        match step_message(step) {
            Some(m) => {
                frames.push(m);
                proof {
                    assert(frames@.map_values(|m: AppMessage| m@) =~= frames_before.map_values(
                        |m: AppMessage| m@,
                    ) + spec_step_frames(stepv));
                }
            },
            None => {
                proof {
                    assert(frames@.map_values(|m: AppMessage| m@) =~= frames_before.map_values(
                        |m: AppMessage| m@,
                    ) + spec_step_frames(stepv));
                }
            },
        }
        proof {
            assert(evs.skip(i as int).first() == evs[i as int]);
            assert(evs[i as int] == events@[i as int]@);
            assert(evs.skip(i as int).drop_first() =~= evs.skip(i as int + 1));
            if !ended {
                assert(spec_turn_frames(evs.skip(i as int)) == spec_step_frames(stepv)
                    + spec_turn_frames(evs.skip(i as int + 1)));
                assert(frames_before.map_values(|m: AppMessage| m@) + spec_turn_frames(
                    evs.skip(i as int),
                ) =~= frames@.map_values(|m: AppMessage| m@) + spec_turn_frames(
                    evs.skip(i as int + 1),
                ));
            }
        }
        if ended {
            done = true;
        }
        i = i + 1;
    }
    proof {
        if !done {
            assert(evs.skip(evs.len() as int) =~= Seq::<UpstreamEventView>::empty());
            assert(frames@.map_values(|m: AppMessage| m@) + Seq::<AppMessageView>::empty()
                =~= frames@.map_values(|m: AppMessage| m@));
        }
    }
    if done {
        session.end();
    }
    frames
}

/// Single flight: while a turn is in flight, a further chat request
/// produces no outgoing frames and no state change, whatever its upstream
/// would have yielded.
pub proof fn lemma_single_flight(events: Seq<UpstreamEventView>)
    ensures
        spec_chat_frames(true, events) == Seq::<AppMessageView>::empty(),
        spec_chat_busy(true, events),
{
}

/// A turn that ends, by success or by failure, leaves the session ready
/// again: the busy flag is cleared, and a chat request arriving afterwards
/// is accepted and answered in full.
pub proof fn lemma_gate_releases(events: Seq<UpstreamEventView>, later: Seq<UpstreamEventView>)
    requires
        spec_turn_ends(events),
    ensures
        !spec_chat_busy(false, events),
        spec_chat_frames(spec_chat_busy(false, events), later) == spec_turn_frames(later),
{
}

/// An accepted turn whose upstream delivers a terminal signal sends zero
/// or more chat fragments followed by exactly one terminal frame, success
/// or error: never a fragment after the terminal, never two terminals.
pub proof fn lemma_accepted_turn_shape(events: Seq<UpstreamEventView>)
    requires
        spec_turn_ends(events),
    ensures
        spec_chat_frames(false, events).len() >= 1,
        spec_chat_frames(false, events).last() == AppMessageView::ChatCompleted
            || spec_chat_frames(false, events).last() == AppMessageView::Error(
            AppError::ChatError,
        ),
        forall|i: int|
            0 <= i < spec_chat_frames(false, events).len() - 1 ==> #[trigger] spec_chat_frames(
                false,
                events,
            )[i] is NextChatFragment,
{
    lemma_terminal_after_fragments(events);
}

/// An accepted turn whose upstream yields one non-empty delta and then
/// fails sends exactly that fragment and then the error terminal frame,
/// and leaves the session ready to accept the next chat request.
pub proof fn lemma_failure_after_one_fragment(d: Seq<char>)
    requires
        d.len() > 0,
    ensures
        spec_chat_frames(
            false,
            seq![UpstreamEventView::Delta(Some(d)), UpstreamEventView::Failed],
        ) == seq![
            AppMessageView::NextChatFragment(d),
            AppMessageView::Error(AppError::ChatError),
        ],
        !spec_chat_busy(
            false,
            seq![UpstreamEventView::Delta(Some(d)), UpstreamEventView::Failed],
        ),
{
    let evs = seq![UpstreamEventView::Delta(Some(d)), UpstreamEventView::Failed];
    assert(evs.first() == UpstreamEventView::Delta(Some(d)));
    assert(evs.drop_first() =~= seq![UpstreamEventView::Failed]);
    assert(spec_turn_ends(seq![UpstreamEventView::Failed]));
    assert(spec_turn_frames(seq![UpstreamEventView::Failed]) == seq![
        AppMessageView::Error(AppError::ChatError),
    ]);
    assert(spec_turn_frames(evs) =~= seq![
        AppMessageView::NextChatFragment(d),
        AppMessageView::Error(AppError::ChatError),
    ]);
    assert(spec_turn_ends(evs));
}

} // verus!
