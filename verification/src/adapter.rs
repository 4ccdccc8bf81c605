//! The upstream completion adapter: turns the chunks of an upstream
//! streaming completion into an ordered sequence of chat fragments followed
//! by a terminal outcome.
//!
//! The connection handler observes the upstream stream one event at a time
//! and applies [`turn_step`] to each; the fold of those steps over a whole
//! event sequence is [`spec_turn_frames`], the frames a serviced turn sends.

use vstd::prelude::*;

use crate::protocol::{AppError, AppMessage, AppMessageView};

verus! {

/// One observation of the upstream completion stream, reduced to what the
/// relay reads from it.
#[derive(Debug, Clone)]
pub enum UpstreamEvent {
    /// The upstream request or transport failed: the stream reported an
    /// error, or could not be created at all.
    Failed,
    /// A chunk arrived carrying no choices.
    NoChoices,
    /// The first choice carried a finish indicator: the completion is done.
    Finished,
    /// The first choice carried a content delta, present or missing.
    Delta(Option<String>),
    /// The upstream stream ended without a finish indicator: nothing more
    /// will arrive, so the turn concludes successfully.
    Closed,
}

/// The mathematical model of an [`UpstreamEvent`].
pub enum UpstreamEventView {
    Failed,
    NoChoices,
    Finished,
    Delta(Option<Seq<char>>),
    Closed,
}

impl View for UpstreamEvent {
    type V = UpstreamEventView;

    open spec fn view(&self) -> UpstreamEventView {
        match self {
            UpstreamEvent::Failed => UpstreamEventView::Failed,
            UpstreamEvent::NoChoices => UpstreamEventView::NoChoices,
            UpstreamEvent::Finished => UpstreamEventView::Finished,
            UpstreamEvent::Delta(c) => UpstreamEventView::Delta(
                match c {
                    Some(s) => Some(s@),
                    None => None,
                },
            ),
            UpstreamEvent::Closed => UpstreamEventView::Closed,
        }
    }
}

/// What one upstream event does to the turn in flight.
#[derive(Debug, Clone)]
pub enum TurnStep {
    /// Send this fragment to the client and keep streaming.
    Emit(String),
    /// Send nothing and keep streaming.
    Continue,
    /// The turn finished: send the success terminal frame.
    Finished,
    /// The turn failed: send the error terminal frame.
    Failed,
}

/// The mathematical model of a [`TurnStep`].
pub enum StepView {
    Emit(Seq<char>),
    Continue,
    Finished,
    Failed,
}

impl View for TurnStep {
    type V = StepView;

    open spec fn view(&self) -> StepView {
        match self {
            TurnStep::Emit(s) => StepView::Emit(s@),
            TurnStep::Continue => StepView::Continue,
            TurnStep::Finished => StepView::Finished,
            TurnStep::Failed => StepView::Failed,
        }
    }
}

/// What the relay does with one upstream event: a chunk with a finish
/// indicator ends the turn successfully; an upstream error, a chunk without
/// choices, or a chunk whose delta carries no content ends it in failure; a
/// chunk with non-empty delta text yields exactly one fragment; a chunk
/// with empty delta text yields nothing.
pub open spec fn spec_turn_step(ev: UpstreamEventView) -> StepView {
    match ev {
        UpstreamEventView::Failed => StepView::Failed,
        UpstreamEventView::NoChoices => StepView::Failed,
        UpstreamEventView::Finished => StepView::Finished,
        UpstreamEventView::Delta(c) => match c {
            None => StepView::Failed,
            Some(s) => if s.len() == 0 {
                StepView::Continue
            } else {
                StepView::Emit(s)
            },
        },
        UpstreamEventView::Closed => StepView::Finished,
    }
}

/// The frames one step sends to the client.
pub open spec fn spec_step_frames(s: StepView) -> Seq<AppMessageView> {
    match s {
        StepView::Emit(t) => seq![AppMessageView::NextChatFragment(t)],
        StepView::Continue => Seq::empty(),
        StepView::Finished => seq![AppMessageView::ChatCompleted],
        StepView::Failed => seq![AppMessageView::Error(AppError::ChatError)],
    }
}

/// Whether this step ends the turn.
pub open spec fn spec_step_ends(s: StepView) -> bool {
    s is Finished || s is Failed
}

/// The frames a turn sends to the client over a sequence of upstream
/// events: the fragments in arrival order, then the terminal frame of the
/// first event that ends the turn; events after that one are never
/// observed. A sequence that never ends the turn sends its fragments and no
/// terminal frame: the turn is still in flight (a stalled upstream stalls
/// the turn).
pub open spec fn spec_turn_frames(events: Seq<UpstreamEventView>) -> Seq<AppMessageView>
    decreases events.len(),
{
    if events.len() == 0 {
        Seq::empty()
    } else {
        let step = spec_turn_step(events.first());
        if spec_step_ends(step) {
            spec_step_frames(step)
        } else {
            spec_step_frames(step) + spec_turn_frames(events.drop_first())
        }
    }
}

/// Whether the event sequence ends the turn: some event finishes or fails
/// it before the sequence runs out.
pub open spec fn spec_turn_ends(events: Seq<UpstreamEventView>) -> bool
    decreases events.len(),
{
    if events.len() == 0 {
        false
    } else {
        spec_step_ends(spec_turn_step(events.first())) || spec_turn_ends(events.drop_first())
    }
}

/// Apply one upstream event to the turn in flight.
pub fn turn_step(ev: &UpstreamEvent) -> (r: TurnStep)
    ensures
        r@ == spec_turn_step(ev@),
{
    match ev {
        UpstreamEvent::Failed => TurnStep::Failed,
        UpstreamEvent::NoChoices => TurnStep::Failed,
        UpstreamEvent::Finished => TurnStep::Finished,
        UpstreamEvent::Delta(c) => match c {
            None => TurnStep::Failed,
            Some(s) => {
                if s.as_str().is_empty() {
                    TurnStep::Continue
                } else {
                    TurnStep::Emit(s.clone())
                }
            },
        },
        UpstreamEvent::Closed => TurnStep::Finished,
    }
}

/// The frame one step sends to the client, if any.
pub fn step_message(step: TurnStep) -> (r: Option<AppMessage>)
    ensures
        match r {
            Some(m) => spec_step_frames(step@) == seq![m@],
            None => spec_step_frames(step@) == Seq::<AppMessageView>::empty(),
        },
{
    match step {
        TurnStep::Emit(s) => Some(AppMessage::NextChatFragment(s)),
        TurnStep::Continue => None,
        TurnStep::Finished => Some(AppMessage::ChatCompleted),
        TurnStep::Failed => Some(AppMessage::Error(AppError::ChatError)),
    }
}

/// Whether this step ends the turn.
pub fn step_ends(step: &TurnStep) -> (r: bool)
    ensures
        r == spec_step_ends(step@),
{
    match step {
        TurnStep::Finished => true,
        TurnStep::Failed => true,
        _ => false,
    }
}

/// Terminal after fragments: over any event sequence that ends the turn,
/// the frames sent are zero or more chat fragments followed by exactly one
/// terminal frame, never the reverse, never more than one terminal frame.
pub proof fn lemma_terminal_after_fragments(events: Seq<UpstreamEventView>)
    requires
        spec_turn_ends(events),
    ensures
        spec_turn_frames(events).len() >= 1,
        spec_turn_frames(events).last() == AppMessageView::ChatCompleted || spec_turn_frames(
            events,
        ).last() == AppMessageView::Error(AppError::ChatError),
        forall|i: int|
            0 <= i < spec_turn_frames(events).len() - 1 ==> #[trigger] spec_turn_frames(events)[i]
                is NextChatFragment,
    decreases events.len(),
{
    let step = spec_turn_step(events.first());
    if spec_step_ends(step) {
    } else {
        lemma_terminal_after_fragments(events.drop_first());
        let head = spec_step_frames(step);
        let rest = spec_turn_frames(events.drop_first());
        assert(spec_turn_frames(events) == head + rest);
        assert((head + rest).last() == rest.last());
    }
}

/// A turn that never ends sends only chat fragments: no terminal frame.
pub proof fn lemma_no_terminal_while_streaming(events: Seq<UpstreamEventView>)
    requires
        !spec_turn_ends(events),
    ensures
        forall|i: int|
            0 <= i < spec_turn_frames(events).len() ==> #[trigger] spec_turn_frames(events)[i]
                is NextChatFragment,
    decreases events.len(),
{
    if events.len() == 0 {
    } else {
        lemma_no_terminal_while_streaming(events.drop_first());
        let head = spec_step_frames(spec_turn_step(events.first()));
        let rest = spec_turn_frames(events.drop_first());
        assert(spec_turn_frames(events) == head + rest);
    }
}

} // verus!
