//! The messages that the dataflow engine reports back to the coordinator:
//! the progress of frontiers and the answers to peeks.

use timely::progress::ChangeBatch;
use vstd::prelude::*;

verus! {

/// The stable identifier of a catalog object.
pub type ObjectId = u64;

/// A logical time.
pub type Timestamp = u64;

/// The progress of one object: its id and the change to its frontier.
pub type UpperEntry = (ObjectId, ChangeBatch<Timestamp>);

/// `timely::progress::ChangeBatch`: a collection of updates, each an item
/// and a count. Nothing is known of a batch but what [`batch_updates`]
/// says of it.
#[verifier::external_type_specification]
#[verifier::external_body]
#[verifier::reject_recursive_types(T)]
pub struct ExChangeBatch<T>(ChangeBatch<T>);

/// The updates that a change batch stores, in the order in which it stores
/// them: what `ChangeBatch::unstable_internal_updates` shows.
pub uninterp spec fn batch_updates(batch: ChangeBatch<Timestamp>) -> Seq<(Timestamp, i64)>;

/// `ChangeBatch::new_from`: a batch that stores the one update `(time, diff)`.
#[verifier::external_body]
pub(crate) fn batch_new_from(time: Timestamp, diff: i64) -> (batch: ChangeBatch<Timestamp>)
    ensures
        batch_updates(batch) == seq![(time, diff)],
{
    ChangeBatch::new_from(time, diff)
}

/// `ChangeBatch::update`: appends `(time, diff)` to the stored updates. The
/// batch consolidates itself only once it stores more than 32 updates, which
/// the bound rules out.
#[verifier::external_body]
pub(crate) fn batch_update(batch: &mut ChangeBatch<Timestamp>, time: Timestamp, diff: i64)
    requires
        batch_updates(*old(batch)).len() < 32,
    ensures
        batch_updates(*final(batch)) == batch_updates(*old(batch)).push((time, diff)),
{
    batch.update(time, diff)
}

/// What a worker reports. `P` is the answer to a peek as the worker gives
/// it: the harness carries it and does not read it.
#[derive(Clone, Debug, PartialEq, Eq)]
pub enum Feedback<P> {
    /// Progress of the frontiers of some objects.
    FrontierUppers(Vec<UpperEntry>),
    /// The answer to the peek of the connection with the given id.
    PeekResponse(u32, P),
}

/// A report together with the worker that it comes from.
#[derive(Clone, Debug, PartialEq, Eq)]
pub struct FeedbackMessage<P> {
    pub worker_id: usize,
    pub feedback: Feedback<P>,
}

/// The mathematical content of a [`Feedback`].
pub enum FeedbackView<P> {
    FrontierUppers(Seq<UpperEntry>),
    PeekResponse(u32, P),
}

/// The mathematical content of a [`FeedbackMessage`].
pub struct MessageView<P> {
    pub worker_id: usize,
    pub feedback: FeedbackView<P>,
}

impl<P> View for Feedback<P> {
    type V = FeedbackView<P>;

    open spec fn view(&self) -> FeedbackView<P> {
        match *self {
            Feedback::FrontierUppers(entries) => FeedbackView::FrontierUppers(entries@),
            Feedback::PeekResponse(conn, result) => FeedbackView::PeekResponse(conn, result),
        }
    }
}

impl<P> View for FeedbackMessage<P> {
    type V = MessageView<P>;

    open spec fn view(&self) -> MessageView<P> {
        MessageView { worker_id: self.worker_id, feedback: self.feedback@ }
    }
}

/// The contents of a list of messages, message by message.
pub open spec fn views<P>(messages: Seq<FeedbackMessage<P>>) -> Seq<MessageView<P>> {
    messages.map_values(|m: FeedbackMessage<P>| m@)
}

/// The frontier entries that a list of messages carries, in order.
pub open spec fn upper_entries<P>(messages: Seq<MessageView<P>>) -> Seq<UpperEntry>
    decreases messages.len(),
{
    if messages.len() == 0 {
        Seq::empty()
    } else {
        upper_entries(messages.drop_last()) + match messages.last().feedback {
            FeedbackView::FrontierUppers(entries) => entries,
            FeedbackView::PeekResponse(..) => Seq::empty(),
        }
    }
}

/// Whether a message answers a peek.
pub open spec fn is_peek_response<P>() -> spec_fn(MessageView<P>) -> bool {
    |m: MessageView<P>| m.feedback is PeekResponse
}

/// Whether a message is anything but the answer to a peek.
pub open spec fn is_not_peek_response<P>() -> spec_fn(MessageView<P>) -> bool {
    |m: MessageView<P>| !(m.feedback is PeekResponse)
}

/// The contents of a list grow with the list.
pub proof fn lemma_views_push<P>(messages: Seq<FeedbackMessage<P>>, m: FeedbackMessage<P>)
    ensures
        views(messages.push(m)) == views(messages).push(m@),
{
    assert(views(messages.push(m)) =~= views(messages).push(m@));
}

/// The contents of two lists joined are the contents of each, joined.
pub proof fn lemma_views_add<P>(a: Seq<FeedbackMessage<P>>, b: Seq<FeedbackMessage<P>>)
    ensures
        views(a + b) == views(a) + views(b),
{
    assert(views(a + b) =~= views(a) + views(b));
}

impl<P> FeedbackMessage<P> {
    /// Whether this message answers a peek.
    pub fn is_peek_response(&self) -> (b: bool)
        ensures
            b == (self@.feedback is PeekResponse),
    {
        match &self.feedback {
            Feedback::PeekResponse(..) => true,
            Feedback::FrontierUppers(..) => false,
        }
    }
}

} // verus!
