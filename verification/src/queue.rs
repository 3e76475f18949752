//! The buffer of intercepted feedback and the two policies that release
//! parts of it.
//!
//! Nothing reaches the coordinator unless a policy hands it out. Each policy
//! first takes in what has newly arrived, then splits the buffer into what is
//! delivered now and what stays for a later cycle. Both parts keep the order
//! of arrival, and together they hold exactly what was buffered.

use crate::feedback::{
    is_not_peek_response, is_peek_response, lemma_views_add, lemma_views_push, upper_entries, views,
    Feedback, FeedbackMessage, FeedbackView, MessageView, ObjectId, UpperEntry,
};
use std::collections::HashSet;
use vstd::prelude::*;

verus! {

/// Whether a frontier entry speaks of an object in `hidden`.
pub open spec fn excluded(hidden: Set<ObjectId>) -> spec_fn(UpperEntry) -> bool {
    |e: UpperEntry| hidden.contains(e.0)
}

/// Whether a frontier entry speaks of an object outside `hidden`.
pub open spec fn admitted(hidden: Set<ObjectId>) -> spec_fn(UpperEntry) -> bool {
    |e: UpperEntry| !hidden.contains(e.0)
}

/// A message as it is delivered while the objects in `hidden` are hidden:
/// a progress report loses the entries of hidden objects, any other message
/// passes as it is.
pub open spec fn admitted_message<P>(m: MessageView<P>, hidden: Set<ObjectId>) -> MessageView<P> {
    match m.feedback {
        FeedbackView::FrontierUppers(entries) => MessageView {
            worker_id: m.worker_id,
            feedback: FeedbackView::FrontierUppers(entries.filter(admitted(hidden))),
        },
        FeedbackView::PeekResponse(..) => m,
    }
}

/// What is delivered of `all` while the objects in `hidden` are hidden.
pub open spec fn released_excluding<P>(all: Seq<MessageView<P>>, hidden: Set<ObjectId>) -> Seq<
    MessageView<P>,
> {
    all.map_values(|m: MessageView<P>| admitted_message(m, hidden))
}

/// What stays queued of `all` while the objects in `hidden` are hidden: for
/// each progress report that speaks of a hidden object, a report of the same
/// worker that carries exactly the entries of hidden objects.
pub open spec fn withheld_excluding<P>(all: Seq<MessageView<P>>, hidden: Set<ObjectId>) -> Seq<
    MessageView<P>,
>
    decreases all.len(),
{
    if all.len() == 0 {
        Seq::empty()
    } else {
        let rest = withheld_excluding(all.drop_last(), hidden);
        match all.last().feedback {
            FeedbackView::FrontierUppers(entries) => if entries.filter(excluded(hidden)).len()
                > 0 {
                rest.push(
                    MessageView {
                        worker_id: all.last().worker_id,
                        feedback: FeedbackView::FrontierUppers(entries.filter(excluded(hidden))),
                    },
                )
            } else {
                rest
            },
            FeedbackView::PeekResponse(..) => rest,
        }
    }
}

/// Whether `picks` names positions of `whole` in rising order at which
/// `part` is found, item by item: `part` is `whole` with some items left
/// out and the others in their old order.
pub open spec fn keeps_order<A>(part: Seq<A>, whole: Seq<A>, picks: Seq<int>) -> bool {
    &&& picks.len() == part.len()
    &&& forall|k: int| 0 <= k < picks.len() ==> 0 <= #[trigger] picks[k] < whole.len()
    &&& forall|k: int| 0 <= k < picks.len() ==> part[k] == whole[#[trigger] picks[k]]
    &&& forall|j: int, k: int| 0 <= j < k < picks.len() ==> picks[j] < picks[k]
}

/// A sequence splits into the items that meet a test and those that do not;
/// nothing is lost or doubled.
pub proof fn lemma_partition_conserves<A>(s: Seq<A>, p: spec_fn(A) -> bool, q: spec_fn(A) -> bool)
    requires
        forall|a: A| #[trigger] p(a) != q(a),
    ensures
        s.filter(p).to_multiset().add(s.filter(q).to_multiset()) == s.to_multiset(),
    decreases s.len(),
{
    broadcast use vstd::seq_lib::group_to_multiset_ensures;

    reveal(Seq::filter);
    if s.len() == 0 {
        assert(s.filter(p).to_multiset().add(s.filter(q).to_multiset()) =~= s.to_multiset());
    } else {
        let front = s.drop_last();
        lemma_partition_conserves(front, p, q);
        assert(s == front.push(s.last()));
        assert(p(s.last()) != q(s.last()));
        assert(s.filter(p).to_multiset().add(s.filter(q).to_multiset()) =~= s.to_multiset());
    }
}

/// The items that meet a test stand in the filtered sequence in the order
/// in which they stood before.
pub proof fn lemma_filter_keeps_order<A>(s: Seq<A>, p: spec_fn(A) -> bool) -> (picks: Seq<int>)
    ensures
        keeps_order(s.filter(p), s, picks),
    decreases s.len(),
{
    reveal(Seq::filter);
    if s.len() == 0 {
        Seq::empty()
    } else {
        let front = s.drop_last();
        let before = lemma_filter_keeps_order(front, p);
        if p(s.last()) {
            before.push(s.len() - 1)
        } else {
            before
        }
    }
}

/// No entry of a hidden object is delivered: the entries delivered are the
/// entries of the objects that are not hidden, in their order.
pub proof fn lemma_released_entries<P>(all: Seq<MessageView<P>>, hidden: Set<ObjectId>)
    ensures
        upper_entries(released_excluding(all, hidden)) == upper_entries(all).filter(
            admitted(hidden),
        ),
        forall|k: int|
            0 <= k < upper_entries(released_excluding(all, hidden)).len() ==> !hidden.contains(
                (#[trigger] upper_entries(released_excluding(all, hidden))[k]).0,
            ),
    decreases all.len(),
{
    broadcast use vstd::seq_lib::group_filter_ensures;

    let released = released_excluding(all, hidden);
    if all.len() == 0 {
        reveal(Seq::filter);
    } else {
        lemma_released_entries(all.drop_last(), hidden);
        assert(released.drop_last() == released_excluding(all.drop_last(), hidden));
        let tail = match all.last().feedback {
            FeedbackView::FrontierUppers(entries) => entries,
            FeedbackView::PeekResponse(..) => Seq::empty(),
        };
        Seq::filter_distributes_over_add(upper_entries(all.drop_last()), tail, admitted(hidden));
        if tail.len() == 0 {
            reveal(Seq::filter);
        }
    }
    assert forall|k: int| 0 <= k < upper_entries(released).len() implies !hidden.contains(
        (#[trigger] upper_entries(released)[k]).0,
    ) by {
        assert(admitted(hidden)(upper_entries(all).filter(admitted(hidden))[k]));
    }
}

/// Every entry of a hidden object stays queued, unchanged and in its order.
pub proof fn lemma_withheld_entries<P>(all: Seq<MessageView<P>>, hidden: Set<ObjectId>)
    ensures
        upper_entries(withheld_excluding(all, hidden)) == upper_entries(all).filter(
            excluded(hidden),
        ),
        withheld_excluding(all, hidden).filter(is_peek_response()).len() == 0,
    decreases all.len(),
{
    reveal(Seq::filter);
    if all.len() > 0 {
        lemma_withheld_entries(all.drop_last(), hidden);
        let rest = withheld_excluding(all.drop_last(), hidden);
        let tail = match all.last().feedback {
            FeedbackView::FrontierUppers(entries) => entries,
            FeedbackView::PeekResponse(..) => Seq::empty(),
        };
        Seq::filter_distributes_over_add(upper_entries(all.drop_last()), tail, excluded(hidden));
        let held = tail.filter(excluded(hidden));
        if held.len() > 0 {
            let m = MessageView {
                worker_id: all.last().worker_id,
                feedback: FeedbackView::FrontierUppers(held),
            };
            assert(rest.push(m).drop_last() == rest);
        } else {
            assert(held =~= Seq::empty());
            assert(upper_entries(rest) + held == upper_entries(rest));
        }
    }
}

/// Hiding loses nothing and doubles nothing: the entries delivered and the
/// entries kept are together the entries that were queued, and the messages
/// that are no progress reports are all delivered, in their order.
pub proof fn lemma_release_excluding_conserves<P>(all: Seq<MessageView<P>>, hidden: Set<ObjectId>)
    ensures
        upper_entries(released_excluding(all, hidden)).to_multiset().add(
            upper_entries(withheld_excluding(all, hidden)).to_multiset(),
        ) == upper_entries(all).to_multiset(),
        released_excluding(all, hidden).filter(is_peek_response()) == all.filter(
            is_peek_response(),
        ),
{
    lemma_released_entries(all, hidden);
    lemma_withheld_entries(all, hidden);
    lemma_partition_conserves(upper_entries(all), admitted(hidden), excluded(hidden));
    lemma_released_peek_responses(all, hidden);
}

/// The answers to peeks pass a hiding release untouched.
pub proof fn lemma_released_peek_responses<P>(all: Seq<MessageView<P>>, hidden: Set<ObjectId>)
    ensures
        released_excluding(all, hidden).filter(is_peek_response()) == all.filter(
            is_peek_response(),
        ),
    decreases all.len(),
{
    reveal(Seq::filter);
    if all.len() > 0 {
        lemma_released_peek_responses(all.drop_last(), hidden);
        assert(released_excluding(all, hidden).drop_last() == released_excluding(
            all.drop_last(),
            hidden,
        ));
    }
}

/// What a hiding release keeps back comes out whole in a later cycle that
/// hides nothing, and nothing of it stays behind then.
pub proof fn lemma_withheld_reappears<P>(all: Seq<MessageView<P>>, hidden: Set<ObjectId>)
    ensures
        released_excluding(withheld_excluding(all, hidden), Set::empty()) == withheld_excluding(
            all,
            hidden,
        ),
        withheld_excluding(withheld_excluding(all, hidden), Set::empty()).len() == 0,
{
    let kept = withheld_excluding(all, hidden);
    lemma_nothing_hidden(kept);
}

/// A release that hides nothing delivers every message as it is.
pub proof fn lemma_nothing_hidden<P>(all: Seq<MessageView<P>>)
    ensures
        released_excluding(all, Set::empty()) == all,
        withheld_excluding(all, Set::empty()).len() == 0,
    decreases all.len(),
{
    let nothing = Set::<ObjectId>::empty();
    assert forall|entries: Seq<UpperEntry>|
        #[trigger] entries.filter(admitted(nothing)) == entries && entries.filter(
            excluded(nothing),
        ).len() == 0 by {
        lemma_filter_trivial(entries);
    }
    if all.len() > 0 {
        lemma_nothing_hidden(all.drop_last());
    }
    assert(released_excluding(all, nothing) =~= all);
}

proof fn lemma_filter_trivial(entries: Seq<UpperEntry>)
    ensures
        entries.filter(admitted(Set::empty())) == entries,
        entries.filter(excluded(Set::empty())).len() == 0,
    decreases entries.len(),
{
    reveal(Seq::filter);
    if entries.len() > 0 {
        lemma_filter_trivial(entries.drop_last());
        assert(entries.drop_last().push(entries.last()) == entries);
    }
}

/// Splits the entries of a progress report into those of objects outside
/// `hidden` and those of objects in it.
fn split_uppers(entries: Vec<UpperEntry>, hidden: &HashSet<ObjectId>) -> (parts: (
    Vec<UpperEntry>,
    Vec<UpperEntry>,
))
    ensures
        parts.0@ == entries@.filter(admitted(hidden@)),
        parts.1@ == entries@.filter(excluded(hidden@)),
{
    broadcast use vstd::std_specs::hash::group_hash_axioms;

    let mut shown: Vec<UpperEntry> = Vec::new();
    let mut held: Vec<UpperEntry> = Vec::new();
    let ghost all = entries@;
    for entry in it: entries
        invariant
            it.seq() == all,
            shown@ == all.take(it.index()).filter(admitted(hidden@)),
            held@ == all.take(it.index()).filter(excluded(hidden@)),
    {
        proof {
            reveal(Seq::filter);
            assert(all.take(it.index() + 1).drop_last() == all.take(it.index()));
        }
        if hidden.contains(&entry.0) {
            held.push(entry);
        } else {
            shown.push(entry);
        }
    }
    proof {
        assert(all.take(all.len() as int) == all);
    }
    (shown, held)
}

/// The feedback that was intercepted and not yet delivered, in the order in
/// which it arrived.
pub struct PendingQueue<P> {
    messages: Vec<FeedbackMessage<P>>,
}

impl<P> PendingQueue<P> {
    /// The queued messages, oldest first.
    pub closed spec fn view(&self) -> Seq<MessageView<P>> {
        views(self.messages@)
    }

    /// An empty queue.
    pub fn new() -> (queue: Self)
        ensures
            queue@ == Seq::<MessageView<P>>::empty(),
    {
        let queue = PendingQueue { messages: Vec::new() };
        assert(queue@ =~= Seq::<MessageView<P>>::empty());
        queue
    }

    /// The queued messages, oldest first.
    pub fn messages(&self) -> (messages: &Vec<FeedbackMessage<P>>)
        ensures
            views(messages@) == self@,
    {
        &self.messages
    }

    /// Takes in the messages that have arrived, behind those already queued.
    pub fn drain(&mut self, arrived: Vec<FeedbackMessage<P>>)
        ensures
            final(self)@ == old(self)@ + views(arrived@),
    {
        let mut arrived = arrived;
        proof {
            lemma_views_add(self.messages@, arrived@);
        }
        self.messages.append(&mut arrived);
    }

    /// Takes in what has arrived, then delivers everything but the progress
    /// of the objects in `hidden`.
    ///
    /// Each progress report is delivered without the entries of hidden
    /// objects; those entries stay queued, as a report of the same worker,
    /// for a later cycle. Every other message is delivered as it is. The
    /// result is what to send to the coordinator, in this order.
    pub fn release_excluding(
        &mut self,
        arrived: Vec<FeedbackMessage<P>>,
        hidden: &HashSet<ObjectId>,
    ) -> (delivered: Vec<FeedbackMessage<P>>)
        ensures
            views(delivered@) == released_excluding(old(self)@ + views(arrived@), hidden@),
            final(self)@ == withheld_excluding(old(self)@ + views(arrived@), hidden@),
            forall|k: int|
                0 <= k < upper_entries(views(delivered@)).len() ==> !hidden@.contains(
                    (#[trigger] upper_entries(views(delivered@))[k]).0,
                ),
            upper_entries(views(delivered@)) == upper_entries(
                old(self)@ + views(arrived@),
            ).filter(admitted(hidden@)),
            upper_entries(final(self)@) == upper_entries(old(self)@ + views(arrived@)).filter(
                excluded(hidden@),
            ),
            upper_entries(views(delivered@)).to_multiset().add(
                upper_entries(final(self)@).to_multiset(),
            ) == upper_entries(old(self)@ + views(arrived@)).to_multiset(),
            views(delivered@).filter(is_peek_response()) == (old(self)@ + views(arrived@)).filter(
                is_peek_response(),
            ),
            final(self)@.filter(is_peek_response()).len() == 0,
    {
        self.drain(arrived);
        let mut queued: Vec<FeedbackMessage<P>> = Vec::new();
        std::mem::swap(&mut queued, &mut self.messages);
        let ghost all = queued@;
        let mut to_send: Vec<FeedbackMessage<P>> = Vec::new();
        let mut to_queue: Vec<FeedbackMessage<P>> = Vec::new();
        for msg in it: queued
            invariant
                it.seq() == all,
                views(to_send@) == released_excluding(views(all.take(it.index())), hidden@),
                views(to_queue@) == withheld_excluding(views(all.take(it.index())), hidden@),
        {
            let ghost before = all.take(it.index());
            let ghost upto = all.take(it.index() + 1);
            proof {
                assert(upto == before.push(msg));
                lemma_views_push(before, msg);
                assert(views(upto).drop_last() == views(before));
                assert(released_excluding(views(upto), hidden@) =~= released_excluding(
                    views(before),
                    hidden@,
                ).push(admitted_message(msg@, hidden@)));
            }
            let FeedbackMessage { worker_id, feedback } = msg;
            match feedback {
                Feedback::FrontierUppers(entries) => {
                    let (shown, held) = split_uppers(entries, hidden);
                    if held.len() > 0 {
                        let kept = FeedbackMessage {
                            worker_id,
                            feedback: Feedback::FrontierUppers(held),
                        };
                        proof {
                            lemma_views_push(to_queue@, kept);
                        }
                        to_queue.push(kept);
                    }
                    let sent = FeedbackMessage {
                        worker_id,
                        feedback: Feedback::FrontierUppers(shown),
                    };
                    proof {
                        lemma_views_push(to_send@, sent);
                    }
                    to_send.push(sent);
                },
                Feedback::PeekResponse(conn, result) => {
                    let sent = FeedbackMessage {
                        worker_id,
                        feedback: Feedback::PeekResponse(conn, result),
                    };
                    proof {
                        lemma_views_push(to_send@, sent);
                    }
                    to_send.push(sent);
                },
            }
        }
        self.messages = to_queue;
        proof {
            assert(all.take(all.len() as int) == all);
            let whole = old(self)@ + views(arrived@);
            lemma_released_entries(whole, hidden@);
            lemma_withheld_entries(whole, hidden@);
            lemma_release_excluding_conserves(whole, hidden@);
        }
        to_send
    }

    /// Takes in what has arrived, then delivers the answers to peeks and
    /// nothing else.
    ///
    /// Every other message stays queued as it is. Both the messages
    /// delivered and the messages kept stand in the order in which they
    /// arrived. The result is what to send to the coordinator, in this order.
    pub fn release_only_peek_responses(&mut self, arrived: Vec<FeedbackMessage<P>>) -> (delivered:
        Vec<FeedbackMessage<P>>)
        ensures
            views(delivered@) == (old(self)@ + views(arrived@)).filter(is_peek_response()),
            final(self)@ == (old(self)@ + views(arrived@)).filter(is_not_peek_response()),
            forall|k: int|
                0 <= k < delivered@.len() ==> (#[trigger] views(
                    delivered@,
                )[k]).feedback is PeekResponse,
            forall|k: int|
                0 <= k < final(self)@.len() ==> !(#[trigger] final(self)@[k].feedback
                    is PeekResponse),
            exists|picks: Seq<int>|
                keeps_order(views(delivered@), old(self)@ + views(arrived@), picks),
            exists|picks: Seq<int>| keeps_order(final(self)@, old(self)@ + views(arrived@), picks),
            views(delivered@).to_multiset().add(final(self)@.to_multiset()) == (old(self)@
                + views(arrived@)).to_multiset(),
    {
        self.drain(arrived);
        let mut queued: Vec<FeedbackMessage<P>> = Vec::new();
        std::mem::swap(&mut queued, &mut self.messages);
        let ghost all = queued@;
        let mut to_send: Vec<FeedbackMessage<P>> = Vec::new();
        let mut to_queue: Vec<FeedbackMessage<P>> = Vec::new();
        for msg in it: queued
            invariant
                it.seq() == all,
                views(to_send@) == views(all.take(it.index())).filter(is_peek_response()),
                views(to_queue@) == views(all.take(it.index())).filter(is_not_peek_response()),
        {
            proof {
                reveal(Seq::filter);
                let before = all.take(it.index());
                assert(all.take(it.index() + 1) == before.push(msg));
                lemma_views_push(before, msg);
                assert(views(before.push(msg)).drop_last() == views(before));
                lemma_views_push(to_send@, msg);
                lemma_views_push(to_queue@, msg);
            }
            if msg.is_peek_response() {
                to_send.push(msg);
            } else {
                to_queue.push(msg);
            }
        }
        self.messages = to_queue;
        proof {
            broadcast use vstd::seq_lib::group_filter_ensures;

            assert(all.take(all.len() as int) == all);
            let whole = old(self)@ + views(arrived@);
            let sent_picks = lemma_filter_keeps_order(whole, is_peek_response());
            let kept_picks = lemma_filter_keeps_order(whole, is_not_peek_response());
            lemma_partition_conserves(whole, is_peek_response(), is_not_peek_response());
            assert forall|k: int| 0 <= k < to_send@.len() implies (#[trigger] views(
                to_send@,
            )[k]).feedback is PeekResponse by {
                assert(is_peek_response()(whole.filter(is_peek_response())[k]));
            }
            assert forall|k: int| 0 <= k < self@.len() implies !((#[trigger] self@[k]).feedback
                is PeekResponse) by {
                assert(is_not_peek_response()(whole.filter(is_not_peek_response())[k]));
            }
        }
        to_send
    }
}

} // verus!
