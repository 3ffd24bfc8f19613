//! The mathematical model of a session: what the host can observe of it,
//! and how each operation changes that.

use crate::value::{EventView, SubId, TopicId};
use vstd::prelude::*;

verus! {

/// The topics bound to the subscription `id`.
pub open spec fn subscribers(bindings: Map<TopicId, SubId>, id: SubId) -> Set<TopicId> {
    Set::new(|t: TopicId| bindings.contains_key(t) && bindings[t] == id)
}

/// The pending map after one event has been handed to each topic in `to`:
/// those topics hold the event, the others what they held.
pub open spec fn deliver(pending: Map<TopicId, EventView>, to: Set<TopicId>, ev: EventView) -> Map<
    TopicId,
    EventView,
> {
    Map::new(
        |t: TopicId| pending.contains_key(t) || to.contains(t),
        |t: TopicId|
            if to.contains(t) {
                ev
            } else {
                pending[t]
            },
    )
}

/// The pending map after the events of `batch` have been fanned out in
/// order, each to the topics bound to its subscription.
pub open spec fn deliver_all(
    pending: Map<TopicId, EventView>,
    bindings: Map<TopicId, SubId>,
    batch: Seq<(SubId, EventView)>,
) -> Map<TopicId, EventView>
    decreases batch.len(),
{
    if batch.len() == 0 {
        pending
    } else {
        deliver(
            deliver_all(pending, bindings, batch.drop_last()),
            subscribers(bindings, batch.last().0),
            batch.last().1,
        )
    }
}

/// Whether a pending map holds nothing.
pub open spec fn nothing_pending(pending: Map<TopicId, EventView>) -> bool {
    forall|t: TopicId| !pending.contains_key(t)
}

/// What can be observed of a session.
pub struct ServerView {
    /// Whether a notifier is installed.
    pub active: bool,
    /// The subscription each bound topic listens to.
    pub bindings: Map<TopicId, SubId>,
    /// The latest undelivered event of each topic that has one.
    pub pending: Map<TopicId, EventView>,
    /// How often the installed notifier has signalled the host.
    pub notified: nat,
}

impl ServerView {
    /// Only bound topics have a pending event, and a session without a
    /// notifier has no topics.
    pub open spec fn inv(self) -> bool {
        &&& forall|t: TopicId| self.pending.contains_key(t) ==> self.bindings.contains_key(t)
        &&& !self.active ==> self.bindings == Map::<TopicId, SubId>::empty()
    }

    /// A session that was just made.
    pub open spec fn idle() -> ServerView {
        ServerView {
            active: false,
            bindings: Map::empty(),
            pending: Map::empty(),
            notified: 0,
        }
    }

    /// After `start` with a notifier that has signalled `signals` times.
    pub open spec fn start(self, signals: nat) -> ServerView {
        ServerView {
            active: true,
            bindings: Map::empty(),
            pending: Map::empty(),
            notified: signals,
        }
    }

    /// After `terminate`.
    pub open spec fn terminate(self) -> ServerView {
        ServerView::idle()
    }

    /// After a `connect` whose subscription succeeded with identifier `id`
    /// and last known event `last`.
    pub open spec fn connect(self, topic: TopicId, id: SubId, last: EventView) -> ServerView {
        if self.active {
            ServerView {
                active: true,
                bindings: self.bindings.insert(topic, id),
                pending: self.pending.insert(topic, last),
                notified: self.notified + 1,
            }
        } else {
            self
        }
    }

    /// After `disconnect`.
    pub open spec fn disconnect(self, topic: TopicId) -> ServerView {
        ServerView {
            bindings: self.bindings.remove(topic),
            pending: self.pending.remove(topic),
            ..self
        }
    }

    /// After `refresh`, which hands `self.pending` to the host.
    pub open spec fn refresh(self) -> ServerView {
        ServerView { pending: Map::empty(), ..self }
    }

    /// After a batch of subscription events. The notifier signals once if
    /// the batch took the pending map from empty to nonempty, and not at all
    /// otherwise.
    pub open spec fn update(self, batch: Seq<(SubId, EventView)>) -> ServerView {
        let pending = deliver_all(self.pending, self.bindings, batch);
        ServerView {
            pending,
            notified: if self.active && nothing_pending(self.pending) && !nothing_pending(
                pending,
            ) {
                self.notified + 1
            } else {
                self.notified
            },
            ..self
        }
    }
}

/// Delivering a batch adds pending events only for bound topics.
pub proof fn lemma_deliver_all_within(
    pending: Map<TopicId, EventView>,
    bindings: Map<TopicId, SubId>,
    batch: Seq<(SubId, EventView)>,
)
    ensures
        forall|t: TopicId| #[trigger]
            deliver_all(pending, bindings, batch).contains_key(t) ==> pending.contains_key(t)
                || bindings.contains_key(t),
        forall|t: TopicId|
            pending.contains_key(t) ==> #[trigger] deliver_all(pending, bindings, batch).contains_key(
                t,
            ),
    decreases batch.len(),
{
    if batch.len() > 0 {
        lemma_deliver_all_within(pending, bindings, batch.drop_last());
        let rest = deliver_all(pending, bindings, batch.drop_last());
        let to = subscribers(bindings, batch.last().0);
        assert forall|t: TopicId| #[trigger]
            deliver_all(pending, bindings, batch).contains_key(t) implies pending.contains_key(t)
            || bindings.contains_key(t) by {
            assert(rest.contains_key(t) || to.contains(t));
        }
        assert forall|t: TopicId| pending.contains_key(t) implies #[trigger] deliver_all(
            pending,
            bindings,
            batch,
        ).contains_key(t) by {
            assert(rest.contains_key(t));
        }
    }
}

/// Two batches delivered one after the other leave what their concatenation
/// leaves.
pub proof fn lemma_deliver_all_concat(
    pending: Map<TopicId, EventView>,
    bindings: Map<TopicId, SubId>,
    first: Seq<(SubId, EventView)>,
    second: Seq<(SubId, EventView)>,
)
    ensures
        deliver_all(deliver_all(pending, bindings, first), bindings, second) == deliver_all(
            pending,
            bindings,
            first + second,
        ),
    decreases second.len(),
{
    if second.len() == 0 {
        assert(first + second =~= first);
    } else {
        lemma_deliver_all_concat(pending, bindings, first, second.drop_last());
        assert((first + second).drop_last() =~= first + second.drop_last());
        assert((first + second).last() == second.last());
    }
}

/// Last write wins: a topic bound to the subscription of the event at
/// position `i`, whose subscription reports nothing later in the batch, is
/// left holding exactly that event.
pub proof fn lemma_last_write_wins(
    pending: Map<TopicId, EventView>,
    bindings: Map<TopicId, SubId>,
    batch: Seq<(SubId, EventView)>,
    topic: TopicId,
    i: int,
)
    requires
        0 <= i < batch.len(),
        bindings.contains_key(topic),
        batch[i].0 == bindings[topic],
        forall|j: int| i < j < batch.len() ==> batch[j].0 != bindings[topic],
    ensures
        deliver_all(pending, bindings, batch).contains_key(topic),
        deliver_all(pending, bindings, batch)[topic] == batch[i].1,
    decreases batch.len(),
{
    if i < batch.len() - 1 {
        lemma_last_write_wins(pending, bindings, batch.drop_last(), topic, i);
    }
}

/// A topic whose subscription reports nothing in a batch keeps what it had:
/// its pending event, or none.
pub proof fn lemma_untouched_topic(
    pending: Map<TopicId, EventView>,
    bindings: Map<TopicId, SubId>,
    batch: Seq<(SubId, EventView)>,
    topic: TopicId,
)
    requires
        forall|j: int|
            0 <= j < batch.len() ==> !(bindings.contains_key(topic) && #[trigger] batch[j].0
                == bindings[topic]),
    ensures
        deliver_all(pending, bindings, batch).contains_key(topic) == pending.contains_key(topic),
        pending.contains_key(topic) ==> deliver_all(pending, bindings, batch)[topic]
            == pending[topic],
    decreases batch.len(),
{
    if batch.len() > 0 {
        lemma_untouched_topic(pending, bindings, batch.drop_last(), topic);
        assert(batch.last() == batch[batch.len() - 1]);
    }
}

/// Every operation keeps the session invariant.
pub proof fn lemma_steps_keep_inv(
    s: ServerView,
    signals: nat,
    topic: TopicId,
    id: SubId,
    last: EventView,
    batch: Seq<(SubId, EventView)>,
)
    requires
        s.inv(),
    ensures
        ServerView::idle().inv(),
        s.start(signals).inv(),
        s.terminate().inv(),
        s.connect(topic, id, last).inv(),
        s.disconnect(topic).inv(),
        s.refresh().inv(),
        s.update(batch).inv(),
{
    lemma_deliver_all_within(s.pending, s.bindings, batch);
    if !s.active {
        assert(s.disconnect(topic).bindings =~= Map::<TopicId, SubId>::empty());
    }
}

/// A second refresh with no update in between hands the host nothing.
pub proof fn lemma_refresh_twice(s: ServerView)
    ensures
        nothing_pending(s.refresh().pending),
        s.refresh().refresh() == s.refresh(),
{
}

/// The notifier signals exactly once when a batch takes the pending map of
/// an active session from empty to nonempty, and never while events from an
/// earlier batch are still pending or when the batch leaves nothing pending.
pub proof fn lemma_edge_triggered(s: ServerView, batch: Seq<(SubId, EventView)>)
    ensures
        s.active && nothing_pending(s.pending) && !nothing_pending(s.update(batch).pending)
            ==> s.update(batch).notified == s.notified + 1,
        !nothing_pending(s.pending) ==> s.update(batch).notified == s.notified,
        nothing_pending(s.update(batch).pending) ==> s.update(batch).notified == s.notified,
{
}

/// A disconnected topic has no pending event, and no batch gives it one
/// until it is connected again.
pub proof fn lemma_disconnected_stays_silent(
    s: ServerView,
    topic: TopicId,
    batch: Seq<(SubId, EventView)>,
)
    requires
        s.inv(),
    ensures
        !s.disconnect(topic).pending.contains_key(topic),
        !s.disconnect(topic).update(batch).pending.contains_key(topic),
{
    let d = s.disconnect(topic);
    lemma_deliver_all_within(d.pending, d.bindings, batch);
}

} // verus!
