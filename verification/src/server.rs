//! The session: the registry, the pending events and the notifier, and the
//! operations the host and the event source perform on them.

use crate::dispatch::IRTDUpdateEventWrap;
use crate::model::{deliver, deliver_all, nothing_pending, subscribers, ServerView};
use crate::registry::{Registry, SubscriptionHandle};
use crate::value::{Event, EventView, SubId, TopicId};
use crate::variant::{cell_of_event, variant_of_event, Variant};
use std::collections::HashMap;
use vstd::prelude::*;
use vstd::std_specs::iter::IteratorSpec;

verus! {

broadcast use vstd::std_specs::hash::group_hash_axioms;

/// Why a path could not be subscribed to.
#[derive(Debug, Clone, PartialEq, Eq)]
pub struct SubscribeError {
    /// What the publish/subscribe layer reported.
    pub message: String,
}

/// The model of a map of pending events keyed by topic number.
pub open spec fn pending_model(m: Map<i32, Event>) -> Map<TopicId, EventView> {
    Map::new(|t: TopicId| m.contains_key(t.0), |t: TopicId| m[t.0]@)
}

/// The model of a batch of subscription events.
pub open spec fn batch_model(batch: Seq<(SubId, Event)>) -> Seq<(SubId, EventView)> {
    Seq::new(batch.len(), |i: int| (batch[i].0, batch[i].1@))
}

/// Hands `ev` to every topic in `topics`: a copy to each but the last, and
/// the event itself to the last.
fn deliver_to(pending: &mut HashMap<i32, Event>, topics: &Vec<TopicId>, ev: Event)
    ensures
        pending_model(final(pending)@) == deliver(
            pending_model(old(pending)@),
            topics@.to_set(),
            ev@,
        ),
{
    let ghost before = pending_model(pending@);
    let n = topics.len();
    if n == 0 {
        assert(pending_model(pending@) =~= deliver(before, topics@.to_set(), ev@));
        return ;
    }
    let mut i: usize = 0;
    while i < n - 1
        invariant
            n == topics.len(),
            n > 0,
            i <= n - 1,
            pending_model(pending@) == deliver(before, topics@.take(i as int).to_set(), ev@),
        decreases n - i,
    {
        let ghost prior = pending@;
        pending.insert(topics[i].0, ev.clone());
        proof {
            assert(topics@.take(i + 1) =~= topics@.take(i as int).push(topics[i as int]));
            let t = topics[i as int];
            assert(t == TopicId(t.0));
            assert forall|u: TopicId| #[trigger]
                topics@.take(i + 1).to_set().contains(u) <==> (u == t || topics@.take(
                    i as int,
                ).to_set().contains(u)) by {
                if topics@.take(i as int).contains(u) {
                    let j = choose|j: int| 0 <= j < i && topics@.take(i as int)[j] == u;
                    assert(topics@.take(i + 1)[j] == u);
                }
                if u == t {
                    assert(topics@.take(i + 1)[i as int] == u);
                }
            }
            let was = pending_model(prior);
            let now = pending_model(pending@);
            let goal = deliver(before, topics@.take(i + 1).to_set(), ev@);
            assert forall|u: TopicId| now.contains_key(u) == goal.contains_key(u) by {
                assert(was.contains_key(u) == prior.contains_key(u.0));
                assert(u == TopicId(u.0));
            }
            assert forall|u: TopicId| now.contains_key(u) implies now[u] == goal[u] by {
                assert(u == TopicId(u.0));
                if u != t {
                    assert(was.contains_key(u));
                    assert(was[u] == prior[u.0]@);
                }
            }
            assert(now =~= goal);
        }
        i += 1;
    }
    let ghost prior = pending@;
    let ghost shown = ev@;
    pending.insert(topics[i].0, ev);
    proof {
        assert(topics@ =~= topics@.take(i as int).push(topics[i as int]));
        let t = topics[i as int];
        assert(t == TopicId(t.0));
        assert forall|u: TopicId| #[trigger]
            topics@.to_set().contains(u) <==> (u == t || topics@.take(i as int).to_set().contains(
                u,
            )) by {
            if topics@.take(i as int).contains(u) {
                let j = choose|j: int| 0 <= j < i && topics@.take(i as int)[j] == u;
                assert(topics@[j] == u);
            }
            if u == t {
                assert(topics@[i as int] == u);
            }
        }
        let was = pending_model(prior);
        let now = pending_model(pending@);
        let goal = deliver(before, topics@.to_set(), shown);
        assert forall|u: TopicId| now.contains_key(u) == goal.contains_key(u) by {
            assert(was.contains_key(u) == prior.contains_key(u.0));
            assert(u == TopicId(u.0));
        }
        assert forall|u: TopicId| now.contains_key(u) implies now[u] == goal[u] by {
            assert(u == TopicId(u.0));
            if u != t {
                assert(was.contains_key(u));
                assert(was[u] == prior[u.0]@);
            }
        }
        assert(now =~= goal);
    }
}

/// One session of the bridge. `H` is what keeps a subscription alive; the
/// session owns one per bound topic and drops it when the binding goes.
pub struct Server<H> {
    update: Option<IRTDUpdateEventWrap>,
    registry: Registry<H>,
    pending: HashMap<i32, Event>,
}

impl<H> View for Server<H> {
    type V = ServerView;

    closed spec fn view(&self) -> ServerView {
        ServerView {
            active: self.update is Some,
            bindings: self.registry.bindings(),
            pending: pending_model(self.pending@),
            notified: match self.update {
                Some(u) => u.notified(),
                None => 0,
            },
        }
    }
}

impl<H> Server<H> {
    /// The handle each bound topic is bound to.
    pub closed spec fn handles(&self) -> Map<TopicId, SubscriptionHandle<H>> {
        self.registry.handles()
    }

    /// The topics recorded as sharing the subscription `id`.
    pub closed spec fn spec_fan_out(&self, id: SubId) -> Set<TopicId> {
        self.registry.spec_fan_out(id)
    }

    /// The session is sound: its registry is, and its model keeps the
    /// session invariant.
    pub closed spec fn wf(&self) -> bool {
        &&& self.registry.wf()
        &&& self@.inv()
    }

    /// In a sound session the model's bindings are those of the handles held,
    /// the model keeps its invariant, and the fan-out set of a subscription
    /// holds exactly the topics bound to it.
    pub proof fn lemma_wf(&self)
        requires
            self.wf(),
        ensures
            self@.inv(),
            self@.bindings.dom() == self.handles().dom(),
            forall|t: TopicId| #[trigger]
                self.handles().contains_key(t) ==> self@.bindings[t] == self.handles()[t].id,
            forall|id: SubId| #[trigger] self.spec_fan_out(id) == subscribers(self@.bindings, id),
    {
        self.registry.lemma_wf_consistent();
        assert(self@.bindings.dom() =~= self.handles().dom());
        assert forall|id: SubId| #[trigger]
            self.spec_fan_out(id) == subscribers(self@.bindings, id) by {
            assert(self.spec_fan_out(id) =~= subscribers(self@.bindings, id));
        }
    }

    /// A session with no notifier, no topic and nothing pending.
    pub fn new() -> (r: Server<H>)
        ensures
            r.wf(),
            r@ == ServerView::idle(),
            r.handles() == Map::<TopicId, SubscriptionHandle<H>>::empty(),
    {
        let r = Server { update: None, registry: Registry::new(), pending: HashMap::new() };
        proof {
            assert(r@.bindings =~= Map::<TopicId, SubId>::empty());
            assert(r@.pending =~= Map::<TopicId, EventView>::empty());
        }
        r
    }

    fn clear(&mut self)
        ensures
            final(self).wf(),
            final(self)@ == ServerView::idle(),
            final(self).handles() == Map::<TopicId, SubscriptionHandle<H>>::empty(),
    {
        self.update = None;
        self.registry.clear();
        self.pending.clear();
        proof {
            assert(self@.bindings =~= Map::<TopicId, SubId>::empty());
            assert(self@.pending =~= Map::<TopicId, EventView>::empty());
        }
    }

    /// Whether a notifier is installed.
    pub fn is_active(&self) -> (r: bool)
        ensures
            r == self@.active,
    {
        self.update.is_some()
    }

    /// Drops every topic and pending event a former session left, then
    /// installs `update` as the notifier.
    pub fn server_start(&mut self, update: IRTDUpdateEventWrap)
        ensures
            final(self).wf(),
            final(self)@ == old(self)@.start(update.notified()),
            final(self).handles() == Map::<TopicId, SubscriptionHandle<H>>::empty(),
    {
        self.clear();
        self.update = Some(update);
        proof {
            assert(self@.bindings =~= Map::<TopicId, SubId>::empty());
            assert(self@.pending =~= Map::<TopicId, EventView>::empty());
        }
    }

    /// Drops every topic, every pending event and the notifier.
    pub fn server_terminate(&mut self)
        ensures
            final(self).wf(),
            final(self)@ == old(self)@.terminate(),
            final(self).handles() == Map::<TopicId, SubscriptionHandle<H>>::empty(),
    {
        self.clear();
    }

    /// Completes a `connect` of `topic`, given how the attempt to subscribe
    /// to its path ended. On a session without a notifier nothing happens and
    /// success is reported. A failed attempt is reported and changes nothing.
    /// Otherwise the topic is bound to the new handle, any earlier binding of
    /// it undone, its pending event becomes the last known one, and the host
    /// is signalled.
    pub fn connect_data(
        &mut self,
        topic: TopicId,
        outcome: Result<(SubscriptionHandle<H>, Event), SubscribeError>,
    ) -> (r: Result<(), SubscribeError>)
        requires
            old(self).wf(),
        ensures
            final(self).wf(),
            !old(self)@.active ==> r is Ok && final(self)@ == old(self)@ && final(self).handles()
                == old(self).handles(),
            old(self)@.active ==> match outcome {
                Ok((handle, last)) => {
                    &&& r is Ok
                    &&& final(self)@ == old(self)@.connect(topic, handle.id, last@)
                    &&& final(self).handles() == old(self).handles().insert(topic, handle)
                },
                Err(e) => {
                    &&& r == Err::<(), SubscribeError>(e)
                    &&& final(self)@ == old(self)@
                    &&& final(self).handles() == old(self).handles()
                },
            },
    {
        if self.update.is_none() {
            return Ok(());
        }
        match outcome {
            Err(e) => Err(e),
            Ok((handle, last)) => {
                let ghost before = *self;
                let ghost id = handle.id;
                let ghost shown = last@;
                self.pending.insert(topic.0, last);
                match &mut self.update {
                    Some(update) => update.update_notify(),
                    None => {},
                }
                self.registry.bind(topic, handle);
                proof {
                    assert(self@.bindings =~= before@.bindings.insert(topic, id));
                    assert(self@.pending =~= before@.pending.insert(topic, shown));
                    assert(topic == TopicId(topic.0));
                }
                Ok(())
            },
        }
    }

    /// Unbinds `topic`, dropping its handle and its pending event; does
    /// nothing for a topic that is not bound.
    pub fn disconnect_data(&mut self, topic: TopicId)
        requires
            old(self).wf(),
        ensures
            final(self).wf(),
            final(self)@ == old(self)@.disconnect(topic),
            final(self).handles() == old(self).handles().remove(topic),
    {
        let ghost before = *self;
        self.pending.remove(&topic.0);
        let _ = self.registry.unbind(topic);
        proof {
            assert(topic == TopicId(topic.0));
            assert(self@.bindings =~= before@.bindings.remove(topic));
            assert(self@.pending =~= before@.pending.remove(topic));
            if !before@.active {
                assert(self@.bindings =~= Map::<TopicId, SubId>::empty());
            }
        }
    }

    /// Hands over the pending events and leaves none behind.
    pub fn refresh_data(&mut self) -> (r: HashMap<i32, Event>)
        requires
            old(self).wf(),
        ensures
            final(self).wf(),
            pending_model(r@) == old(self)@.pending,
            final(self)@ == old(self)@.refresh(),
            final(self).handles() == old(self).handles(),
    {
        let mut taken: HashMap<i32, Event> = HashMap::new();
        std::mem::swap(&mut self.pending, &mut taken);
        proof {
            assert(self@.pending =~= Map::<TopicId, EventView>::empty());
        }
        taken
    }

    /// Fans one batch of subscription events out to the topics bound to
    /// their subscriptions, in order, and signals the host once if that took
    /// the pending map from empty to nonempty.
    pub fn updates(&mut self, batch: Vec<(SubId, Event)>)
        requires
            old(self).wf(),
        ensures
            final(self).wf(),
            final(self)@ == old(self)@.update(batch_model(batch@)),
            final(self).handles() == old(self).handles(),
    {
        let ghost before = *self;
        let ghost events = batch_model(batch@);
        let was_empty = self.pending.is_empty();
        proof {
            before.lemma_wf();
        }
        for pair in it: batch
            invariant
                it.seq() == batch@,
                events == batch_model(batch@),
                self.registry == before.registry,
                self.update == before.update,
                before.wf(),
                pending_model(self.pending@) == deliver_all(
                    before@.pending,
                    before@.bindings,
                    events.take(it.index() as int),
                ),
        {
            let ghost k = it.index() as int;
            let (id, ev) = pair;
            proof {
                before.lemma_wf();
                assert(events.take(k + 1).drop_last() =~= events.take(k));
                assert(events.take(k + 1).last() == (id, ev@));
                assert(before.spec_fan_out(id) == subscribers(before@.bindings, id));
            }
            deliver_to(&mut self.pending, self.registry.fan_out(id), ev);
        }
        proof {
            assert(events.take(batch@.len() as int) =~= events);
            crate::model::lemma_deliver_all_within(before@.pending, before@.bindings, events);
        }
        let is_empty = self.pending.is_empty();
        if was_empty && !is_empty {
            match &mut self.update {
                Some(update) => update.update_notify(),
                None => {},
            }
        }
        proof {
            assert(was_empty == nothing_pending(before@.pending)) by {
                if !was_empty {
                    let k = choose|k: i32| before.pending@.contains_key(k);
                    assert(before@.pending.contains_key(TopicId(k)));
                }
            }
            assert(is_empty == nothing_pending(self@.pending)) by {
                if !is_empty {
                    let k = choose|k: i32| self.pending@.contains_key(k);
                    assert(self@.pending.contains_key(TopicId(k)));
                }
            }
        }
    }
}

/// Encodes pending events for the host: one pair of topic and cell for each
/// entry, in no particular order.
pub fn refresh_cells(updates: &HashMap<i32, Event>) -> (cells: Vec<(TopicId, Variant)>)
    ensures
        cells@.len() == updates@.dom().len(),
        forall|i: int|
            0 <= i < cells@.len() ==> updates@.contains_key(#[trigger] cells[i].0.0) && cells[i].1@
                == cell_of_event(updates@[cells[i].0.0]@),
        forall|i: int, j: int|
            0 <= i < cells@.len() && 0 <= j < cells@.len() && i != j ==> cells[i].0 != cells[j].0,
        forall|k: i32|
            updates@.contains_key(k) ==> exists|i: int|
                0 <= i < cells@.len() && #[trigger] cells[i].0 == TopicId(k),
{
    let mut cells: Vec<(TopicId, Variant)> = Vec::new();
    let ghost items = updates.iter().remaining();
    for entry in it: updates.iter()
        invariant
            it.seq() == items,
            items.no_duplicates(),
            cells@.len() == it.index(),
            forall|i: int|
                0 <= i < it.index() ==> cells[i].0 == TopicId(*items[i].0) && cells[i].1@
                    == cell_of_event(items[i].1@),
    {
        let (k, ev) = entry;
        cells.push((TopicId(*k), variant_of_event(ev)));
    }
    proof {
        assert(cells@.len() == items.len());
        assert forall|i: int, j: int|
            0 <= i < cells@.len() && 0 <= j < cells@.len() && i != j implies cells[i].0
            != cells[j].0 by {
            if cells[i].0 == cells[j].0 {
                assert(updates@[*items[i].0] == *items[i].1);
                assert(updates@[*items[j].0] == *items[j].1);
                assert(items[i] == items[j]);
            }
        }
        assert forall|k: i32| updates@.contains_key(k) implies exists|i: int|
            0 <= i < cells@.len() && #[trigger] cells[i].0 == TopicId(k) by {
            let i = choose|i: int| 0 <= i < items.len() && items[i] == (&k, &updates@[k]);
            assert(cells[i].0 == TopicId(k));
        }
        assert forall|i: int| 0 <= i < cells@.len() implies updates@.contains_key(
            #[trigger] cells[i].0.0,
        ) && cells[i].1@ == cell_of_event(updates@[cells[i].0.0]@) by {
            assert(updates@.contains_key(*items[i].0));
            assert(updates@[*items[i].0] == *items[i].1);
        }
    }
    cells
}

} // verus!
