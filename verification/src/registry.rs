//! The two-way index between topics and the subscriptions that feed them.

use crate::value::{SubId, TopicId};
use std::collections::HashMap;
use vstd::prelude::*;

verus! {

broadcast use vstd::std_specs::hash::group_hash_axioms;

/// The live link to one path's value stream. Whoever drops the handle lets
/// go of `link`, and with it of the underlying subscription.
pub struct SubscriptionHandle<H> {
    /// The key under which the subscription's events arrive.
    pub id: SubId,
    /// The resource that keeps the subscription alive.
    pub link: H,
}

/// Topics and the handles they are bound to, indexed both ways.
pub struct Registry<H> {
    by_topic: HashMap<i32, SubscriptionHandle<H>>,
    by_id: HashMap<u64, Vec<TopicId>>,
    nobody: Vec<TopicId>,
}

proof fn lemma_remove_at<A>(s: Seq<A>, i: int)
    requires
        0 <= i < s.len(),
        s.no_duplicates(),
    ensures
        s.remove(i).no_duplicates(),
        s.remove(i).len() == s.len() - 1,
        !s.remove(i).contains(s[i]),
        forall|a: A| a != s[i] && s.contains(a) ==> s.remove(i).contains(a),
        forall|a: A| s.remove(i).contains(a) ==> s.contains(a),
{
    let r = s.remove(i);
    assert forall|j: int| 0 <= j < r.len() implies r[j] == s[if j < i { j } else { j + 1 }] by {}
    assert forall|a: A| a != s[i] && s.contains(a) implies r.contains(a) by {
        let j = choose|j: int| 0 <= j < s.len() && s[j] == a;
        if j < i {
            assert(r[j] == a);
        } else {
            assert(r[j - 1] == a);
        }
    }
}

proof fn lemma_push_new<A>(s: Seq<A>, a: A)
    requires
        s.no_duplicates(),
        !s.contains(a),
    ensures
        s.push(a).no_duplicates(),
        s.push(a).contains(a),
        forall|b: A| #[trigger] s.push(a).contains(b) <==> (b == a || s.contains(b)),
{
    let p = s.push(a);
    assert(p[s.len() as int] == a);
    assert forall|b: A| s.contains(b) implies p.contains(b) by {
        let j = choose|j: int| 0 <= j < s.len() && s[j] == b;
        assert(p[j] == b);
    }
}

/// Finds the place of `topic` in a list that holds it.
fn position(list: &Vec<TopicId>, topic: TopicId) -> (i: usize)
    requires
        list@.contains(topic),
    ensures
        i < list.len(),
        list[i as int] == topic,
{
    let mut i: usize = 0;
    while i < list.len() && list[i].0 != topic.0
        invariant
            i <= list.len(),
            list@.contains(topic),
            forall|j: int| 0 <= j < i ==> list[j] != topic,
        decreases list.len() - i,
    {
        i += 1;
    }
    i
}

impl<H> Registry<H> {
    /// The handle each bound topic is bound to.
    pub closed spec fn handles(&self) -> Map<TopicId, SubscriptionHandle<H>> {
        Map::new(
            |t: TopicId| self.by_topic@.contains_key(t.0),
            |t: TopicId| self.by_topic@[t.0],
        )
    }

    /// The subscription each bound topic listens to.
    pub open spec fn bindings(&self) -> Map<TopicId, SubId> {
        Map::new(
            |t: TopicId| self.handles().contains_key(t),
            |t: TopicId| self.handles()[t].id,
        )
    }

    /// The topics recorded as sharing the subscription `id`.
    pub closed spec fn spec_fan_out(&self, id: SubId) -> Set<TopicId> {
        if self.by_id@.contains_key(id.0) {
            self.by_id@[id.0]@.to_set()
        } else {
            Set::empty()
        }
    }

    spec fn bound_to(&self, t: TopicId, id: u64) -> bool {
        self.by_topic@.contains_key(t.0) && self.by_topic@[t.0].id.0 == id
    }

    spec fn set_ok(&self, id: u64) -> bool {
        let s = self.by_id@[id]@;
        &&& s.len() > 0
        &&& s.no_duplicates()
        &&& forall|t: TopicId| s.contains(t) ==> self.bound_to(t, id)
    }

    spec fn listed(&self, k: i32) -> bool {
        let id = self.by_topic@[k].id.0;
        self.by_id@.contains_key(id) && self.by_id@[id]@.contains(TopicId(k))
    }

    /// The representation is sound: every fan-out set is nonempty, names no
    /// topic twice and names only topics bound to its subscription, and every
    /// bound topic is named in the set of its subscription.
    pub closed spec fn wf(&self) -> bool {
        &&& forall|id: u64| #[trigger] self.by_id@.contains_key(id) ==> self.set_ok(id)
        &&& forall|k: i32| #[trigger] self.by_topic@.contains_key(k) ==> self.listed(k)
        &&& self.nobody@.len() == 0
    }

    /// The two indices agree: a topic is in the fan-out set of a subscription
    /// exactly when it is bound to a handle of that subscription.
    pub open spec fn consistent(&self) -> bool {
        forall|id: SubId, t: TopicId|
            #[trigger] self.spec_fan_out(id).contains(t) <==> (self.bindings().contains_key(t)
                && self.bindings()[t] == id)
    }

    /// A sound registry's indices agree.
    pub proof fn lemma_wf_consistent(&self)
        requires
            self.wf(),
        ensures
            self.consistent(),
    {
        assert forall|id: SubId, t: TopicId|
            #[trigger] self.spec_fan_out(id).contains(t) <==> (self.bindings().contains_key(t)
                && self.bindings()[t] == id) by {
            if self.spec_fan_out(id).contains(t) {
                assert(self.by_id@.contains_key(id.0));
                assert(self.set_ok(id.0));
                assert(self.by_id@[id.0]@.contains(t));
                assert(self.bound_to(t, id.0));
            }
            if self.bindings().contains_key(t) && self.bindings()[t] == id {
                assert(self.by_topic@.contains_key(t.0));
                assert(self.listed(t.0));
                assert(TopicId(t.0) == t);
            }
        }
    }

    /// A registry with no topic bound.
    pub fn new() -> (r: Registry<H>)
        ensures
            r.wf(),
            r.consistent(),
            r.handles() == Map::<TopicId, SubscriptionHandle<H>>::empty(),
    {
        let r = Registry { by_topic: HashMap::new(), by_id: HashMap::new(), nobody: Vec::new() };
        proof {
            assert(r.handles() =~= Map::<TopicId, SubscriptionHandle<H>>::empty());
            r.lemma_wf_consistent();
        }
        r
    }

    /// Forgets every binding, dropping all handles.
    pub fn clear(&mut self)
        ensures
            final(self).wf(),
            final(self).consistent(),
            final(self).handles() == Map::<TopicId, SubscriptionHandle<H>>::empty(),
    {
        self.by_topic.clear();
        self.by_id.clear();
        self.nobody.clear();
        proof {
            assert(self.handles() =~= Map::<TopicId, SubscriptionHandle<H>>::empty());
            self.lemma_wf_consistent();
        }
    }

    /// Whether `topic` is bound.
    pub fn is_bound(&self, topic: TopicId) -> (r: bool)
        ensures
            r == self.handles().contains_key(topic),
    {
        self.by_topic.contains_key(&topic.0)
    }

    /// The topics that share the subscription `id`, each once; none for an
    /// unknown subscription.
    pub fn fan_out(&self, id: SubId) -> (r: &Vec<TopicId>)
        requires
            self.wf(),
        ensures
            r@.no_duplicates(),
            r@.to_set() == self.spec_fan_out(id),
    {
        match self.by_id.get(&id.0) {
            Some(s) => {
                assert(self.set_ok(id.0));
                s
            },
            None => {
                assert(self.nobody@.to_set() =~= Set::<TopicId>::empty());
                &self.nobody
            },
        }
    }

    /// Removes the binding of `topic` and hands back its handle, or does
    /// nothing where the topic is not bound.
    pub fn unbind(&mut self, topic: TopicId) -> (r: Option<SubscriptionHandle<H>>)
        requires
            old(self).wf(),
        ensures
            final(self).wf(),
            final(self).consistent(),
            final(self).handles() == old(self).handles().remove(topic),
            r == if old(self).handles().contains_key(topic) {
                Some(old(self).handles()[topic])
            } else {
                None
            },
    {
        let ghost before = *self;
        match self.by_topic.remove(&topic.0) {
            None => {
                proof {
                    assert(self.handles() =~= before.handles().remove(topic));
                    assert(self.by_topic@ =~= before.by_topic@);
                    self.lemma_wf_consistent();
                }
                None
            },
            Some(h) => {
                let id = h.id.0;
                assert(before.listed(topic.0));
                assert(before.set_ok(id));
                let ghost old_set = before.by_id@[id]@;
                match self.by_id.remove(&id) {
                    None => {},
                    Some(mut set) => {
                        let i = position(&set, topic);
                        set.remove(i);
                        proof {
                            lemma_remove_at(old_set, i as int);
                        }
                        if set.len() > 0 {
                            self.by_id.insert(id, set);
                        }
                    },
                }
                proof {
                    assert(self.handles() =~= before.handles().remove(topic));
                    assert forall|id2: u64| #[trigger]
                        self.by_id@.contains_key(id2) implies self.set_ok(id2) by {
                        assert(before.by_id@.contains_key(id2));
                        assert(before.set_ok(id2));
                        let s = self.by_id@[id2]@;
                        assert forall|t: TopicId| s.contains(t) implies self.bound_to(t, id2) by {
                            assert(before.by_id@[id2]@.contains(t));
                            assert(before.bound_to(t, id2));
                        }
                    }
                    assert forall|k: i32| #[trigger]
                        self.by_topic@.contains_key(k) implies self.listed(k) by {
                        assert(before.by_topic@.contains_key(k));
                        assert(before.listed(k));
                        assert(TopicId(k) != topic);
                    }
                    self.lemma_wf_consistent();
                }
                Some(h)
            },
        }
    }

    /// Binds `topic` to `handle`. A binding the topic already had is undone
    /// first and its handle dropped.
    pub fn bind(&mut self, topic: TopicId, handle: SubscriptionHandle<H>)
        requires
            old(self).wf(),
        ensures
            final(self).wf(),
            final(self).consistent(),
            final(self).handles() == old(self).handles().insert(topic, handle),
    {
        let ghost before = *self;
        let _ = self.unbind(topic);
        let ghost mid = *self;
        assert(!mid.by_topic@.contains_key(topic.0)) by {
            assert(!mid.handles().contains_key(topic));
        }
        let id = handle.id.0;
        let mut set = match self.by_id.remove(&id) {
            Some(s) => s,
            None => Vec::new(),
        };
        let ghost old_set = set@;
        proof {
            if mid.by_id@.contains_key(id) {
                assert(mid.set_ok(id));
                if old_set.contains(topic) {
                    assert(mid.bound_to(topic, id));
                }
            }
            lemma_push_new(old_set, topic);
        }
        set.push(topic);
        self.by_id.insert(id, set);
        self.by_topic.insert(topic.0, handle);
        proof {
            let ghost new_set = old_set.push(topic);
            assert(self.by_id@[id]@ == new_set);
            assert(new_set[old_set.len() as int] == topic);
            let ghost target = before.handles().insert(topic, handle);
            assert forall|t: TopicId| #[trigger]
                self.handles().contains_key(t) <==> target.contains_key(t) by {
                if t != topic {
                    assert(t.0 != topic.0);
                    assert(mid.handles().contains_key(t) == before.handles().contains_key(t));
                }
            }
            assert forall|t: TopicId| self.handles().contains_key(t) implies #[trigger]
                self.handles()[t] == target[t] by {
                if t != topic {
                    assert(t.0 != topic.0);
                    assert(mid.handles().contains_key(t));
                    assert(mid.handles()[t] == before.handles()[t]);
                }
            }
            assert(self.handles() =~= target);
            assert forall|id2: u64| #[trigger] self.by_id@.contains_key(id2) implies self.set_ok(
                id2,
            ) by {
                let s = self.by_id@[id2]@;
                if id2 == id {
                    assert forall|t: TopicId| s.contains(t) implies self.bound_to(t, id2) by {
                        if t != topic {
                            assert(old_set.contains(t));
                            assert(mid.bound_to(t, id2));
                        }
                    }
                } else {
                    assert(mid.by_id@.contains_key(id2));
                    assert(mid.set_ok(id2));
                    assert forall|t: TopicId| s.contains(t) implies self.bound_to(t, id2) by {
                        assert(mid.bound_to(t, id2));
                    }
                }
            }
            assert forall|k: i32| #[trigger] self.by_topic@.contains_key(k) implies self.listed(
                k,
            ) by {
                if k != topic.0 {
                    assert(mid.by_topic@.contains_key(k));
                    assert(mid.listed(k));
                    let idk = mid.by_topic@[k].id.0;
                    if idk == id {
                        assert(old_set.contains(TopicId(k)));
                        assert(new_set.contains(TopicId(k)));
                    }
                } else {
                    assert(TopicId(k) == topic);
                }
            }
            self.lemma_wf_consistent();
        }
    }
}

} // verus!
