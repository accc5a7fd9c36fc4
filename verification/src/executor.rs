//! The executor core: for each polled message, decide which effects the
//! driver must perform, in which order.
//!
//! One message walks retrieval, handling, publishing, identity storage and
//! acknowledgement. Every failure self-classifies as transient (leave the
//! message for redelivery) or persistent (publish a copy to the
//! dead-letter queue and delete the source). Identities reach the cache
//! only after a publish, never before, so a crash between the two leaves
//! the identity unstored and the item is deduplicated downstream instead.

use vstd::prelude::*;

use crate::cache::Cache;
use crate::errors::Recoverable;
use crate::graph::Graph;
use crate::handler::{
    graph_edges, graph_keys, item_wf, kept_fragment_edges, kept_fragment_keys, kept_identities,
    last_failure, node_fold_rel, nodes_under_items, process_events, BatchItem, CompletedEvents,
};

verus! {

/// What retrieval left for one message: a decoded batch, a silently
/// expired payload, or a classed failure.
pub enum RetrievalOutcome {
    Batch(Vec<BatchItem>),
    Expired,
    Failed(Recoverable),
}

/// One effect the driver performs for a message.
pub enum Action {
    /// Serialize and publish this aggregate to the sink.
    Publish(Graph),
    /// Store these identities in the deduplication cache.
    StoreIdentities(Vec<String>),
    /// Publish a copy of the message body to the dead-letter queue.
    DeadletterPublish,
    /// Delete the message from the source queue.
    DeleteSource,
}

/// The kind of an action, for counting and ordering.
#[derive(PartialEq, Eq, Structural)]
pub enum ActionKind {
    Publish,
    Store,
    Deadletter,
    Delete,
}

/// The kind of an action.
pub open spec fn action_kind(a: Action) -> ActionKind {
    match a {
        Action::Publish(_) => ActionKind::Publish,
        Action::StoreIdentities(_) => ActionKind::Store,
        Action::DeadletterPublish => ActionKind::Deadletter,
        Action::DeleteSource => ActionKind::Delete,
    }
}

/// The kinds of a plan, in order.
pub open spec fn plan_kinds(s: Seq<Action>) -> Seq<ActionKind> {
    s.map_values(|a: Action| action_kind(a))
}

/// How many actions of a kind a plan holds.
pub open spec fn count_kind(s: Seq<ActionKind>, k: ActionKind) -> int
    decreases s.len(),
{
    if s.len() == 0 {
        0
    } else {
        count_kind(s.drop_last(), k) + if s.last() == k {
            1int
        } else {
            0int
        }
    }
}

/// The kinds a message plan takes, by case. A complete batch publishes,
/// stores and acknowledges; a partial batch publishes and stores, then
/// dead-letters (its failures are persistent); a failed retrieval follows
/// its class; an expired payload is silently acknowledged; a transient
/// failure leaves the queue alone.
pub open spec fn message_plan_kinds(
    expired: bool,
    retrieval_failure: Option<Recoverable>,
    batch_failure: Option<Recoverable>,
) -> Seq<ActionKind> {
    if expired {
        seq![ActionKind::Delete]
    } else if retrieval_failure is Some {
        if retrieval_failure.unwrap() == Recoverable::Persistent {
            seq![ActionKind::Deadletter, ActionKind::Delete]
        } else {
            Seq::empty()
        }
    } else {
        match batch_failure {
            None => seq![ActionKind::Publish, ActionKind::Store, ActionKind::Delete],
            Some(Recoverable::Persistent) => seq![
                ActionKind::Publish,
                ActionKind::Store,
                ActionKind::Deadletter,
                ActionKind::Delete,
            ],
            Some(Recoverable::Transient) => seq![ActionKind::Publish, ActionKind::Store],
        }
    }
}

/// The class a retrieval outcome carries, if it failed.
pub open spec fn retrieval_failure_of(r: RetrievalOutcome) -> Option<Recoverable> {
    match r {
        RetrievalOutcome::Failed(class) => Some(class),
        _ => None,
    }
}

/// The class the batch handling carries, if it failed. Handler failures
/// of the reference algorithm are persistent.
pub open spec fn batch_failure_of(items: Seq<BatchItem>, cached: Set<Seq<char>>) -> Option<
    Recoverable,
> {
    match last_failure(items, cached) {
        Some(_) => Some(Recoverable::Persistent),
        None => None,
    }
}

/// Decide one message's effects: retrieve, handle against the cache, and
/// route by failure class. The returned plan is executed by the driver in
/// order; nothing here touches the queue or the sink.
pub fn process_message<C: Cache>(retrieval: RetrievalOutcome, cache: &mut C) -> (plan: Vec<Action>)
    requires
        retrieval is Batch ==> forall|j: int|
            0 <= j < retrieval->Batch_0@.len() ==> item_wf(#[trigger] retrieval->Batch_0@[j]),
    ensures
        final(cache).cached() == old(cache).cached(),
        plan_kinds(plan@) == message_plan_kinds(
            retrieval is Expired,
            retrieval_failure_of(retrieval),
            match retrieval {
                RetrievalOutcome::Batch(items) => batch_failure_of(items@, old(cache).cached()),
                _ => None,
            },
        ),
        retrieval is Batch ==> plan@.len() >= 2 && plan@[1] is StoreIdentities
            && plan@[1]->StoreIdentities_0@ == kept_identities(
            retrieval->Batch_0@,
            old(cache).cached(),
        ) && plan@[0] is Publish && plan@[0]->Publish_0.wf(),
        retrieval is Batch ==> graph_keys(plan@[0]->Publish_0) == kept_fragment_keys(
            retrieval->Batch_0@,
            old(cache).cached(),
        ) && graph_edges(plan@[0]->Publish_0) == kept_fragment_edges(
            retrieval->Batch_0@,
            old(cache).cached(),
        ),
        // The published aggregate is the left-fold merge of the surviving
        // fragments, key by key.
        retrieval is Batch ==> forall|i: int|
            0 <= i < plan@[0]->Publish_0.nodes@.len() ==> node_fold_rel(
                nodes_under_items(
                    (#[trigger] plan@[0]->Publish_0.nodes@[i]).key(),
                    retrieval->Batch_0@,
                    old(cache).cached(),
                ),
                plan@[0]->Publish_0.nodes@[i],
            ),
{
    match retrieval {
        RetrievalOutcome::Expired => {
            let plan = vec![Action::DeleteSource];
            proof {
                assert(plan_kinds(plan@) =~= seq![ActionKind::Delete]);
            }
            plan
        },
        RetrievalOutcome::Failed(class) => {
            if class.is_persistent() {
                let plan = vec![Action::DeadletterPublish, Action::DeleteSource];
                proof {
                    assert(plan_kinds(plan@) =~= seq![ActionKind::Deadletter, ActionKind::Delete]);
                }
                plan
            } else {
                let plan: Vec<Action> = Vec::new();
                proof {
                    assert(plan_kinds(plan@) =~= Seq::<ActionKind>::empty());
                }
                plan
            }
        },
        RetrievalOutcome::Batch(items) => {
            let mut completed = CompletedEvents::new();
            let (aggregate, failure) = process_events(items, cache, &mut completed);
            let mut plan: Vec<Action> = Vec::new();
            plan.push(Action::Publish(aggregate));
            plan.push(Action::StoreIdentities(completed.identities));
            match failure {
                None => {
                    plan.push(Action::DeleteSource);
                    proof {
                        assert(plan_kinds(plan@) =~= seq![
                            ActionKind::Publish,
                            ActionKind::Store,
                            ActionKind::Delete,
                        ]);
                    }
                },
                Some(_) => {
                    plan.push(Action::DeadletterPublish);
                    plan.push(Action::DeleteSource);
                    proof {
                        assert(plan_kinds(plan@) =~= seq![
                            ActionKind::Publish,
                            ActionKind::Store,
                            ActionKind::Deadletter,
                            ActionKind::Delete,
                        ]);
                    }
                },
            }
            plan
        },
    }
}

/// Failure routing: a persistent-classed failure plans exactly one
/// dead-letter publish and one source delete; a transient-classed failure
/// plans no delete and no dead-letter, so the message is redelivered.
pub proof fn lemma_failure_routing(
    expired: bool,
    retrieval_failure: Option<Recoverable>,
    batch_failure: Option<Recoverable>,
)
    ensures
        !expired && retrieval_failure == Some(Recoverable::Persistent) ==> count_kind(
            message_plan_kinds(expired, retrieval_failure, batch_failure),
            ActionKind::Deadletter,
        ) == 1 && count_kind(
            message_plan_kinds(expired, retrieval_failure, batch_failure),
            ActionKind::Delete,
        ) == 1,
        !expired && retrieval_failure == Some(Recoverable::Transient) ==> count_kind(
            message_plan_kinds(expired, retrieval_failure, batch_failure),
            ActionKind::Deadletter,
        ) == 0 && count_kind(
            message_plan_kinds(expired, retrieval_failure, batch_failure),
            ActionKind::Delete,
        ) == 0,
        !expired && retrieval_failure is None && batch_failure == Some(Recoverable::Persistent)
            ==> count_kind(
            message_plan_kinds(expired, retrieval_failure, batch_failure),
            ActionKind::Deadletter,
        ) == 1 && count_kind(
            message_plan_kinds(expired, retrieval_failure, batch_failure),
            ActionKind::Delete,
        ) == 1,
        !expired && retrieval_failure is None && batch_failure == Some(Recoverable::Transient)
            ==> count_kind(
            message_plan_kinds(expired, retrieval_failure, batch_failure),
            ActionKind::Deadletter,
        ) == 0 && count_kind(
            message_plan_kinds(expired, retrieval_failure, batch_failure),
            ActionKind::Delete,
        ) == 0,
        !expired && retrieval_failure is None && batch_failure is None ==> count_kind(
            message_plan_kinds(expired, retrieval_failure, batch_failure),
            ActionKind::Deadletter,
        ) == 0 && count_kind(
            message_plan_kinds(expired, retrieval_failure, batch_failure),
            ActionKind::Delete,
        ) == 1,
{
    let plan = message_plan_kinds(expired, retrieval_failure, batch_failure);
    reveal_with_fuel(count_kind, 6);
    if !expired && retrieval_failure is Some {
        if retrieval_failure.unwrap() == Recoverable::Persistent {
            assert(plan =~= seq![ActionKind::Deadletter, ActionKind::Delete]);
        } else {
            assert(plan =~= Seq::<ActionKind>::empty());
        }
    }
}

/// Publish before cache: in every message plan, an identity store comes
/// only after a publish, so a crash between the two leaves the identity
/// unstored and the item is re-published on redelivery.
pub proof fn lemma_publish_before_cache(
    expired: bool,
    retrieval_failure: Option<Recoverable>,
    batch_failure: Option<Recoverable>,
)
    ensures
        forall|i: int|
            0 <= i < message_plan_kinds(expired, retrieval_failure, batch_failure).len()
                && message_plan_kinds(expired, retrieval_failure, batch_failure)[i]
                == ActionKind::Store ==> exists|j: int|
                0 <= j < i && message_plan_kinds(expired, retrieval_failure, batch_failure)[j]
                    == ActionKind::Publish,
{
    let plan = message_plan_kinds(expired, retrieval_failure, batch_failure);
    assert forall|i: int|
        0 <= i < plan.len() && plan[i] == ActionKind::Store implies exists|j: int|
        0 <= j < i && plan[j] == ActionKind::Publish by {
        assert(i == 1);
        assert(plan[0] == ActionKind::Publish);
    }
}

/// The pool of execution slots: at most `capacity` messages are in flight
/// at any instant.
pub struct SlotPool {
    pub capacity: usize,
    pub in_flight: usize,
}

impl SlotPool {
    /// The parallelism bound: never more in flight than the capacity.
    pub open spec fn wf(&self) -> bool {
        self.in_flight <= self.capacity
    }

    /// A pool of `capacity` idle slots.
    pub fn new(capacity: usize) -> (r: SlotPool)
        ensures
            r.capacity == capacity,
            r.in_flight == 0,
            r.wf(),
    {
        SlotPool { capacity, in_flight: 0 }
    }

    /// Claim a slot for one message; refused when all slots are busy.
    pub fn acquire(&mut self) -> (r: bool)
        requires
            old(self).wf(),
        ensures
            final(self).wf(),
            final(self).capacity == old(self).capacity,
            r == (old(self).in_flight < old(self).capacity),
            r ==> final(self).in_flight == old(self).in_flight + 1,
            !r ==> final(self).in_flight == old(self).in_flight,
    {
        if self.in_flight < self.capacity {
            self.in_flight = self.in_flight + 1;
            true
        } else {
            false
        }
    }

    /// Hand a slot back once its message has settled.
    pub fn release(&mut self)
        requires
            old(self).wf(),
            old(self).in_flight > 0,
        ensures
            final(self).wf(),
            final(self).capacity == old(self).capacity,
            final(self).in_flight == old(self).in_flight - 1,
    {
        self.in_flight = self.in_flight - 1;
    }
}

/// How many messages of a polled batch run concurrently: one per slot,
/// never more than the pool holds.
pub fn batch_in_flight(batch_len: usize, slots: usize) -> (r: usize)
    ensures
        r <= slots,
        r == if batch_len <= slots {
            batch_len
        } else {
            slots
        },
{
    if batch_len <= slots {
        batch_len
    } else {
        slots
    }
}

/// Ten copies of a prototype stage, one per execution slot. Slots share
/// nothing mutable, so each gets its own clone.
pub fn make_ten<T: Clone>(prototype: T) -> (r: [T; 10])
    ensures
        r@.len() == 10,
        forall|i: int| 0 <= i < 10 ==> vstd::pervasive::cloned::<T>(prototype, #[trigger] r@[i]),
{
    let c0 = prototype.clone();
    let c1 = prototype.clone();
    let c2 = prototype.clone();
    let c3 = prototype.clone();
    let c4 = prototype.clone();
    let c5 = prototype.clone();
    let c6 = prototype.clone();
    let c7 = prototype.clone();
    let c8 = prototype.clone();
    [c0, c1, c2, c3, c4, c5, c6, c7, c8, prototype]
}

} // verus!
