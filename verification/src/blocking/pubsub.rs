//! Pub/sub functionality for internal subscription to node events.

use crate::blocking::events::EventID;
use crate::blocking::types::SubscriptionID;
use crate::channel::{clone_sender, try_send};
use crate::vec_map::{lemma_key_in_dom, lemma_push_to_set, VecMap};
use crossbeam::channel::{Sender, TrySendError};
use vstd::prelude::*;

verus! {

/// A subscription to a set of event IDs, notified through `notify`.
#[derive(Debug, Clone)]
pub struct Subscription<N> {
    pub id: SubscriptionID,
    pub event_ids: Vec<EventID>,
    pub notify: N,
}

/// Errors relating to subscription management.
#[derive(Debug)]
#[verifier::reject_recursive_types(E)]
pub enum SubscriptionError<E> {
    /// The given subscription ID has already been used here.
    IDAlreadyExists,
    /// The event you are attempting to publish has no event ID.
    NoEventIDForEvent,
    /// Failed to publish the event via the notification channel.
    ChannelSendFailed(TrySendError<E>),
}

/// The subscriptions of a node: for each event ID, the notification channel
/// of each subscription to it.
#[verifier::reject_recursive_types(E)]
pub struct Subscriptions<E> {
    by_event_id: VecMap<EventID, VecMap<SubscriptionID, Sender<E>>>,
    subscription_ids: VecMap<SubscriptionID, ()>,
}

/// For each event ID, the channels of the subscriptions to it; then the set
/// of subscription IDs in use.
#[verifier::reject_recursive_types(E)]
pub ghost struct SubscriptionsModel<E> {
    pub table: Map<EventID, Map<SubscriptionID, Sender<E>>>,
    pub ids: Set<SubscriptionID>,
}

/// The table after adding a subscription `id` to the event IDs `evs`.
pub open spec fn table_with_subscription<E>(
    table: Map<EventID, Map<SubscriptionID, Sender<E>>>,
    evs: Set<EventID>,
    id: SubscriptionID,
    notify: Sender<E>,
) -> Map<EventID, Map<SubscriptionID, Sender<E>>> {
    Map::new(
        |e: EventID| table.dom().contains(e) || evs.contains(e),
        |e: EventID|
            if evs.contains(e) {
                (if table.dom().contains(e) {
                    table[e]
                } else {
                    Map::empty()
                }).insert(id, notify)
            } else {
                table[e]
            },
    )
}

/// The table after removing the subscription `id` from the event IDs in
/// `done`, dropping those that are left with no subscription.
pub open spec fn table_partly_without<E>(
    table: Map<EventID, Map<SubscriptionID, Sender<E>>>,
    done: Set<EventID>,
    id: SubscriptionID,
) -> Map<EventID, Map<SubscriptionID, Sender<E>>> {
    Map::new(
        |e: EventID|
            table.dom().contains(e) && (done.contains(e) ==> table[e].dom().remove(id) != Set::<
                SubscriptionID,
            >::empty()),
        |e: EventID|
            if done.contains(e) {
                table[e].remove(id)
            } else {
                table[e]
            },
    )
}

/// The table after removing each subscription of `ids`, in turn.
pub open spec fn table_without_subscriptions<E>(
    table: Map<EventID, Map<SubscriptionID, Sender<E>>>,
    ids: Seq<SubscriptionID>,
) -> Map<EventID, Map<SubscriptionID, Sender<E>>>
    decreases ids.len(),
{
    if ids.len() == 0 {
        table
    } else {
        table_without_subscription(table_without_subscriptions(table, ids.drop_last()), ids.last())
    }
}

/// The table after removing the subscription `id` from every event ID, and
/// the event IDs that are left with no subscription.
pub open spec fn table_without_subscription<E>(
    table: Map<EventID, Map<SubscriptionID, Sender<E>>>,
    id: SubscriptionID,
) -> Map<EventID, Map<SubscriptionID, Sender<E>>> {
    Map::new(
        |e: EventID| table.dom().contains(e) && table[e].dom().remove(id) != Set::<SubscriptionID>::empty(),
        |e: EventID| table[e].remove(id),
    )
}

/// Sends `ev` on the notification channel `to` without blocking. Whether
/// the channel takes it depends on the channel's state at the time (whether
/// it is full, whether its receivers are gone), so nothing is promised of
/// the result; `publish` states its sends in terms of this function.
pub fn notify<E>(to: &Sender<E>, ev: E) -> (r: Result<(), TrySendError<E>>) {
    try_send(to, ev)
}

/// `send` was handed `to` and a clone of `ev`, and accepted it.
pub open spec fn accepted<E: Clone, F: Fn(&Sender<E>, E) -> Result<(), TrySendError<E>>>(
    send: F,
    to: Sender<E>,
    ev: E,
) -> bool {
    exists|m: E, res: Result<(), TrySendError<E>>|
        cloned(ev, m) && #[trigger] call_ensures(send, (&to, m), res) && res is Ok
}

/// `send` was handed `to` and a clone of `ev`, and refused it with `err`.
pub open spec fn refused<E: Clone, F: Fn(&Sender<E>, E) -> Result<(), TrySendError<E>>>(
    send: F,
    to: Sender<E>,
    ev: E,
    err: TrySendError<E>,
) -> bool {
    exists|m: E| cloned(ev, m) && #[trigger] call_ensures(send, (&to, m), Err(err))
}

/// `send` accepted a clone of `ev` for each of the first `k` channels of
/// `to`.
pub open spec fn delivered<E: Clone, F: Fn(&Sender<E>, E) -> Result<(), TrySendError<E>>>(
    send: F,
    to: Seq<Sender<E>>,
    ev: E,
    k: int,
) -> bool {
    forall|i: int| 0 <= i < k ==> #[trigger] accepted(send, to[i], ev)
}

/// What publishing `ev` to the channels `to`, in turn, through `send` gives:
/// `Ok` once every channel accepted it; otherwise the refusal of the first
/// channel that refused it, all those before it having accepted it.
pub open spec fn publish_result<E: Clone, F: Fn(&Sender<E>, E) -> Result<(), TrySendError<E>>>(
    send: F,
    to: Seq<Sender<E>>,
    ev: E,
    r: Result<(), SubscriptionError<E>>,
) -> bool {
    match r {
        Ok(_) => delivered(send, to, ev, to.len() as int),
        Err(e) => match e {
            SubscriptionError::ChannelSendFailed(err) => exists|k: int|
                0 <= k < to.len() && delivered(send, to, ev, k) && #[trigger] refused(send, to[k], ev, err),
            _ => false,
        },
    }
}

/// Removing a subscription undoes adding it: adding a subscription under an
/// ID that no subscription of a well-formed table uses, then removing that
/// ID, gives back the table.
pub proof fn law_remove_undoes_add<E>(
    table: Map<EventID, Map<SubscriptionID, Sender<E>>>,
    ids: Set<SubscriptionID>,
    evs: Set<EventID>,
    id: SubscriptionID,
    notify: Sender<E>,
)
    requires
        forall|e: EventID|
            #[trigger] table.dom().contains(e) ==> table[e].dom() != Set::<SubscriptionID>::empty()
                && table[e].dom().subset_of(ids),
        !ids.contains(id),
    ensures
        table_without_subscription(table_with_subscription(table, evs, id, notify), id) == table,
{
    let added = table_with_subscription(table, evs, id, notify);
    let back = table_without_subscription(added, id);
    assert forall|e: EventID| #[trigger] back.dom().contains(e) <==> table.dom().contains(e) by {
        if table.dom().contains(e) {
            assert(!table[e].dom().contains(id));
            if !(exists|y: SubscriptionID| table[e].dom().contains(y)) {
                assert(table[e].dom() =~= Set::<SubscriptionID>::empty());
            }
            let x = table[e].dom().choose();
            assert(table[e].dom().contains(x));
            assert(added[e].dom().remove(id).contains(x));
        }
        if added.dom().contains(e) && !table.dom().contains(e) {
            assert(added[e].dom().remove(id) =~= Set::<SubscriptionID>::empty());
        }
    }
    assert forall|e: EventID| #[trigger] back.dom().contains(e) implies back[e] == table[e] by {
        assert(!table[e].dom().contains(id));
        assert(back[e] =~= table[e]);
    }
    assert(back =~= table);
}

/// The table after removing every subscription of the set `ids`, and the
/// event IDs that are left with no subscription.
pub open spec fn table_without_set<E>(
    table: Map<EventID, Map<SubscriptionID, Sender<E>>>,
    ids: Set<SubscriptionID>,
) -> Map<EventID, Map<SubscriptionID, Sender<E>>> {
    Map::new(
        |e: EventID| table.dom().contains(e) && table[e].dom().difference(ids) != Set::<SubscriptionID>::empty(),
        |e: EventID| table[e].remove_keys(ids),
    )
}

/// Removing the subscriptions of a non-empty list, in turn, removes the set
/// of them at once.
proof fn lemma_without_subscriptions_as_set<E>(
    table: Map<EventID, Map<SubscriptionID, Sender<E>>>,
    ids: Seq<SubscriptionID>,
)
    requires
        ids.len() > 0,
    ensures
        table_without_subscriptions(table, ids) == table_without_set(table, ids.to_set()),
    decreases ids.len(),
{
    let x = ids.last();
    let rest = ids.drop_last();
    assert(ids =~= rest.push(x));
    lemma_push_to_set(rest, x);
    let set = ids.to_set();
    let target = table_without_set(table, set);
    if rest.len() == 0 {
        assert(rest.to_set() =~= Set::<SubscriptionID>::empty());
        assert(set =~= set![x]);
        let got = table_without_subscription(table, x);
        assert(table_without_subscriptions(table, rest) == table);
        assert(table_without_subscriptions(table, ids) == got);
        assert forall|e: EventID| #[trigger] got.dom().contains(e) <==> target.dom().contains(e) by {
            if table.dom().contains(e) {
                assert(table[e].dom().remove(x) =~= table[e].dom().difference(set));
            }
        }
        assert forall|e: EventID| #[trigger] got.dom().contains(e) implies got[e] == target[e] by {
            assert(table[e].remove(x) =~= table[e].remove_keys(set));
        }
        assert(got =~= target);
    } else {
        lemma_without_subscriptions_as_set(table, rest);
        let inner = table_without_set(table, rest.to_set());
        let got = table_without_subscription(inner, x);
        assert(table_without_subscriptions(table, ids) == got);
        assert forall|e: EventID| #[trigger] got.dom().contains(e) <==> target.dom().contains(e) by {
            if table.dom().contains(e) {
                assert(table[e].remove_keys(rest.to_set()).dom() =~= table[e].dom().difference(
                    rest.to_set(),
                ));
                assert(table[e].dom().difference(rest.to_set()).remove(x) =~= table[e].dom().difference(set));
                if table[e].dom().difference(rest.to_set()) == Set::<SubscriptionID>::empty() {
                    assert(table[e].dom().difference(set) =~= Set::<SubscriptionID>::empty());
                }
            }
        }
        assert forall|e: EventID| #[trigger] got.dom().contains(e) implies got[e] == target[e] by {
            assert(table[e].remove_keys(rest.to_set()).remove(x) =~= table[e].remove_keys(set));
        }
        assert(got =~= target);
    }
}

/// Removing a set of subscriptions gives the same registry whatever the
/// order in which they are listed: two lists of the same subscription IDs
/// leave the same table.
pub proof fn law_remove_all_order_free<E>(
    table: Map<EventID, Map<SubscriptionID, Sender<E>>>,
    a: Seq<SubscriptionID>,
    b: Seq<SubscriptionID>,
)
    requires
        a.to_set() == b.to_set(),
    ensures
        table_without_subscriptions(table, a) == table_without_subscriptions(table, b),
{
    if a.len() == 0 || b.len() == 0 {
        if a.len() > 0 {
            assert(a.to_set().contains(a[0]));
        }
        if b.len() > 0 {
            assert(b.to_set().contains(b[0]));
        }
    } else {
        lemma_without_subscriptions_as_set(table, a);
        lemma_without_subscriptions_as_set(table, b);
    }
}

/// Publishing reaches a subscription for exactly the event IDs it was added
/// for: once a subscription is added to a well-formed registry under an ID
/// that no subscription there uses, the subscriptions notified of an event
/// ID list it, with its channel, exactly when that ID is one of its event
/// IDs; once it is removed again, they no longer list it.
pub proof fn law_delivery_follows_subscription<E>(
    before: Subscriptions<E>,
    added: Subscriptions<E>,
    removed: Subscriptions<E>,
    id: SubscriptionID,
    evs: Set<EventID>,
    notify: Sender<E>,
    e: EventID,
)
    requires
        before.wf(),
        added.wf(),
        removed.wf(),
        !before@.ids.contains(id),
        added@.table == table_with_subscription(before@.table, evs, id, notify),
        removed@.table == table_without_subscription(added@.table, id),
    ensures
        added.recipient_ids(e).contains(id) <==> evs.contains(e),
        forall|i: int|
            0 <= i < added.recipient_ids(e).len() && added.recipient_ids(e)[i] == id
                ==> #[trigger] added.recipients_spec(e)[i] == notify,
        !removed.recipient_ids(e).contains(id),
{
    added.lemma_recipient_ids(e);
    removed.lemma_recipient_ids(e);
    let ids = added.recipient_ids(e);
    assert(ids.contains(id) <==> ids.to_set().contains(id));
    if before@.table.dom().contains(e) {
        assert(!before@.table[e].dom().contains(id));
    }
    if evs.contains(e) {
        assert(added@.table[e].dom().contains(id));
    }
    assert(removed.recipient_ids(e).contains(id) <==> removed.recipient_ids(e).to_set().contains(id));
}

impl<E> View for Subscriptions<E> {
    type V = SubscriptionsModel<E>;

    closed spec fn view(&self) -> SubscriptionsModel<E> {
        SubscriptionsModel {
            table: self.by_event_id@.map_values(|m: VecMap<SubscriptionID, Sender<E>>| m@),
            ids: self.subscription_ids@.dom(),
        }
    }
}

impl<E> Subscriptions<E> {
    /// No event ID is listed without a subscription, and every subscription
    /// listed is known.
    pub closed spec fn wf(&self) -> bool {
        &&& forall|e: EventID|
            #[trigger] self@.table.dom().contains(e) ==> self@.table[e].dom() != Set::<
                SubscriptionID,
            >::empty() && self@.table[e].dom().subset_of(self@.ids)
        &&& self.keys_distinct()
    }

    /// Each event ID's subscriptions are held in an order without repeats.
    closed spec fn keys_distinct(&self) -> bool {
        forall|e: EventID|
            #[trigger] self.by_event_id@.dom().contains(e) ==> self.by_event_id@[e].key_seq().no_duplicates()
    }

    /// No subscriptions.
    pub fn new() -> (r: Subscriptions<E>)
        ensures
            r.wf(),
            r@.table == Map::<EventID, Map<SubscriptionID, Sender<E>>>::empty(),
            r@.ids == Set::<SubscriptionID>::empty(),
    {
        let r = Subscriptions { by_event_id: VecMap::new(), subscription_ids: VecMap::new() };
        assert(r@.table =~= Map::<EventID, Map<SubscriptionID, Sender<E>>>::empty());
        assert(r@.ids =~= Set::<SubscriptionID>::empty());
        r
    }

    /// Adds a subscription. A subscription ID that is already in use is
    /// refused, and nothing changes.
    pub fn add(&mut self, subs: Subscription<Sender<E>>) -> (r: Result<(), SubscriptionError<E>>)
        requires
            old(self).wf(),
        ensures
            final(self).wf(),
            old(self)@.ids.contains(subs.id) ==> (r matches Err(SubscriptionError::IDAlreadyExists)
                && final(self)@ == old(self)@),
            !old(self)@.ids.contains(subs.id) ==> r is Ok && final(self)@.ids == old(self)@.ids.insert(
                subs.id,
            ) && final(self)@.table == table_with_subscription(
                old(self)@.table,
                subs.event_ids@.to_set(),
                subs.id,
                subs.notify,
            ),
    {
        if self.subscription_ids.contains_key(&subs.id) {
            return Err(SubscriptionError::IDAlreadyExists);
        }
        let ghost old_table = self@.table;
        let ghost old_ids = self@.ids;
        let mut i: usize = 0;
        while i < subs.event_ids.len()
            invariant
                i <= subs.event_ids@.len(),
                self@.ids == old_ids,
                !old_ids.contains(subs.id),
                old_table == old(self)@.table,
                self.keys_distinct(),
                forall|e: EventID| #[trigger] old_table.dom().contains(e) ==> old_table[e].dom() != Set::<SubscriptionID>::empty() && old_table[e].dom().subset_of(old_ids),
                self@.table == table_with_subscription(
                    old_table,
                    subs.event_ids@.subrange(0, i as int).to_set(),
                    subs.id,
                    subs.notify,
                ),
            decreases subs.event_ids@.len() - i,
        {
            let e = subs.event_ids[i];
            let ghost before = self.by_event_id@;
            let ghost cur_table = self@.table;
            let mut inner = match self.by_event_id.remove(&e) {
                Some(m) => m,
                None => VecMap::new(),
            };
            let ghost base = inner@;
            assert(base == if before.dom().contains(e) {
                before[e]@
            } else {
                Map::<SubscriptionID, Sender<E>>::empty()
            });
            inner.insert(subs.id, clone_sender(&subs.notify));
            self.by_event_id.insert(e, inner);
            proof {
                let done = subs.event_ids@.subrange(0, i as int).to_set();
                let done2 = subs.event_ids@.subrange(0, i + 1).to_set();
                assert(subs.event_ids@.subrange(0, i + 1) =~= subs.event_ids@.subrange(0, i as int).push(e));
                lemma_push_to_set(subs.event_ids@.subrange(0, i as int), e);
                let target = table_with_subscription(old_table, done2, subs.id, subs.notify);
                let cur = table_with_subscription(old_table, done, subs.id, subs.notify);
                assert(self.by_event_id@ == before.remove(e).insert(e, inner));
                assert(cur_table == cur);
                assert(cur_table == before.map_values(|m: VecMap<SubscriptionID, Sender<E>>| m@));
                assert forall|x: EventID| #[trigger] self@.table.dom().contains(x) <==> target.dom().contains(x) by {
                    if x != e {
                        assert(self@.table.dom().contains(x) == before.dom().contains(x));
                        assert(cur.dom().contains(x) == before.dom().contains(x));
                        assert(done2.contains(x) == done.contains(x));
                    } else {
                        assert(done2.contains(e));
                        assert(self.by_event_id@.dom().contains(e));
                    }
                }
                assert forall|x: EventID| #[trigger] self@.table.dom().contains(x) implies self@.table[x] == target[x] by {
                    if x != e {
                        assert(self@.table[x] == before[x]@);
                        assert(cur[x] == before[x]@);
                        assert(done2.contains(x) == done.contains(x));
                    } else {
                        assert(done2.contains(e));
                        assert(self@.table[x] == inner@);
                        assert(inner@ == base.insert(subs.id, subs.notify));
                        if before.dom().contains(e) {
                            assert(cur[e] == before[e]@);
                            assert(cur.dom().contains(e));
                        } else {
                            assert(!cur.dom().contains(e));
                            assert(!done.contains(e));
                            assert(!old_table.dom().contains(e));
                        }
                        assert(inner@ =~= target[x]);
                    }
                }
                assert(self@.table =~= target);
            }
            i = i + 1;
        }
        self.subscription_ids.insert(subs.id, ());
        proof {
            assert(subs.event_ids@.subrange(0, i as int) =~= subs.event_ids@);
            assert(self@.ids =~= old_ids.insert(subs.id));
            let evs = subs.event_ids@.to_set();
            assert forall|e: EventID| #[trigger] self@.table.dom().contains(e) implies self@.table[e].dom()
                != Set::<SubscriptionID>::empty() && self@.table[e].dom().subset_of(self@.ids) by {
                if evs.contains(e) {
                    assert(self@.table[e].dom().contains(subs.id));
                } else {
                    assert(old_table.dom().contains(e));
                }
            }
        }
        Ok(())
    }

    /// The subscriptions to `e`, in the order in which they are notified.
    pub closed spec fn recipient_ids(&self, e: EventID) -> Seq<SubscriptionID> {
        if self.by_event_id@.dom().contains(e) {
            self.by_event_id@[e].key_seq()
        } else {
            Seq::empty()
        }
    }

    /// The notification channels of the subscriptions to `e`, in the order
    /// in which they are notified.
    pub open spec fn recipients_spec(&self, e: EventID) -> Seq<Sender<E>> {
        self.recipient_ids(e).map_values(|id: SubscriptionID| self@.table[e][id])
    }

    /// Of a well-formed registry: no event ID is listed without a
    /// subscription, and every subscription listed is known.
    pub proof fn lemma_wf(&self)
        requires
            self.wf(),
        ensures
            forall|e: EventID|
                #[trigger] self@.table.dom().contains(e) ==> self@.table[e].dom() != Set::<
                    SubscriptionID,
                >::empty() && self@.table[e].dom().subset_of(self@.ids),
    {
    }

    /// Of a well-formed registry: the subscriptions to `e` are notified each
    /// once, and they are exactly those that the table lists under `e`.
    pub proof fn lemma_recipient_ids(&self, e: EventID)
        requires
            self.wf(),
        ensures
            self.recipient_ids(e).no_duplicates(),
            self.recipient_ids(e).to_set() == (if self@.table.dom().contains(e) {
                self@.table[e].dom()
            } else {
                Set::<SubscriptionID>::empty()
            }),
    {
        if self.by_event_id@.dom().contains(e) {
            self.by_event_id@[e].lemma_key_seq();
        } else {
            assert(self.recipient_ids(e).to_set() =~= Set::<SubscriptionID>::empty());
        }
    }

    /// The notification channels of the subscriptions to `e`, in the order
    /// in which `publish` hands them the event.
    pub fn recipients(&self, e: EventID) -> (r: Vec<Sender<E>>)
        ensures
            r@ == self.recipients_spec(e),
    {
        match self.by_event_id.get(&e) {
            None => {
                let r: Vec<Sender<E>> = Vec::new();
                assert(r@ =~= self.recipients_spec(e));
                r
            },
            Some(inner) => {
                let ids = inner.keys();
                proof {
                    assert(ids@.map_values(|k: SubscriptionID| k@) =~= ids@);
                }
                let mut r: Vec<Sender<E>> = Vec::new();
                let mut i: usize = 0;
                while i < ids.len()
                    invariant
                        i <= ids@.len(),
                        ids@ == self.recipient_ids(e),
                        self@.table.dom().contains(e),
                        *inner == self.by_event_id@[e],
                        r@ == self.recipients_spec(e).subrange(0, i as int),
                    decreases ids@.len() - i,
                {
                    proof {
                        lemma_key_in_dom(inner, i as int);
                    }
                    match inner.get(&ids[i]) {
                        Some(notify) => {
                            r.push(clone_sender(notify));
                        },
                        None => {},
                    }
                    i = i + 1;
                    assert(r@ =~= self.recipients_spec(e).subrange(0, i as int));
                }
                assert(r@ =~= self.recipients_spec(e));
                r
            },
        }
    }

    /// Publishes `ev` through `send`: a clone of it is handed, with the
    /// channel, to `send` for each subscription to its event ID `event_id`,
    /// in turn, until `send` refuses one. Events without an event ID cannot
    /// be published.
    pub fn publish_with<F: Fn(&Sender<E>, E) -> Result<(), TrySendError<E>>>(
        &self,
        ev: E,
        event_id: Option<EventID>,
        send: F,
    ) -> (r: Result<(), SubscriptionError<E>>)
        where
            E: Clone,
        requires
            forall|to: Sender<E>, m: E| call_requires(send, (&to, m)),
        ensures
            match event_id {
                None => r matches Err(SubscriptionError::NoEventIDForEvent),
                Some(e) => publish_result(send, self.recipients_spec(e), ev, r),
            },
    {
        let e = match event_id {
            Some(e) => e,
            None => {
                return Err(SubscriptionError::NoEventIDForEvent);
            },
        };
        let to = self.recipients(e);
        let mut i: usize = 0;
        while i < to.len()
            invariant
                i <= to@.len(),
                to@ == self.recipients_spec(e),
                event_id == Some(e),
                forall|t: Sender<E>, m: E| call_requires(send, (&t, m)),
                delivered(send, to@, ev, i as int),
            decreases to@.len() - i,
        {
            let m = ev.clone();
            let res = send(&to[i], m);
            match res {
                Ok(_) => {
                    assert(accepted(send, to@[i as int], ev));
                },
                Err(err) => {
                    let ghost refusal = err;
                    assert(refused(send, to@[i as int], ev, refusal));
                    let r: Result<(), SubscriptionError<E>> = Err(SubscriptionError::ChannelSendFailed(err));
                    assert(r matches Err(SubscriptionError::ChannelSendFailed(x)) && x == refusal);
                    return r;
                },
            }
            i = i + 1;
        }
        Ok(())
    }

    /// Publishes `ev` to every subscription to its event ID `event_id`, in
    /// turn, through `crossbeam`'s non-blocking send, stopping at the first
    /// notification channel that refuses it. Events without an event ID
    /// cannot be published.
    pub fn publish(&self, ev: E, event_id: Option<EventID>) -> (r: Result<(), SubscriptionError<E>>)
        where
            E: Clone,
        ensures
            match event_id {
                None => r matches Err(SubscriptionError::NoEventIDForEvent),
                Some(e) => publish_result(notify::<E>, self.recipients_spec(e), ev, r),
            },
    {
        self.publish_with(ev, event_id, notify::<E>)
    }

    /// Removes subscription `id` from every event ID, dropping the event IDs
    /// that are left with no subscription. An unknown ID changes nothing.
    pub fn remove(&mut self, id: SubscriptionID)
        requires
            old(self).wf(),
        ensures
            final(self).wf(),
            final(self)@.ids == old(self)@.ids.remove(id),
            final(self)@.table == table_without_subscription(old(self)@.table, id),
            !old(self)@.ids.contains(id) ==> final(self)@ == old(self)@,
    {
        if !self.subscription_ids.contains_key(&id) {
            proof {
                assert(self@.ids =~= self@.ids.remove(id));
                let t = self@.table;
                assert forall|e: EventID| #[trigger] t.dom().contains(e) implies t[e].remove(id) =~= t[e]
                    && t[e].dom().remove(id) == t[e].dom() by {
                    assert(t[e].dom().remove(id) =~= t[e].dom());
                }
                assert(t =~= table_without_subscription(t, id));
            }
            return;
        }
        let ghost old_table = self@.table;
        let ghost old_ids = self@.ids;
        let keys = self.by_event_id.keys();
        proof {
            assert(keys@.map_values(|k: EventID| k@) =~= keys@);
        }
        let mut i: usize = 0;
        while i < keys.len()
            invariant
                i <= keys@.len(),
                keys@.no_duplicates(),
                keys@.to_set() == old_table.dom(),
                self@.ids == old_ids,
                self.keys_distinct(),
                self@.table == table_partly_without(old_table, keys@.subrange(0, i as int).to_set(), id),
            decreases keys@.len() - i,
        {
            let e = keys[i];
            let ghost before = self.by_event_id@;
            let ghost cur_table = self@.table;
            let ghost done = keys@.subrange(0, i as int).to_set();
            let ghost done2 = keys@.subrange(0, i + 1).to_set();
            proof {
                assert(keys@.subrange(0, i + 1) =~= keys@.subrange(0, i as int).push(e));
                lemma_push_to_set(keys@.subrange(0, i as int), e);
                assert(!done.contains(e)) by {
                    if done.contains(e) {
                        let j = choose|j: int| 0 <= j < i && keys@.subrange(0, i as int)[j] == e;
                        assert(keys@[j] == keys@[i as int]);
                    }
                }
                assert(keys@.to_set().contains(e)) by {
                    assert(keys@[i as int] == e);
                }
                assert(cur_table == before.map_values(|m: VecMap<SubscriptionID, Sender<E>>| m@));
                assert(cur_table.dom().contains(e));
                assert(before.dom().contains(e));
            }
            match self.by_event_id.remove(&e) {
                Some(mut inner) => {
                    let ghost base = inner@;
                    inner.remove(&id);
                    let n = inner.len();
                    if n > 0 {
                        self.by_event_id.insert(e, inner);
                    }
                    proof {
                        let target = table_partly_without(old_table, done2, id);
                        assert(cur_table[e] == before[e]@);
                        assert(cur_table[e] == old_table[e]);
                        assert(base == old_table[e]);
                        assert(inner@ == base.remove(id));
                        assert(base.remove(id).dom() =~= base.dom().remove(id));
                        if n == 0 {
                            assert(base.remove(id).dom() =~= Set::<SubscriptionID>::empty());
                        } else {
                            assert(base.remove(id).dom().contains(inner@.dom().choose()));
                        }
                        assert forall|x: EventID| #[trigger] self@.table.dom().contains(x) <==> target.dom().contains(x) by {
                            if x != e {
                                assert(done2.contains(x) == done.contains(x));
                                assert(self@.table.dom().contains(x) == before.dom().contains(x));
                                assert(cur_table.dom().contains(x) == before.dom().contains(x));
                            } else {
                                assert(done2.contains(e));
                            }
                        }
                        assert forall|x: EventID| #[trigger] self@.table.dom().contains(x) implies self@.table[x] == target[x] by {
                            if x != e {
                                assert(done2.contains(x) == done.contains(x));
                                assert(self@.table[x] == before[x]@);
                                assert(cur_table[x] == before[x]@);
                            } else {
                                assert(done2.contains(e));
                            }
                        }
                        assert(self@.table =~= target);
                    }
                },
                None => {},
            }
            i = i + 1;
        }
        self.subscription_ids.remove(&id);
        proof {
            assert(keys@.subrange(0, i as int) =~= keys@);
            let done = keys@.to_set();
            assert(self@.table =~= table_without_subscription(old_table, id));
            assert forall|e: EventID| #[trigger] self@.table.dom().contains(e) implies self@.table[e].dom()
                != Set::<SubscriptionID>::empty() && self@.table[e].dom().subset_of(self@.ids) by {
                assert(self@.table[e].dom() =~= old_table[e].dom().remove(id));
            }
        }
    }

    /// Removes each subscription of `ids` in turn.
    pub fn remove_all(&mut self, ids: Vec<SubscriptionID>)
        requires
            old(self).wf(),
        ensures
            final(self).wf(),
            final(self)@.ids == old(self)@.ids.difference(ids@.to_set()),
            final(self)@.table == table_without_subscriptions(old(self)@.table, ids@),
    {
        let mut i: usize = 0;
        while i < ids.len()
            invariant
                i <= ids@.len(),
                self.wf(),
                self@.ids == old(self)@.ids.difference(ids@.subrange(0, i as int).to_set()),
                self@.table == table_without_subscriptions(old(self)@.table, ids@.subrange(0, i as int)),
            decreases ids@.len() - i,
        {
            let ghost prev = self@;
            self.remove(ids[i]);
            proof {
                let s1 = ids@.subrange(0, i as int);
                let s2 = ids@.subrange(0, i + 1);
                assert(s2 =~= s1.push(ids@[i as int]));
                assert(s2.drop_last() =~= s1);
                lemma_push_to_set(s1, ids@[i as int]);
                assert(self@.ids =~= old(self)@.ids.difference(s2.to_set()));
            }
            i = i + 1;
        }
        proof {
            assert(ids@.subrange(0, i as int) =~= ids@);
        }
    }
}

} // verus!
