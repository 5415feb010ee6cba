//! Blobs, the subscriptions that keep them stored, and subscription groups.

use crate::error::ActorError;
use crate::ids;
use crate::ids::PublicKey;
use crate::ids::SubscriptionId;
use crate::key::Key;
use crate::model::added_of;
use crate::model::expiries_of;
use crate::model::group_expiry;
use crate::model::is_max_positive;
use crate::model::is_min;
use crate::model::is_min_added;
use crate::model::max_positive;
use crate::model::min_value;
use crate::model::new_group_expiry;
use crate::model::next_min_added;
use crate::model::BlobView;
use crate::model::GroupView;
use crate::model::SubId;
use crate::model::SubscriptionView;
use crate::account::epoch_option_value;
use crate::text::subscription_not_found;
use crate::vecmap::VecMap;
use fvm_shared::address::Address;
use vstd::prelude::*;

verus! {

/// How far the ingestion of a blob has come.
#[derive(Clone, Copy, Debug, PartialEq, Eq, Structural)]
pub enum BlobStatus {
    /// Announced, waiting to be picked up.
    Added,
    /// Being fetched.
    Pending,
    /// Fetched and available.
    Resolved,
    /// Could not be fetched.
    Failed,
}

/// One subscriber's claim that a blob be stored until an epoch.
#[derive(Clone, Copy, Debug, PartialEq)]
pub struct Subscription {
    /// The epoch at which the subscription was made.
    pub added: i64,
    /// The epoch at which it ends.
    pub expiry: i64,
    /// Whether the debit tick extends it when it ends.
    pub auto_renew: bool,
    /// The node from which the blob is fetched.
    pub source: PublicKey,
    /// The origin and caller that paid through an approval, if any did.
    pub delegate: Option<(Address, Address)>,
    /// Whether fetching the blob failed for this subscription.
    pub failed: bool,
}

impl Subscription {
    /// The subscription, with its epochs as integers.
    pub open spec fn view(&self) -> SubscriptionView {
        SubscriptionView {
            added: self.added as int,
            expiry: self.expiry as int,
            auto_renew: self.auto_renew,
            source: self.source,
            delegate: self.delegate,
            failed: self.failed,
        }
    }
}

/// A largest positive value is the largest positive value.
pub proof fn lemma_max_positive_is<K>(m: Map<K, int>, e: int)
    requires
        is_max_positive(m, e),
    ensures
        max_positive(m) == Some(e),
{
    let c = choose|c: int| is_max_positive(m, c);
    let kc = choose|k: K| #[trigger] m.contains_key(k) && m[k] == c;
    let ke = choose|k: K| #[trigger] m.contains_key(k) && m[k] == e;
    assert(m.contains_key(kc) && m[kc] == c);
    assert(m.contains_key(ke) && m[ke] == e);
}

/// A map without positive values has no largest positive value.
pub proof fn lemma_max_positive_none<K>(m: Map<K, int>)
    requires
        forall|k: K| #[trigger] m.contains_key(k) ==> m[k] <= 0,
    ensures
        max_positive(m) is None,
{
    assert forall|e: int| !is_max_positive(m, e) by {
        if is_max_positive(m, e) {
            let k = choose|k: K| #[trigger] m.contains_key(k) && m[k] == e;
            assert(m.contains_key(k));
        }
    }
}

/// A smallest value is the smallest value.
pub proof fn lemma_min_value_is<K>(m: Map<K, int>, e: int)
    requires
        is_min(m, e),
    ensures
        min_value(m) == Some(e),
{
    let c = choose|c: int| is_min(m, c);
    let kc = choose|k: K| #[trigger] m.contains_key(k) && m[k] == c;
    let ke = choose|k: K| #[trigger] m.contains_key(k) && m[k] == e;
    assert(m.contains_key(kc) && m[kc] == c);
    assert(m.contains_key(ke) && m[ke] == e);
}

/// An empty map has no smallest value.
pub proof fn lemma_min_value_none<K>(m: Map<K, int>)
    requires
        forall|k: K| !m.contains_key(k),
    ensures
        min_value(m) is None,
{
    assert forall|e: int| !is_min(m, e) by {
        if is_min(m, e) {
            let k = choose|k: K| #[trigger] m.contains_key(k) && m[k] == e;
            assert(m.contains_key(k));
        }
    }
}

/// The subscriptions that one subscriber holds on one blob, by id. The
/// subscriber pays for the blob up to the latest expiry among them.
#[derive(Clone, Debug)]
pub struct SubscriptionGroup {
    /// The subscriptions.
    pub subscriptions: VecMap<SubscriptionId, Subscription>,
}

impl SubscriptionGroup {
    /// Well-formedness: every id occurs once.
    pub open spec fn wf(&self) -> bool {
        self.subscriptions.wf()
    }

    /// The subscriptions, by the identity of their id.
    pub open spec fn view(&self) -> GroupView {
        self.subscriptions@.map_values(|s: Subscription| s@)
    }

    /// A group without subscriptions.
    pub fn new() -> (r: Self)
        ensures
            r.wf(),
            r@ == Map::<SubId, SubscriptionView>::empty(),
    {
        let r = SubscriptionGroup { subscriptions: VecMap::new() };
        assert(r@ =~= Map::<SubId, SubscriptionView>::empty());
        r
    }

    /// A copy.
    pub fn dup(&self) -> (r: Self)
        requires
            self.wf(),
        ensures
            r.wf(),
            r@ == self@,
    {
        let m = &self.subscriptions;
        let n = m.len();
        let mut r: VecMap<SubscriptionId, Subscription> = VecMap::new();
        let mut i: usize = 0;
        while i < n
            invariant
                m.wf(),
                r.wf(),
                i <= n,
                n == m.entries@.len(),
                r.entries@.len() == i,
                r.ids() == m.ids().take(i as int),
                forall|j: int| 0 <= j < i ==> (#[trigger] r.entries@[j]).1@ == m.entries@[j].1@,
            decreases n - i,
        {
            let k = m.key_at(i).dup();
            let v = *m.value_at(i);
            proof {
                assert(!r.ids().contains(k.ident())) by {
                    if r.ids().contains(k.ident()) {
                        let j = r.ids().index_of(k.ident());
                        assert(m.ids()[j] == m.ids()[i as int]);
                    }
                }
            }
            r.put(k, v);
            proof {
                assert(r.ids() =~= m.ids().take(i + 1));
            }
            i += 1;
        }
        proof {
            assert(m.ids().take(n as int) =~= m.ids());
            r.lemma_same_view(*m, |s: Subscription| s@);
        }
        SubscriptionGroup { subscriptions: r }
    }

    /// The epoch up to which the group covers its blob now, and the epoch up to
    /// which it would if subscription `target_id` expired at `new_value`, or
    /// left the group where that is `None`.
    pub fn max_expiries(&self, target_id: &SubscriptionId, new_value: Option<i64>) -> (r: (
        Option<i64>,
        Option<i64>,
    ))
        requires
            self.wf(),
        ensures
            epoch_option_value(r.0) == group_expiry(self@),
            epoch_option_value(r.1) == new_group_expiry(
                self@,
                target_id.ident(),
                epoch_option_value(new_value),
            ),
    {
        let m = &self.subscriptions;
        let n = m.len();
        let ghost tid = target_id.ident();
        let ghost fresh: int = match new_value {
            Some(v) => v as int,
            None => 0,
        };
        let ghost old_map = expiries_of(self@);
        let ghost new_map = match new_value {
            Some(v) => old_map.insert(tid, v as int),
            None => old_map.remove(tid),
        };
        let mut max: Option<i64> = None;
        let mut new_max: Option<i64> = None;
        let mut i: usize = 0;
        while i < n
            invariant
                m.wf(),
                *m == self.subscriptions,
                i <= n,
                n == m.entries@.len(),
                tid == target_id.ident(),
                fresh == match new_value {
                    Some(v) => v as int,
                    None => 0,
                },
                match max {
                    Some(e) => e > 0 && (exists|j: int|
                        0 <= j < i && (#[trigger] m.entries@[j]).1.expiry == e) && (forall|j: int|
                        0 <= j < i ==> (#[trigger] m.entries@[j]).1.expiry <= e),
                    None => forall|j: int| 0 <= j < i ==> (#[trigger] m.entries@[j]).1.expiry <= 0,
                },
                match new_max {
                    Some(e) => e > 0 && (exists|j: int|
                        0 <= j < i && (if m.ids()[j] == tid {
                            fresh
                        } else {
                            (#[trigger] m.entries@[j]).1.expiry as int
                        }) == e) && (forall|j: int|
                        0 <= j < i ==> (if m.ids()[j] == tid {
                            fresh
                        } else {
                            (#[trigger] m.entries@[j]).1.expiry as int
                        }) <= e),
                    None => forall|j: int|
                        0 <= j < i ==> (if m.ids()[j] == tid {
                            fresh
                        } else {
                            (#[trigger] m.entries@[j]).1.expiry as int
                        }) <= 0,
                },
            decreases n - i,
        {
            let sub = m.value_at(i);
            let is_target = m.key_at(i).same(target_id);
            let floor = match max {
                Some(e) => e,
                None => 0,
            };
            if sub.expiry > floor {
                max = Some(sub.expiry);
            }
            let value = if is_target {
                match new_value {
                    Some(v) => v,
                    None => 0,
                }
            } else {
                sub.expiry
            };
            let new_floor = match new_max {
                Some(e) => e,
                None => 0,
            };
            if value > new_floor {
                new_max = Some(value);
            }
            i += 1;
        }
        let ghost scanned = new_max;
        if let Some(v) = new_value {
            let new_floor = match new_max {
                Some(e) => e,
                None => 0,
            };
            if v > new_floor {
                new_max = Some(v);
            }
        }
        proof {
            let g = self@;
            assert(old_map.dom() =~= m@.dom());
            // The current envelope.
            match max {
                Some(e) => {
                    let j = choose|j: int| 0 <= j < n && (#[trigger] m.entries@[j]).1.expiry == e;
                    m.lemma_entry(j);
                    assert(old_map.contains_key(m.ids()[j]) && old_map[m.ids()[j]] == e);
                    assert forall|k: SubId| #[trigger] old_map.contains_key(k) implies old_map[k]
                        <= e by {
                        m.lemma_key(k);
                        let jk = m.ids().index_of(k);
                        assert(m.entries@[jk].1.expiry <= e);
                    }
                    lemma_max_positive_is(old_map, e as int);
                },
                None => {
                    assert forall|k: SubId| #[trigger] old_map.contains_key(k) implies old_map[k]
                        <= 0 by {
                        m.lemma_key(k);
                        let jk = m.ids().index_of(k);
                        assert(m.entries@[jk].1.expiry <= 0);
                    }
                    lemma_max_positive_none(old_map);
                },
            }
            // The envelope after the change.
            let top: int = match new_max {
                Some(e) => e as int,
                None => 0,
            };
            assert forall|k: SubId| #[trigger] new_map.contains_key(k) implies new_map[k] <= top by {
                if k == tid {
                    assert(new_value is Some);
                } else {
                    assert(old_map.contains_key(k));
                    m.lemma_key(k);
                    let jk = m.ids().index_of(k);
                    assert(m.ids()[jk] == k);
                    assert((if m.ids()[jk] == tid {
                        fresh
                    } else {
                        m.entries@[jk].1.expiry as int
                    }) <= top);
                }
            }
            match new_max {
                Some(e) => {
                    if new_value is Some && new_value->0 == e {
                        assert(new_map.contains_key(tid) && new_map[tid] == e);
                    } else {
                        assert(scanned == Some(e));
                        let j = choose|j: int|
                            0 <= j < n && (if m.ids()[j] == tid {
                                fresh
                            } else {
                                (#[trigger] m.entries@[j]).1.expiry as int
                            }) == e;
                        m.lemma_entry(j);
                        if m.ids()[j] == tid {
                            assert(fresh == e);
                            assert(new_value is Some);
                        } else {
                            assert(new_map.contains_key(m.ids()[j]) && new_map[m.ids()[j]] == e);
                        }
                    }
                    lemma_max_positive_is(new_map, e as int);
                },
                None => {
                    lemma_max_positive_none(new_map);
                },
            }
        }
        (max, new_max)
    }

    /// Whether no other subscription of the group was added before subscription
    /// `trim_id` was, and if so the earliest epoch at which another was added.
    /// Refused where the group has no subscription `trim_id`.
    pub fn is_min_added(&self, trim_id: &SubscriptionId) -> (r: Result<
        (bool, Option<i64>),
        ActorError,
    >)
        requires
            self.wf(),
        ensures
            match r {
                Ok((is_min, next)) => self@.contains_key(trim_id.ident()) && is_min == is_min_added(
                    self@,
                    trim_id.ident(),
                ) && epoch_option_value(next) == next_min_added(self@, trim_id.ident()),
                Err(e) => !self@.contains_key(trim_id.ident()) && e.cause
                    == crate::error::Cause::SubscriptionNotFound && forall|n: crate::text::Named|
                    n.id == trim_id.ident() ==> #[trigger] crate::text::says(e, n),
            },
    {
        let m = &self.subscriptions;
        let trim = match m.get(trim_id) {
            Some(t) => *t,
            None => {
                return Err(subscription_not_found(trim_id));
            },
        };
        let ghost tid = trim_id.ident();
        let ghost g = self@;
        let ghost others = added_of(g).remove(tid);
        let n = m.len();
        let mut next_min: Option<i64> = None;
        let mut i: usize = 0;
        while i < n
            invariant
                m.wf(),
                *m == self.subscriptions,
                i <= n,
                n == m.entries@.len(),
                tid == trim_id.ident(),
                g == self@,
                g.contains_key(tid),
                g[tid].added == trim.added,
                forall|j: int|
                    0 <= j < i && m.ids()[j] != tid ==> (#[trigger] m.entries@[j]).1.added
                        >= trim.added,
                match next_min {
                    Some(e) => (exists|j: int|
                        0 <= j < i && m.ids()[j] != tid && (#[trigger] m.entries@[j]).1.added == e)
                        && (forall|j: int|
                        0 <= j < i && m.ids()[j] != tid ==> (#[trigger] m.entries@[j]).1.added
                            >= e),
                    None => forall|j: int| 0 <= j < i ==> m.ids()[j] == tid,
                },
            decreases n - i,
        {
            let sub = m.value_at(i);
            if !m.key_at(i).same(trim_id) {
                if sub.added < trim.added {
                    proof {
                        m.lemma_entry(i as int);
                        let k = m.ids()[i as int];
                        assert(g.contains_key(k) && k != tid && g[k].added < g[tid].added);
                    }
                    return Ok((false, None));
                }
                let lower = match next_min {
                    Some(e) => sub.added < e,
                    None => true,
                };
                if lower {
                    next_min = Some(sub.added);
                }
            }
            i += 1;
        }
        proof {
            assert forall|k: SubId| #[trigger] g.contains_key(k) && k != tid implies g[k].added
                >= g[tid].added by {
                m.lemma_key(k);
                let jk = m.ids().index_of(k);
                assert(m.entries@[jk].1.added >= trim.added);
            }
            assert(others.dom() =~= m@.dom().remove(tid));
            match next_min {
                Some(e) => {
                    let j = choose|j: int|
                        0 <= j < n && m.ids()[j] != tid && (#[trigger] m.entries@[j]).1.added == e;
                    m.lemma_entry(j);
                    assert(others.contains_key(m.ids()[j]) && others[m.ids()[j]] == e);
                    assert forall|k: SubId| #[trigger] others.contains_key(k) implies others[k]
                        >= e by {
                        m.lemma_key(k);
                        let jk = m.ids().index_of(k);
                        assert(m.entries@[jk].1.added >= e);
                    }
                    lemma_min_value_is(others, e as int);
                },
                None => {
                    assert forall|k: SubId| !others.contains_key(k) by {
                        if others.contains_key(k) {
                            m.lemma_key(k);
                            let jk = m.ids().index_of(k);
                            assert(m.ids()[jk] == tid);
                        }
                    }
                    lemma_min_value_none(others);
                },
            }
        }
        Ok((true, next_min))
    }
}

/// The subscribers of a blob, each with its group.
pub type Subscribers = VecMap<Address, SubscriptionGroup>;

/// What the subscribers of a blob hold.
pub open spec fn subscribers_view(m: Subscribers) -> Map<Address, GroupView> {
    m@.map_values(|g: SubscriptionGroup| g@)
}

/// Every map among the subscribers is well-formed.
pub open spec fn subscribers_wf(m: Subscribers) -> bool {
    &&& m.wf()
    &&& forall|a: Address| #[trigger] m@.contains_key(a) ==> m@[a].wf()
}

/// A copy of the subscribers of a blob.
pub fn dup_subscribers(m: &Subscribers) -> (r: Subscribers)
    requires
        subscribers_wf(*m),
    ensures
        subscribers_wf(r),
        subscribers_view(r) == subscribers_view(*m),
{
    let n = m.len();
    let mut r: Subscribers = VecMap::new();
    let mut i: usize = 0;
    while i < n
        invariant
            subscribers_wf(*m),
            r.wf(),
            i <= n,
            n == m.entries@.len(),
            r.entries@.len() == i,
            r.ids() == m.ids().take(i as int),
            forall|j: int|
                0 <= j < i ==> (#[trigger] r.entries@[j]).1.wf() && r.entries@[j].1@
                    == m.entries@[j].1@,
        decreases n - i,
    {
        let k = *m.key_at(i);
        proof {
            m.lemma_entry(i as int);
        }
        let v = m.value_at(i).dup();
        proof {
            assert(!r.ids().contains(k.ident())) by {
                if r.ids().contains(k.ident()) {
                    let j = r.ids().index_of(k.ident());
                    assert(m.ids()[j] == m.ids()[i as int]);
                }
            }
        }
        r.put(k, v);
        proof {
            assert(r.ids() =~= m.ids().take(i + 1));
        }
        i += 1;
    }
    proof {
        assert(m.ids().take(n as int) =~= m.ids());
        r.lemma_same_view(*m, |g: SubscriptionGroup| g@);
        assert forall|a: Address| #[trigger] r@.contains_key(a) implies r@[a].wf() by {
            r.lemma_key(a);
        }
    }
    r
}

/// A stored blob.
#[derive(Clone, Debug)]
pub struct Blob {
    /// The size of the content in bytes.
    pub size: u64,
    /// The hash of the metadata from which the blob can be recovered.
    pub metadata_hash: ids::Hash,
    /// The accounts that pay for the blob, each with its subscriptions.
    pub subscribers: Subscribers,
    /// How far its ingestion has come.
    pub status: BlobStatus,
}

impl Blob {
    /// Well-formedness: the subscribers are.
    pub open spec fn wf(&self) -> bool {
        subscribers_wf(self.subscribers)
    }

    /// The blob, with its subscribers as a map.
    pub open spec fn view(&self) -> BlobView {
        BlobView {
            size: self.size as int,
            metadata_hash: self.metadata_hash,
            status: self.status,
            subscribers: subscribers_view(self.subscribers),
        }
    }

    /// Sets subscription `id` of `subscriber`, and hands out what it was before.
    pub fn set_subscription(&mut self, subscriber: Address, id: SubscriptionId, sub: Subscription) -> (r:
        Option<Subscription>)
        requires
            old(self).wf(),
        ensures
            final(self).wf(),
            final(self)@ == crate::transitions::with_subscription(
                old(self)@,
                subscriber,
                id.ident(),
                sub@,
            ),
            match r {
                Some(o) => old(self)@.subscribers.contains_key(subscriber) && old(
                    self,
                )@.subscribers[subscriber].contains_key(id.ident()) && o@ == old(
                    self,
                )@.subscribers[subscriber][id.ident()],
                None => !(old(self)@.subscribers.contains_key(subscriber) && old(
                    self,
                )@.subscribers[subscriber].contains_key(id.ident())),
            },
    {
        let ghost b0 = *self;
        let ghost sid = id.ident();
        let mut group = match self.subscribers.take(&subscriber) {
            Some(g) => g,
            None => SubscriptionGroup::new(),
        };
        let ghost g0 = group;
        let was = group.subscriptions.insert(id, sub);
        assert(group@ =~= g0@.insert(sid, sub@));
        self.subscribers.insert(subscriber, group);
        proof {
            assert(subscribers_view(self.subscribers) =~= subscribers_view(b0.subscribers).insert(
                subscriber,
                group@,
            ));
            assert forall|a: Address| #[trigger]
                self.subscribers@.contains_key(a) implies self.subscribers@[a].wf() by {
                if a != subscriber {
                    assert(b0.subscribers@.contains_key(a));
                }
            }
            assert(self@ =~= crate::transitions::with_subscription(b0@, subscriber, sid, sub@));
            if b0.subscribers@.contains_key(subscriber) {
                assert(b0@.subscribers[subscriber] == g0@);
                assert(g0@.contains_key(sid) == g0.subscriptions@.contains_key(sid));
                if g0.subscriptions@.contains_key(sid) {
                    assert(g0@[sid] == g0.subscriptions@[sid]@);
                }
            } else {
                assert(!b0@.subscribers.contains_key(subscriber));
                assert(g0.subscriptions@.dom() =~= g0@.dom());
                assert(!g0.subscriptions@.contains_key(sid));
            }
        }
        was
    }

    /// Drops subscription `id` of `subscriber`, and the group that it leaves
    /// empty.
    pub fn drop_subscription(&mut self, subscriber: &Address, id: &SubscriptionId)
        requires
            old(self).wf(),
            old(self)@.subscribers.contains_key(*subscriber),
        ensures
            final(self).wf(),
            final(self)@ == (BlobView {
                subscribers: crate::transitions::subscribers_without(
                    old(self)@.subscribers,
                    *subscriber,
                    id.ident(),
                ),
                ..old(self)@
            }),
    {
        let ghost b0 = *self;
        let ghost sid = id.ident();
        let mut group = self.subscribers.take(subscriber).unwrap();
        let ghost g0 = group;
        group.subscriptions.take(id);
        proof {
            assert(group@ =~= g0@.remove(sid));
            if group@ == Map::<SubId, SubscriptionView>::empty() {
                assert(group.subscriptions@.dom() =~= group@.dom());
                assert(group.subscriptions@ =~= Map::<SubId, Subscription>::empty());
            } else if group.subscriptions@ == Map::<SubId, Subscription>::empty() {
                assert(group@ =~= Map::<SubId, SubscriptionView>::empty());
            }
        }
        if !group.subscriptions.is_empty() {
            self.subscribers.insert(*subscriber, group);
            proof {
                assert(subscribers_view(self.subscribers) =~= subscribers_view(
                    b0.subscribers,
                ).insert(*subscriber, group@));
            }
        } else {
            proof {
                assert(subscribers_view(self.subscribers) =~= subscribers_view(
                    b0.subscribers,
                ).remove(*subscriber));
            }
        }
        proof {
            assert forall|a: Address| #[trigger]
                self.subscribers@.contains_key(a) implies self.subscribers@[a].wf() by {
                if a != *subscriber {
                    assert(b0.subscribers@.contains_key(a));
                }
            }
        }
    }

    /// Whether the blob has no subscriber.
    pub fn has_no_subscriber(&self) -> (r: bool)
        ensures
            r == (self@.subscribers == Map::<Address, GroupView>::empty()),
    {
        proof {
            if self@.subscribers == Map::<Address, GroupView>::empty() {
                assert(self.subscribers@.dom() =~= self@.subscribers.dom());
                assert(self.subscribers@ =~= Map::<Address, SubscriptionGroup>::empty());
            } else if self.subscribers@ == Map::<Address, SubscriptionGroup>::empty() {
                assert(self@.subscribers =~= Map::<Address, GroupView>::empty());
            }
        }
        self.subscribers.is_empty()
    }

    /// A copy.
    pub fn dup(&self) -> (r: Self)
        requires
            self.wf(),
        ensures
            r.wf(),
            r@ == self@,
    {
        Blob {
            size: self.size,
            metadata_hash: self.metadata_hash,
            subscribers: dup_subscribers(&self.subscribers),
            status: self.status,
        }
    }
}

} // verus!
