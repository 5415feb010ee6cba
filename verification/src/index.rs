//! The secondary indexes: subscriptions by expiry, and blobs by ingestion stage.

use crate::ids;
use crate::ids::ExpiryKey;
use crate::ids::PublicKey;
use crate::ids::SourceId;
use crate::ids::SubscriptionId;
use crate::key::Key;
use crate::model::index_add;
use crate::model::index_remove;
use crate::model::sources_add;
use crate::model::sources_remove;
use crate::model::ExpiriesView;
use crate::model::ExpiryId;
use crate::model::SourcesView;
use crate::ordmap::OrdMap;
use crate::vecmap::VecMap;
use fvm_shared::address::Address;
use vstd::prelude::*;

verus! {

/// Under one epoch and subscriber: whether each subscription renews by itself.
pub type ByKey = VecMap<ExpiryKey, bool>;

/// Under one epoch: the subscriptions of each subscriber that end then.
pub type BySubscriber = VecMap<Address, ByKey>;

/// The expiry index, ascending by epoch.
pub type Expiries = OrdMap<i64, BySubscriber>;

/// What the index holds under one epoch.
pub open spec fn by_subscriber_view(m: BySubscriber) -> Map<Address, Map<ExpiryId, bool>> {
    m@.map_values(|k: ByKey| k@)
}

/// What the index holds.
pub open spec fn expiries_view(x: Expiries) -> ExpiriesView {
    x@.map_values(|s: BySubscriber| by_subscriber_view(s))
}

/// Every map under one epoch is well-formed.
pub open spec fn by_subscriber_wf(m: BySubscriber) -> bool {
    &&& m.wf()
    &&& forall|a: Address| #[trigger] m@.contains_key(a) ==> m@[a].wf()
}

/// Every map of the index is well-formed, and the epochs ascend.
pub open spec fn expiries_wf(x: Expiries) -> bool {
    &&& x.wf()
    &&& forall|e: int| #[trigger] x@.contains_key(e) ==> by_subscriber_wf(x@[e])
}

/// Adds the entry for a subscription that ends at `expiry`.
pub fn add_expiry(
    expiries: &mut Expiries,
    expiry: i64,
    subscriber: Address,
    key: ExpiryKey,
    auto_renew: bool,
)
    requires
        expiries_wf(*old(expiries)),
    ensures
        expiries_wf(*final(expiries)),
        expiries_view(*final(expiries)) == index_add(
            expiries_view(*old(expiries)),
            expiry as int,
            subscriber,
            key.ident(),
            auto_renew,
        ),
{
    let ghost x0 = *expiries;
    let mut by_subscriber = match expiries.take(&expiry) {
        Some(m) => m,
        None => VecMap::new(),
    };
    let ghost s0 = by_subscriber;
    let mut by_key = match by_subscriber.take(&subscriber) {
        Some(m) => m,
        None => VecMap::new(),
    };
    by_key.insert(key, auto_renew);
    assert(by_subscriber@.insert(subscriber, by_key) =~= s0@.insert(subscriber, by_key));
    by_subscriber.put(subscriber, by_key);
    assert(expiries@.insert(expiry as int, by_subscriber) =~= x0@.insert(
        expiry as int,
        by_subscriber,
    ));
    expiries.put(expiry, by_subscriber);
    proof {
        let v0 = expiries_view(x0);
        assert(by_subscriber_view(by_subscriber) =~= by_subscriber_view(s0).insert(
            subscriber,
            by_key@,
        ));
        if x0@.contains_key(expiry as int) {
            assert(by_subscriber_view(s0) == v0[expiry as int]);
        } else {
            assert(by_subscriber_view(s0) =~= Map::<Address, Map<ExpiryId, bool>>::empty());
        }
        assert(expiries_view(*expiries) =~= v0.insert(
            expiry as int,
            by_subscriber_view(by_subscriber),
        ));
        assert forall|a: Address| #[trigger]
            by_subscriber@.contains_key(a) implies by_subscriber@[a].wf() by {
            if a != subscriber {
                assert(s0@.contains_key(a));
            }
        }
        assert forall|e: int| #[trigger] expiries@.contains_key(e) implies by_subscriber_wf(
            expiries@[e],
        ) by {
            if e != expiry as int {
                assert(x0@.contains_key(e));
            }
        }
    }
}

/// Removes the entry for a subscription that ended at `expiry`, and with it
/// the subscriber and the epoch that it leaves empty.
pub fn remove_expiry(expiries: &mut Expiries, expiry: i64, subscriber: Address, key: &ExpiryKey)
    requires
        expiries_wf(*old(expiries)),
    ensures
        expiries_wf(*final(expiries)),
        expiries_view(*final(expiries)) == index_remove(
            expiries_view(*old(expiries)),
            expiry as int,
            subscriber,
            key.ident(),
        ),
{
    let ghost x0 = *expiries;
    let ghost v0 = expiries_view(x0);
    let ghost kid = key.ident();
    match expiries.take(&expiry) {
        Some(mut by_subscriber) => {
            let ghost s0 = by_subscriber;
            assert(by_subscriber_view(s0) == v0[expiry as int]);
            match by_subscriber.take(&subscriber) {
                Some(mut by_key) => {
                    let ghost k0 = by_key;
                    by_key.take(key);
                    assert(by_key@ =~= k0@.remove(kid));
                    if !by_key.is_empty() {
                        assert(by_subscriber@.insert(subscriber, by_key) =~= s0@.insert(
                            subscriber,
                            by_key,
                        ));
                        by_subscriber.put(subscriber, by_key);
                        proof {
                            assert(by_subscriber_view(by_subscriber) =~= by_subscriber_view(
                                s0,
                            ).insert(subscriber, by_key@));
                        }
                    } else {
                        proof {
                            assert(by_subscriber_view(by_subscriber) =~= by_subscriber_view(
                                s0,
                            ).remove(subscriber));
                        }
                    }
                },
                None => {},
            }
            proof {
                assert forall|a: Address| #[trigger]
                    by_subscriber@.contains_key(a) implies by_subscriber@[a].wf() by {
                    if a != subscriber {
                        assert(s0@.contains_key(a));
                    }
                }
                if by_subscriber@ == Map::<Address, ByKey>::empty() {
                    assert(by_subscriber_view(by_subscriber) =~= Map::<
                        Address,
                        Map<ExpiryId, bool>,
                    >::empty());
                } else {
                    if by_subscriber_view(by_subscriber) == Map::<
                        Address,
                        Map<ExpiryId, bool>,
                    >::empty() {
                        assert(by_subscriber@.dom() =~= by_subscriber_view(by_subscriber).dom());
                        assert(by_subscriber@ =~= Map::<Address, ByKey>::empty());
                    }
                }
            }
            if !by_subscriber.is_empty() {
                assert(expiries@.insert(expiry as int, by_subscriber) =~= x0@.insert(
                    expiry as int,
                    by_subscriber,
                ));
                expiries.put(expiry, by_subscriber);
                proof {
                    assert(expiries_view(*expiries) =~= v0.insert(
                        expiry as int,
                        by_subscriber_view(by_subscriber),
                    ));
                }
            } else {
                proof {
                    assert(expiries_view(*expiries) =~= v0.remove(expiry as int));
                }
            }
            proof {
                assert forall|e: int| #[trigger] expiries@.contains_key(e) implies by_subscriber_wf(
                    expiries@[e],
                ) by {
                    if e != expiry as int {
                        assert(x0@.contains_key(e));
                    }
                }
            }
        },
        None => {},
    }
}

/// Moves a subscription's entry in the index: the entry at `remove` goes out,
/// then one goes in at `add`.
pub fn update_expiry_index(
    expiries: &mut Expiries,
    subscriber: Address,
    hash: ids::Hash,
    id: &SubscriptionId,
    add: Option<(i64, bool)>,
    remove: Option<i64>,
)
    requires
        expiries_wf(*old(expiries)),
    ensures
        expiries_wf(*final(expiries)),
        expiries_view(*final(expiries)) == crate::model::update_expiry_index(
            expiries_view(*old(expiries)),
            subscriber,
            (hash, id.ident()),
            match add {
                Some((e, auto_renew)) => Some((e as int, auto_renew)),
                None => None,
            },
            match remove {
                Some(e) => Some(e as int),
                None => None,
            },
        ),
{
    if let Some(e) = remove {
        let key = ExpiryKey::new(hash, id);
        remove_expiry(expiries, e, subscriber, &key);
    }
    if let Some((e, auto_renew)) = add {
        let key = ExpiryKey::new(hash, id);
        add_expiry(expiries, e, subscriber, key, auto_renew);
    }
}

/// A subscription's source: the subscriber, the subscription id, the node.
pub type Source = (Address, SubscriptionId, PublicKey);

/// The sources recorded for one blob.
pub type SourceSet = VecMap<Source, ()>;

/// An ingestion index, ascending by hash.
pub type Sources = OrdMap<ids::Hash, SourceSet>;

/// What an ingestion index holds.
pub open spec fn sources_view(x: Sources) -> SourcesView {
    x@.map_values(|s: SourceSet| s@.dom())
}

/// Every map of the index is well-formed, and the hashes ascend.
pub open spec fn sources_wf(x: Sources) -> bool {
    &&& x.wf()
    &&& forall|h: ids::Hash| #[trigger] x@.contains_key(h) ==> x@[h].wf()
}

/// Records a source for a blob.
pub fn add_source(x: &mut Sources, hash: ids::Hash, source: Source)
    requires
        sources_wf(*old(x)),
    ensures
        sources_wf(*final(x)),
        sources_view(*final(x)) == sources_add(sources_view(*old(x)), hash, source.ident()),
{
    let ghost x0 = *x;
    let ghost v0 = sources_view(x0);
    let mut set = match x.take(&hash) {
        Some(s) => s,
        None => VecMap::new(),
    };
    let ghost s0 = set;
    set.insert(source, ());
    assert(x@.insert(hash, set) =~= x0@.insert(hash, set));
    x.put(hash, set);
    proof {
        assert(set@.dom() =~= s0@.dom().insert(source.ident()));
        if !x0@.contains_key(hash) {
            assert(s0@.dom() =~= Set::<SourceId>::empty());
        }
        assert(sources_view(*x) =~= v0.insert(hash, set@.dom()));
        assert forall|h: ids::Hash| #[trigger] x@.contains_key(h) implies x@[h].wf() by {
            if h != hash {
                assert(x0@.contains_key(h));
            }
        }
    }
}

/// Forgets a source of a blob, and the blob with its last source.
pub fn remove_source(x: &mut Sources, hash: ids::Hash, source: &Source)
    requires
        sources_wf(*old(x)),
    ensures
        sources_wf(*final(x)),
        sources_view(*final(x)) == sources_remove(sources_view(*old(x)), hash, source.ident()),
{
    let ghost x0 = *x;
    let ghost v0 = sources_view(x0);
    match x.take(&hash) {
        Some(mut set) => {
            let ghost s0 = set;
            set.take(source);
            proof {
                assert(set@.dom() =~= s0@.dom().remove(source.ident()));
                if set@ == Map::<SourceId, ()>::empty() {
                    assert(set@.dom() =~= Set::<SourceId>::empty());
                } else {
                    assert(set@.dom() != Set::<SourceId>::empty()) by {
                        if set@.dom() == Set::<SourceId>::empty() {
                            assert(set@ =~= Map::<SourceId, ()>::empty());
                        }
                    }
                }
            }
            if !set.is_empty() {
                assert(x@.insert(hash, set) =~= x0@.insert(hash, set));
                x.put(hash, set);
                proof {
                    assert(sources_view(*x) =~= v0.insert(hash, set@.dom()));
                }
            } else {
                proof {
                    assert(sources_view(*x) =~= v0.remove(hash));
                }
            }
            proof {
                assert forall|h: ids::Hash| #[trigger] x@.contains_key(h) implies x@[h].wf() by {
                    if h != hash {
                        assert(x0@.contains_key(h));
                    }
                }
            }
        },
        None => {},
    }
}

/// Forgets all sources of a blob.
pub fn clear_sources(x: &mut Sources, hash: ids::Hash)
    requires
        sources_wf(*old(x)),
    ensures
        sources_wf(*final(x)),
        sources_view(*final(x)) == sources_view(*old(x)).remove(hash),
{
    let ghost x0 = *x;
    x.take(&hash);
    proof {
        assert(sources_view(*x) =~= sources_view(x0).remove(hash));
        assert forall|h: ids::Hash| #[trigger] x@.contains_key(h) implies x@[h].wf() by {
            assert(x0@.contains_key(h));
        }
    }
}

} // verus!
