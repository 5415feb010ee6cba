//! The expiry index lists exactly the subscriptions, each at its expiry.

use crate::blob::BlobStatus;
use crate::ids;
use crate::ids::PublicKey;
use crate::model::index_add;
use crate::model::index_remove;
use crate::model::BlobView;
use crate::model::ExpiriesView;
use crate::model::ExpiryId;
use crate::model::StateView;
use crate::model::SubId;
use crate::model::SubscriptionView;
use crate::transitions;
use crate::transitions::expire_all;
use crate::transitions::expire_one;
use crate::transitions::with_subscription;
use crate::transitions::without_subscription;
use crate::transitions::Expired;
use fvm_shared::address::Address;
use vstd::prelude::*;

verus! {

/// The index lists subscription `k` of subscriber `a` under epoch `e`.
pub open spec fn indexed_at(x: ExpiriesView, e: int, a: Address, k: ExpiryId) -> bool {
    x.contains_key(e) && x[e].contains_key(a) && x[e][a].contains_key(k)
}

/// Subscriber `a` holds subscription `i` on blob `h`, and it ends at `e`.
pub open spec fn subscribed_until(
    blobs: Map<ids::Hash, BlobView>,
    a: Address,
    h: ids::Hash,
    i: SubId,
    e: int,
) -> bool {
    &&& blobs.contains_key(h)
    &&& blobs[h].subscribers.contains_key(a)
    &&& blobs[h].subscribers[a].contains_key(i)
    &&& blobs[h].subscribers[a][i].expiry == e
}

/// Index consistency: the expiry index lists a subscription under an epoch
/// exactly when the subscription exists and ends at that epoch.
pub open spec fn index_agrees(s: StateView) -> bool {
    forall|e: int, a: Address, h: ids::Hash, i: SubId|
        #![trigger indexed_at(s.expiries, e, a, (h, i))]
        #![trigger subscribed_until(s.blobs, a, h, i, e)]
        indexed_at(s.expiries, e, a, (h, i)) <==> subscribed_until(s.blobs, a, h, i, e)
}

/// An entry that is added is listed, next to what was listed before.
pub proof fn lemma_index_add(
    x: ExpiriesView,
    e0: int,
    a0: Address,
    k0: ExpiryId,
    auto_renew: bool,
    e: int,
    a: Address,
    k: ExpiryId,
)
    ensures
        indexed_at(index_add(x, e0, a0, k0, auto_renew), e, a, k) <==> (indexed_at(x, e, a, k) || (e
            == e0 && a == a0 && k == k0)),
{
}

/// An entry that is removed is no longer listed; what else was listed is.
pub proof fn lemma_index_remove(
    x: ExpiriesView,
    e0: int,
    a0: Address,
    k0: ExpiryId,
    e: int,
    a: Address,
    k: ExpiryId,
)
    ensures
        indexed_at(index_remove(x, e0, a0, k0), e, a, k) <==> (indexed_at(x, e, a, k) && !(e == e0
            && a == a0 && k == k0)),
{
    if x.contains_key(e0) {
        if x[e0].contains_key(a0) {
            let by_key = x[e0][a0].remove(k0);
            if by_key == Map::<ExpiryId, bool>::empty() {
                if e == e0 && a == a0 && k != k0 {
                    assert(!by_key.contains_key(k));
                }
            }
        }
        let by_subscriber = if x[e0].contains_key(a0) {
            let by_key = x[e0][a0].remove(k0);
            if by_key == Map::<ExpiryId, bool>::empty() {
                x[e0].remove(a0)
            } else {
                x[e0].insert(a0, by_key)
            }
        } else {
            x[e0]
        };
        if by_subscriber == Map::<Address, Map<ExpiryId, bool>>::empty() {
            if e == e0 {
                assert(!by_subscriber.contains_key(a));
            }
        }
    }
}

/// Setting a subscription changes when that subscription ends, and nothing
/// about the others.
pub proof fn lemma_with_subscription(
    blobs: Map<ids::Hash, BlobView>,
    blob: BlobView,
    h0: ids::Hash,
    a0: Address,
    i0: SubId,
    sub: SubscriptionView,
    a: Address,
    h: ids::Hash,
    i: SubId,
    e: int,
)
    requires
        blobs.contains_key(h0) ==> blob.subscribers == blobs[h0].subscribers,
        !blobs.contains_key(h0) ==> blob.subscribers == Map::<
            Address,
            Map<SubId, SubscriptionView>,
        >::empty(),
    ensures
        subscribed_until(blobs.insert(h0, with_subscription(blob, a0, i0, sub)), a, h, i, e) <==> (
        if h == h0 && a == a0 && i == i0 {
            e == sub.expiry
        } else {
            subscribed_until(blobs, a, h, i, e)
        }),
{
}

/// Dropping a subscription ends that subscription, and changes nothing about
/// the others.
pub proof fn lemma_without_subscription(
    blobs: Map<ids::Hash, BlobView>,
    h0: ids::Hash,
    a0: Address,
    i0: SubId,
    a: Address,
    h: ids::Hash,
    i: SubId,
    e: int,
)
    requires
        blobs.contains_key(h0),
        blobs[h0].subscribers.contains_key(a0),
    ensures
        subscribed_until(without_subscription(blobs, h0, a0, i0), a, h, i, e) <==> (
        subscribed_until(blobs, a, h, i, e) && !(h == h0 && a == a0 && i == i0)),
{
    let blob = blobs[h0];
    let group = blob.subscribers[a0].remove(i0);
    let subscribers = transitions::subscribers_without(blob.subscribers, a0, i0);
    if group == Map::<SubId, SubscriptionView>::empty() {
        if h == h0 && a == a0 && i != i0 {
            assert(!group.contains_key(i));
        }
    }
    if subscribers == Map::<Address, Map<SubId, SubscriptionView>>::empty() {
        if h == h0 {
            assert(!subscribers.contains_key(a));
        }
    }
}

/// At genesis the index agrees with the subscriptions: there are none.
pub proof fn law_genesis_index(capacity: int, rate: int)
    ensures
        index_agrees(transitions::genesis(capacity, rate)),
{
}

/// What touches only the accounts keeps the index in agreement with the
/// subscriptions.
pub proof fn law_accounts_only_index(s: StateView, s1: StateView)
    requires
        index_agrees(s),
        s1.blobs == s.blobs,
        s1.expiries == s.expiries,
    ensures
        index_agrees(s1),
{
    assert forall|e: int, a: Address, h: ids::Hash, i: SubId|
        indexed_at(s1.expiries, e, a, (h, i)) <==> subscribed_until(s1.blobs, a, h, i, e) by {
        assert(indexed_at(s.expiries, e, a, (h, i)) <==> subscribed_until(s.blobs, a, h, i, e));
    }
}

/// Adding a blob keeps the index in agreement with the subscriptions.
pub proof fn law_add_blob_index(
    s: StateView,
    origin: Address,
    caller: Address,
    subscriber: Address,
    epoch: int,
    hash: ids::Hash,
    metadata_hash: ids::Hash,
    id: SubId,
    size: int,
    ttl: Option<int>,
    source: PublicKey,
    tokens: int,
)
    requires
        index_agrees(s),
    ensures
        transitions::add_blob(
            s,
            origin,
            caller,
            subscriber,
            epoch,
            hash,
            metadata_hash,
            id,
            size,
            ttl,
            source,
            tokens,
        ) matches Ok((s1, _, _)) ==> index_agrees(s1),
{
    if let Ok(p) = transitions::plan_add(
        s,
        origin,
        caller,
        subscriber,
        epoch,
        hash,
        id,
        size,
        ttl,
        tokens,
    ) {
        let (s1, sub) = transitions::apply_add(
            s,
            p,
            origin,
            caller,
            subscriber,
            epoch,
            hash,
            metadata_hash,
            id,
            size,
            source,
        );
        let group = transitions::group_of(s, hash, subscriber);
        let existing = group is Some && group->0.contains_key(id);
        let blob0 = if !s.blobs.contains_key(hash) {
            BlobView {
                size,
                metadata_hash,
                status: BlobStatus::Added,
                subscribers: Map::empty(),
            }
        } else {
            s.blobs[hash]
        };
        let status = if blob0.status == BlobStatus::Resolved {
            BlobStatus::Resolved
        } else {
            BlobStatus::Added
        };
        let base = BlobView { status, ..blob0 };
        let removed = if existing {
            index_remove(s.expiries, group->0[id].expiry, subscriber, (hash, id))
        } else {
            s.expiries
        };
        assert forall|e: int, a: Address, h: ids::Hash, i: SubId|
            indexed_at(s1.expiries, e, a, (h, i)) <==> subscribed_until(s1.blobs, a, h, i, e) by {
            lemma_with_subscription(s.blobs, base, hash, subscriber, id, sub, a, h, i, e);
            lemma_index_add(removed, p.expiry, subscriber, (hash, id), p.auto_renew, e, a, (h, i));
            if existing {
                lemma_index_remove(
                    s.expiries,
                    group->0[id].expiry,
                    subscriber,
                    (hash, id),
                    e,
                    a,
                    (h, i),
                );
            }
            assert(indexed_at(s.expiries, e, a, (h, i)) <==> subscribed_until(s.blobs, a, h, i, e));
        }
    }
}

/// Renewing a subscription keeps the index in agreement with the
/// subscriptions.
pub proof fn law_renew_blob_index(
    s: StateView,
    subscriber: Address,
    epoch: int,
    hash: ids::Hash,
    id: SubId,
)
    requires
        index_agrees(s),
    ensures
        transitions::renew_blob(s, subscriber, epoch, hash, id) matches Ok((s1, _))
            ==> index_agrees(s1),
{
    if let Ok(p) = transitions::plan_renew(s, subscriber, epoch, hash, id) {
        let s1 = transitions::apply_renew(s, p, subscriber, epoch, hash, id).0;
        let blob = s.blobs[hash];
        let sub = blob.subscribers[subscriber][id];
        let renewed = SubscriptionView { expiry: p.expiry, ..sub };
        let removed = index_remove(s.expiries, sub.expiry, subscriber, (hash, id));
        assert forall|e: int, a: Address, h: ids::Hash, i: SubId|
            indexed_at(s1.expiries, e, a, (h, i)) <==> subscribed_until(s1.blobs, a, h, i, e) by {
            lemma_with_subscription(s.blobs, blob, hash, subscriber, id, renewed, a, h, i, e);
            lemma_index_add(removed, p.expiry, subscriber, (hash, id), sub.auto_renew, e, a, (h, i));
            lemma_index_remove(s.expiries, sub.expiry, subscriber, (hash, id), e, a, (h, i));
            assert(indexed_at(s.expiries, e, a, (h, i)) <==> subscribed_until(s.blobs, a, h, i, e));
        }
    }
}

/// Deleting a subscription keeps the index in agreement with the
/// subscriptions.
pub proof fn law_delete_blob_index(
    s: StateView,
    origin: Address,
    caller: Address,
    subscriber: Address,
    epoch: int,
    hash: ids::Hash,
    id: SubId,
)
    requires
        index_agrees(s),
    ensures
        transitions::delete_blob(s, origin, caller, subscriber, epoch, hash, id) matches Ok(
            (s1, _),
        ) ==> index_agrees(s1),
{
    if let Ok(true) = transitions::plan_delete(s, origin, caller, subscriber, epoch, hash, id) {
        let s1 = transitions::apply_delete(s, subscriber, epoch, hash, id).0;
        let sub = s.blobs[hash].subscribers[subscriber][id];
        assert forall|e: int, a: Address, h: ids::Hash, i: SubId|
            indexed_at(s1.expiries, e, a, (h, i)) <==> subscribed_until(s1.blobs, a, h, i, e) by {
            lemma_without_subscription(s.blobs, hash, subscriber, id, a, h, i, e);
            lemma_index_remove(s.expiries, sub.expiry, subscriber, (hash, id), e, a, (h, i));
            assert(indexed_at(s.expiries, e, a, (h, i)) <==> subscribed_until(s.blobs, a, h, i, e));
        }
    }
}

/// Setting a blob pending keeps the index in agreement with the
/// subscriptions.
pub proof fn law_set_blob_pending_index(
    s: StateView,
    subscriber: Address,
    hash: ids::Hash,
    id: SubId,
    source: PublicKey,
)
    requires
        index_agrees(s),
    ensures
        index_agrees(transitions::set_blob_pending(s, subscriber, hash, id, source)),
{
    let s1 = transitions::set_blob_pending(s, subscriber, hash, id, source);
    assert forall|e: int, a: Address, h: ids::Hash, i: SubId|
        indexed_at(s1.expiries, e, a, (h, i)) <==> subscribed_until(s1.blobs, a, h, i, e) by {
        assert(indexed_at(s.expiries, e, a, (h, i)) <==> subscribed_until(s.blobs, a, h, i, e));
    }
}

/// Finalizing a blob keeps the index in agreement with the subscriptions.
pub proof fn law_finalize_blob_index(
    s: StateView,
    subscriber: Address,
    epoch: int,
    hash: ids::Hash,
    id: SubId,
    status: BlobStatus,
)
    requires
        index_agrees(s),
    ensures
        transitions::finalize_blob(s, subscriber, epoch, hash, id, status) matches Ok(s1)
            ==> index_agrees(s1),
{
    if let Ok(true) = transitions::plan_finalize(s, subscriber, hash, id, status) {
        let s1 = transitions::apply_finalize(s, subscriber, epoch, hash, id, status);
        let blob = s.blobs[hash];
        let sub = blob.subscribers[subscriber][id];
        assert forall|e: int, a: Address, h: ids::Hash, i: SubId|
            indexed_at(s1.expiries, e, a, (h, i)) <==> subscribed_until(s1.blobs, a, h, i, e) by {
            if status == BlobStatus::Failed {
                lemma_with_subscription(
                    s.blobs,
                    BlobView { status: BlobStatus::Failed, ..blob },
                    hash,
                    subscriber,
                    id,
                    SubscriptionView { failed: true, ..sub },
                    a,
                    h,
                    i,
                    e,
                );
            }
            assert(indexed_at(s.expiries, e, a, (h, i)) <==> subscribed_until(s.blobs, a, h, i, e));
        }
    }
}

/// Renewing or deleting one subscription that has ended keeps the index in
/// agreement with the subscriptions.
pub proof fn law_expire_one_index(s: StateView, e: Expired, epoch: int)
    requires
        index_agrees(s),
    ensures
        index_agrees(expire_one(s, e, epoch).0),
{
    law_renew_blob_index(s, e.0, epoch, e.1, e.2);
    law_delete_blob_index(s, e.0, e.0, e.0, epoch, e.1, e.2);
}

/// Going through the subscriptions that have ended keeps the index in
/// agreement with the subscriptions.
pub proof fn law_expire_all_index(s: StateView, entries: Seq<Expired>, epoch: int)
    requires
        index_agrees(s),
    ensures
        index_agrees(expire_all(s, entries, epoch).0),
    decreases entries.len(),
{
    if entries.len() > 0 {
        law_expire_all_index(s, entries.drop_last(), epoch);
        law_expire_one_index(expire_all(s, entries.drop_last(), epoch).0, entries.last(), epoch);
    }
}

/// The debit tick keeps the index in agreement with the subscriptions.
pub proof fn law_debit_accounts_index(s: StateView, entries: Seq<Expired>, epoch: int)
    requires
        index_agrees(s),
    ensures
        index_agrees(transitions::debit_accounts(s, entries, epoch).0),
{
    law_expire_all_index(s, entries, epoch);
    let s1 = expire_all(s, entries, epoch).0;
    let s2 = transitions::debit_all(s1, epoch);
    assert forall|e: int, a: Address, h: ids::Hash, i: SubId|
        indexed_at(s2.expiries, e, a, (h, i)) <==> subscribed_until(s2.blobs, a, h, i, e) by {
        assert(indexed_at(s1.expiries, e, a, (h, i)) <==> subscribed_until(s1.blobs, a, h, i, e));
    }
}

/// Overwriting a blob keeps the index in agreement with the subscriptions.
pub proof fn law_overwrite_blob_index(
    s: StateView,
    old_hash: ids::Hash,
    origin: Address,
    caller: Address,
    subscriber: Address,
    epoch: int,
    hash: ids::Hash,
    metadata_hash: ids::Hash,
    id: SubId,
    size: int,
    ttl: Option<int>,
    source: PublicKey,
    tokens: int,
)
    requires
        index_agrees(s),
    ensures
        transitions::overwrite_blob(
            s,
            old_hash,
            origin,
            caller,
            subscriber,
            epoch,
            hash,
            metadata_hash,
            id,
            size,
            ttl,
            source,
            tokens,
        ) matches Ok((s2, _, _, _)) ==> index_agrees(s2),
{
    if let Ok((s1, _)) = transitions::delete_blob(s, origin, caller, subscriber, epoch, old_hash, id) {
        law_delete_blob_index(s, origin, caller, subscriber, epoch, old_hash, id);
        law_add_blob_index(
            s1,
            origin,
            caller,
            subscriber,
            epoch,
            hash,
            metadata_hash,
            id,
            size,
            ttl,
            source,
            tokens,
        );
    }
}

} // verus!
