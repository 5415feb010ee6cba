//! What holds of single operations and of pairs of them.

use crate::blob::BlobStatus;
use crate::error::Cause;
use crate::ids;
use crate::ids::PublicKey;
use crate::model::accept_ttl;
use crate::model::account_or_new;
use crate::model::expiries_of;
use crate::model::group_expiry;
use crate::model::is_max_positive;
use crate::model::max_positive;
use crate::model::new_group_expiry;
use crate::model::spend_through;
use crate::model::ApprovalsView;
use crate::model::GroupView;
use crate::model::StateView;
use crate::model::SubId;
use crate::transitions;
use crate::transitions::delegate_key;
use crate::transitions::delegate_origin;
use crate::transitions::group_of;
use crate::transitions::reclaimed;
use fvm_shared::address::Address;
use vstd::prelude::*;

verus! {

/// Credit spent through an approval is counted as used by that approval, and
/// by no other; limits and expiries stay.
pub proof fn law_spend_counts(approvals: ApprovalsView, origin: Address, key: Address, amount: int)
    requires
        approvals.contains_key(origin),
        approvals[origin].contains_key(key),
    ensures
        spend_through(approvals, origin, key, amount)[origin][key].used
            == approvals[origin][key].used + amount,
        spend_through(approvals, origin, key, amount)[origin][key].limit
            == approvals[origin][key].limit,
        spend_through(approvals, origin, key, amount)[origin][key].expiry
            == approvals[origin][key].expiry,
        forall|o: Address, k: Address|
            approvals.contains_key(o) && approvals[o].contains_key(k) && !(o == origin && k == key)
                ==> spend_through(approvals, origin, key, amount).contains_key(o) && spend_through(
                approvals,
                origin,
                key,
                amount,
            )[o].contains_key(k) && #[trigger] spend_through(approvals, origin, key, amount)[o][k]
                == approvals[o][k],
{
}

/// The approval through which a blob is added counts the credit committed as
/// used.
pub proof fn law_add_blob_use(
    s: StateView,
    origin: Address,
    caller: Address,
    subscriber: Address,
    epoch: int,
    hash: ids::Hash,
    metadata_hash: ids::Hash,
    id: SubId,
    size: int,
    ttl: Option<int>,
    source: PublicKey,
    tokens: int,
)
    ensures
        match transitions::plan_add(
            s,
            origin,
            caller,
            subscriber,
            epoch,
            hash,
            id,
            size,
            ttl,
            tokens,
        ) {
            Ok(p) => {
                let s1 = transitions::apply_add(
                    s,
                    p,
                    origin,
                    caller,
                    subscriber,
                    epoch,
                    hash,
                    metadata_hash,
                    id,
                    size,
                    source,
                ).0;
                p.key matches Some(k) ==> s.accounts.contains_key(subscriber)
                    && s1.accounts[subscriber].approvals[origin][k].used
                    == s.accounts[subscriber].approvals[origin][k].used + p.required
            },
            Err(_) => true,
        },
{
}

/// The approval through which a subscription is renewed counts the credit
/// committed as used.
pub proof fn law_renew_blob_use(
    s: StateView,
    subscriber: Address,
    epoch: int,
    hash: ids::Hash,
    id: SubId,
)
    ensures
        match transitions::plan_renew(s, subscriber, epoch, hash, id) {
            Ok(p) => {
                let s1 = transitions::apply_renew(s, p, subscriber, epoch, hash, id).0;
                let origin = delegate_origin(s.blobs[hash].subscribers[subscriber][id], subscriber);
                p.key matches Some(k) ==> s.accounts.contains_key(subscriber)
                    && s1.accounts[subscriber].approvals[origin][k].used
                    == s.accounts[subscriber].approvals[origin][k].used + p.required
            },
            Err(_) => true,
        },
{
}

/// The approval that paid for a subscription counts what goes back to free
/// credit when the subscription is deleted as no longer used.
pub proof fn law_delete_blob_use(
    s: StateView,
    origin: Address,
    caller: Address,
    subscriber: Address,
    epoch: int,
    hash: ids::Hash,
    id: SubId,
)
    ensures
        transitions::plan_delete(s, origin, caller, subscriber, epoch, hash, id) == Ok::<
            bool,
            Cause,
        >(true) ==> {
            let s1 = transitions::apply_delete(s, subscriber, epoch, hash, id).0;
            let account = account_or_new(s, subscriber, epoch);
            let sub = s.blobs[hash].subscribers[subscriber][id];
            let payer = delegate_origin(sub, subscriber);
            delegate_key(account, sub) matches Some(k) ==> s1.accounts[subscriber].approvals[payer][k].used
                == account.approvals[payer][k].used - (s1.accounts[subscriber].credit_free
                - account.credit_free)
        },
{
}

/// The approval that paid for a subscription counts the committed credit that
/// goes back to free when the subscription fails as no longer used.
pub proof fn law_finalize_blob_use(
    s: StateView,
    subscriber: Address,
    epoch: int,
    hash: ids::Hash,
    id: SubId,
)
    ensures
        transitions::plan_finalize(s, subscriber, hash, id, BlobStatus::Failed) == Ok::<
            bool,
            Cause,
        >(true) ==> {
            let s1 = transitions::apply_finalize(
                s,
                subscriber,
                epoch,
                hash,
                id,
                BlobStatus::Failed,
            );
            let account = account_or_new(s, subscriber, epoch);
            let sub = s.blobs[hash].subscribers[subscriber][id];
            let payer = delegate_origin(sub, subscriber);
            delegate_key(account, sub) matches Some(k) ==> s1.accounts[subscriber].approvals[payer][k].used
                == account.approvals[payer][k].used - (account.credit_committed
                - s1.accounts[subscriber].credit_committed)
        },
{
}

/// Adding a subscription again with the expiry it has commits no credit: the
/// free credit of an account that owes none stays, nothing is bought, all
/// tokens go back, and the approval counts nothing more as used.
pub proof fn law_add_blob_again(
    s: StateView,
    origin: Address,
    caller: Address,
    subscriber: Address,
    epoch: int,
    hash: ids::Hash,
    id: SubId,
    size: int,
    ttl: Option<int>,
    tokens: int,
)
    requires
        group_of(s, hash, subscriber) is Some,
        group_of(s, hash, subscriber)->0.contains_key(id),
        accept_ttl(ttl) matches Ok((t, _)) && group_of(s, hash, subscriber)->0[id].expiry == epoch
            + t,
        account_or_new(s, subscriber, epoch).credit_free >= 0,
    ensures
        transitions::plan_add(s, origin, caller, subscriber, epoch, hash, id, size, ttl, tokens)
            matches Ok(p) ==> p.required == 0 && p.bought == 0 && p.unspent == tokens,
{
    let g = group_of(s, hash, subscriber)->0;
    let t = accept_ttl(ttl)->Ok_0.0;
    let expiry = epoch + t;
    assert(expiries_of(g).insert(id, expiry) =~= expiries_of(g));
    assert(new_group_expiry(g, id, Some(expiry)) == group_expiry(g));
    if let Some(c) = group_expiry(g) {
        crate::bounds::lemma_max_positive(expiries_of(g));
        assert(expiries_of(g).contains_key(id));
        assert(c >= expiry);
        assert(transitions::max_int(c, epoch) == c);
        assert((c - c) * size == 0) by (nonlinear_arith);
    }
}

/// Finalizing a blob that is resolved already changes nothing.
pub proof fn law_finalize_resolved_again(
    s: StateView,
    subscriber: Address,
    epoch: int,
    hash: ids::Hash,
    id: SubId,
    status: BlobStatus,
)
    requires
        s.blobs.contains_key(hash),
        s.blobs[hash].status == BlobStatus::Resolved,
        status == BlobStatus::Resolved || status == BlobStatus::Failed,
    ensures
        transitions::finalize_blob(s, subscriber, epoch, hash, id, status) == Ok::<
            StateView,
            Cause,
        >(s),
{
}

/// Deleting from a blob that does not exist changes nothing and reports that
/// no blob is gone.
pub proof fn law_delete_missing(
    s: StateView,
    origin: Address,
    caller: Address,
    subscriber: Address,
    epoch: int,
    hash: ids::Hash,
    id: SubId,
)
    requires
        !s.blobs.contains_key(hash),
    ensures
        transitions::delete_blob(s, origin, caller, subscriber, epoch, hash, id) == Ok::<
            (StateView, bool),
            Cause,
        >((s, false)),
{
}

/// A value of zero under a new key does not change the largest positive value.
pub proof fn lemma_zero_is_no_coverage(m: Map<SubId, int>, id: SubId)
    requires
        !m.contains_key(id),
    ensures
        max_positive(m.insert(id, 0)) == max_positive(m),
{
    let m0 = m.insert(id, 0);
    assert forall|e: int| is_max_positive(m0, e) <==> is_max_positive(m, e) by {
        if is_max_positive(m0, e) {
            let k = choose|k: SubId| #[trigger] m0.contains_key(k) && m0[k] == e;
            assert(m0.contains_key(k) && m0[k] == e);
            assert(m.contains_key(k) && m[k] == e);
            assert forall|j: SubId| #[trigger] m.contains_key(j) implies m[j] <= e by {
                assert(m0.contains_key(j));
            }
        }
        if is_max_positive(m, e) {
            let k = choose|k: SubId| #[trigger] m.contains_key(k) && m[k] == e;
            assert(m.contains_key(k) && m[k] == e);
            assert(m0.contains_key(k) && m0[k] == e);
        }
    }
}

/// Adding a subscription and deleting it at the same epoch gives the account
/// back its free credit, next to what it bought, and its capacity, and gives
/// the subnet back its capacity. No credit stays committed for it: what is
/// committed and what is debited, of the account and of the subnet, change
/// only by the debit of the account up to the epoch and by the debits that
/// had been taken past the group's coverage, so that both are what they were
/// where the account was last debited at this epoch and not past the group's
/// coverage. This is stated of a subscription that is new to its subscriber,
/// on a blob of the size given that has a subscriber if it exists, and where
/// the subscriber's group, if there is one, covers the blob before the
/// subscription is added.
pub proof fn law_add_then_delete(
    s: StateView,
    origin: Address,
    caller: Address,
    subscriber: Address,
    epoch: int,
    hash: ids::Hash,
    metadata_hash: ids::Hash,
    id: SubId,
    size: int,
    ttl: Option<int>,
    source: PublicKey,
    tokens: int,
)
    requires
        s.blobs.dom().finite(),
        s.blobs.contains_key(hash) ==> s.blobs[hash].size == size
            && s.blobs[hash].subscribers.dom().finite() && s.blobs[hash].subscribers.dom().len()
            > 0,
        group_of(s, hash, subscriber) matches Some(g) ==> !g.contains_key(id) && group_expiry(g)
            is Some,
        transitions::plan_add(s, origin, caller, subscriber, epoch, hash, id, size, ttl, tokens)
            is Ok,
        transitions::plan_delete(
            transitions::add_blob(
                s,
                origin,
                caller,
                subscriber,
                epoch,
                hash,
                metadata_hash,
                id,
                size,
                ttl,
                source,
                tokens,
            )->Ok_0.0,
            origin,
            caller,
            subscriber,
            epoch,
            hash,
            id,
        ) == Ok::<bool, Cause>(true),
    ensures
        ({
            let p = transitions::plan_add(
                s,
                origin,
                caller,
                subscriber,
                epoch,
                hash,
                id,
                size,
                ttl,
                tokens,
            )->Ok_0;
            let s1 = transitions::add_blob(
                s,
                origin,
                caller,
                subscriber,
                epoch,
                hash,
                metadata_hash,
                id,
                size,
                ttl,
                source,
                tokens,
            )->Ok_0.0;
            let s2 = transitions::apply_delete(s1, subscriber, epoch, hash, id).0;
            let before = account_or_new(s, subscriber, epoch);
            let due = (epoch - before.last_debit_epoch) * before.capacity_used;
            &&& s2.accounts[subscriber].credit_free == before.credit_free + p.bought
            &&& s2.accounts[subscriber].credit_committed == before.credit_committed + p.refund
                - due
            &&& s2.accounts[subscriber].capacity_used == before.capacity_used
            &&& s2.capacity_used == s.capacity_used
            &&& s2.credit_sold == s.credit_sold + p.bought
            &&& s2.credit_committed == s.credit_committed + p.refund - due
            &&& s2.credit_debited == s.credit_debited + due - p.refund
            &&& before.last_debit_epoch == epoch && p.refund == 0 ==> {
                &&& s2.accounts[subscriber].credit_committed == before.credit_committed
                &&& s2.credit_committed == s.credit_committed
                &&& s2.credit_debited == s.credit_debited
            }
        }),
{
    let p = transitions::plan_add(
        s,
        origin,
        caller,
        subscriber,
        epoch,
        hash,
        id,
        size,
        ttl,
        tokens,
    )->Ok_0;
    let s1 = transitions::apply_add(
        s,
        p,
        origin,
        caller,
        subscriber,
        epoch,
        hash,
        metadata_hash,
        id,
        size,
        source,
    ).0;
    let t = accept_ttl(ttl)->Ok_0.0;
    let group = group_of(s, hash, subscriber);
    let g0: GroupView = match group {
        Some(g) => g,
        None => Map::empty(),
    };
    let blob1 = s1.blobs[hash];
    let g1 = blob1.subscribers[subscriber];
    let account1 = s1.accounts[subscriber];
    assert(blob1.size == size);
    assert(blob1.status != BlobStatus::Failed);
    assert(account1.last_debit_epoch == epoch);
    assert(g1 =~= g0.insert(id, g1[id]));
    assert(g1[id].expiry == epoch + t);
    // With the subscription the group covers what the plan foresaw; without
    // it, what it covered before.
    let with = expiries_of(g0).insert(id, epoch + t);
    assert(expiries_of(g1) =~= with);
    assert(expiries_of(g1).insert(id, 0) =~= expiries_of(g0).insert(id, 0));
    lemma_zero_is_no_coverage(expiries_of(g0), id);
    assert(new_group_expiry(g1, id, Some(0)) == group_expiry(g0));
    let covered = group_expiry(g1)->0;
    crate::bounds::lemma_max_positive(expiries_of(g1));
    assert(expiries_of(g1).contains_key(id));
    assert(covered >= epoch + t);
    assert(covered > epoch);
    assert(transitions::min_int(covered, epoch) == epoch);
    let before = account_or_new(s, subscriber, epoch);
    assert(before.last_debit_epoch == epoch ==> (epoch - before.last_debit_epoch)
        * before.capacity_used == 0) by (nonlinear_arith);
    match group {
        None => {
            assert(expiries_of(g0) =~= Map::<SubId, int>::empty());
            crate::blob::lemma_max_positive_none(expiries_of(g0));
            // Alone, the subscription is the whole coverage.
            assert(is_max_positive(with, epoch + t)) by {
                assert(with.contains_key(id) && with[id] == epoch + t);
            }
            crate::blob::lemma_max_positive_is(with, epoch + t);
            assert(covered == epoch + t);
            assert(p.required == t * size);
            assert(reclaimed(g1, id, epoch, size) == (covered - epoch) * size);
            assert(reclaimed(g1, id, epoch, size) == p.required);
            assert(p.refund == 0);
            if s.blobs.contains_key(hash) {
                let before = s.blobs[hash].subscribers.dom();
                assert(blob1.subscribers.dom() =~= before.insert(subscriber));
                assert(!before.contains(subscriber));
                assert(blob1.subscribers.dom().len() == before.len() + 1);
            } else {
                assert(blob1.subscribers.dom() =~= Set::<Address>::empty().insert(subscriber));
                assert(blob1.subscribers.dom().len() == 1);
            }
        },
        Some(g) => {
            let c = group_expiry(g)->0;
            assert(new_group_expiry(g, id, Some(epoch + t)) == Some(covered));
            assert(p.required == (covered - transitions::max_int(c, epoch)) * size);
            assert(reclaimed(g1, id, epoch, size) == (covered - transitions::max_int(c, epoch))
                * size);
            assert(reclaimed(g1, id, epoch, size) == p.required);
        },
    }
}

} // verus!
