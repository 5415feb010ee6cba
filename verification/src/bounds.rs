//! What never goes below zero, and that the capacity is never exceeded.

use crate::blob::BlobStatus;
use crate::ids;
use crate::ids::PublicKey;
use crate::model::added_of;
use crate::model::expiries_of;
use crate::model::group_expiry;
use crate::model::is_max_positive;
use crate::model::is_min;
use crate::model::is_min_added;
use crate::model::max_positive;
use crate::model::min_value;
use crate::model::new_group_expiry;
use crate::model::next_min_added;
use crate::model::GroupView;
use crate::model::StateView;
use crate::model::SubId;
use crate::transitions;
use crate::transitions::expire_all;
use crate::transitions::expire_one;
use crate::transitions::failed_refund;
use crate::transitions::reclaimed;
use crate::transitions::Expired;
use fvm_shared::address::Address;
use vstd::prelude::*;

verus! {

/// What the machine types of the state guarantee: the rate and the sizes of
/// the blobs are not negative.
pub open spec fn natural(s: StateView) -> bool {
    &&& s.credit_debit_rate >= 0
    &&& forall|h: ids::Hash| #[trigger] s.blobs.contains_key(h) ==> s.blobs[h].size >= 0
}

/// The capacity in use does not exceed the capacity of the subnet.
pub open spec fn within_capacity(s: StateView) -> bool {
    s.capacity_used <= s.capacity_total
}

/// No credit was unsold, and no account owes free credit.
pub open spec fn solvent(s: StateView) -> bool {
    &&& s.credit_sold >= 0
    &&& forall|a: Address| #[trigger] s.accounts.contains_key(a) ==> s.accounts[a].credit_free >= 0
}

/// All three. This says nothing of the credit committed, of the credit
/// debited and of the capacity in use: the operations on blobs can take each
/// of them below zero. An account that adds a second blob after its first has
/// ended, and before a tick, is debited for the epochs since the end of the
/// first as well, which is more than was committed. A blob that failed and
/// that its subscriber adds again is not counted again, and is released once
/// more when it is deleted; a capacity below zero then makes the debits
/// negative. Where these amounts stay at or above zero is stated with
/// `above_zero` and `capacity_above_zero`, in the laws that follow the one on
/// genesis.
pub open spec fn sound(s: StateView) -> bool {
    natural(s) && within_capacity(s) && solvent(s)
}

/// The capacity in use is not negative, in the subnet and in each account.
pub open spec fn capacity_above_zero(s: StateView) -> bool {
    &&& s.capacity_used >= 0
    &&& forall|a: Address| #[trigger]
        s.accounts.contains_key(a) ==> s.accounts[a].capacity_used >= 0
}

/// Nothing committed, nothing debited and no capacity in use is negative, in
/// the subnet and in each account.
pub open spec fn above_zero(s: StateView) -> bool {
    &&& capacity_above_zero(s)
    &&& s.credit_committed >= 0
    &&& s.credit_debited >= 0
    &&& forall|a: Address| #[trigger]
        s.accounts.contains_key(a) ==> s.accounts[a].credit_committed >= 0
}

/// The largest positive value of a map, where it has one, is one.
pub proof fn lemma_max_positive(m: Map<SubId, int>)
    ensures
        max_positive(m) matches Some(e) ==> is_max_positive(m, e),
{
}

/// The smallest value of a map, where it has one, is one.
pub proof fn lemma_min_value(m: Map<SubId, int>)
    ensures
        min_value(m) matches Some(e) ==> is_min(m, e),
{
}

/// A group covers no more epochs once one of its subscriptions counts as
/// ended.
pub proof fn lemma_envelope_shrinks(g: GroupView, id: SubId)
    requires
        group_expiry(g) is Some,
    ensures
        new_group_expiry(g, id, Some(0)) matches Some(n) ==> n <= group_expiry(g)->0,
{
    let all = expiries_of(g);
    let rest = all.insert(id, 0);
    lemma_max_positive(all);
    lemma_max_positive(rest);
    if let Some(n) = max_positive(rest) {
        let k = choose|k: SubId| #[trigger] rest.contains_key(k) && rest[k] == n;
        assert(rest.contains_key(k) && rest[k] == n);
        assert(k != id);
        assert(all.contains_key(k));
    }
}

/// What goes back from committed to free is never negative.
pub proof fn lemma_reclaimed_not_negative(g: GroupView, id: SubId, last: int, size: int)
    requires
        group_expiry(g) is Some,
        size >= 0,
    ensures
        reclaimed(g, id, last, size) >= 0,
{
    lemma_envelope_shrinks(g, id);
    let covered = group_expiry(g)->0;
    if last < covered {
        let kept = match new_group_expiry(g, id, Some(0)) {
            Some(n) => transitions::max_int(n, last),
            None => last,
        };
        assert((covered - kept) * size >= 0) by (nonlinear_arith)
            requires
                covered - kept >= 0,
                size >= 0,
        ;
    }
}

/// What goes back to free credit when a subscription fails is never negative.
pub proof fn lemma_failed_refund_not_negative(g: GroupView, id: SubId, last: int, size: int)
    requires
        g.contains_key(id),
        size >= 0,
    ensures
        failed_refund(g, id, last, size) >= 0,
{
    if last > g[id].added && is_min_added(g, id) {
        let others = added_of(g).remove(id);
        lemma_min_value(others);
        let cutoff = transitions::min_int(
            match next_min_added(g, id) {
                Some(n) => n,
                None => last,
            },
            last,
        );
        if let Some(n) = min_value(others) {
            let k = choose|k: SubId| #[trigger] others.contains_key(k) && others[k] == n;
            assert(others.contains_key(k) && others[k] == n);
            assert(g.contains_key(k) && k != id);
        }
        assert((cutoff - g[id].added) * size >= 0) by (nonlinear_arith)
            requires
                cutoff - g[id].added >= 0,
                size >= 0,
        ;
    }
}

/// At genesis nothing is below zero, and no capacity is used.
pub proof fn law_genesis_sound(capacity: int, rate: int)
    requires
        capacity >= 0,
        rate >= 0,
    ensures
        sound(transitions::genesis(capacity, rate)),
{
}

/// At genesis nothing is committed, debited or in use.
pub proof fn law_genesis_above_zero(capacity: int, rate: int)
    ensures
        above_zero(transitions::genesis(capacity, rate)),
{
}

/// What does not add, renew, delete or finalize a subscription keeps what is
/// committed, debited and in use at or above zero: buying, approving and
/// revoking credit, setting the status of an account, and setting a blob
/// pending.
pub proof fn law_credit_operations_above_zero(
    s: StateView,
    account: Address,
    other: Address,
    caller: Option<Address>,
    epoch: int,
    amount: int,
    limit: Option<int>,
    ttl: Option<int>,
    status: crate::account::TtlStatus,
    hash: ids::Hash,
    id: SubId,
    source: PublicKey,
)
    requires
        above_zero(s),
    ensures
        transitions::buy_credit(s, account, amount, epoch) matches Ok((s1, _)) ==> above_zero(s1),
        transitions::approve_credit(s, account, other, caller, epoch, limit, ttl) matches Ok(
            (s1, _),
        ) ==> above_zero(s1),
        transitions::revoke_credit(s, account, other, caller) matches Ok(s1) ==> above_zero(s1),
        above_zero(transitions::set_account_blob_ttl_status(s, account, status, epoch)),
        above_zero(transitions::set_blob_pending(s, account, hash, id, source)),
{
}

/// Adding a blob and renewing a subscription keep the capacity in use at or
/// above zero.
pub proof fn law_add_and_renew_capacity_above_zero(
    s: StateView,
    origin: Address,
    caller: Address,
    subscriber: Address,
    epoch: int,
    hash: ids::Hash,
    metadata_hash: ids::Hash,
    id: SubId,
    size: int,
    ttl: Option<int>,
    source: PublicKey,
    tokens: int,
)
    requires
        capacity_above_zero(s),
        size >= 0,
    ensures
        transitions::add_blob(
            s,
            origin,
            caller,
            subscriber,
            epoch,
            hash,
            metadata_hash,
            id,
            size,
            ttl,
            source,
            tokens,
        ) matches Ok((s1, _, _)) ==> capacity_above_zero(s1),
        transitions::renew_blob(s, subscriber, epoch, hash, id) matches Ok((s1, _))
            ==> capacity_above_zero(s1),
{
}

/// The debit of an account that uses no negative capacity and was last
/// debited at or before the epoch is not negative.
pub proof fn law_due_above_zero(s: StateView, a: Address, epoch: int)
    requires
        capacity_above_zero(s),
        s.accounts.contains_key(a),
        s.accounts[a].last_debit_epoch <= epoch,
    ensures
        transitions::due(s.accounts[a], epoch) >= 0,
{
    let account = s.accounts[a];
    assert((epoch - account.last_debit_epoch) * account.capacity_used >= 0) by (nonlinear_arith)
        requires
            epoch - account.last_debit_epoch >= 0,
            account.capacity_used >= 0,
    ;
}

/// Debiting every account at an epoch at or after its last debit, where no
/// capacity in use is negative, takes nothing back: what was debited does
/// not shrink, the capacity in use stays, and no account is debited a
/// negative amount.
pub proof fn law_debit_all_takes_nothing_back(s: StateView, epoch: int)
    requires
        s.accounts.dom().finite(),
        capacity_above_zero(s),
        forall|a: Address| #[trigger]
            s.accounts.contains_key(a) ==> s.accounts[a].last_debit_epoch <= epoch,
    ensures
        transitions::debit_all(s, epoch).credit_debited >= s.credit_debited,
        s.credit_debited >= 0 ==> transitions::debit_all(s, epoch).credit_debited >= 0,
        capacity_above_zero(transitions::debit_all(s, epoch)),
        forall|a: Address| #[trigger]
            s.accounts.contains_key(a) ==> transitions::due(s.accounts[a], epoch) >= 0,
{
    let dues = transitions::dues(s.accounts, epoch);
    assert forall|a: Address| #[trigger] s.accounts.contains_key(a) implies transitions::due(
        s.accounts[a],
        epoch,
    ) >= 0 by {
        law_due_above_zero(s, a, epoch);
    }
    assert(dues.dom() =~= s.accounts.dom());
    assert forall|a: Address| #[trigger] dues.contains_key(a) implies dues[a] >= 0 by {
        assert(s.accounts.contains_key(a));
    }
    crate::sum::lemma_sum_not_negative(dues);
}

/// Buying credit keeps the state sound.
pub proof fn law_buy_credit_sound(s: StateView, recipient: Address, amount: int, epoch: int)
    requires
        sound(s),
    ensures
        transitions::buy_credit(s, recipient, amount, epoch) matches Ok((s1, _)) ==> sound(s1),
{
    if amount >= 0 {
        assert(s.credit_debit_rate * amount >= 0) by (nonlinear_arith)
            requires
                s.credit_debit_rate >= 0,
                amount >= 0,
        ;
    }
}

/// Approving credit keeps the state sound.
pub proof fn law_approve_credit_sound(
    s: StateView,
    from: Address,
    to: Address,
    require_caller: Option<Address>,
    epoch: int,
    limit: Option<int>,
    ttl: Option<int>,
)
    requires
        sound(s),
    ensures
        transitions::approve_credit(s, from, to, require_caller, epoch, limit, ttl) matches Ok(
            (s1, _),
        ) ==> sound(s1),
{
}

/// Revoking credit keeps the state sound.
pub proof fn law_revoke_credit_sound(
    s: StateView,
    from: Address,
    to: Address,
    for_caller: Option<Address>,
)
    requires
        sound(s),
    ensures
        transitions::revoke_credit(s, from, to, for_caller) matches Ok(s1) ==> sound(s1),
{
}

/// Setting the time-to-live status of an account keeps the state sound.
pub proof fn law_set_ttl_status_sound(
    s: StateView,
    account: Address,
    status: crate::account::TtlStatus,
    epoch: int,
)
    requires
        sound(s),
    ensures
        sound(transitions::set_account_blob_ttl_status(s, account, status, epoch)),
{
}

/// Adding a blob keeps the state sound.
pub proof fn law_add_blob_sound(
    s: StateView,
    origin: Address,
    caller: Address,
    subscriber: Address,
    epoch: int,
    hash: ids::Hash,
    metadata_hash: ids::Hash,
    id: SubId,
    size: int,
    ttl: Option<int>,
    source: PublicKey,
    tokens: int,
)
    requires
        sound(s),
        size >= 0,
    ensures
        transitions::add_blob(
            s,
            origin,
            caller,
            subscriber,
            epoch,
            hash,
            metadata_hash,
            id,
            size,
            ttl,
            source,
            tokens,
        ) matches Ok((s1, _, _)) ==> sound(s1),
{
}

/// Renewing a subscription keeps the state sound.
pub proof fn law_renew_blob_sound(
    s: StateView,
    subscriber: Address,
    epoch: int,
    hash: ids::Hash,
    id: SubId,
)
    requires
        sound(s),
    ensures
        transitions::renew_blob(s, subscriber, epoch, hash, id) matches Ok((s1, _)) ==> sound(s1),
{
}

/// Deleting a subscription keeps the state sound.
pub proof fn law_delete_blob_sound(
    s: StateView,
    origin: Address,
    caller: Address,
    subscriber: Address,
    epoch: int,
    hash: ids::Hash,
    id: SubId,
)
    requires
        sound(s),
    ensures
        transitions::delete_blob(s, origin, caller, subscriber, epoch, hash, id) matches Ok(
            (s1, _),
        ) ==> sound(s1),
{
    if let Ok(true) = transitions::plan_delete(s, origin, caller, subscriber, epoch, hash, id) {
        let blob = s.blobs[hash];
        let g = blob.subscribers[subscriber];
        let s1 = transitions::apply_delete(s, subscriber, epoch, hash, id).0;
        let covered = group_expiry(g)->0;
        let account = crate::model::account_or_new(s, subscriber, epoch);
        let advance = account.last_debit_epoch < transitions::min_int(covered, epoch);
        let last = if advance {
            transitions::min_int(covered, epoch)
        } else {
            account.last_debit_epoch
        };
        lemma_reclaimed_not_negative(g, id, last, blob.size);
        assert forall|h: ids::Hash| #[trigger] s1.blobs.contains_key(h) implies s1.blobs[h].size
            >= 0 by {
            if h != hash {
                assert(s.blobs.contains_key(h));
            }
        }
    }
}

/// Setting a blob pending keeps the state sound.
pub proof fn law_set_blob_pending_sound(
    s: StateView,
    subscriber: Address,
    hash: ids::Hash,
    id: SubId,
    source: PublicKey,
)
    requires
        sound(s),
    ensures
        sound(transitions::set_blob_pending(s, subscriber, hash, id, source)),
{
    let s1 = transitions::set_blob_pending(s, subscriber, hash, id, source);
    assert forall|h: ids::Hash| #[trigger] s1.blobs.contains_key(h) implies s1.blobs[h].size
        >= 0 by {
        if h != hash {
            assert(s.blobs.contains_key(h));
        }
    }
}

/// Finalizing a blob keeps the state sound.
pub proof fn law_finalize_blob_sound(
    s: StateView,
    subscriber: Address,
    epoch: int,
    hash: ids::Hash,
    id: SubId,
    status: BlobStatus,
)
    requires
        sound(s),
    ensures
        transitions::finalize_blob(s, subscriber, epoch, hash, id, status) matches Ok(s1) ==> sound(
            s1,
        ),
{
    if let Ok(true) = transitions::plan_finalize(s, subscriber, hash, id, status) {
        let blob = s.blobs[hash];
        let g = blob.subscribers[subscriber];
        let s1 = transitions::apply_finalize(s, subscriber, epoch, hash, id, status);
        let account = crate::model::account_or_new(s, subscriber, epoch);
        if status == BlobStatus::Failed {
            lemma_reclaimed_not_negative(g, id, account.last_debit_epoch, blob.size);
            lemma_failed_refund_not_negative(g, id, account.last_debit_epoch, blob.size);
        }
        assert forall|h: ids::Hash| #[trigger] s1.blobs.contains_key(h) implies s1.blobs[h].size
            >= 0 by {
            if h != hash {
                assert(s.blobs.contains_key(h));
            }
        }
    }
}

/// Renewing or deleting one subscription that has ended keeps the state sound.
pub proof fn law_expire_one_sound(s: StateView, e: Expired, epoch: int)
    requires
        sound(s),
    ensures
        sound(expire_one(s, e, epoch).0),
{
    law_renew_blob_sound(s, e.0, epoch, e.1, e.2);
    law_delete_blob_sound(s, e.0, e.0, e.0, epoch, e.1, e.2);
}

/// Going through the subscriptions that have ended keeps the state sound.
pub proof fn law_expire_all_sound(s: StateView, entries: Seq<Expired>, epoch: int)
    requires
        sound(s),
    ensures
        sound(expire_all(s, entries, epoch).0),
    decreases entries.len(),
{
    if entries.len() > 0 {
        law_expire_all_sound(s, entries.drop_last(), epoch);
        law_expire_one_sound(expire_all(s, entries.drop_last(), epoch).0, entries.last(), epoch);
    }
}

/// The debit tick keeps the state sound.
pub proof fn law_debit_accounts_sound(s: StateView, entries: Seq<Expired>, epoch: int)
    requires
        sound(s),
    ensures
        sound(transitions::debit_accounts(s, entries, epoch).0),
{
    law_expire_all_sound(s, entries, epoch);
}

/// Overwriting a blob keeps the state sound.
pub proof fn law_overwrite_blob_sound(
    s: StateView,
    old_hash: ids::Hash,
    origin: Address,
    caller: Address,
    subscriber: Address,
    epoch: int,
    hash: ids::Hash,
    metadata_hash: ids::Hash,
    id: SubId,
    size: int,
    ttl: Option<int>,
    source: PublicKey,
    tokens: int,
)
    requires
        sound(s),
        size >= 0,
    ensures
        transitions::overwrite_blob(
            s,
            old_hash,
            origin,
            caller,
            subscriber,
            epoch,
            hash,
            metadata_hash,
            id,
            size,
            ttl,
            source,
            tokens,
        ) matches Ok((s2, _, _, _)) ==> sound(s2),
{
    if let Ok((s1, _)) = transitions::delete_blob(s, origin, caller, subscriber, epoch, old_hash, id) {
        law_delete_blob_sound(s, origin, caller, subscriber, epoch, old_hash, id);
        law_add_blob_sound(
            s1,
            origin,
            caller,
            subscriber,
            epoch,
            hash,
            metadata_hash,
            id,
            size,
            ttl,
            source,
            tokens,
        );
    }
}

} // verus!
