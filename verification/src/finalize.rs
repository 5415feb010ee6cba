//! The ingestion of a blob: set pending, then finalized as resolved or failed.

use crate::account::find_approval_key;
use crate::account::spend;
use crate::blob::subscribers_view;
use crate::blob::BlobStatus;
use crate::blob::Subscription;
use crate::error::ActorError;
use crate::ids;
use crate::ids::PublicKey;
use crate::ids::SubscriptionId;
use crate::index::add_source;
use crate::index::clear_sources;
use crate::index::remove_source;
use crate::key::Key;
use crate::num::big_add;
use crate::num::big_from_u64;
use crate::num::big_sub;
use crate::num::big_zero;
use crate::num::span_times;
use crate::renew::subscription_of;
use crate::state::put_account;
use crate::state::put_blob;
use crate::state::take_account;
use crate::state::take_blob;
use crate::state::State;
use crate::text::finalize_as_non_final;
use crate::text::finalize_from_added;
use crate::text::naming;
use crate::text::no_group_expiry;
use crate::text::says;
use crate::text::not_subscribed;
use crate::text::subscription_not_found;
use crate::transitions;
use fvm_shared::address::Address;
use vstd::prelude::*;

verus! {

impl State {
    /// Records that blob `hash` is being fetched from `source` for subscription
    /// `id` of `subscriber`: the blob is pending, and no longer listed as added.
    /// Nothing happens where the blob is gone.
    pub fn set_blob_pending(
        &mut self,
        subscriber: Address,
        hash: ids::Hash,
        id: SubscriptionId,
        source: PublicKey,
    ) -> (r: Result<(), ActorError>)
        requires
            old(self).wf(),
        ensures
            final(self).wf(),
            r is Ok,
            final(self)@ == transitions::set_blob_pending(
                old(self)@,
                subscriber,
                hash,
                id.ident(),
                source,
            ),
            !old(self)@.blobs.contains_key(hash) ==> *final(self) == *old(self),
    {
        if !self.blobs.contains_key(&hash) {
            return Ok(());
        }
        let mut blob = take_blob(&mut self.blobs, &hash).unwrap();
        blob.status = BlobStatus::Pending;
        put_blob(&mut self.blobs, hash, blob);
        let ghost sid = id.ident();
        add_source(&mut self.pending, hash, (subscriber, id, source));
        clear_sources(&mut self.added, hash);
        proof {
            let model = transitions::set_blob_pending(old(self)@, subscriber, hash, sid, source);
            assert(self@.blobs =~= model.blobs);
            assert(self@ =~~= model);
        }
        Ok(())
    }

    /// Decides whether a blob may be finalized: `false` where there is nothing
    /// to do, because the blob is gone or resolved already. Changes nothing.
    pub fn plan_finalize(
        &self,
        subscriber: &Address,
        hash: &ids::Hash,
        id: &SubscriptionId,
        status: BlobStatus,
    ) -> (r: Result<bool, ActorError>)
        requires
            self.wf(),
        ensures
            match transitions::plan_finalize(self@, *subscriber, *hash, id.ident(), status) {
                Ok(b) => r == Ok::<bool, ActorError>(b),
                Err(c) => r matches Err(e) && e.cause == c && says(e, naming(*hash, id.ident())),
            },
    {
        match status {
            BlobStatus::Added | BlobStatus::Pending => {
                return Err(finalize_as_non_final(hash));
            },
            _ => {},
        }
        let blob = match self.blobs.get(hash) {
            Some(b) => b,
            None => {
                return Ok(false);
            },
        };
        match blob.status {
            BlobStatus::Added => {
                return Err(finalize_from_added(hash));
            },
            BlobStatus::Resolved => {
                return Ok(false);
            },
            _ => {},
        }
        let group = match blob.subscribers.get(subscriber) {
            Some(g) => g,
            None => {
                return Err(not_subscribed(subscriber, hash));
            },
        };
        if !group.subscriptions.contains_key(id) {
            return Err(subscription_not_found(id));
        }
        if let BlobStatus::Failed = status {
            let (covered, _) = group.max_expiries(id, Some(0));
            if covered.is_none() {
                return Err(no_group_expiry(subscriber, hash));
            }
        }
        Ok(true)
    }

    /// Finalizes the blob as resolved or as failed.
    pub fn apply_finalize(
        &mut self,
        subscriber: Address,
        current_epoch: i64,
        hash: ids::Hash,
        id: SubscriptionId,
        status: BlobStatus,
    )
        requires
            old(self).wf(),
            old(self)@.blobs.contains_key(hash),
            old(self)@.blobs[hash].subscribers.contains_key(subscriber),
            old(self)@.blobs[hash].subscribers[subscriber].contains_key(id.ident()),
            status == BlobStatus::Failed ==> crate::model::group_expiry(
                old(self)@.blobs[hash].subscribers[subscriber],
            ) is Some,
        ensures
            final(self).wf(),
            final(self)@ == transitions::apply_finalize(
                old(self)@,
                subscriber,
                current_epoch as int,
                hash,
                id.ident(),
                status,
            ),
    {
        let ghost sid = id.ident();
        let ghost model = transitions::apply_finalize(
            old(self)@,
            subscriber,
            current_epoch as int,
            hash,
            sid,
            status,
        );
        let mut blob = take_blob(&mut self.blobs, &hash).unwrap();
        let sub = subscription_of(&blob, &subscriber, &id);
        remove_source(&mut self.pending, hash, &(subscriber, id.dup(), sub.source));
        match status {
            BlobStatus::Failed => {
                assert(subscribers_view(blob.subscribers).dom() =~= blob.subscribers@.dom());
                let group = blob.subscribers.get(&subscriber).unwrap();
                let (covered, envelope) = group.max_expiries(&id, Some(0));
                let covered = covered.unwrap();
                let (first, next) = group.is_min_added(&id).unwrap();
                let size = big_from_u64(blob.size);
                let mut account = take_account(&mut self.accounts, &subscriber, current_epoch);
                let last = account.last_debit_epoch;
                let key = match sub.delegate {
                    Some((o, c)) => find_approval_key(&account.approvals, &o, &c),
                    None => None,
                };
                // Debits taken for a blob that never arrived go back.
                let refund = if last > sub.added && first {
                    let cutoff = match next {
                        Some(n) if n <= last => n,
                        _ => last,
                    };
                    span_times(cutoff, sub.added, &size)
                } else {
                    big_zero()
                };
                let reclaim = if last < covered {
                    let kept = match envelope {
                        Some(n) if n >= last => n,
                        _ => last,
                    };
                    span_times(covered, kept, &size)
                } else {
                    big_zero()
                };
                if envelope.is_none() {
                    self.capacity_used = big_sub(&self.capacity_used, &size);
                    account.capacity_used = big_sub(&account.capacity_used, &size);
                }
                self.credit_debited = big_sub(&self.credit_debited, &refund);
                self.credit_committed = big_sub(&self.credit_committed, &reclaim);
                account.credit_committed = big_sub(&account.credit_committed, &reclaim);
                account.credit_free = big_add(&big_add(&account.credit_free, &refund), &reclaim);
                if let Some(k) = key {
                    if let Some((o, _)) = sub.delegate {
                        let back = big_sub(&big_zero(), &reclaim);
                        spend(&mut account.approvals, &o, &k, &back);
                    }
                }
                blob.status = BlobStatus::Failed;
                blob.set_subscription(subscriber, id, Subscription { failed: true, ..sub });
                put_blob(&mut self.blobs, hash, blob);
                put_account(&mut self.accounts, subscriber, account);
                proof {
                    assert(account@ =~~= model.accounts[subscriber]);
                    assert(blob@ =~~= model.blobs[hash]);
                    assert(self@.accounts =~= model.accounts);
                    assert(self@.blobs =~= model.blobs);
                    assert(self@ =~~= model);
                }
            },
            _ => {
                blob.status = BlobStatus::Resolved;
                put_blob(&mut self.blobs, hash, blob);
                proof {
                    assert(self@.blobs =~= model.blobs);
                    assert(self@ =~~= model);
                }
            },
        }
    }

    /// Finalizes the ingestion of blob `hash` for subscription `id` of
    /// `subscriber`, as resolved or as failed. A blob that is gone, or that is
    /// resolved already, stays as it is.
    pub fn finalize_blob(
        &mut self,
        subscriber: Address,
        current_epoch: i64,
        hash: ids::Hash,
        id: SubscriptionId,
        status: BlobStatus,
    ) -> (r: Result<(), ActorError>)
        requires
            old(self).wf(),
        ensures
            final(self).wf(),
            match transitions::finalize_blob(
                old(self)@,
                subscriber,
                current_epoch as int,
                hash,
                id.ident(),
                status,
            ) {
                Ok(s) => r is Ok && final(self)@ == s,
                Err(c) => r matches Err(e) && e.cause == c && says(e, naming(hash, id.ident()))
                    && *final(self) == *old(self),
            },
            transitions::plan_finalize(old(self)@, subscriber, hash, id.ident(), status) == Ok::<
                bool,
                crate::error::Cause,
            >(false) ==> *final(self) == *old(self),
    {
        match self.plan_finalize(&subscriber, &hash, &id, status) {
            Err(e) => Err(e),
            Ok(false) => Ok(()),
            Ok(true) => {
                self.apply_finalize(subscriber, current_epoch, hash, id, status);
                Ok(())
            },
        }
    }
}

} // verus!
