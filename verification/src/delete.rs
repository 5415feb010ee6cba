//! Deleting a subscription, and with the last one its blob.

use crate::account::approval_at;
use crate::account::find_approval_key;
use crate::account::spend;
use crate::blob::subscribers_view;
use crate::blob::BlobStatus;
use crate::error::ActorError;
use crate::ids;
use crate::ids::ExpiryKey;
use crate::ids::SubscriptionId;
use crate::index::remove_expiry;
use crate::index::remove_source;
use crate::key::Key;
use crate::num::big_add;
use crate::num::big_from_u64;
use crate::num::big_sub;
use crate::num::big_zero;
use crate::num::span_times;
use crate::renew::subscription_of;
use crate::state::put_account;
use crate::state::put_blob;
use crate::state::take_account;
use crate::state::take_blob;
use crate::state::State;
use crate::text::approval_expired;
use crate::text::approval_not_found;
use crate::text::naming;
use crate::text::no_group_expiry;
use crate::text::says;
use crate::text::not_delegate;
use crate::text::not_subscribed;
use crate::text::not_subscriber;
use crate::text::subscription_not_found;
use crate::transitions;
use fvm_shared::address::Address;
use vstd::prelude::*;

verus! {

impl State {
    /// Decides whether a subscription may be deleted: `false` where the blob
    /// is gone already, so that there is nothing to do. Changes nothing.
    pub fn plan_delete(
        &self,
        origin: &Address,
        caller: &Address,
        subscriber: &Address,
        current_epoch: i64,
        hash: &ids::Hash,
        id: &SubscriptionId,
    ) -> (r: Result<bool, ActorError>)
        requires
            self.wf(),
        ensures
            match transitions::plan_delete(
                self@,
                *origin,
                *caller,
                *subscriber,
                current_epoch as int,
                *hash,
                id.ident(),
            ) {
                Ok(b) => r == Ok::<bool, ActorError>(b),
                Err(c) => r matches Err(e) && e.cause == c && says(e, naming(*hash, id.ident())),
            },
    {
        let blob = match self.blobs.get(hash) {
            Some(b) => b,
            None => {
                return Ok(false);
            },
        };
        let group = match blob.subscribers.get(subscriber) {
            Some(g) => g,
            None => {
                return Err(not_subscribed(subscriber, hash));
            },
        };
        let sub = match group.subscriptions.get(id) {
            Some(s) => *s,
            None => {
                return Err(subscription_not_found(id));
            },
        };
        let account = self.accounts.get(subscriber);
        let key = match (sub.delegate, account) {
            (Some((o, c)), Some(a)) => find_approval_key(&a.approvals, &o, &c),
            _ => None,
        };
        let is_subscriber = origin.same(subscriber);
        match (sub.delegate, account, key) {
            (Some((o, c)), Some(a), Some(k)) => {
                if !is_subscriber && !(origin.same(&o) && caller.same(&c)) {
                    return Err(not_delegate(origin, caller, &(o, c), subscriber, hash));
                }
                if let Some(expiry) = approval_at(&a.approvals, &o, &k).expiry {
                    if expiry <= current_epoch {
                        return Err(approval_expired(subscriber, &o, &c));
                    }
                }
            },
            (Some((o, c)), _, _) => {
                if !is_subscriber {
                    return Err(approval_not_found(subscriber, &o, &c));
                }
            },
            _ => {
                if !is_subscriber {
                    return Err(not_subscriber(origin, subscriber, hash));
                }
            },
        }
        let (covered, _) = group.max_expiries(id, Some(0));
        if covered.is_none() {
            return Err(no_group_expiry(subscriber, hash));
        }
        Ok(true)
    }

    /// Deletes the subscription, and says whether the blob itself is gone.
    pub fn apply_delete(
        &mut self,
        subscriber: Address,
        current_epoch: i64,
        hash: ids::Hash,
        id: SubscriptionId,
    ) -> (r: bool)
        requires
            old(self).wf(),
            old(self)@.blobs.contains_key(hash),
            old(self)@.blobs[hash].subscribers.contains_key(subscriber),
            old(self)@.blobs[hash].subscribers[subscriber].contains_key(id.ident()),
            crate::model::group_expiry(old(self)@.blobs[hash].subscribers[subscriber]) is Some,
        ensures
            final(self).wf(),
            (final(self)@, r) == transitions::apply_delete(
                old(self)@,
                subscriber,
                current_epoch as int,
                hash,
                id.ident(),
            ),
    {
        let ghost sid = id.ident();
        let ghost model = transitions::apply_delete(
            old(self)@,
            subscriber,
            current_epoch as int,
            hash,
            sid,
        );
        let mut blob = take_blob(&mut self.blobs, &hash).unwrap();
        let ghost blob0 = blob;
        let sub = subscription_of(&blob, &subscriber, &id);
        assert(subscribers_view(blob.subscribers).dom() =~= blob.subscribers@.dom());
        let group = blob.subscribers.get(&subscriber).unwrap();
        let (covered, envelope) = group.max_expiries(&id, Some(0));
        let covered = covered.unwrap();
        let only_subscriber = blob.subscribers.len() == 1;
        let size = big_from_u64(blob.size);
        let mut account = take_account(&mut self.accounts, &subscriber, current_epoch);
        let ghost account0 = account;
        let key = match sub.delegate {
            Some((o, c)) => find_approval_key(&account.approvals, &o, &c),
            None => None,
        };
        // Debit up to the end of the coverage, or give back what went past it.
        let debit_epoch = if covered <= current_epoch {
            covered
        } else {
            current_epoch
        };
        let debit = if account.last_debit_epoch < debit_epoch {
            let d = span_times(debit_epoch, account.last_debit_epoch, &account.capacity_used);
            account.last_debit_epoch = debit_epoch;
            d
        } else if account.last_debit_epoch > covered {
            span_times(covered, account.last_debit_epoch, &size)
        } else {
            big_zero()
        };
        // Release what the subscription held, unless that happened when it failed.
        let live = match blob.status {
            BlobStatus::Failed => false,
            _ => true,
        };
        let reclaim = if live && account.last_debit_epoch < covered {
            let kept = match envelope {
                Some(n) if n >= account.last_debit_epoch => n,
                _ => account.last_debit_epoch,
            };
            span_times(covered, kept, &size)
        } else {
            big_zero()
        };
        if live && envelope.is_none() {
            account.capacity_used = big_sub(&account.capacity_used, &size);
            if only_subscriber {
                self.capacity_used = big_sub(&self.capacity_used, &size);
            }
        }
        let moved = big_add(&debit, &reclaim);
        self.credit_debited = big_add(&self.credit_debited, &debit);
        self.credit_committed = big_sub(&self.credit_committed, &moved);
        account.credit_committed = big_sub(&account.credit_committed, &moved);
        account.credit_free = big_add(&account.credit_free, &reclaim);
        if let Some(k) = key {
            if let Some((o, _)) = sub.delegate {
                let back = big_sub(&big_zero(), &reclaim);
                spend(&mut account.approvals, &o, &k, &back);
            }
        }
        // The subscription leaves the indexes and the blob.
        let index_key = ExpiryKey::new(hash, &id);
        remove_expiry(&mut self.expiries, sub.expiry, subscriber, &index_key);
        remove_source(&mut self.added, hash, &(subscriber, id.dup(), sub.source));
        remove_source(&mut self.pending, hash, &(subscriber, id.dup(), sub.source));
        blob.drop_subscription(&subscriber, &id);
        let gone = blob.has_no_subscriber();
        if !gone {
            put_blob(&mut self.blobs, hash, blob);
        }
        put_account(&mut self.accounts, subscriber, account);
        proof {
            let last = account0@.last_debit_epoch;
            let bytes = blob0@.size;
            assert((covered - last) * bytes == -((last - covered) * bytes)) by (nonlinear_arith);
            assert(account@ =~~= model.0.accounts[subscriber]);
            assert(self@.accounts =~= model.0.accounts);
            assert(self@.blobs =~= model.0.blobs);
            assert(self@ =~~= model.0);
        }
        gone
    }

    /// Deletes subscription `id` of `subscriber` on blob `hash`. The subscriber
    /// may do so, and the delegate that paid for the subscription. Returns
    /// whether the blob itself is gone, so that its bytes can be deleted;
    /// deleting from a blob that does not exist returns `false`.
    pub fn delete_blob(
        &mut self,
        origin: Address,
        caller: Address,
        subscriber: Address,
        current_epoch: i64,
        hash: ids::Hash,
        id: SubscriptionId,
    ) -> (r: Result<bool, ActorError>)
        requires
            old(self).wf(),
        ensures
            final(self).wf(),
            match transitions::delete_blob(
                old(self)@,
                origin,
                caller,
                subscriber,
                current_epoch as int,
                hash,
                id.ident(),
            ) {
                Ok((s, gone)) => r == Ok::<bool, ActorError>(gone) && final(self)@ == s,
                Err(c) => r matches Err(e) && e.cause == c && says(e, naming(hash, id.ident()))
                    && *final(self) == *old(self),
            },
    {
        match self.plan_delete(&origin, &caller, &subscriber, current_epoch, &hash, &id) {
            Err(e) => Err(e),
            Ok(false) => Ok(false),
            Ok(true) => Ok(self.apply_delete(subscriber, current_epoch, hash, id)),
        }
    }
}

} // verus!
