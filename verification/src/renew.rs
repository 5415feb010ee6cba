//! Renewing a subscription.

use crate::account::approval_at;
use crate::account::find_approval_key;
use crate::account::spend;
use crate::account::Account;
use crate::blob::subscribers_view;
use crate::blob::Blob;
use crate::blob::BlobStatus;
use crate::blob::Subscription;
use crate::error::ActorError;
use crate::funds::ensure_credit;
use crate::funds::CreditDelegation;
use crate::ids;
use crate::ids::SubscriptionId;
use crate::index::update_expiry_index;
use crate::key::Key;
use crate::model::AUTO_TTL;
use crate::num::big_add;
use crate::num::big_clone;
use crate::num::big_from_u64;
use crate::num::big_sub;
use crate::num::big_value;
use crate::num::big_zero;
use crate::num::span_times;
use crate::state::put_account;
use crate::state::put_blob;
use crate::state::take_account;
use crate::state::take_blob;
use crate::state::State;
use crate::text::approval_not_found;
use crate::text::blob_not_found;
use crate::text::no_group_expiry;
use crate::text::says;
use crate::text::not_subscribed;
use crate::text::renew_failed_blob;
use crate::text::subscription_not_found;
use crate::transitions;
use crate::transitions::RenewPlan;
use fvm_shared::address::Address;
use fvm_shared::bigint::BigInt;
use vstd::prelude::*;

verus! {

/// What renewing a subscription will do, once it is known to be allowed.
pub struct RenewSteps {
    /// The epoch at which the subscription will end.
    pub expiry: i64,
    /// The caller under which the approval that pays is found, if one pays.
    pub key: Option<Address>,
    /// Debits taken after the group had lapsed.
    pub refund: BigInt,
    /// The credit to commit.
    pub required: BigInt,
}

impl RenewSteps {
    /// The plan, with its numbers as integers.
    pub open spec fn view(&self) -> RenewPlan {
        RenewPlan {
            expiry: self.expiry as int,
            key: self.key,
            refund: big_value(self.refund),
            required: big_value(self.required),
        }
    }
}

/// The subscription `id` that `subscriber` holds on the blob.
pub fn subscription_of(blob: &Blob, subscriber: &Address, id: &SubscriptionId) -> (r: Subscription)
    requires
        blob.wf(),
        blob@.subscribers.contains_key(*subscriber),
        blob@.subscribers[*subscriber].contains_key(id.ident()),
    ensures
        r@ == blob@.subscribers[*subscriber][id.ident()],
{
    assert(subscribers_view(blob.subscribers).dom() =~= blob.subscribers@.dom());
    let group = blob.subscribers.get(subscriber).unwrap();
    assert(group@.dom() =~= group.subscriptions@.dom());
    *group.subscriptions.get(id).unwrap()
}

impl State {
    /// Decides whether a subscription may be renewed, and works out what
    /// renewing it does. Changes nothing.
    pub fn plan_renew(
        &self,
        subscriber: &Address,
        current_epoch: i64,
        hash: &ids::Hash,
        id: &SubscriptionId,
    ) -> (r: Result<RenewSteps, ActorError>)
        requires
            self.wf(),
            current_epoch + AUTO_TTL <= i64::MAX,
        ensures
            match transitions::plan_renew(
                self@,
                *subscriber,
                current_epoch as int,
                *hash,
                id.ident(),
            ) {
                Ok(p) => r matches Ok(x) && x@ == p,
                Err(c) => r matches Err(e) && e.cause == c && says(
                    e,
                    transitions::renew_named(self@, *subscriber, current_epoch as int, *hash, id.ident()),
                ),
            },
    {
        let blob = match self.blobs.get(hash) {
            Some(b) => b,
            None => {
                return Err(blob_not_found(hash));
            },
        };
        if let BlobStatus::Failed = blob.status {
            return Err(renew_failed_blob(hash));
        }
        let group = match blob.subscribers.get(subscriber) {
            Some(g) => g,
            None => {
                return Err(not_subscribed(subscriber, hash));
            },
        };
        let expiry = current_epoch + AUTO_TTL;
        let (covered, envelope) = group.max_expiries(id, Some(expiry));
        let sub = match group.subscriptions.get(id) {
            Some(s) => *s,
            None => {
                return Err(subscription_not_found(id));
            },
        };
        let account = self.accounts.get(subscriber);
        let key = match (sub.delegate, account) {
            (Some((o, c)), Some(a)) => find_approval_key(&a.approvals, &o, &c),
            _ => None,
        };
        if let Some((o, c)) = sub.delegate {
            if key.is_none() {
                return Err(approval_not_found(subscriber, &o, &c));
            }
        }
        let (covered, envelope) = match (covered, envelope) {
            (Some(c), Some(e)) => (c, e),
            _ => {
                return Err(no_group_expiry(subscriber, hash));
            },
        };
        let delegation = match (sub.delegate, account, key) {
            (Some((o, c)), Some(a), Some(k)) => Some(
                CreditDelegation::new(o, c, approval_at(&a.approvals, &o, &k)),
            ),
            _ => None,
        };
        let last = match account {
            Some(a) => a.last_debit_epoch,
            None => current_epoch,
        };
        let size = big_from_u64(blob.size);
        let refund = if last > covered {
            span_times(last, covered, &size)
        } else {
            big_zero()
        };
        let from = if covered >= last {
            covered
        } else {
            last
        };
        let required = span_times(envelope, from, &size);
        let free = match account {
            Some(a) => big_clone(&a.credit_free),
            None => big_zero(),
        };
        match ensure_credit(subscriber, current_epoch, &free, &required, &delegation) {
            Err(e) => Err(e),
            Ok(_) => Ok(RenewSteps { expiry, key, refund, required }),
        }
    }

    /// Renews the subscription as planned, and returns the subscriber's account
    /// as it then is.
    pub fn apply_renew(
        &mut self,
        steps: RenewSteps,
        subscriber: Address,
        current_epoch: i64,
        hash: ids::Hash,
        id: SubscriptionId,
    ) -> (r: Account)
        requires
            old(self).wf(),
            old(self)@.blobs.contains_key(hash),
            old(self)@.blobs[hash].subscribers.contains_key(subscriber),
            old(self)@.blobs[hash].subscribers[subscriber].contains_key(id.ident()),
            steps.key matches Some(k) ==> {
                let sub = old(self)@.blobs[hash].subscribers[subscriber][id.ident()];
                &&& sub.delegate is Some
                &&& old(self)@.accounts.contains_key(subscriber)
                &&& old(self)@.accounts[subscriber].approvals.contains_key(
                    transitions::delegate_origin(sub, subscriber),
                )
                &&& old(self)@.accounts[subscriber].approvals[transitions::delegate_origin(
                    sub,
                    subscriber,
                )].contains_key(k)
            },
        ensures
            final(self).wf(),
            r.wf(),
            (final(self)@, r@) == transitions::apply_renew(
                old(self)@,
                steps@,
                subscriber,
                current_epoch as int,
                hash,
                id.ident(),
            ),
    {
        let ghost sid = id.ident();
        let ghost model = transitions::apply_renew(
            old(self)@,
            steps@,
            subscriber,
            current_epoch as int,
            hash,
            sid,
        );
        let mut blob = take_blob(&mut self.blobs, &hash).unwrap();
        let sub = subscription_of(&blob, &subscriber, &id);
        let mut account = take_account(&mut self.accounts, &subscriber, current_epoch);
        let delta = big_add(&steps.refund, &steps.required);
        self.credit_committed = big_add(&self.credit_committed, &delta);
        self.credit_debited = big_sub(&self.credit_debited, &steps.refund);
        account.credit_free = big_sub(&account.credit_free, &steps.required);
        account.credit_committed = big_add(&account.credit_committed, &delta);
        if let Some(k) = steps.key {
            if let Some((o, _)) = sub.delegate {
                spend(&mut account.approvals, &o, &k, &steps.required);
            }
        }
        let renewed = Subscription { expiry: steps.expiry, ..sub };
        blob.set_subscription(subscriber, id.dup(), renewed);
        update_expiry_index(
            &mut self.expiries,
            subscriber,
            hash,
            &id,
            Some((steps.expiry, sub.auto_renew)),
            Some(sub.expiry),
        );
        let snapshot = account.dup();
        put_blob(&mut self.blobs, hash, blob);
        put_account(&mut self.accounts, subscriber, account);
        proof {
            assert(snapshot@ =~~= model.1);
            assert(blob@ =~~= model.0.blobs[hash]);
            assert(self@.accounts =~= model.0.accounts);
            assert(self@.blobs =~= model.0.blobs);
            assert(self@ =~~= model.0);
        }
        snapshot
    }

    /// Renews subscription `id` of `subscriber` on blob `hash` for another
    /// `AUTO_TTL` epochs from the current one, and returns the subscriber's
    /// account as it then is. The debit tick does this for subscriptions that
    /// renew by themselves.
    pub fn renew_blob(
        &mut self,
        subscriber: Address,
        current_epoch: i64,
        hash: ids::Hash,
        id: SubscriptionId,
    ) -> (r: Result<Account, ActorError>)
        requires
            old(self).wf(),
            current_epoch + AUTO_TTL <= i64::MAX,
        ensures
            final(self).wf(),
            match transitions::renew_blob(
                old(self)@,
                subscriber,
                current_epoch as int,
                hash,
                id.ident(),
            ) {
                Ok((s, a)) => r matches Ok(account) && final(self)@ == s && account@ == a
                    && account.wf(),
                Err(c) => r matches Err(e) && e.cause == c && says(
                    e,
                    transitions::renew_named(
                        old(self)@,
                        subscriber,
                        current_epoch as int,
                        hash,
                        id.ident(),
                    ),
                ) && *final(self) == *old(self),
            },
    {
        let steps = match self.plan_renew(&subscriber, current_epoch, &hash, &id) {
            Ok(s) => s,
            Err(e) => {
                return Err(e);
            },
        };
        Ok(self.apply_renew(steps, subscriber, current_epoch, hash, id))
    }
}

} // verus!
