//! Adding a blob, or a subscription to one.

use crate::account::approval_at;
use crate::account::epoch_option_value;
use crate::account::find_approval_key;
use crate::account::spend;
use crate::blob::subscribers_view;
use crate::blob::Blob;
use crate::blob::BlobStatus;
use crate::blob::Subscription;
use crate::error::ActorError;
use crate::funds::accept_ttl;
use crate::funds::ensure_credit_or_buy;
use crate::funds::CreditDelegation;
use crate::ids;
use crate::ids::PublicKey;
use crate::ids::SubscriptionId;
use crate::index::add_source;
use crate::index::update_expiry_index;
use crate::key::Key;
use crate::model::AUTO_TTL;
use crate::num::big_add;
use crate::num::big_clone;
use crate::num::big_from_u64;
use crate::num::big_lt;
use crate::num::big_sub;
use crate::num::big_value;
use crate::num::big_zero;
use crate::num::span_times;
use crate::num::token_value;
use crate::state::put_account;
use crate::state::put_blob;
use crate::state::take_account;
use crate::state::take_blob;
use crate::state::State;
use crate::text::approval_not_found;
use crate::text::says;
use crate::text::insufficient_capacity;
use crate::text::no_group_expiry;
use crate::transitions;
use crate::transitions::AddPlan;
use crate::vecmap::VecMap;
use fvm_shared::address::Address;
use fvm_shared::bigint::BigInt;
use fvm_shared::econ::TokenAmount;
use vstd::prelude::*;

verus! {

/// What adding a blob will do, once it is known to be allowed.
pub struct AddSteps {
    /// The epoch at which the subscription will end.
    pub expiry: i64,
    /// Whether the subscription renews by itself.
    pub auto_renew: bool,
    /// The caller under which the approval that pays is found, if one pays.
    pub key: Option<Address>,
    /// Debits taken after the group had lapsed.
    pub refund: BigInt,
    /// The credit to commit.
    pub required: BigInt,
    /// The credit bought with the tokens sent.
    pub bought: BigInt,
    /// The tokens that go back to the caller.
    pub unspent: TokenAmount,
}

impl AddSteps {
    /// The plan, with its numbers as integers.
    pub open spec fn view(&self) -> AddPlan {
        AddPlan {
            expiry: self.expiry as int,
            auto_renew: self.auto_renew,
            key: self.key,
            refund: big_value(self.refund),
            required: big_value(self.required),
            bought: big_value(self.bought),
            unspent: token_value(self.unspent),
        }
    }
}

impl State {
    /// Decides whether a blob may be added, and works out what adding it does.
    /// Changes nothing.
    pub fn plan_add(
        &self,
        origin: &Address,
        caller: &Address,
        subscriber: &Address,
        current_epoch: i64,
        hash: &ids::Hash,
        id: &SubscriptionId,
        size: u64,
        ttl: Option<i64>,
        tokens_received: &TokenAmount,
    ) -> (r: Result<AddSteps, ActorError>)
        requires
            self.wf(),
            transitions::buys_inline(
                self@,
                *origin,
                *subscriber,
                current_epoch as int,
                *hash,
                id.ident(),
                size as int,
                epoch_option_value(ttl),
                token_value(*tokens_received),
            ) ==> self.credit_debit_rate > 0,
            match ttl {
                Some(t) => current_epoch + t <= i64::MAX,
                None => current_epoch + AUTO_TTL <= i64::MAX,
            },
        ensures
            match transitions::plan_add(
                self@,
                *origin,
                *caller,
                *subscriber,
                current_epoch as int,
                *hash,
                id.ident(),
                size as int,
                epoch_option_value(ttl),
                token_value(*tokens_received),
            ) {
                Ok(p) => r matches Ok(x) && x@ == p,
                Err(c) => r matches Err(e) && e.cause == c && says(
                    e,
                    transitions::add_named(
                        self@,
                        *origin,
                        *caller,
                        *subscriber,
                        current_epoch as int,
                        *hash,
                        id.ident(),
                        size as int,
                        epoch_option_value(ttl),
                        token_value(*tokens_received),
                    ),
                ),
            },
    {
        let (t, auto_renew) = match accept_ttl(ttl) {
            Ok(x) => x,
            Err(e) => {
                return Err(e);
            },
        };
        let account = self.accounts.get(subscriber);
        let delegated = !origin.same(subscriber);
        let key = match account {
            Some(a) if delegated => find_approval_key(&a.approvals, origin, caller),
            _ => None,
        };
        if delegated && key.is_none() {
            return Err(approval_not_found(subscriber, origin, caller));
        }
        let delegation = match (account, key) {
            (Some(a), Some(k)) => Some(
                CreditDelegation::new(*origin, *caller, approval_at(&a.approvals, origin, &k)),
            ),
            _ => None,
        };
        let expiry = current_epoch + t;
        let size_big = big_from_u64(size);
        let blob = self.blobs.get(hash);
        let group = match blob {
            Some(b) => b.subscribers.get(subscriber),
            None => None,
        };
        let (covered, envelope) = match group {
            Some(g) => g.max_expiries(id, Some(expiry)),
            None => (None, Some(expiry)),
        };
        let envelope = match envelope {
            Some(e) => e,
            None => {
                return Err(no_group_expiry(subscriber, hash));
            },
        };
        let last = match account {
            Some(a) => a.last_debit_epoch,
            None => current_epoch,
        };
        let refund = match covered {
            Some(c) if last > c => span_times(last, c, &size_big),
            _ => big_zero(),
        };
        let required = match group {
            Some(_) => {
                let from = match covered {
                    Some(c) if c >= current_epoch => c,
                    _ => current_epoch,
                };
                span_times(envelope, from, &size_big)
            },
            None => span_times(t, 0, &size_big),
        };
        let free = match account {
            Some(a) => big_clone(&a.credit_free),
            None => big_zero(),
        };
        let (bought, unspent) = match ensure_credit_or_buy(
            &free,
            &required,
            tokens_received,
            self.credit_debit_rate,
            subscriber,
            current_epoch,
            &delegation,
        ) {
            Ok(x) => x,
            Err(e) => {
                return Err(e);
            },
        };
        if blob.is_none() {
            let available = self.capacity_available();
            if big_lt(&available, &size_big) {
                return Err(insufficient_capacity(&available, &size_big));
            }
        }
        Ok(AddSteps { expiry, auto_renew, key, refund, required, bought, unspent })
    }

    /// Adds the blob as planned.
    pub fn apply_add(
        &mut self,
        steps: AddSteps,
        origin: Address,
        caller: Address,
        subscriber: Address,
        current_epoch: i64,
        hash: ids::Hash,
        metadata_hash: ids::Hash,
        id: SubscriptionId,
        size: u64,
        source: PublicKey,
    ) -> (r: (Subscription, TokenAmount))
        requires
            old(self).wf(),
            steps.key matches Some(k) ==> old(self)@.accounts.contains_key(subscriber) && old(
                self,
            )@.accounts[subscriber].approvals.contains_key(origin) && old(
                self,
            )@.accounts[subscriber].approvals[origin].contains_key(k),
        ensures
            final(self).wf(),
            (final(self)@, r.0@) == transitions::apply_add(
                old(self)@,
                steps@,
                origin,
                caller,
                subscriber,
                current_epoch as int,
                hash,
                metadata_hash,
                id.ident(),
                size as int,
                source,
            ),
            r.1 == steps.unspent,
    {
        let ghost sid = id.ident();
        let ghost model = transitions::apply_add(
            old(self)@,
            steps@,
            origin,
            caller,
            subscriber,
            current_epoch as int,
            hash,
            metadata_hash,
            sid,
            size as int,
            source,
        );
        let size_big = big_from_u64(size);
        // The account: debit what is due, then commit.
        let mut account = take_account(&mut self.accounts, &subscriber, current_epoch);
        let debit = span_times(current_epoch, account.last_debit_epoch, &account.capacity_used);
        let delta = big_add(&big_sub(&steps.refund, &debit), &steps.required);
        self.credit_sold = big_add(&self.credit_sold, &steps.bought);
        self.credit_committed = big_add(&self.credit_committed, &delta);
        self.credit_debited = big_sub(&big_add(&self.credit_debited, &debit), &steps.refund);
        account.credit_free = big_sub(&big_add(&account.credit_free, &steps.bought), &steps.required);
        account.credit_committed = big_add(&account.credit_committed, &delta);
        account.last_debit_epoch = current_epoch;
        if let Some(k) = steps.key {
            spend(&mut account.approvals, &origin, &k, &steps.required);
        }
        // The blob and the subscription.
        let found = take_blob(&mut self.blobs, &hash);
        let new_blob = found.is_none();
        let mut blob = match found {
            Some(b) => b,
            None => Blob {
                size,
                metadata_hash,
                subscribers: VecMap::new(),
                status: BlobStatus::Added,
            },
        };
        let ghost blob0 = blob;
        assert(subscribers_view(blob.subscribers).dom() =~= blob.subscribers@.dom());
        if new_blob {
            assert(blob0@.subscribers =~= Map::empty());
            self.capacity_used = big_add(&self.capacity_used, &size_big);
        }
        if !blob.subscribers.contains_key(&subscriber) {
            account.capacity_used = big_add(&account.capacity_used, &size_big);
        }
        match blob.status {
            BlobStatus::Resolved => {},
            _ => {
                blob.status = BlobStatus::Added;
                add_source(&mut self.added, hash, (subscriber, id.dup(), source));
            },
        }
        let delegate = match steps.key {
            Some(_) => Some((origin, caller)),
            None => None,
        };
        let fresh = Subscription {
            added: current_epoch,
            expiry: steps.expiry,
            auto_renew: steps.auto_renew,
            source,
            delegate,
            failed: false,
        };
        let ghost blob1 = blob;
        let was = blob.set_subscription(subscriber, id.dup(), fresh);
        let (sub, old_expiry) = match was {
            Some(o) => {
                // The subscription was there: it keeps the epoch it was added at.
                let kept = Subscription { added: o.added, ..fresh };
                blob.set_subscription(subscriber, id.dup(), kept);
                proof {
                    assert(blob@ =~~= transitions::with_subscription(
                        blob1@,
                        subscriber,
                        sid,
                        kept@,
                    ));
                }
                (kept, Some(o.expiry))
            },
            None => (fresh, None),
        };
        update_expiry_index(
            &mut self.expiries,
            subscriber,
            hash,
            &id,
            Some((steps.expiry, steps.auto_renew)),
            old_expiry,
        );
        put_blob(&mut self.blobs, hash, blob);
        put_account(&mut self.accounts, subscriber, account);
        proof {
            assert(sub@ =~= model.1);
            assert(account@ =~~= model.0.accounts[subscriber]);
            assert(blob@ =~~= model.0.blobs[hash]);
            assert(self@.accounts =~= model.0.accounts);
            assert(self@.blobs =~= model.0.blobs);
            assert(self@ =~~= model.0);
        }
        (sub, steps.unspent)
    }

    /// Adds a blob for `subscriber`, or a subscription to a blob that is stored
    /// already, or changes the subscription `id` that `subscriber` holds on it.
    /// The credit for the time-to-live is committed from the subscriber's
    /// account: `origin`, where it is another address, needs an approval to
    /// spend it. Returns the subscription and the tokens that were not spent.
    pub fn add_blob(
        &mut self,
        origin: Address,
        caller: Address,
        subscriber: Address,
        current_epoch: i64,
        hash: ids::Hash,
        metadata_hash: ids::Hash,
        id: SubscriptionId,
        size: u64,
        ttl: Option<i64>,
        source: PublicKey,
        tokens_received: TokenAmount,
    ) -> (r: Result<(Subscription, TokenAmount), ActorError>)
        requires
            old(self).wf(),
            transitions::buys_inline(
                old(self)@,
                origin,
                subscriber,
                current_epoch as int,
                hash,
                id.ident(),
                size as int,
                epoch_option_value(ttl),
                token_value(tokens_received),
            ) ==> old(self).credit_debit_rate > 0,
            match ttl {
                Some(t) => current_epoch + t <= i64::MAX,
                None => current_epoch + AUTO_TTL <= i64::MAX,
            },
        ensures
            final(self).wf(),
            match transitions::add_blob(
                old(self)@,
                origin,
                caller,
                subscriber,
                current_epoch as int,
                hash,
                metadata_hash,
                id.ident(),
                size as int,
                epoch_option_value(ttl),
                source,
                token_value(tokens_received),
            ) {
                Ok((s, sub, unspent)) => r matches Ok(got) && final(self)@ == s && got.0@ == sub
                    && token_value(got.1) == unspent,
                Err(c) => r matches Err(e) && e.cause == c && says(
                    e,
                    transitions::add_named(
                        old(self)@,
                        origin,
                        caller,
                        subscriber,
                        current_epoch as int,
                        hash,
                        id.ident(),
                        size as int,
                        epoch_option_value(ttl),
                        token_value(tokens_received),
                    ),
                ) && *final(self) == *old(self),
            },
    {
        let steps = match self.plan_add(
            &origin,
            &caller,
            &subscriber,
            current_epoch,
            &hash,
            &id,
            size,
            ttl,
            &tokens_received,
        ) {
            Ok(s) => s,
            Err(e) => {
                return Err(e);
            },
        };
        Ok(
            self.apply_add(
                steps,
                origin,
                caller,
                subscriber,
                current_epoch,
                hash,
                metadata_hash,
                id,
                size,
                source,
            ),
        )
    }
}

} // verus!
