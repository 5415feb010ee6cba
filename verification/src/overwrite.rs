//! Replacing one blob by another in one step.

use crate::account::epoch_option_value;
use crate::blob::Subscription;
use crate::error::ActorError;
use crate::ids;
use crate::ids::PublicKey;
use crate::ids::SubscriptionId;
use crate::index::expiries_view;
use crate::index::expiries_wf;
use crate::index::sources_view;
use crate::index::sources_wf;
use crate::index::Expiries;
use crate::index::Sources;
use crate::key::Key;
use crate::model::AUTO_TTL;
use crate::num::big_clone;
use crate::num::token_value;
use crate::replica::Replica;
use crate::text::says;
use crate::state::accounts_view;
use crate::state::accounts_wf;
use crate::state::blobs_view;
use crate::state::blobs_wf;
use crate::state::Accounts;
use crate::state::Blobs;
use crate::state::State;
use crate::transitions;
use fvm_shared::address::Address;
use fvm_shared::econ::TokenAmount;
use vstd::prelude::*;

verus! {

/// Well-formed accounts are intact, and look like their view.
pub proof fn lemma_accounts_look(m: Accounts)
    ensures
        accounts_wf(m) == m.intact(),
        m.look() == accounts_view(m),
{
    assert(m.look() =~= accounts_view(m));
}

/// Well-formed blobs are intact, and look like their view.
pub proof fn lemma_blobs_look(m: Blobs)
    ensures
        blobs_wf(m) == m.intact(),
        m.look() == blobs_view(m),
{
    assert(m.look() =~= blobs_view(m));
}

/// A well-formed expiry index is intact, and looks like its view.
pub proof fn lemma_expiries_look(x: Expiries)
    ensures
        expiries_wf(x) ==> x.intact(),
        x.intact() ==> expiries_wf(x),
        x.look() == expiries_view(x),
{
    assert forall|e: int| #[trigger] x@.contains_key(e) implies x@[e].look()
        == crate::index::by_subscriber_view(x@[e]) by {
        let m = x@[e];
        assert forall|a: Address| #[trigger] m@.contains_key(a) implies m@[a].look() == m@[a]@ by {
            assert(m@[a].look() =~= m@[a]@);
        }
        assert(m.look() =~= crate::index::by_subscriber_view(m));
    }
    assert(x.look() =~= expiries_view(x));
    if expiries_wf(x) {
        assert forall|e: int| #[trigger] x.map@.contains_key(e) implies x.map@[e].intact() by {
            assert(x@.contains_key(e));
        }
    }
    if x.intact() {
        assert forall|e: int| #[trigger] x@.contains_key(e) implies crate::index::by_subscriber_wf(
            x@[e],
        ) by {
            assert(x.map@.contains_key(e));
        }
    }
}

/// A well-formed ingestion index is intact; indexes that look the same have
/// the same view.
pub proof fn lemma_sources_look(x: Sources, y: Sources)
    ensures
        sources_wf(x) ==> x.intact(),
        x.intact() ==> sources_wf(x),
        x.look() == y.look() ==> sources_view(x) == sources_view(y),
{
    if sources_wf(x) {
        assert forall|h: ids::Hash| #[trigger] x.map@.contains_key(h) implies x.map@[h].intact() by {
            assert(x@.contains_key(h));
        }
    }
    if x.intact() {
        assert forall|h: ids::Hash| #[trigger] x@.contains_key(h) implies x@[h].wf() by {
            assert(x.map@.contains_key(h));
        }
    }
    if x.look() == y.look() {
        assert(x@.dom() =~= x.look().dom());
        assert(y@.dom() =~= y.look().dom());
        assert forall|h: ids::Hash| #[trigger] x@.contains_key(h) implies x@[h]@.dom() == y@[h]@.dom() by {
            assert(x.look()[h] == y.look()[h]);
            assert(x@[h]@.dom() =~= x.look()[h].dom());
            assert(y@[h]@.dom() =~= y.look()[h].dom());
        }
        assert(sources_view(x) =~= sources_view(y));
    }
}

impl State {
    /// A copy of the whole state.
    pub fn dup(&self) -> (r: State)
        requires
            self.wf(),
        ensures
            r.wf(),
            r@ == self@,
    {
        proof {
            lemma_accounts_look(self.accounts);
            lemma_blobs_look(self.blobs);
            lemma_expiries_look(self.expiries);
            lemma_sources_look(self.added, self.added);
            lemma_sources_look(self.pending, self.pending);
        }
        let r = State {
            capacity_total: big_clone(&self.capacity_total),
            capacity_used: big_clone(&self.capacity_used),
            credit_sold: big_clone(&self.credit_sold),
            credit_committed: big_clone(&self.credit_committed),
            credit_debited: big_clone(&self.credit_debited),
            credit_debit_rate: self.credit_debit_rate,
            accounts: self.accounts.replica(),
            blobs: self.blobs.replica(),
            expiries: self.expiries.replica(),
            added: self.added.replica(),
            pending: self.pending.replica(),
        };
        proof {
            lemma_accounts_look(r.accounts);
            lemma_blobs_look(r.blobs);
            lemma_expiries_look(r.expiries);
            lemma_sources_look(r.added, self.added);
            lemma_sources_look(r.pending, self.pending);
            assert(r@ =~= self@);
        }
        r
    }

    /// Deletes subscription `id` of `subscriber` on blob `old_hash` and adds
    /// blob `hash` under the same id, or does neither. Returns whether the old
    /// blob is gone, the new subscription, and the tokens that were not spent.
    pub fn overwrite_blob(
        &mut self,
        old_hash: ids::Hash,
        origin: Address,
        caller: Address,
        subscriber: Address,
        current_epoch: i64,
        hash: ids::Hash,
        metadata_hash: ids::Hash,
        id: SubscriptionId,
        size: u64,
        ttl: Option<i64>,
        source: PublicKey,
        tokens_received: TokenAmount,
    ) -> (r: Result<(bool, Subscription, TokenAmount), ActorError>)
        requires
            old(self).wf(),
            transitions::delete_blob(
                old(self)@,
                origin,
                caller,
                subscriber,
                current_epoch as int,
                old_hash,
                id.ident(),
            ) matches Ok((s1, _)) ==> (transitions::buys_inline(
                s1,
                origin,
                subscriber,
                current_epoch as int,
                hash,
                id.ident(),
                size as int,
                epoch_option_value(ttl),
                token_value(tokens_received),
            ) ==> old(self).credit_debit_rate > 0),
            match ttl {
                Some(t) => current_epoch + t <= i64::MAX,
                None => current_epoch + AUTO_TTL <= i64::MAX,
            },
        ensures
            final(self).wf(),
            match transitions::overwrite_blob(
                old(self)@,
                old_hash,
                origin,
                caller,
                subscriber,
                current_epoch as int,
                hash,
                metadata_hash,
                id.ident(),
                size as int,
                epoch_option_value(ttl),
                source,
                token_value(tokens_received),
            ) {
                Ok((s, gone, sub, unspent)) => r matches Ok(got) && final(self)@ == s && got.0
                    == gone && got.1@ == sub && token_value(got.2) == unspent,
                Err(c) => r matches Err(e) && e.cause == c && says(
                    e,
                    transitions::overwrite_named(
                        old(self)@,
                        old_hash,
                        origin,
                        caller,
                        subscriber,
                        current_epoch as int,
                        hash,
                        id.ident(),
                        size as int,
                        epoch_option_value(ttl),
                        token_value(tokens_received),
                    ),
                ) && final(self)@ == old(self)@,
            },
    {
        let saved = self.dup();
        let gone = match self.delete_blob(
            origin,
            caller,
            subscriber,
            current_epoch,
            old_hash,
            id.dup(),
        ) {
            Ok(g) => g,
            Err(e) => {
                return Err(e);
            },
        };
        match self.add_blob(
            origin,
            caller,
            subscriber,
            current_epoch,
            hash,
            metadata_hash,
            id,
            size,
            ttl,
            source,
            tokens_received,
        ) {
            Ok((sub, unspent)) => Ok((gone, sub, unspent)),
            Err(e) => {
                *self = saved;
                Err(e)
            },
        }
    }
}

} // verus!
