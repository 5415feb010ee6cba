//! The running totals agree with the accounts, whatever is done.

use crate::blob::BlobStatus;
use crate::ids;
use crate::ids::PublicKey;
use crate::model::account_or_new;
use crate::model::AccountView;
use crate::model::StateView;
use crate::model::SubId;
use crate::sum::lemma_sum_difference;
use crate::sum::lemma_sum_empty;
use crate::sum::lemma_sum_update;
use crate::sum::sum_of;
use crate::transitions;
use crate::transitions::debited;
use crate::transitions::dues;
use crate::transitions::expire_all;
use crate::transitions::expire_one;
use crate::transitions::Expired;
use fvm_shared::address::Address;
use vstd::prelude::*;

verus! {

/// The credit an account holds: free and committed.
pub open spec fn held(a: AccountView) -> int {
    a.credit_free + a.credit_committed
}

/// The credit each account holds.
pub open spec fn holdings(accounts: Map<Address, AccountView>) -> Map<Address, int> {
    accounts.map_values(|a: AccountView| held(a))
}

/// The credit each account has committed.
pub open spec fn commitments(accounts: Map<Address, AccountView>) -> Map<Address, int> {
    accounts.map_values(|a: AccountView| a.credit_committed)
}

/// Conservation: the credit sold and not yet debited is what the accounts
/// hold, free or committed.
pub open spec fn conserved(s: StateView) -> bool {
    &&& s.accounts.dom().finite()
    &&& s.credit_sold - s.credit_debited == sum_of(holdings(s.accounts))
}

/// The committed total is what the accounts have committed together.
pub open spec fn committed_agrees(s: StateView) -> bool {
    &&& s.accounts.dom().finite()
    &&& s.credit_committed == sum_of(commitments(s.accounts))
}

/// When one account changes, the sums over the accounts move by what it holds
/// and has committed more than before. An account that was not there counts
/// as holding nothing.
pub proof fn lemma_one_account(
    accounts: Map<Address, AccountView>,
    k: Address,
    a1: AccountView,
    s: StateView,
    epoch: int,
)
    requires
        accounts.dom().finite(),
        accounts == s.accounts,
    ensures
        accounts.insert(k, a1).dom().finite(),
        sum_of(holdings(accounts.insert(k, a1))) == sum_of(holdings(accounts)) + held(a1) - held(
            account_or_new(s, k, epoch),
        ),
        sum_of(commitments(accounts.insert(k, a1))) == sum_of(commitments(accounts))
            + a1.credit_committed - account_or_new(s, k, epoch).credit_committed,
{
    assert(holdings(accounts).dom() =~= accounts.dom());
    assert(commitments(accounts).dom() =~= accounts.dom());
    lemma_sum_update(holdings(accounts), k, held(a1));
    lemma_sum_update(commitments(accounts), k, a1.credit_committed);
    assert(holdings(accounts.insert(k, a1)) =~= holdings(accounts).insert(k, held(a1)));
    assert(commitments(accounts.insert(k, a1)) =~= commitments(accounts).insert(
        k,
        a1.credit_committed,
    ));
}

/// At genesis the totals agree with the accounts: there are none.
pub proof fn law_genesis_totals(capacity: int, rate: int)
    ensures
        conserved(transitions::genesis(capacity, rate)),
        committed_agrees(transitions::genesis(capacity, rate)),
{
    lemma_sum_empty::<Address>();
    let s = transitions::genesis(capacity, rate);
    assert(holdings(s.accounts) =~= Map::<Address, int>::empty());
    assert(commitments(s.accounts) =~= Map::<Address, int>::empty());
}

/// Buying credit keeps the totals in agreement with the accounts.
pub proof fn law_buy_credit_totals(s: StateView, recipient: Address, amount: int, epoch: int)
    requires
        s.accounts.dom().finite(),
    ensures
        transitions::buy_credit(s, recipient, amount, epoch) matches Ok((s1, _)) ==> (conserved(s)
            ==> conserved(s1)) && (committed_agrees(s) ==> committed_agrees(s1)),
{
    if let Ok((s1, a1)) = transitions::buy_credit(s, recipient, amount, epoch) {
        lemma_one_account(s.accounts, recipient, a1, s, epoch);
    }
}

/// Approving credit keeps the totals in agreement with the accounts.
pub proof fn law_approve_credit_totals(
    s: StateView,
    from: Address,
    to: Address,
    require_caller: Option<Address>,
    epoch: int,
    limit: Option<int>,
    ttl: Option<int>,
)
    requires
        s.accounts.dom().finite(),
    ensures
        transitions::approve_credit(s, from, to, require_caller, epoch, limit, ttl) matches Ok(
            (s1, _),
        ) ==> (conserved(s) ==> conserved(s1)) && (committed_agrees(s) ==> committed_agrees(s1)),
{
    if let Ok((s1, _)) = transitions::approve_credit(s, from, to, require_caller, epoch, limit, ttl) {
        lemma_one_account(s.accounts, from, s1.accounts[from], s, epoch);
    }
}

/// Revoking credit keeps the totals in agreement with the accounts.
pub proof fn law_revoke_credit_totals(
    s: StateView,
    from: Address,
    to: Address,
    for_caller: Option<Address>,
)
    requires
        s.accounts.dom().finite(),
    ensures
        transitions::revoke_credit(s, from, to, for_caller) matches Ok(s1) ==> (conserved(s)
            ==> conserved(s1)) && (committed_agrees(s) ==> committed_agrees(s1)),
{
    if let Ok(s1) = transitions::revoke_credit(s, from, to, for_caller) {
        lemma_one_account(s.accounts, from, s1.accounts[from], s, 0);
    }
}

/// Setting the time-to-live status of an account keeps the totals in
/// agreement with the accounts.
pub proof fn law_set_ttl_status_totals(
    s: StateView,
    account: Address,
    status: crate::account::TtlStatus,
    epoch: int,
)
    requires
        s.accounts.dom().finite(),
    ensures
        conserved(s) ==> conserved(
            transitions::set_account_blob_ttl_status(s, account, status, epoch),
        ),
        committed_agrees(s) ==> committed_agrees(
            transitions::set_account_blob_ttl_status(s, account, status, epoch),
        ),
{
    let s1 = transitions::set_account_blob_ttl_status(s, account, status, epoch);
    lemma_one_account(s.accounts, account, s1.accounts[account], s, epoch);
}

/// Adding a blob keeps the totals in agreement with the accounts.
pub proof fn law_add_blob_totals(
    s: StateView,
    origin: Address,
    caller: Address,
    subscriber: Address,
    epoch: int,
    hash: ids::Hash,
    metadata_hash: ids::Hash,
    id: SubId,
    size: int,
    ttl: Option<int>,
    source: PublicKey,
    tokens: int,
)
    requires
        s.accounts.dom().finite(),
    ensures
        transitions::add_blob(
            s,
            origin,
            caller,
            subscriber,
            epoch,
            hash,
            metadata_hash,
            id,
            size,
            ttl,
            source,
            tokens,
        ) matches Ok((s1, _, _)) ==> (conserved(s) ==> conserved(s1)) && (committed_agrees(s)
            ==> committed_agrees(s1)),
{
    if let Ok((s1, _, _)) = transitions::add_blob(
        s,
        origin,
        caller,
        subscriber,
        epoch,
        hash,
        metadata_hash,
        id,
        size,
        ttl,
        source,
        tokens,
    ) {
        lemma_one_account(s.accounts, subscriber, s1.accounts[subscriber], s, epoch);
    }
}

/// Renewing a subscription keeps the totals in agreement with the accounts.
pub proof fn law_renew_blob_totals(
    s: StateView,
    subscriber: Address,
    epoch: int,
    hash: ids::Hash,
    id: SubId,
)
    requires
        s.accounts.dom().finite(),
    ensures
        transitions::renew_blob(s, subscriber, epoch, hash, id) matches Ok((s1, _)) ==> (conserved(
            s,
        ) ==> conserved(s1)) && (committed_agrees(s) ==> committed_agrees(s1)),
{
    if let Ok((s1, _)) = transitions::renew_blob(s, subscriber, epoch, hash, id) {
        lemma_one_account(s.accounts, subscriber, s1.accounts[subscriber], s, epoch);
    }
}

/// Deleting a subscription keeps the totals in agreement with the accounts.
pub proof fn law_delete_blob_totals(
    s: StateView,
    origin: Address,
    caller: Address,
    subscriber: Address,
    epoch: int,
    hash: ids::Hash,
    id: SubId,
)
    requires
        s.accounts.dom().finite(),
    ensures
        transitions::delete_blob(s, origin, caller, subscriber, epoch, hash, id) matches Ok(
            (s1, _),
        ) ==> s1.accounts.dom().finite() && (conserved(s) ==> conserved(s1)) && (committed_agrees(s)
            ==> committed_agrees(s1)),
{
    if let Ok(true) = transitions::plan_delete(s, origin, caller, subscriber, epoch, hash, id) {
        let s1 = transitions::apply_delete(s, subscriber, epoch, hash, id).0;
        lemma_one_account(s.accounts, subscriber, s1.accounts[subscriber], s, epoch);
    }
}

/// Setting a blob pending keeps the totals in agreement with the accounts.
pub proof fn law_set_blob_pending_totals(
    s: StateView,
    subscriber: Address,
    hash: ids::Hash,
    id: SubId,
    source: PublicKey,
)
    ensures
        conserved(s) ==> conserved(transitions::set_blob_pending(s, subscriber, hash, id, source)),
        committed_agrees(s) ==> committed_agrees(
            transitions::set_blob_pending(s, subscriber, hash, id, source),
        ),
{
}

/// Finalizing a blob keeps the totals in agreement with the accounts.
pub proof fn law_finalize_blob_totals(
    s: StateView,
    subscriber: Address,
    epoch: int,
    hash: ids::Hash,
    id: SubId,
    status: BlobStatus,
)
    requires
        s.accounts.dom().finite(),
    ensures
        transitions::finalize_blob(s, subscriber, epoch, hash, id, status) matches Ok(s1) ==> (
        conserved(s) ==> conserved(s1)) && (committed_agrees(s) ==> committed_agrees(s1)),
{
    if let Ok(true) = transitions::plan_finalize(s, subscriber, hash, id, status) {
        let s1 = transitions::apply_finalize(s, subscriber, epoch, hash, id, status);
        if status == BlobStatus::Failed {
            lemma_one_account(s.accounts, subscriber, s1.accounts[subscriber], s, epoch);
        }
    }
}

/// Renewing or deleting one subscription that has ended keeps the totals in
/// agreement with the accounts.
pub proof fn law_expire_one_totals(s: StateView, e: Expired, epoch: int)
    requires
        s.accounts.dom().finite(),
    ensures
        expire_one(s, e, epoch).0.accounts.dom().finite(),
        conserved(s) ==> conserved(expire_one(s, e, epoch).0),
        committed_agrees(s) ==> committed_agrees(expire_one(s, e, epoch).0),
{
    law_renew_blob_totals(s, e.0, epoch, e.1, e.2);
    law_delete_blob_totals(s, e.0, e.0, e.0, epoch, e.1, e.2);
    if let Ok((s1, _)) = transitions::renew_blob(s, e.0, epoch, e.1, e.2) {
        assert(s1.accounts.dom() =~= s.accounts.dom().insert(e.0));
    }
}

/// Going through the subscriptions that have ended keeps the totals in
/// agreement with the accounts.
pub proof fn law_expire_all_totals(s: StateView, entries: Seq<Expired>, epoch: int)
    requires
        s.accounts.dom().finite(),
    ensures
        expire_all(s, entries, epoch).0.accounts.dom().finite(),
        conserved(s) ==> conserved(expire_all(s, entries, epoch).0),
        committed_agrees(s) ==> committed_agrees(expire_all(s, entries, epoch).0),
    decreases entries.len(),
{
    if entries.len() > 0 {
        law_expire_all_totals(s, entries.drop_last(), epoch);
        law_expire_one_totals(expire_all(s, entries.drop_last(), epoch).0, entries.last(), epoch);
    }
}

/// Debiting every account keeps the totals in agreement with the accounts.
pub proof fn law_debit_all_totals(s: StateView, epoch: int)
    requires
        s.accounts.dom().finite(),
    ensures
        conserved(s) ==> conserved(transitions::debit_all(s, epoch)),
        committed_agrees(s) ==> committed_agrees(transitions::debit_all(s, epoch)),
{
    let s1 = transitions::debit_all(s, epoch);
    let owed = dues(s.accounts, epoch);
    assert(s1.accounts.dom() =~= s.accounts.dom());
    assert(owed.dom() =~= s.accounts.dom());
    assert(holdings(s.accounts).dom() =~= s.accounts.dom());
    assert(holdings(s1.accounts).dom() =~= s.accounts.dom());
    assert(commitments(s.accounts).dom() =~= s.accounts.dom());
    assert(commitments(s1.accounts).dom() =~= s.accounts.dom());
    lemma_sum_difference(holdings(s.accounts), holdings(s1.accounts), owed);
    lemma_sum_difference(commitments(s.accounts), commitments(s1.accounts), owed);
}

/// The debit tick keeps the totals in agreement with the accounts.
pub proof fn law_debit_accounts_totals(s: StateView, entries: Seq<Expired>, epoch: int)
    requires
        s.accounts.dom().finite(),
    ensures
        conserved(s) ==> conserved(transitions::debit_accounts(s, entries, epoch).0),
        committed_agrees(s) ==> committed_agrees(transitions::debit_accounts(s, entries, epoch).0),
{
    law_expire_all_totals(s, entries, epoch);
    law_debit_all_totals(expire_all(s, entries, epoch).0, epoch);
}

/// Overwriting a blob keeps the totals in agreement with the accounts.
pub proof fn law_overwrite_blob_totals(
    s: StateView,
    old_hash: ids::Hash,
    origin: Address,
    caller: Address,
    subscriber: Address,
    epoch: int,
    hash: ids::Hash,
    metadata_hash: ids::Hash,
    id: SubId,
    size: int,
    ttl: Option<int>,
    source: PublicKey,
    tokens: int,
)
    requires
        s.accounts.dom().finite(),
    ensures
        transitions::overwrite_blob(
            s,
            old_hash,
            origin,
            caller,
            subscriber,
            epoch,
            hash,
            metadata_hash,
            id,
            size,
            ttl,
            source,
            tokens,
        ) matches Ok((s2, _, _, _)) ==> (conserved(s) ==> conserved(s2)) && (committed_agrees(
            s,
        ) ==> committed_agrees(s2)),
{
    if let Ok((s1, _)) = transitions::delete_blob(s, origin, caller, subscriber, epoch, old_hash, id) {
        law_delete_blob_totals(s, origin, caller, subscriber, epoch, old_hash, id);
        law_add_blob_totals(
            s1,
            origin,
            caller,
            subscriber,
            epoch,
            hash,
            metadata_hash,
            id,
            size,
            ttl,
            source,
            tokens,
        );
    }
}

} // verus!
