//! The ledger as mathematics: what the state holds, seen as integers, maps
//! and sets, and the quantities that every operation computes from it.

use crate::account::TtlStatus;
use crate::blob::BlobStatus;
use crate::error::Cause;
use crate::ids;
use crate::ids::PublicKey;
use crate::ids::SourceId;
use fvm_shared::address::Address;
use vstd::prelude::*;

verus! {

/// The least number of epochs a blob is stored, or an approval lasts.
pub const MIN_TTL: i64 = 3600;

/// The number of epochs added when no time-to-live is given, and on renewal.
pub const AUTO_TTL: i64 = 3600;

/// The identity of a subscription id: `None` is the default subscription.
pub type SubId = Option<Seq<u8>>;

/// The identity of an entry of the expiry index below one epoch and subscriber.
pub type ExpiryId = (ids::Hash, SubId);

/// An approval: how much may be spent through it, until when, and how much was.
#[verifier::ext_equal]
pub struct ApprovalView {
    pub limit: Option<int>,
    pub expiry: Option<int>,
    pub used: int,
}

/// The approvals an account has given: by receiver, then by caller.
pub type ApprovalsView = Map<Address, Map<Address, ApprovalView>>;

/// An account.
#[verifier::ext_equal]
pub struct AccountView {
    pub capacity_used: int,
    pub credit_free: int,
    pub credit_committed: int,
    pub last_debit_epoch: int,
    pub ttl_status: TtlStatus,
    pub approvals: ApprovalsView,
}

/// A subscription.
#[verifier::ext_equal]
pub struct SubscriptionView {
    pub added: int,
    pub expiry: int,
    pub auto_renew: bool,
    pub source: PublicKey,
    pub delegate: Option<(Address, Address)>,
    pub failed: bool,
}

/// The subscriptions one subscriber holds on one blob.
pub type GroupView = Map<SubId, SubscriptionView>;

/// A blob.
#[verifier::ext_equal]
pub struct BlobView {
    pub size: int,
    pub metadata_hash: ids::Hash,
    pub status: BlobStatus,
    pub subscribers: Map<Address, GroupView>,
}

/// The expiry index: by epoch, then subscriber, then blob and subscription id,
/// whether the subscription renews by itself.
pub type ExpiriesView = Map<int, Map<Address, Map<ExpiryId, bool>>>;

/// An ingestion index: by blob, who asked for it and where to fetch it.
pub type SourcesView = Map<ids::Hash, Set<SourceId>>;

/// The whole state.
#[verifier::ext_equal]
pub struct StateView {
    pub capacity_total: int,
    pub capacity_used: int,
    pub credit_sold: int,
    pub credit_committed: int,
    pub credit_debited: int,
    pub credit_debit_rate: int,
    pub accounts: Map<Address, AccountView>,
    pub blobs: Map<ids::Hash, BlobView>,
    pub expiries: ExpiriesView,
    pub added: SourcesView,
    pub pending: SourcesView,
}

/// A fresh account with the given free credit, debited up to `epoch`.
pub open spec fn new_account(credit_free: int, epoch: int) -> AccountView {
    AccountView {
        capacity_used: 0,
        credit_free,
        credit_committed: 0,
        last_debit_epoch: epoch,
        ttl_status: TtlStatus::Default,
        approvals: Map::empty(),
    }
}

/// The account at `addr`, or a fresh one where there is none.
pub open spec fn account_or_new(s: StateView, addr: Address, epoch: int) -> AccountView {
    if s.accounts.contains_key(addr) {
        s.accounts[addr]
    } else {
        new_account(0, epoch)
    }
}

/// Under which caller an approval from an account to `origin` is found for a
/// call through `caller`: the one valid for any caller comes first.
pub open spec fn approval_key(approvals: ApprovalsView, origin: Address, caller: Address) -> Option<
    Address,
> {
    if approvals.contains_key(origin) {
        if approvals[origin].contains_key(origin) {
            Some(origin)
        } else if approvals[origin].contains_key(caller) {
            Some(caller)
        } else {
            None
        }
    } else {
        None
    }
}

/// The approval that lets `origin` spend through `caller`, if any.
pub open spec fn find_approval(approvals: ApprovalsView, origin: Address, caller: Address) -> Option<
    ApprovalView,
> {
    match approval_key(approvals, origin, caller) {
        Some(key) => Some(approvals[origin][key]),
        None => None,
    }
}

/// The approvals after `amount` more was used through the one at `(origin, key)`.
pub open spec fn spend_through(
    approvals: ApprovalsView,
    origin: Address,
    key: Address,
    amount: int,
) -> ApprovalsView {
    let a = approvals[origin][key];
    approvals.insert(
        origin,
        approvals[origin].insert(
            key,
            ApprovalView { limit: a.limit, expiry: a.expiry, used: a.used + amount },
        ),
    )
}

/// The approvals after `amount` more was used through the approval that the
/// key names, or unchanged where no approval is involved.
pub open spec fn spend_if(
    approvals: ApprovalsView,
    origin: Address,
    key: Option<Address>,
    amount: int,
) -> ApprovalsView {
    match key {
        Some(k) => spend_through(approvals, origin, k, amount),
        None => approvals,
    }
}

/// `e` is the largest value of the map, and is positive.
pub open spec fn is_max_positive<K>(m: Map<K, int>, e: int) -> bool {
    &&& e > 0
    &&& exists|k: K| #[trigger] m.contains_key(k) && m[k] == e
    &&& forall|k: K| #[trigger] m.contains_key(k) ==> m[k] <= e
}

/// The largest positive value of the map, if it has a positive value.
pub open spec fn max_positive<K>(m: Map<K, int>) -> Option<int> {
    if exists|e: int| is_max_positive(m, e) {
        Some(choose|e: int| is_max_positive(m, e))
    } else {
        None
    }
}

/// `e` is the smallest value of the map.
pub open spec fn is_min<K>(m: Map<K, int>, e: int) -> bool {
    &&& exists|k: K| #[trigger] m.contains_key(k) && m[k] == e
    &&& forall|k: K| #[trigger] m.contains_key(k) ==> m[k] >= e
}

/// The smallest value of the map, if it has a value.
pub open spec fn min_value<K>(m: Map<K, int>) -> Option<int> {
    if exists|e: int| is_min(m, e) {
        Some(choose|e: int| is_min(m, e))
    } else {
        None
    }
}

/// The expiry of each subscription of a group.
pub open spec fn expiries_of(g: GroupView) -> Map<SubId, int> {
    g.map_values(|s: SubscriptionView| s.expiry)
}

/// The epoch at which each subscription of a group was added.
pub open spec fn added_of(g: GroupView) -> Map<SubId, int> {
    g.map_values(|s: SubscriptionView| s.added)
}

/// The epoch up to which a group covers its blob: the latest expiry among its
/// subscriptions. An expiry at or before epoch zero covers nothing.
pub open spec fn group_expiry(g: GroupView) -> Option<int> {
    max_positive(expiries_of(g))
}

/// The epoch up to which the group would cover its blob if subscription `id`
/// expired at `new_expiry`, or left the group where that is `None`.
pub open spec fn new_group_expiry(g: GroupView, id: SubId, new_expiry: Option<int>) -> Option<int> {
    match new_expiry {
        Some(e) => max_positive(expiries_of(g).insert(id, e)),
        None => max_positive(expiries_of(g).remove(id)),
    }
}

/// Whether no other subscription of the group was added before `id` was.
pub open spec fn is_min_added(g: GroupView, id: SubId) -> bool {
    forall|k: SubId| #[trigger] g.contains_key(k) && k != id ==> g[k].added >= g[id].added
}

/// The earliest epoch at which another subscription of the group was added,
/// where `id` itself was added no later than all others.
pub open spec fn next_min_added(g: GroupView, id: SubId) -> Option<int> {
    if is_min_added(g, id) {
        min_value(added_of(g).remove(id))
    } else {
        None
    }
}

/// What credit a call has to buy, and which tokens go back to the caller.
pub struct Purchase {
    pub bought: int,
    pub unspent: int,
}

/// Free credit must cover what is required.
pub open spec fn ensure_enough_credits(credit_free: int, required: int) -> Result<(), Cause> {
    if credit_free >= required {
        Ok(())
    } else {
        Err(Cause::InsufficientCredit)
    }
}

/// An approval must have the required credit left under its limit, and must
/// not have expired.
pub open spec fn ensure_delegated_credit(
    epoch: int,
    required: int,
    approval: Option<ApprovalView>,
) -> Result<(), Cause> {
    match approval {
        None => Ok(()),
        Some(a) => {
            if a.limit is Some && a.limit->0 - a.used < required {
                Err(Cause::ApprovalExhausted)
            } else if a.expiry is Some && a.expiry->0 <= epoch {
                Err(Cause::ApprovalExpired)
            } else {
                Ok(())
            }
        },
    }
}

/// Both of the above, the account first.
pub open spec fn ensure_credit(
    epoch: int,
    credit_free: int,
    required: int,
    approval: Option<ApprovalView>,
) -> Result<(), Cause> {
    match ensure_enough_credits(credit_free, required) {
        Err(c) => Err(c),
        Ok(_) => ensure_delegated_credit(epoch, required, approval),
    }
}

/// How the required credit is found. With tokens and no approval, the credit
/// that is missing is bought at `rate` credits per atto, the price rounded
/// down, and what the tokens exceed the price by goes back; where nothing is
/// missing, all tokens go back. Tokens sent on a delegated call are refused.
/// Without tokens, the account and the approval must cover the request.
pub open spec fn ensure_credit_or_buy(
    credit_free: int,
    required: int,
    tokens: int,
    rate: int,
    epoch: int,
    approval: Option<ApprovalView>,
) -> Result<Purchase, Cause> {
    if tokens != 0 {
        if approval is Some {
            Err(Cause::InlineBuyWithDelegation)
        } else if credit_free < required {
            let needed = required - credit_free;
            let price = needed / rate;
            if price <= tokens {
                Ok(Purchase { bought: needed, unspent: tokens - price })
            } else {
                Err(Cause::InsufficientTokens)
            }
        } else {
            Ok(Purchase { bought: 0, unspent: tokens })
        }
    } else {
        match ensure_credit(epoch, credit_free, required, approval) {
            Err(c) => Err(c),
            Ok(_) => Ok(Purchase { bought: 0, unspent: 0 }),
        }
    }
}

/// Whether the credit that is missing is bought with the tokens sent: the
/// one case in which the rate divides.
pub open spec fn buys(credit_free: int, required: int, tokens: int, approval: Option<ApprovalView>) -> bool {
    tokens != 0 && approval is None && credit_free < required
}

/// What is left under the limit of an approval that has one.
pub open spec fn approval_left(approval: Option<ApprovalView>) -> int {
    approval->0.limit->0 - approval->0.used
}

/// The two amounts that a refusal for want of credit names: what was there,
/// and what was asked for. For the account these are its free credit and the
/// credit required; for an approval, what is left under its limit and the
/// credit required.
pub open spec fn credit_amounts(
    cause: Cause,
    credit_free: int,
    required: int,
    approval: Option<ApprovalView>,
) -> (int, int) {
    match cause {
        Cause::ApprovalExhausted => (approval_left(approval), required),
        _ => (credit_free, required),
    }
}

/// The two amounts that a refusal names where credit may be bought: for
/// want of tokens, those sent and the price of the credit that is missing;
/// else as above.
pub open spec fn purchase_amounts(
    cause: Cause,
    credit_free: int,
    required: int,
    tokens: int,
    rate: int,
    approval: Option<ApprovalView>,
) -> (int, int) {
    match cause {
        Cause::InsufficientTokens => (tokens, (required - credit_free) / rate),
        _ => credit_amounts(cause, credit_free, required, approval),
    }
}

/// The time-to-live that a request gets, and whether it renews by itself.
pub open spec fn accept_ttl(ttl: Option<int>) -> Result<(int, bool), Cause> {
    let (t, auto_renew) = match ttl {
        Some(t) => (t, false),
        None => (AUTO_TTL as int, true),
    };
    if t < MIN_TTL {
        Err(Cause::BlobTtlTooShort)
    } else {
        Ok((t, auto_renew))
    }
}

/// The index with an entry added.
pub open spec fn index_add(
    x: ExpiriesView,
    expiry: int,
    subscriber: Address,
    key: ExpiryId,
    auto_renew: bool,
) -> ExpiriesView {
    let by_subscriber = if x.contains_key(expiry) {
        x[expiry]
    } else {
        Map::empty()
    };
    let by_key = if by_subscriber.contains_key(subscriber) {
        by_subscriber[subscriber]
    } else {
        Map::empty()
    };
    x.insert(expiry, by_subscriber.insert(subscriber, by_key.insert(key, auto_renew)))
}

/// The index with an entry removed, and with it the subscriber and the epoch
/// that it leaves empty.
pub open spec fn index_remove(
    x: ExpiriesView,
    expiry: int,
    subscriber: Address,
    key: ExpiryId,
) -> ExpiriesView {
    if x.contains_key(expiry) {
        let by_subscriber = if x[expiry].contains_key(subscriber) {
            let by_key = x[expiry][subscriber].remove(key);
            if by_key == Map::<ExpiryId, bool>::empty() {
                x[expiry].remove(subscriber)
            } else {
                x[expiry].insert(subscriber, by_key)
            }
        } else {
            x[expiry]
        };
        if by_subscriber == Map::<Address, Map<ExpiryId, bool>>::empty() {
            x.remove(expiry)
        } else {
            x.insert(expiry, by_subscriber)
        }
    } else {
        x
    }
}

/// The index after a subscription's entry moved: the entry at `remove` goes
/// out, then one goes in at `add`.
pub open spec fn update_expiry_index(
    x: ExpiriesView,
    subscriber: Address,
    key: ExpiryId,
    add: Option<(int, bool)>,
    remove: Option<int>,
) -> ExpiriesView {
    let removed = match remove {
        Some(e) => index_remove(x, e, subscriber, key),
        None => x,
    };
    match add {
        Some((e, auto_renew)) => index_add(removed, e, subscriber, key, auto_renew),
        None => removed,
    }
}

/// An ingestion index with a source added under a blob.
pub open spec fn sources_add(x: SourcesView, hash: ids::Hash, source: SourceId) -> SourcesView {
    let set = if x.contains_key(hash) {
        x[hash]
    } else {
        Set::empty()
    };
    x.insert(hash, set.insert(source))
}

/// An ingestion index with a source removed, and with it the blob that it
/// leaves without sources.
pub open spec fn sources_remove(x: SourcesView, hash: ids::Hash, source: SourceId) -> SourcesView {
    if x.contains_key(hash) {
        let set = x[hash].remove(source);
        if set == Set::<SourceId>::empty() {
            x.remove(hash)
        } else {
            x.insert(hash, set)
        }
    } else {
        x
    }
}

} // verus!
