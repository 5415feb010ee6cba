//! What each operation does to the ledger, as functions on its mathematical
//! view. An operation that is refused leaves the state as it was.

use crate::account::TtlStatus;
use crate::blob::BlobStatus;
use crate::error::Cause;
use crate::ids;
use crate::ids::PublicKey;
use crate::model::accept_ttl;
use crate::model::account_or_new;
use crate::model::approval_key;
use crate::model::buys;
use crate::model::credit_amounts;
use crate::model::purchase_amounts;
use crate::model::ensure_credit;
use crate::model::ensure_credit_or_buy;
use crate::model::find_approval;
use crate::model::group_expiry;
use crate::model::index_remove;
use crate::model::is_min_added;
use crate::model::new_account;
use crate::model::new_group_expiry;
use crate::model::next_min_added;
use crate::model::sources_add;
use crate::model::sources_remove;
use crate::model::spend_if;
use crate::model::update_expiry_index;
use crate::model::AccountView;
use crate::model::ApprovalView;
use crate::model::BlobView;
use crate::model::GroupView;
use crate::model::StateView;
use crate::model::SubId;
use crate::model::SubscriptionView;
use crate::model::AUTO_TTL;
use crate::model::MIN_TTL;
use crate::text::naming;
use crate::text::Named;
use fvm_shared::address::Address;
use vstd::prelude::*;

verus! {

/// The state at genesis: nothing stored, nothing sold.
pub open spec fn genesis(capacity: int, rate: int) -> StateView {
    StateView {
        capacity_total: capacity,
        capacity_used: 0,
        credit_sold: 0,
        credit_committed: 0,
        credit_debited: 0,
        credit_debit_rate: rate,
        accounts: Map::empty(),
        blobs: Map::empty(),
        expiries: Map::empty(),
        added: Map::empty(),
        pending: Map::empty(),
    }
}

/// Buying credit: `amount` atto tokens become `rate * amount` free credit of
/// the recipient, whose account is made if need be. Refused for a negative
/// amount, and when no storage capacity is left.
pub open spec fn buy_credit(s: StateView, recipient: Address, amount: int, epoch: int) -> Result<
    (StateView, AccountView),
    Cause,
> {
    if amount < 0 {
        Err(Cause::NegativeTokenAmount)
    } else if s.capacity_total - s.capacity_used == 0 {
        Err(Cause::NoCapacity)
    } else {
        let credits = s.credit_debit_rate * amount;
        let account = if s.accounts.contains_key(recipient) {
            AccountView {
                credit_free: s.accounts[recipient].credit_free + credits,
                ..s.accounts[recipient]
            }
        } else {
            new_account(credits, epoch)
        };
        Ok(
            (
                StateView {
                    credit_sold: s.credit_sold + credits,
                    accounts: s.accounts.insert(recipient, account),
                    ..s
                },
                account,
            ),
        )
    }
}

/// The credit already spent through the approval from `from` to `to` for the
/// caller, or 0 where there is no such approval.
pub open spec fn approval_used(
    s: StateView,
    from: Address,
    to: Address,
    require_caller: Option<Address>,
    epoch: int,
) -> int {
    let caller = match require_caller {
        Some(c) => c,
        None => to,
    };
    let account = account_or_new(s, from, epoch);
    if account.approvals.contains_key(to) && account.approvals[to].contains_key(caller) {
        account.approvals[to][caller].used
    } else {
        0
    }
}

/// Approving credit: `from` lets `to` spend its credit, through
/// `require_caller` only where that is given, up to `limit`, for `ttl` epochs.
/// What was used through an approval that already exists stays counted.
/// Refused for a time-to-live below the minimum and for a limit below what was
/// used already.
pub open spec fn approve_credit(
    s: StateView,
    from: Address,
    to: Address,
    require_caller: Option<Address>,
    epoch: int,
    limit: Option<int>,
    ttl: Option<int>,
) -> Result<(StateView, ApprovalView), Cause> {
    if ttl is Some && ttl->0 < MIN_TTL {
        Err(Cause::ApprovalTtlTooShort)
    } else {
        let expiry = match ttl {
            Some(t) => Some(t + epoch),
            None => None,
        };
        let caller = match require_caller {
            Some(c) => c,
            None => to,
        };
        let account = account_or_new(s, from, epoch);
        let given = if account.approvals.contains_key(to) {
            account.approvals[to]
        } else {
            Map::empty()
        };
        let used = if given.contains_key(caller) {
            given[caller].used
        } else {
            0
        };
        if limit is Some && used > limit->0 {
            Err(Cause::LimitBelowUsed)
        } else {
            let approval = ApprovalView { limit, expiry, used };
            let account1 = AccountView {
                approvals: account.approvals.insert(to, given.insert(caller, approval)),
                ..account
            };
            Ok((StateView { accounts: s.accounts.insert(from, account1), ..s }, approval))
        }
    }
}

/// Revoking credit: the approval from `from` to `to` for the caller goes, and
/// with it the receiver that is left without approvals. Commitments made
/// through it stay. Refused where `from` has no account.
pub open spec fn revoke_credit(
    s: StateView,
    from: Address,
    to: Address,
    for_caller: Option<Address>,
) -> Result<StateView, Cause> {
    if !s.accounts.contains_key(from) {
        Err(Cause::AccountNotFound)
    } else {
        let caller = match for_caller {
            Some(c) => c,
            None => to,
        };
        let account = s.accounts[from];
        let approvals = if account.approvals.contains_key(to) {
            let given = account.approvals[to].remove(caller);
            if given == Map::<Address, ApprovalView>::empty() {
                account.approvals.remove(to)
            } else {
                account.approvals.insert(to, given)
            }
        } else {
            account.approvals
        };
        Ok(
            StateView {
                accounts: s.accounts.insert(from, AccountView { approvals, ..account }),
                ..s
            },
        )
    }
}

/// Setting the time-to-live status of an account, which is made if need be.
pub open spec fn set_account_blob_ttl_status(
    s: StateView,
    account: Address,
    status: TtlStatus,
    epoch: int,
) -> StateView {
    StateView {
        accounts: s.accounts.insert(
            account,
            AccountView { ttl_status: status, ..account_or_new(s, account, epoch) },
        ),
        ..s
    }
}

/// The approval that lets `receiver` spend the credit of `from` through
/// `caller`, if there is one.
pub open spec fn get_credit_approval(
    s: StateView,
    from: Address,
    receiver: Address,
    caller: Address,
) -> Option<ApprovalView> {
    if s.accounts.contains_key(from) {
        find_approval(s.accounts[from].approvals, receiver, caller)
    } else {
        None
    }
}

/// The group that `subscriber` holds on blob `hash`, if any.
pub open spec fn group_of(s: StateView, hash: ids::Hash, subscriber: Address) -> Option<GroupView> {
    if s.blobs.contains_key(hash) && s.blobs[hash].subscribers.contains_key(subscriber) {
        Some(s.blobs[hash].subscribers[subscriber])
    } else {
        None
    }
}

/// What adding a blob will do, once it is known to be allowed.
pub struct AddPlan {
    /// The epoch at which the subscription will end.
    pub expiry: int,
    /// Whether the subscription renews by itself.
    pub auto_renew: bool,
    /// The caller under which the approval that pays is found, if one pays.
    pub key: Option<Address>,
    /// Debits taken after the group had lapsed, which go back to committed.
    pub refund: int,
    /// The credit to commit; negative where the group's coverage shrinks.
    pub required: int,
    /// The credit bought with the tokens sent.
    pub bought: int,
    /// The tokens that go back to the caller.
    pub unspent: int,
}

/// The larger of two integers.
pub open spec fn max_int(a: int, b: int) -> int {
    if a >= b {
        a
    } else {
        b
    }
}

/// The smaller of two integers.
pub open spec fn min_int(a: int, b: int) -> int {
    if a <= b {
        a
    } else {
        b
    }
}

/// Whether adding a blob is allowed, and what it will do. In turn: the
/// time-to-live must be acceptable; an origin other than the subscriber needs
/// an approval; a group that exists is charged for what its coverage grows by
/// from the current epoch on, after debits taken past its coverage went back;
/// the credit must be there or be bought; and a new blob must fit the capacity
/// that is left.
/// The approval that pays where `origin` adds a blob for `subscriber`, if
/// one does.
pub open spec fn add_approval(
    s: StateView,
    origin: Address,
    caller: Address,
    subscriber: Address,
    epoch: int,
) -> Option<ApprovalView> {
    let account = account_or_new(s, subscriber, epoch);
    if origin != subscriber {
        match approval_key(account.approvals, origin, caller) {
            Some(k) => Some(account.approvals[origin][k]),
            None => None,
        }
    } else {
        None
    }
}

/// The credit that a subscription for `t` epochs from `epoch` asks for: what
/// the coverage of the subscriber's group grows by from its old end or the
/// epoch on, whichever is later, times the size; for a subscriber new to the
/// blob, `t` times the size.
pub open spec fn add_required(
    s: StateView,
    subscriber: Address,
    epoch: int,
    hash: ids::Hash,
    id: SubId,
    size: int,
    t: int,
) -> int {
    match group_of(s, hash, subscriber) {
        Some(g) => (new_group_expiry(g, id, Some(epoch + t))->0 - (match group_expiry(g) {
            Some(c) => max_int(c, epoch),
            None => epoch,
        })) * size,
        None => t * size,
    }
}

/// The time-to-live that a request asks for.
pub open spec fn ttl_asked(ttl: Option<int>) -> int {
    match ttl {
        Some(t) => t,
        None => AUTO_TTL as int,
    }
}

/// Whether adding the blob buys credit with the tokens sent, at the rate of
/// the state.
pub open spec fn buys_inline(
    s: StateView,
    origin: Address,
    subscriber: Address,
    epoch: int,
    hash: ids::Hash,
    id: SubId,
    size: int,
    ttl: Option<int>,
    tokens: int,
) -> bool {
    origin == subscriber && buys(
        account_or_new(s, subscriber, epoch).credit_free,
        add_required(s, subscriber, epoch, hash, id, size, ttl_asked(ttl)),
        tokens,
        None,
    )
}

/// What the refusal to add a blob names: the blob, the subscription, and for
/// want of capacity the bytes that are free and the size, else the amounts
/// that go with the want of credit.
pub open spec fn add_named(
    s: StateView,
    origin: Address,
    caller: Address,
    subscriber: Address,
    epoch: int,
    hash: ids::Hash,
    id: SubId,
    size: int,
    ttl: Option<int>,
    tokens: int,
) -> Named {
    let amounts = match plan_add(s, origin, caller, subscriber, epoch, hash, id, size, ttl, tokens) {
        Ok(_) => (0, 0),
        Err(Cause::InsufficientCapacity) => (s.capacity_total - s.capacity_used, size),
        Err(c) => purchase_amounts(
            c,
            account_or_new(s, subscriber, epoch).credit_free,
            add_required(s, subscriber, epoch, hash, id, size, ttl_asked(ttl)),
            tokens,
            s.credit_debit_rate,
            add_approval(s, origin, caller, subscriber, epoch),
        ),
    };
    Named { hash, id, available: amounts.0, required: amounts.1 }
}

pub open spec fn plan_add(
    s: StateView,
    origin: Address,
    caller: Address,
    subscriber: Address,
    epoch: int,
    hash: ids::Hash,
    id: SubId,
    size: int,
    ttl: Option<int>,
    tokens: int,
) -> Result<AddPlan, Cause> {
    match accept_ttl(ttl) {
        Err(c) => Err(c),
        Ok((t, auto_renew)) => {
            let account = account_or_new(s, subscriber, epoch);
            let key = if origin != subscriber {
                approval_key(account.approvals, origin, caller)
            } else {
                None
            };
            if origin != subscriber && key is None {
                Err(Cause::ApprovalNotFound)
            } else {
                let approval = match key {
                    Some(k) => Some(account.approvals[origin][k]),
                    None => None,
                };
                let expiry = epoch + t;
                let group = group_of(s, hash, subscriber);
                let envelope = match group {
                    Some(g) => new_group_expiry(g, id, Some(expiry)),
                    None => Some(expiry),
                };
                if envelope is None {
                    Err(Cause::NoGroupExpiry)
                } else {
                    let covered = match group {
                        Some(g) => group_expiry(g),
                        None => None,
                    };
                    let refund = if covered is Some && account.last_debit_epoch > covered->0 {
                        (account.last_debit_epoch - covered->0) * size
                    } else {
                        0
                    };
                    let required = add_required(s, subscriber, epoch, hash, id, size, t);
                    match ensure_credit_or_buy(
                        account.credit_free,
                        required,
                        tokens,
                        s.credit_debit_rate,
                        epoch,
                        approval,
                    ) {
                        Err(c) => Err(c),
                        Ok(p) => if !s.blobs.contains_key(hash) && size > s.capacity_total
                            - s.capacity_used {
                            Err(Cause::InsufficientCapacity)
                        } else {
                            Ok(
                                AddPlan {
                                    expiry,
                                    auto_renew,
                                    key,
                                    refund,
                                    required,
                                    bought: p.bought,
                                    unspent: p.unspent,
                                },
                            )
                        },
                    }
                }
            }
        },
    }
}

/// The blob `hash` after subscription `id` of `subscriber` was set to `sub`.
pub open spec fn with_subscription(
    blob: BlobView,
    subscriber: Address,
    id: SubId,
    sub: SubscriptionView,
) -> BlobView {
    let group = if blob.subscribers.contains_key(subscriber) {
        blob.subscribers[subscriber]
    } else {
        Map::empty()
    };
    BlobView { subscribers: blob.subscribers.insert(subscriber, group.insert(id, sub)), ..blob }
}

/// What adding a blob does. The subscription is made or updated, keeping the
/// epoch at which it was first added; a blob that is not resolved goes back to
/// the added stage and is listed for ingestion. The account is debited for the
/// capacity it used up to the current epoch, takes on the new capacity, and
/// moves the required credit from free to committed; the approval that paid
/// counts it as used.
pub open spec fn apply_add(
    s: StateView,
    p: AddPlan,
    origin: Address,
    caller: Address,
    subscriber: Address,
    epoch: int,
    hash: ids::Hash,
    metadata_hash: ids::Hash,
    id: SubId,
    size: int,
    source: PublicKey,
) -> (StateView, SubscriptionView) {
    let account = account_or_new(s, subscriber, epoch);
    let debit = (epoch - account.last_debit_epoch) * account.capacity_used;
    let new_blob = !s.blobs.contains_key(hash);
    let group = group_of(s, hash, subscriber);
    let existing = group is Some && group->0.contains_key(id);
    let sub = SubscriptionView {
        added: if existing {
            group->0[id].added
        } else {
            epoch
        },
        expiry: p.expiry,
        auto_renew: p.auto_renew,
        source,
        delegate: match p.key {
            Some(_) => Some((origin, caller)),
            None => None,
        },
        failed: false,
    };
    let blob0 = if new_blob {
        BlobView { size, metadata_hash, status: BlobStatus::Added, subscribers: Map::empty() }
    } else {
        s.blobs[hash]
    };
    let status = if blob0.status == BlobStatus::Resolved {
        BlobStatus::Resolved
    } else {
        BlobStatus::Added
    };
    let blob = with_subscription(BlobView { status, ..blob0 }, subscriber, id, sub);
    let account1 = AccountView {
        capacity_used: account.capacity_used + if group is None {
            size
        } else {
            0
        },
        credit_free: account.credit_free + p.bought - p.required,
        credit_committed: account.credit_committed + p.refund - debit + p.required,
        last_debit_epoch: epoch,
        ttl_status: account.ttl_status,
        approvals: spend_if(account.approvals, origin, p.key, p.required),
    };
    (
        StateView {
            capacity_total: s.capacity_total,
            capacity_used: s.capacity_used + if new_blob {
                size
            } else {
                0
            },
            credit_sold: s.credit_sold + p.bought,
            credit_committed: s.credit_committed + p.refund - debit + p.required,
            credit_debited: s.credit_debited + debit - p.refund,
            credit_debit_rate: s.credit_debit_rate,
            accounts: s.accounts.insert(subscriber, account1),
            blobs: s.blobs.insert(hash, blob),
            expiries: update_expiry_index(
                s.expiries,
                subscriber,
                (hash, id),
                Some((p.expiry, p.auto_renew)),
                if existing {
                    Some(group->0[id].expiry)
                } else {
                    None
                },
            ),
            added: if status != BlobStatus::Resolved {
                sources_add(s.added, hash, (subscriber, id, source))
            } else {
                s.added
            },
            pending: s.pending,
        },
        sub,
    )
}

/// Adding a blob: the new state, the subscription, and the tokens that go
/// back to the caller.
pub open spec fn add_blob(
    s: StateView,
    origin: Address,
    caller: Address,
    subscriber: Address,
    epoch: int,
    hash: ids::Hash,
    metadata_hash: ids::Hash,
    id: SubId,
    size: int,
    ttl: Option<int>,
    source: PublicKey,
    tokens: int,
) -> Result<(StateView, SubscriptionView, int), Cause> {
    match plan_add(s, origin, caller, subscriber, epoch, hash, id, size, ttl, tokens) {
        Err(c) => Err(c),
        Ok(p) => {
            let (s1, sub) = apply_add(
                s,
                p,
                origin,
                caller,
                subscriber,
                epoch,
                hash,
                metadata_hash,
                id,
                size,
                source,
            );
            Ok((s1, sub, p.unspent))
        },
    }
}

/// What renewing a subscription will do, once it is known to be allowed.
pub struct RenewPlan {
    /// The epoch at which the subscription will end.
    pub expiry: int,
    /// The caller under which the approval that pays is found, if one pays.
    pub key: Option<Address>,
    /// Debits taken after the group had lapsed, which go back to committed.
    pub refund: int,
    /// The credit to commit.
    pub required: int,
}

/// The approval under which a subscription's delegate spends, if it has one.
pub open spec fn delegate_key(account: AccountView, sub: SubscriptionView) -> Option<Address> {
    match sub.delegate {
        Some((o, c)) => approval_key(account.approvals, o, c),
        None => None,
    }
}

/// The origin of a subscription's delegate, or `fallback` where it has none.
pub open spec fn delegate_origin(sub: SubscriptionView, fallback: Address) -> Address {
    match sub.delegate {
        Some((o, _)) => o,
        None => fallback,
    }
}

/// The approval that pays where a subscription is renewed, if one does.
pub open spec fn renew_approval(
    s: StateView,
    subscriber: Address,
    epoch: int,
    hash: ids::Hash,
    id: SubId,
) -> Option<ApprovalView> {
    let sub = s.blobs[hash].subscribers[subscriber][id];
    let account = account_or_new(s, subscriber, epoch);
    match delegate_key(account, sub) {
        Some(k) => Some(account.approvals[delegate_origin(sub, subscriber)][k]),
        None => None,
    }
}

/// The credit that renewing a subscription asks for: what the coverage of the
/// group grows by from its old end or the account's last debit on, whichever
/// is later, times the size.
pub open spec fn renew_required(
    s: StateView,
    subscriber: Address,
    epoch: int,
    hash: ids::Hash,
    id: SubId,
) -> int {
    let blob = s.blobs[hash];
    let g = blob.subscribers[subscriber];
    let account = account_or_new(s, subscriber, epoch);
    (new_group_expiry(g, id, Some(epoch + AUTO_TTL))->0 - max_int(
        group_expiry(g)->0,
        account.last_debit_epoch,
    )) * blob.size
}

/// What the refusal to renew a subscription names: the blob, the
/// subscription, and the amounts that go with the want of credit.
pub open spec fn renew_named(
    s: StateView,
    subscriber: Address,
    epoch: int,
    hash: ids::Hash,
    id: SubId,
) -> Named {
    let amounts = match plan_renew(s, subscriber, epoch, hash, id) {
        Ok(_) => (0, 0),
        Err(c) => credit_amounts(
            c,
            account_or_new(s, subscriber, epoch).credit_free,
            renew_required(s, subscriber, epoch, hash, id),
            renew_approval(s, subscriber, epoch, hash, id),
        ),
    };
    Named { hash, id, available: amounts.0, required: amounts.1 }
}

/// Whether renewing is allowed, and what it will do. The blob must exist and
/// not have failed, the subscription must exist, and the approval that paid for
/// it must still be there. The group is charged for what its coverage grows by
/// from its old end or the last debit on, whichever is later, after debits
/// taken past its coverage went back.
pub open spec fn plan_renew(
    s: StateView,
    subscriber: Address,
    epoch: int,
    hash: ids::Hash,
    id: SubId,
) -> Result<RenewPlan, Cause> {
    if !s.blobs.contains_key(hash) {
        Err(Cause::BlobNotFound)
    } else if s.blobs[hash].status == BlobStatus::Failed {
        Err(Cause::RenewFailedBlob)
    } else if !s.blobs[hash].subscribers.contains_key(subscriber) {
        Err(Cause::NotSubscribed)
    } else if !s.blobs[hash].subscribers[subscriber].contains_key(id) {
        Err(Cause::SubscriptionNotFound)
    } else {
        let blob = s.blobs[hash];
        let g = blob.subscribers[subscriber];
        let sub = g[id];
        let account = account_or_new(s, subscriber, epoch);
        let key = delegate_key(account, sub);
        let expiry = epoch + AUTO_TTL;
        let covered = group_expiry(g);
        let envelope = new_group_expiry(g, id, Some(expiry));
        if sub.delegate is Some && key is None {
            Err(Cause::ApprovalNotFound)
        } else if covered is None || envelope is None {
            Err(Cause::NoGroupExpiry)
        } else {
            let approval = match key {
                Some(k) => Some(account.approvals[delegate_origin(sub, subscriber)][k]),
                None => None,
            };
            let refund = if account.last_debit_epoch > covered->0 {
                (account.last_debit_epoch - covered->0) * blob.size
            } else {
                0
            };
            let required = renew_required(s, subscriber, epoch, hash, id);
            match ensure_credit(epoch, account.credit_free, required, approval) {
                Err(c) => Err(c),
                Ok(_) => Ok(RenewPlan { expiry, key, refund, required }),
            }
        }
    }
}

/// What renewing does: the subscription ends at the new epoch, the index
/// follows, and the required credit moves from free to committed.
pub open spec fn apply_renew(
    s: StateView,
    p: RenewPlan,
    subscriber: Address,
    epoch: int,
    hash: ids::Hash,
    id: SubId,
) -> (StateView, AccountView) {
    let account = account_or_new(s, subscriber, epoch);
    let blob = s.blobs[hash];
    let sub = blob.subscribers[subscriber][id];
    let account1 = AccountView {
        credit_free: account.credit_free - p.required,
        credit_committed: account.credit_committed + p.refund + p.required,
        approvals: spend_if(
            account.approvals,
            delegate_origin(sub, subscriber),
            p.key,
            p.required,
        ),
        ..account
    };
    (
        StateView {
            credit_committed: s.credit_committed + p.refund + p.required,
            credit_debited: s.credit_debited - p.refund,
            accounts: s.accounts.insert(subscriber, account1),
            blobs: s.blobs.insert(
                hash,
                with_subscription(blob, subscriber, id, SubscriptionView { expiry: p.expiry, ..sub }),
            ),
            expiries: update_expiry_index(
                s.expiries,
                subscriber,
                (hash, id),
                Some((p.expiry, sub.auto_renew)),
                Some(sub.expiry),
            ),
            ..s
        },
        account1,
    )
}

/// Renewing a subscription for another `AUTO_TTL` epochs from `epoch`.
pub open spec fn renew_blob(
    s: StateView,
    subscriber: Address,
    epoch: int,
    hash: ids::Hash,
    id: SubId,
) -> Result<(StateView, AccountView), Cause> {
    match plan_renew(s, subscriber, epoch, hash, id) {
        Err(c) => Err(c),
        Ok(p) => Ok(apply_renew(s, p, subscriber, epoch, hash, id)),
    }
}

/// Whether deleting a subscription is allowed: `Ok(false)` where the blob is
/// gone already, `Ok(true)` where the subscription is to be deleted. The
/// subscriber may always delete; a delegate may delete what it paid for while
/// its approval is there and has not expired.
pub open spec fn plan_delete(
    s: StateView,
    origin: Address,
    caller: Address,
    subscriber: Address,
    epoch: int,
    hash: ids::Hash,
    id: SubId,
) -> Result<bool, Cause> {
    if !s.blobs.contains_key(hash) {
        Ok(false)
    } else if !s.blobs[hash].subscribers.contains_key(subscriber) {
        Err(Cause::NotSubscribed)
    } else if !s.blobs[hash].subscribers[subscriber].contains_key(id) {
        Err(Cause::SubscriptionNotFound)
    } else {
        let g = s.blobs[hash].subscribers[subscriber];
        let sub = g[id];
        let account = account_or_new(s, subscriber, epoch);
        let key = delegate_key(account, sub);
        if sub.delegate is Some && key is None && origin != subscriber {
            Err(Cause::ApprovalNotFound)
        } else if key is None && origin != subscriber {
            Err(Cause::NotSubscriber)
        } else if key is Some && origin != subscriber && sub.delegate != Some((origin, caller)) {
            Err(Cause::NotDelegate)
        } else if key is Some && account.approvals[delegate_origin(sub, subscriber)][key->0].expiry is Some
            && account.approvals[delegate_origin(sub, subscriber)][key->0].expiry->0 <= epoch {
            Err(Cause::ApprovalExpired)
        } else if group_expiry(g) is None {
            Err(Cause::NoGroupExpiry)
        } else {
            Ok(true)
        }
    }
}

/// The blobs after subscription `id` of `subscriber` on blob `hash` was
/// dropped, together with the group and the blob that it leaves empty.
pub open spec fn without_subscription(
    blobs: Map<ids::Hash, BlobView>,
    hash: ids::Hash,
    subscriber: Address,
    id: SubId,
) -> Map<ids::Hash, BlobView> {
    let blob = blobs[hash];
    let subscribers = subscribers_without(blob.subscribers, subscriber, id);
    if subscribers == Map::<Address, GroupView>::empty() {
        blobs.remove(hash)
    } else {
        blobs.insert(hash, BlobView { subscribers, ..blob })
    }
}

/// The subscribers of a blob after subscription `id` of `subscriber` was
/// dropped, together with the group that it leaves empty.
pub open spec fn subscribers_without(
    subscribers: Map<Address, GroupView>,
    subscriber: Address,
    id: SubId,
) -> Map<Address, GroupView> {
    let group = subscribers[subscriber].remove(id);
    if group == Map::<SubId, SubscriptionView>::empty() {
        subscribers.remove(subscriber)
    } else {
        subscribers.insert(subscriber, group)
    }
}

/// The credit that goes back from committed to free when subscription `id`
/// leaves the coverage of a group that the account was debited for up to
/// `last`: what lies between the group's old end and its new one, or the last
/// debit where that is later.
pub open spec fn reclaimed(g: GroupView, id: SubId, last: int, size: int) -> int {
    let covered = group_expiry(g)->0;
    if last < covered {
        (covered - match new_group_expiry(g, id, Some(0)) {
            Some(n) => max_int(n, last),
            None => last,
        }) * size
    } else {
        0
    }
}

/// What deleting a subscription does. The account is debited up to the end of
/// the group's coverage or the current epoch, whichever is earlier; where it
/// was debited past the coverage already, what was debited past it goes back
/// to committed; where it was debited up to an epoch within the coverage,
/// nothing is debited. Unless the blob has failed, the capacity is released where
/// the group ends, and the credit committed for the coverage that ends goes
/// back to free. The subscription leaves the blob and the indexes. The result
/// says whether the blob itself is gone.
pub open spec fn apply_delete(
    s: StateView,
    subscriber: Address,
    epoch: int,
    hash: ids::Hash,
    id: SubId,
) -> (StateView, bool) {
    let account = account_or_new(s, subscriber, epoch);
    let blob = s.blobs[hash];
    let g = blob.subscribers[subscriber];
    let sub = g[id];
    let covered = group_expiry(g)->0;
    let debit_epoch = min_int(covered, epoch);
    let advance = account.last_debit_epoch < debit_epoch;
    let debit = if advance {
        (debit_epoch - account.last_debit_epoch) * account.capacity_used
    } else if account.last_debit_epoch > covered {
        -((account.last_debit_epoch - covered) * blob.size)
    } else {
        0
    };
    let last = if advance {
        debit_epoch
    } else {
        account.last_debit_epoch
    };
    let live = blob.status != BlobStatus::Failed;
    let ends = live && new_group_expiry(g, id, Some(0)) is None;
    let reclaim = if live {
        reclaimed(g, id, last, blob.size)
    } else {
        0
    };
    let account1 = AccountView {
        capacity_used: account.capacity_used - if ends {
            blob.size
        } else {
            0
        },
        credit_free: account.credit_free + reclaim,
        credit_committed: account.credit_committed - debit - reclaim,
        last_debit_epoch: last,
        ttl_status: account.ttl_status,
        approvals: spend_if(
            account.approvals,
            delegate_origin(sub, subscriber),
            delegate_key(account, sub),
            -reclaim,
        ),
    };
    let blobs = without_subscription(s.blobs, hash, subscriber, id);
    (
        StateView {
            capacity_total: s.capacity_total,
            capacity_used: s.capacity_used - if ends && blob.subscribers.dom().len() == 1 {
                blob.size
            } else {
                0
            },
            credit_sold: s.credit_sold,
            credit_committed: s.credit_committed - debit - reclaim,
            credit_debited: s.credit_debited + debit,
            credit_debit_rate: s.credit_debit_rate,
            accounts: s.accounts.insert(subscriber, account1),
            blobs,
            expiries: index_remove(s.expiries, sub.expiry, subscriber, (hash, id)),
            added: sources_remove(s.added, hash, (subscriber, id, sub.source)),
            pending: sources_remove(s.pending, hash, (subscriber, id, sub.source)),
        },
        !blobs.contains_key(hash),
    )
}

/// Deleting a subscription: the new state, and whether the blob is gone, so
/// that its bytes can be deleted. Deleting from a blob that does not exist
/// changes nothing and reports `false`.
pub open spec fn delete_blob(
    s: StateView,
    origin: Address,
    caller: Address,
    subscriber: Address,
    epoch: int,
    hash: ids::Hash,
    id: SubId,
) -> Result<(StateView, bool), Cause> {
    match plan_delete(s, origin, caller, subscriber, epoch, hash, id) {
        Err(c) => Err(c),
        Ok(false) => Ok((s, false)),
        Ok(true) => Ok(apply_delete(s, subscriber, epoch, hash, id)),
    }
}

/// Setting a blob pending: it is listed as being fetched from `source`, and
/// no longer as added. Nothing happens where the blob is gone.
pub open spec fn set_blob_pending(
    s: StateView,
    subscriber: Address,
    hash: ids::Hash,
    id: SubId,
    source: PublicKey,
) -> StateView {
    if s.blobs.contains_key(hash) {
        StateView {
            blobs: s.blobs.insert(hash, BlobView { status: BlobStatus::Pending, ..s.blobs[hash] }),
            pending: sources_add(s.pending, hash, (subscriber, id, source)),
            added: s.added.remove(hash),
            ..s
        }
    } else {
        s
    }
}

/// What finalizing does: `Ok(None)` where nothing changes (the blob is gone,
/// or resolved already), `Ok(Some(..))` where the blob is to be finalized.
pub open spec fn plan_finalize(
    s: StateView,
    subscriber: Address,
    hash: ids::Hash,
    id: SubId,
    status: BlobStatus,
) -> Result<bool, Cause> {
    if status == BlobStatus::Added || status == BlobStatus::Pending {
        Err(Cause::FinalizeAsNonFinal)
    } else if !s.blobs.contains_key(hash) {
        Ok(false)
    } else if s.blobs[hash].status == BlobStatus::Added {
        Err(Cause::FinalizeFromAdded)
    } else if s.blobs[hash].status == BlobStatus::Resolved {
        Ok(false)
    } else if !s.blobs[hash].subscribers.contains_key(subscriber) {
        Err(Cause::NotSubscribed)
    } else if !s.blobs[hash].subscribers[subscriber].contains_key(id) {
        Err(Cause::SubscriptionNotFound)
    } else if status == BlobStatus::Failed && group_expiry(s.blobs[hash].subscribers[subscriber])
        is None {
        Err(Cause::NoGroupExpiry)
    } else {
        Ok(true)
    }
}

/// What debits of a subscription that failed go back to free credit: where it
/// was the first of its group to be added and the account was debited since,
/// what was debited from then up to the next subscription's start or the last
/// debit, whichever is earlier.
pub open spec fn failed_refund(g: GroupView, id: SubId, last: int, size: int) -> int {
    if last > g[id].added && is_min_added(g, id) {
        (min_int(
            match next_min_added(g, id) {
                Some(n) => n,
                None => last,
            },
            last,
        ) - g[id].added) * size
    } else {
        0
    }
}

/// What finalizing an unresolved blob does. As resolved: the blob is
/// resolved and leaves the pending list. As failed: the subscription is marked
/// failed; debits taken for it go back to free credit; the capacity is
/// released where the group has no other coverage; the credit committed for
/// the coverage that ends goes back to free; and the subscription leaves the
/// pending list, while the expiry index keeps it until it is deleted.
pub open spec fn apply_finalize(
    s: StateView,
    subscriber: Address,
    epoch: int,
    hash: ids::Hash,
    id: SubId,
    status: BlobStatus,
) -> StateView {
    let blob = s.blobs[hash];
    let g = blob.subscribers[subscriber];
    let sub = g[id];
    let pending = sources_remove(s.pending, hash, (subscriber, id, sub.source));
    if status == BlobStatus::Failed {
        let account = account_or_new(s, subscriber, epoch);
        let last = account.last_debit_epoch;
        let refund = failed_refund(g, id, last, blob.size);
        let ends = new_group_expiry(g, id, Some(0)) is None;
        let reclaim = reclaimed(g, id, last, blob.size);
        let account1 = AccountView {
            capacity_used: account.capacity_used - if ends {
                blob.size
            } else {
                0
            },
            credit_free: account.credit_free + refund + reclaim,
            credit_committed: account.credit_committed - reclaim,
            last_debit_epoch: last,
            ttl_status: account.ttl_status,
            approvals: spend_if(
                account.approvals,
                delegate_origin(sub, subscriber),
                delegate_key(account, sub),
                -reclaim,
            ),
        };
        StateView {
            capacity_total: s.capacity_total,
            capacity_used: s.capacity_used - if ends {
                blob.size
            } else {
                0
            },
            credit_sold: s.credit_sold,
            credit_committed: s.credit_committed - reclaim,
            credit_debited: s.credit_debited - refund,
            credit_debit_rate: s.credit_debit_rate,
            accounts: s.accounts.insert(subscriber, account1),
            blobs: s.blobs.insert(
                hash,
                with_subscription(
                    BlobView { status: BlobStatus::Failed, ..blob },
                    subscriber,
                    id,
                    SubscriptionView { failed: true, ..sub },
                ),
            ),
            expiries: s.expiries,
            added: s.added,
            pending,
        }
    } else {
        StateView {
            blobs: s.blobs.insert(hash, BlobView { status: BlobStatus::Resolved, ..blob }),
            pending,
            ..s
        }
    }
}

/// Finalizing a blob as resolved or failed. Finalizing a blob that is gone,
/// or that is resolved already, changes nothing.
pub open spec fn finalize_blob(
    s: StateView,
    subscriber: Address,
    epoch: int,
    hash: ids::Hash,
    id: SubId,
    status: BlobStatus,
) -> Result<StateView, Cause> {
    match plan_finalize(s, subscriber, hash, id, status) {
        Err(c) => Err(c),
        Ok(false) => Ok(s),
        Ok(true) => Ok(apply_finalize(s, subscriber, epoch, hash, id, status)),
    }
}

/// What a blob's ingestion looks like to one subscription: the blob's status,
/// except that on a failed blob a subscription that did not fail itself is
/// still pending.
pub open spec fn get_blob_status(
    s: StateView,
    subscriber: Address,
    hash: ids::Hash,
    id: SubId,
) -> Option<BlobStatus> {
    if s.blobs.contains_key(hash) && s.blobs[hash].subscribers.contains_key(subscriber) {
        let blob = s.blobs[hash];
        if blob.status == BlobStatus::Failed {
            if blob.subscribers[subscriber].contains_key(id) {
                if blob.subscribers[subscriber][id].failed {
                    Some(BlobStatus::Failed)
                } else {
                    Some(BlobStatus::Pending)
                }
            } else {
                None
            }
        } else {
            Some(blob.status)
        }
    } else {
        None
    }
}

/// One entry of the expiry index: subscriber, blob, subscription id, and
/// whether the subscription renews by itself.
pub type Expired = (Address, ids::Hash, SubId, bool);

/// What the debit tick does with one subscription that has ended: it is
/// renewed where it renews by itself and the renewal is allowed, and deleted
/// by its subscriber otherwise; where neither is allowed nothing happens. The
/// result says whether the blob itself is gone.
pub open spec fn expire_one(s: StateView, e: Expired, epoch: int) -> (StateView, bool) {
    let deleted = match delete_blob(s, e.0, e.0, e.0, epoch, e.1, e.2) {
        Ok((s1, gone)) => (s1, gone),
        Err(_) => (s, false),
    };
    if e.3 {
        match renew_blob(s, e.0, epoch, e.1, e.2) {
            Ok((s1, _)) => (s1, false),
            Err(_) => deleted,
        }
    } else {
        deleted
    }
}

/// The state after the tick went through the given entries in order, and the
/// blobs that are gone.
pub open spec fn expire_all(s: StateView, entries: Seq<Expired>, epoch: int) -> (
    StateView,
    Set<ids::Hash>,
)
    decreases entries.len(),
{
    if entries.len() == 0 {
        (s, Set::empty())
    } else {
        let (s1, gone1) = expire_all(s, entries.drop_last(), epoch);
        let (s2, gone) = expire_one(s1, entries.last(), epoch);
        (
            s2,
            if gone {
                gone1.insert(entries.last().1)
            } else {
                gone1
            },
        )
    }
}

/// What an account is debited at `epoch`: its capacity for every epoch since
/// its last debit.
pub open spec fn due(a: AccountView, epoch: int) -> int {
    (epoch - a.last_debit_epoch) * a.capacity_used
}

/// An account after it was debited at `epoch`.
pub open spec fn debited(a: AccountView, epoch: int) -> AccountView {
    AccountView {
        credit_committed: a.credit_committed - due(a, epoch),
        last_debit_epoch: epoch,
        ..a
    }
}

/// What each account is debited at `epoch`.
pub open spec fn dues(accounts: Map<Address, AccountView>, epoch: int) -> Map<Address, int> {
    accounts.map_values(|a: AccountView| due(a, epoch))
}

/// The state after every account was debited at `epoch`: what is due moves
/// from committed to debited, in each account and in the totals.
pub open spec fn debit_all(s: StateView, epoch: int) -> StateView {
    let total = crate::sum::sum_of(dues(s.accounts, epoch));
    StateView {
        credit_committed: s.credit_committed - total,
        credit_debited: s.credit_debited + total,
        accounts: s.accounts.map_values(|a: AccountView| debited(a, epoch)),
        ..s
    }
}

/// The debit tick: the subscriptions that have ended are renewed or deleted,
/// in the given order, then every account is debited. The result holds the
/// blobs that are gone.
pub open spec fn debit_accounts(s: StateView, entries: Seq<Expired>, epoch: int) -> (
    StateView,
    Set<ids::Hash>,
) {
    let (s1, gone) = expire_all(s, entries, epoch);
    (debit_all(s1, epoch), gone)
}

/// What the refusal to overwrite a blob names: the old blob where the delete
/// is refused, else what the refusal to add names.
pub open spec fn overwrite_named(
    s: StateView,
    old_hash: ids::Hash,
    origin: Address,
    caller: Address,
    subscriber: Address,
    epoch: int,
    hash: ids::Hash,
    id: SubId,
    size: int,
    ttl: Option<int>,
    tokens: int,
) -> Named {
    match delete_blob(s, origin, caller, subscriber, epoch, old_hash, id) {
        Err(_) => naming(old_hash, id),
        Ok((s1, _)) => add_named(s1, origin, caller, subscriber, epoch, hash, id, size, ttl, tokens),
    }
}

/// Overwriting a blob: subscription `id` on blob `old_hash` is deleted, then
/// blob `hash` is added under the same id. Both happen or neither. The result
/// holds the new state, whether the old blob is gone, the new subscription,
/// and the tokens that go back to the caller.
pub open spec fn overwrite_blob(
    s: StateView,
    old_hash: ids::Hash,
    origin: Address,
    caller: Address,
    subscriber: Address,
    epoch: int,
    hash: ids::Hash,
    metadata_hash: ids::Hash,
    id: SubId,
    size: int,
    ttl: Option<int>,
    source: PublicKey,
    tokens: int,
) -> Result<(StateView, bool, SubscriptionView, int), Cause> {
    match delete_blob(s, origin, caller, subscriber, epoch, old_hash, id) {
        Err(c) => Err(c),
        Ok((s1, gone)) => match add_blob(
            s1,
            origin,
            caller,
            subscriber,
            epoch,
            hash,
            metadata_hash,
            id,
            size,
            ttl,
            source,
            tokens,
        ) {
            Err(c) => Err(c),
            Ok((s2, sub, unspent)) => Ok((s2, gone, sub, unspent)),
        },
    }
}

} // verus!
