use blobs::blob::BlobStatus;
use blobs::error::Cause;
use blobs::error::ErrorKind;
use blobs::ids::PublicKey;
use blobs::ids::SubscriptionId;
use blobs::model::AUTO_TTL;
use blobs::model::MIN_TTL;
use blobs::state::State;
use fvm_shared::address::Address;
use fvm_shared::bigint::BigInt;
use fvm_shared::bigint::BigUint;
use fvm_shared::econ::TokenAmount;

const CAPACITY: u64 = 1024 * 1024;

fn addr(n: u64) -> Address {
    Address::new_id(n)
}

fn hash(n: u8) -> blobs::ids::Hash {
    blobs::ids::Hash([n; 32])
}

fn pk(n: u8) -> PublicKey {
    PublicKey([n; 32])
}

fn key(name: &str) -> SubscriptionId {
    SubscriptionId::Key(name.as_bytes().to_vec())
}

fn no_tokens() -> TokenAmount {
    TokenAmount::from_atto(0)
}

fn big(n: i64) -> BigInt {
    BigInt::from(n)
}

/// A state in which `who` has bought `tokens` whole tokens at epoch 1.
fn funded(who: Address, tokens: u64, rate: u64) -> State {
    let mut state = State::new(CAPACITY, rate);
    state
        .buy_credit(who, TokenAmount::from_whole(tokens), 1)
        .unwrap();
    state
}

/// Adds a blob for a subscriber that pays itself, without tokens.
fn add(
    state: &mut State,
    who: Address,
    epoch: i64,
    h: blobs::ids::Hash,
    id: SubscriptionId,
    size: u64,
    ttl: Option<i64>,
) -> Result<(blobs::blob::Subscription, TokenAmount), blobs::error::ActorError> {
    state.add_blob(who, who, who, epoch, h, hash(200), id, size, ttl, pk(7), no_tokens())
}

/// What holds of every state: the totals agree with the accounts, the
/// capacity is not exceeded, and the expiry index lists the subscriptions.
fn check_ledger(state: &State) {
    let mut held = BigInt::from(0);
    let mut committed = BigInt::from(0);
    for (_, account) in state.accounts.entries.iter() {
        held += &account.credit_free + &account.credit_committed;
        committed += &account.credit_committed;
        assert!(account.credit_free >= BigInt::from(0));
    }
    assert_eq!(&state.credit_sold - &state.credit_debited, held);
    assert_eq!(state.credit_committed, committed);
    assert!(state.credit_sold >= BigInt::from(0));
    assert!(state.capacity_used <= state.capacity_total);
    let mut listed = 0;
    for (expiry, by_subscriber) in state.expiries.map.entries.iter() {
        assert!(!by_subscriber.is_empty());
        for (subscriber, by_key) in by_subscriber.entries.iter() {
            assert!(!by_key.is_empty());
            for (entry, auto_renew) in by_key.entries.iter() {
                let blob = state.blobs.get(&entry.hash).unwrap();
                let group = blob.subscribers.get(subscriber).unwrap();
                let sub = group.subscriptions.get(&entry.id).unwrap();
                assert_eq!(sub.expiry, *expiry);
                assert_eq!(sub.auto_renew, *auto_renew);
                listed += 1;
            }
        }
    }
    let mut subscriptions = 0;
    for (_, blob) in state.blobs.entries.iter() {
        assert!(!blob.subscribers.is_empty());
        for (_, group) in blob.subscribers.entries.iter() {
            assert!(!group.subscriptions.is_empty());
            subscriptions += group.subscriptions.len();
        }
    }
    assert_eq!(listed, subscriptions);
    let epochs: Vec<i64> = state.expiries.map.entries.iter().map(|e| e.0).collect();
    assert!(epochs.windows(2).all(|w| w[0] < w[1]));
}

#[test]
fn genesis_is_empty() {
    let state = State::new(CAPACITY, 3);
    assert_eq!(state.capacity_total, BigInt::from(CAPACITY));
    assert_eq!(state.capacity_used, big(0));
    assert_eq!(state.credit_sold, big(0));
    assert_eq!(state.credit_committed, big(0));
    assert_eq!(state.credit_debited, big(0));
    assert_eq!(state.credit_debit_rate, 3);
    assert!(state.accounts.is_empty());
    assert!(state.blobs.is_empty());
    assert!(state.expiries.is_empty());
    assert!(state.added.is_empty());
    assert!(state.pending.is_empty());
    check_ledger(&state);
}

#[test]
fn scenario_buy_one_token() {
    let mut state = State::new(CAPACITY, 1);
    let account = state
        .buy_credit(addr(100), TokenAmount::from_whole(1), 1)
        .unwrap();
    let atto: BigInt = "1000000000000000000".parse().unwrap();
    assert_eq!(account.credit_free, atto);
    assert_eq!(account.credit_committed, big(0));
    assert_eq!(account.capacity_used, big(0));
    assert_eq!(account.last_debit_epoch, 1);
    assert_eq!(state.credit_sold, atto);
    check_ledger(&state);
}

#[test]
fn buy_credit_multiplies_by_the_rate() {
    let mut state = State::new(CAPACITY, 7);
    state
        .buy_credit(addr(100), TokenAmount::from_atto(6), 1)
        .unwrap();
    let account = state
        .buy_credit(addr(100), TokenAmount::from_atto(5), 9)
        .unwrap();
    assert_eq!(account.credit_free, big(77));
    // The account keeps the epoch of its first purchase.
    assert_eq!(account.last_debit_epoch, 1);
    assert_eq!(state.credit_sold, big(77));
    assert_eq!(state.accounts.len(), 1);
    check_ledger(&state);
}

#[test]
fn buy_credit_of_nothing_makes_the_account() {
    let mut state = State::new(CAPACITY, 1);
    let account = state.buy_credit(addr(100), no_tokens(), 4).unwrap();
    assert_eq!(account.credit_free, big(0));
    assert_eq!(state.accounts.len(), 1);
}

#[test]
fn scenario_buy_negative_amount() {
    let mut state = State::new(CAPACITY, 1);
    let err = state
        .buy_credit(addr(100), TokenAmount::from_atto(-1), 1)
        .err()
        .unwrap();
    assert_eq!(err.cause, Cause::NegativeTokenAmount);
    assert_eq!(err.kind(), ErrorKind::IllegalArgument);
    assert_eq!(err.msg(), "token amount must be positive");
    assert!(state.accounts.is_empty());
    assert_eq!(state.credit_sold, big(0));
}

#[test]
fn buy_credit_without_capacity_left() {
    let mut state = State::new(0, 1);
    let err = state
        .buy_credit(addr(100), TokenAmount::from_whole(1), 1)
        .err()
        .unwrap();
    assert_eq!(err.cause, Cause::NoCapacity);
    assert_eq!(err.kind(), ErrorKind::Forbidden);
    assert!(state.accounts.is_empty());
}

#[test]
fn scenario_approve_below_min_ttl() {
    let mut state = State::new(CAPACITY, 1);
    let err = state
        .approve_credit(addr(100), addr(101), None, 1, None, Some(3599))
        .err()
        .unwrap();
    assert_eq!(err.cause, Cause::ApprovalTtlTooShort);
    assert_eq!(err.kind(), ErrorKind::IllegalArgument);
    assert_eq!(err.msg(), "minimum approval TTL is 3600");
    assert!(state.accounts.is_empty());
}

#[test]
fn approve_credit_sets_limit_and_expiry() {
    let mut state = State::new(CAPACITY, 1);
    let approval = state
        .approve_credit(
            addr(100),
            addr(101),
            Some(addr(102)),
            10,
            Some(BigUint::from(500u32)),
            Some(MIN_TTL),
        )
        .unwrap();
    assert_eq!(approval.limit, Some(big(500)));
    assert_eq!(approval.expiry, Some(3610));
    assert_eq!(approval.used, big(0));
    // It is found for the caller it names, and for no other.
    let found = state
        .get_credit_approval(addr(100), addr(101), addr(102))
        .unwrap();
    assert_eq!(found.limit, Some(big(500)));
    assert!(state
        .get_credit_approval(addr(100), addr(101), addr(103))
        .is_none());
    assert!(state
        .get_credit_approval(addr(101), addr(100), addr(102))
        .is_none());
    check_ledger(&state);
}

#[test]
fn approval_for_any_caller_comes_first() {
    let mut state = State::new(CAPACITY, 1);
    state
        .approve_credit(addr(100), addr(101), Some(addr(102)), 1, Some(BigUint::from(1u32)), None)
        .unwrap();
    state
        .approve_credit(addr(100), addr(101), None, 1, Some(BigUint::from(2u32)), None)
        .unwrap();
    let found = state
        .get_credit_approval(addr(100), addr(101), addr(102))
        .unwrap();
    assert_eq!(found.limit, Some(big(2)));
}

#[test]
fn revoke_credit_keeps_what_was_committed() {
    let owner = addr(100);
    let friend = addr(101);
    let mut state = funded(owner, 10, 1);
    state
        .approve_credit(owner, friend, None, 1, None, None)
        .unwrap();
    state
        .add_blob(friend, friend, owner, 1, hash(1), hash(2), SubscriptionId::Default, 1024, None, pk(1), no_tokens())
        .unwrap();
    state.revoke_credit(owner, friend, None).unwrap();
    let account = state.get_account(owner).unwrap();
    assert!(account.approvals.is_empty());
    assert_eq!(account.credit_committed, big(3600 * 1024));
    check_ledger(&state);
}

#[test]
fn revoke_credit_of_an_unknown_approval_changes_nothing() {
    let owner = addr(100);
    let mut state = funded(owner, 1, 1);
    state
        .approve_credit(owner, addr(101), None, 1, None, None)
        .unwrap();
    state.revoke_credit(owner, addr(102), None).unwrap();
    state.revoke_credit(owner, addr(101), Some(addr(103))).unwrap();
    let account = state.get_account(owner).unwrap();
    assert_eq!(account.approvals.len(), 1);
    assert!(account.approvals.get(&addr(101)).unwrap().contains_key(&addr(101)));
}

#[test]
fn scenario_add_resolve_renew() {
    let a = addr(100);
    let mut state = funded(a, 10, 1);
    add(&mut state, a, 1, hash(1), SubscriptionId::Default, 1024, None).unwrap();
    assert_eq!(state.credit_committed, big(3600 * 1024));
    state
        .set_blob_pending(a, hash(1), SubscriptionId::Default, pk(7))
        .unwrap();
    state
        .finalize_blob(a, 11, hash(1), SubscriptionId::Default, BlobStatus::Resolved)
        .unwrap();
    let account = state
        .renew_blob(a, 21, hash(1), SubscriptionId::Default)
        .unwrap();
    assert_eq!(account.credit_committed, big(3620 * 1024));
    assert_eq!(state.credit_committed, big(3620 * 1024));
    let blob = state.get_blob(hash(1)).unwrap();
    let sub = blob
        .subscribers
        .get(&a)
        .unwrap()
        .subscriptions
        .get(&SubscriptionId::Default)
        .unwrap();
    assert_eq!(sub.expiry, 21 + AUTO_TTL);
    assert_eq!(sub.added, 1);
    check_ledger(&state);
}

#[test]
fn scenario_double_add_different_id() {
    let a = addr(100);
    let mut state = funded(a, 10, 1);
    add(&mut state, a, 1, hash(1), SubscriptionId::Default, 1024, Some(3600)).unwrap();
    add(&mut state, a, 21, hash(1), key("foo"), 1024, Some(3600)).unwrap();
    let gone = state.debit_accounts(3611).unwrap();
    assert!(gone.is_empty());
    let blob = state.get_blob(hash(1)).unwrap();
    let group = blob.subscribers.get(&a).unwrap();
    assert_eq!(group.subscriptions.len(), 1);
    assert!(group.subscriptions.contains_key(&key("foo")));
    let account = state.get_account(a).unwrap();
    assert_eq!(account.capacity_used, big(1024));
    assert_eq!(state.credit_committed, big(10 * 1024));
    check_ledger(&state);
}

#[test]
fn scenario_delete_refund() {
    let a = addr(100);
    let mut state = funded(a, 10, 1);
    add(&mut state, a, 1, hash(1), SubscriptionId::Default, 1024, Some(3600)).unwrap();
    add(&mut state, a, 3610, hash(2), SubscriptionId::Default, 2048, Some(3600)).unwrap();
    let gone = state
        .delete_blob(a, a, a, 3620, hash(1), SubscriptionId::Default)
        .unwrap();
    assert!(gone);
    assert_eq!(state.credit_committed, big(3600 * 2048));
    assert_eq!(state.capacity_used, big(2048));
    assert_eq!(state.credit_debited, big(3600 * 1024));
    check_ledger(&state);
}

#[test]
fn scenario_failed_refund() {
    let a = addr(100);
    let mut state = funded(a, 10, 1);
    add(&mut state, a, 1, hash(1), SubscriptionId::Default, 1024, None).unwrap();
    state.debit_accounts(11).unwrap();
    assert_eq!(state.credit_debited, big(10 * 1024));
    state
        .set_blob_pending(a, hash(1), SubscriptionId::Default, pk(7))
        .unwrap();
    state
        .finalize_blob(a, 21, hash(1), SubscriptionId::Default, BlobStatus::Failed)
        .unwrap();
    assert_eq!(state.capacity_used, big(0));
    assert_eq!(state.credit_committed, big(0));
    assert_eq!(state.credit_debited, big(0));
    let account = state.get_account(a).unwrap();
    assert_eq!(account.credit_free, state.credit_sold);
    check_ledger(&state);
}

#[test]
fn add_blob_again_commits_nothing() {
    let a = addr(100);
    let mut state = funded(a, 10, 1);
    add(&mut state, a, 5, hash(1), SubscriptionId::Default, 1024, Some(4000)).unwrap();
    let before = state.get_account(a).unwrap();
    let (sub, unspent) = state
        .add_blob(a, a, a, 5, hash(1), hash(2), SubscriptionId::Default, 1024, Some(4000), pk(9), TokenAmount::from_atto(12))
        .unwrap();
    let after = state.get_account(a).unwrap();
    assert_eq!(after.credit_free, before.credit_free);
    assert_eq!(after.credit_committed, before.credit_committed);
    assert_eq!(after.capacity_used, before.capacity_used);
    // All tokens come back, and the source is the new one.
    assert_eq!(unspent, TokenAmount::from_atto(12));
    assert_eq!(sub.source, pk(9));
    assert_eq!(sub.expiry, 4005);
    assert_eq!(state.expiries.len(), 1);
    check_ledger(&state);
}

#[test]
fn finalize_resolved_again_changes_nothing() {
    let a = addr(100);
    let mut state = funded(a, 10, 1);
    add(&mut state, a, 1, hash(1), SubscriptionId::Default, 1024, None).unwrap();
    state
        .set_blob_pending(a, hash(1), SubscriptionId::Default, pk(7))
        .unwrap();
    state
        .finalize_blob(a, 2, hash(1), SubscriptionId::Default, BlobStatus::Resolved)
        .unwrap();
    let committed = state.credit_committed.clone();
    // Neither a second resolution nor a late failure changes anything, not even
    // for a subscriber that the blob does not have.
    state
        .finalize_blob(a, 3, hash(1), SubscriptionId::Default, BlobStatus::Resolved)
        .unwrap();
    state
        .finalize_blob(addr(101), 4, hash(1), key("none"), BlobStatus::Failed)
        .unwrap();
    assert_eq!(
        state.get_blob_status(a, hash(1), SubscriptionId::Default),
        Some(BlobStatus::Resolved)
    );
    assert_eq!(state.credit_committed, committed);
    assert_eq!(state.accounts.len(), 1);
    check_ledger(&state);
}

#[test]
fn delete_missing_blob_reports_false() {
    let a = addr(100);
    let mut state = funded(a, 1, 1);
    let gone = state
        .delete_blob(addr(101), addr(102), a, 5, hash(1), SubscriptionId::Default)
        .unwrap();
    assert!(!gone);
    assert_eq!(state.accounts.len(), 1);
    assert!(state.blobs.is_empty());
}

#[test]
fn add_then_delete_gives_free_credit_and_capacity_back() {
    let a = addr(100);
    let mut state = funded(a, 10, 1);
    add(&mut state, a, 1, hash(1), SubscriptionId::Default, 512, None).unwrap();
    let before = state.get_account(a).unwrap();
    let used = state.capacity_used.clone();
    add(&mut state, a, 50, hash(2), SubscriptionId::Default, 1024, Some(5000)).unwrap();
    let gone = state
        .delete_blob(a, a, a, 50, hash(2), SubscriptionId::Default)
        .unwrap();
    assert!(gone);
    let after = state.get_account(a).unwrap();
    assert_eq!(after.credit_free, before.credit_free);
    assert_eq!(after.capacity_used, before.capacity_used);
    assert_eq!(state.capacity_used, used);
    // Only the debit of the first blob up to the epoch has moved.
    assert_eq!(after.credit_committed, before.credit_committed - big(49 * 512));
    assert_eq!(after.credit_committed, big(3600 * 512 - 49 * 512));
    assert_eq!(state.credit_committed, big(3600 * 512 - 49 * 512));
    assert_eq!(state.credit_debited, big(49 * 512));
    assert_eq!(after.last_debit_epoch, 50);
    assert_eq!(state.blobs.len(), 1);
    check_ledger(&state);
}

#[test]
fn add_then_delete_at_one_epoch_restores_the_ledger() {
    let a = addr(1);
    let mut state = funded(a, 10, 1);
    let before = state.get_account(a).unwrap();
    add(&mut state, a, 1, hash(1), SubscriptionId::Default, 1024, None).unwrap();
    assert_eq!(state.credit_committed, big(3600 * 1024));
    let gone = state
        .delete_blob(a, a, a, 1, hash(1), SubscriptionId::Default)
        .unwrap();
    assert!(gone);
    let after = state.get_account(a).unwrap();
    assert_eq!(after.credit_free, BigInt::from(10_000_000_000_000_000_000u64));
    assert_eq!(after.credit_free, before.credit_free);
    assert_eq!(after.credit_committed, big(0));
    assert_eq!(after.capacity_used, big(0));
    assert_eq!(state.credit_sold, BigInt::from(10_000_000_000_000_000_000u64));
    assert_eq!(state.credit_committed, big(0));
    assert_eq!(state.credit_debited, big(0));
    assert_eq!(state.capacity_used, big(0));
    assert!(state.blobs.is_empty());
    assert!(state.expiries.is_empty());
    assert!(state.added.is_empty());
    assert!(state.pending.is_empty());
    check_ledger(&state);
}

#[test]
fn add_then_delete_after_the_tick_of_the_epoch() {
    let a = addr(1);
    let mut state = funded(a, 10, 1);
    add(&mut state, a, 1, hash(1), SubscriptionId::Default, 1024, Some(4000)).unwrap();
    state.debit_accounts(11).unwrap();
    assert_eq!(state.credit_debited, big(10 * 1024));
    let before = state.get_account(a).unwrap();
    add(&mut state, a, 11, hash(2), key("k"), 2048, None).unwrap();
    assert!(state.delete_blob(a, a, a, 11, hash(2), key("k")).unwrap());
    let after = state.get_account(a).unwrap();
    assert_eq!(after.credit_free, before.credit_free);
    assert_eq!(after.credit_committed, before.credit_committed);
    assert_eq!(after.credit_committed, big(3990 * 1024));
    assert_eq!(after.capacity_used, big(1024));
    assert_eq!(state.credit_committed, big(3990 * 1024));
    assert_eq!(state.credit_debited, big(10 * 1024));
    assert_eq!(state.capacity_used, big(1024));
    check_ledger(&state);
}

#[test]
fn delete_within_the_coverage_debits_nothing_twice() {
    let a = addr(1);
    let mut state = funded(a, 10, 1);
    add(&mut state, a, 1, hash(1), SubscriptionId::Default, 1024, Some(4000)).unwrap();
    state.debit_accounts(101).unwrap();
    // The account is debited up to the epoch of the delete already.
    assert!(state.delete_blob(a, a, a, 101, hash(1), SubscriptionId::Default).unwrap());
    let after = state.get_account(a).unwrap();
    assert_eq!(state.credit_debited, big(100 * 1024));
    assert_eq!(state.credit_committed, big(0));
    assert_eq!(after.credit_committed, big(0));
    assert_eq!(
        after.credit_free,
        BigInt::from(10_000_000_000_000_000_000u64) - big(100 * 1024)
    );
    check_ledger(&state);
}

#[test]
fn add_blob_with_short_ttl() {
    let a = addr(100);
    let mut state = funded(a, 10, 1);
    let err = add(&mut state, a, 1, hash(1), SubscriptionId::Default, 1024, Some(MIN_TTL - 1))
        .err()
        .unwrap();
    assert_eq!(err.cause, Cause::BlobTtlTooShort);
    assert_eq!(err.kind(), ErrorKind::IllegalArgument);
    assert_eq!(err.msg(), "minimum blob TTL is 3600");
    assert!(state.blobs.is_empty());
}

#[test]
fn add_blob_without_approval() {
    let owner = addr(100);
    let mut state = funded(owner, 10, 1);
    let err = state
        .add_blob(addr(101), addr(101), owner, 1, hash(1), hash(2), SubscriptionId::Default, 1024, None, pk(1), no_tokens())
        .err()
        .unwrap();
    assert_eq!(err.cause, Cause::ApprovalNotFound);
    assert_eq!(err.kind(), ErrorKind::Forbidden);
    assert_eq!(
        err.msg(),
        format!("approval from {} to {} via caller {} not found", owner, addr(101), addr(101))
    );
    assert!(state.blobs.is_empty());
}

#[test]
fn add_blob_beyond_capacity() {
    let a = addr(100);
    let mut state = State::new(1000, 1);
    state
        .buy_credit(a, TokenAmount::from_whole(10), 1)
        .unwrap();
    add(&mut state, a, 1, hash(1), SubscriptionId::Default, 600, None).unwrap();
    let err = add(&mut state, a, 1, hash(2), SubscriptionId::Default, 401, None)
        .err()
        .unwrap();
    assert_eq!(err.cause, Cause::InsufficientCapacity);
    assert_eq!(err.kind(), ErrorKind::Forbidden);
    assert_eq!(
        err.msg(),
        "subnet has insufficient storage capacity (available: 400; required: 401)"
    );
    // What fits exactly is taken, and then no credit is sold any more.
    add(&mut state, a, 1, hash(2), SubscriptionId::Default, 400, None).unwrap();
    assert_eq!(state.capacity_used, big(1000));
    let err = state
        .buy_credit(a, TokenAmount::from_atto(1), 2)
        .err()
        .unwrap();
    assert_eq!(err.cause, Cause::NoCapacity);
    check_ledger(&state);
}

#[test]
fn add_blob_with_tokens_on_a_delegated_call() {
    let owner = addr(100);
    let friend = addr(101);
    let mut state = funded(owner, 10, 1);
    state
        .approve_credit(owner, friend, None, 1, None, None)
        .unwrap();
    let err = state
        .add_blob(friend, friend, owner, 1, hash(1), hash(2), SubscriptionId::Default, 1024, None, pk(1), TokenAmount::from_atto(1))
        .err()
        .unwrap();
    assert_eq!(err.cause, Cause::InlineBuyWithDelegation);
    assert_eq!(err.kind(), ErrorKind::IllegalArgument);
    assert_eq!(err.msg(), format!("can not buy credits inline for {}", owner));
}

#[test]
fn add_blob_without_credit() {
    let a = addr(100);
    let mut state = State::new(CAPACITY, 1);
    state.buy_credit(a, TokenAmount::from_atto(100), 1).unwrap();
    let err = add(&mut state, a, 1, hash(1), SubscriptionId::Default, 1, None)
        .err()
        .unwrap();
    assert_eq!(err.cause, Cause::InsufficientCredit);
    assert_eq!(err.kind(), ErrorKind::InsufficientFunds);
    assert_eq!(
        err.msg(),
        format!("account {} has insufficient credit (available: 100; required: 3600)", a)
    );
    assert!(state.blobs.is_empty());
    assert!(state.expiries.is_empty());
    assert!(state.added.is_empty());
}

#[test]
fn add_blob_buys_what_is_missing() {
    let a = addr(100);
    let mut state = State::new(CAPACITY, 1);
    state.buy_credit(a, TokenAmount::from_atto(100), 1).unwrap();
    // 3600 are needed and 100 are there: 3500 tokens buy the rest, 1500 go back.
    let (_, unspent) = state
        .add_blob(a, a, a, 1, hash(1), hash(2), SubscriptionId::Default, 1, None, pk(1), TokenAmount::from_atto(5000))
        .unwrap();
    assert_eq!(unspent, TokenAmount::from_atto(1500));
    assert_eq!(state.credit_sold, big(3600));
    let account = state.get_account(a).unwrap();
    assert_eq!(account.credit_free, big(0));
    assert_eq!(account.credit_committed, big(3600));
    check_ledger(&state);
}

#[test]
fn add_blob_buys_at_a_price_rounded_down() {
    let a = addr(100);
    let mut state = State::new(CAPACITY, 7);
    // 3600 credits at 7 credits a token cost 514 tokens, the remainder is not
    // charged.
    let (_, unspent) = state
        .add_blob(a, a, a, 1, hash(1), hash(2), SubscriptionId::Default, 1, None, pk(1), TokenAmount::from_atto(514))
        .unwrap();
    assert_eq!(unspent, TokenAmount::from_atto(0));
    assert_eq!(state.credit_sold, big(3600));
    check_ledger(&state);
}

#[test]
fn add_blob_with_too_few_tokens() {
    let a = addr(100);
    let mut state = State::new(CAPACITY, 7);
    let err = state
        .add_blob(a, a, a, 1, hash(1), hash(2), SubscriptionId::Default, 1, None, pk(1), TokenAmount::from_atto(513))
        .err()
        .unwrap();
    assert_eq!(err.cause, Cause::InsufficientTokens);
    assert_eq!(err.kind(), ErrorKind::InsufficientFunds);
    assert_eq!(
        err.msg(),
        format!(
            "account {} sent insufficient tokens (received: {}; required: {})",
            a,
            TokenAmount::from_atto(513),
            TokenAmount::from_atto(514)
        )
    );
    assert!(state.accounts.is_empty());
    assert_eq!(state.credit_sold, big(0));
}

#[test]
fn add_blob_beyond_the_approval_limit() {
    let owner = addr(100);
    let friend = addr(101);
    let mut state = funded(owner, 10, 1);
    state
        .approve_credit(owner, friend, None, 1, Some(BigUint::from(3600u32 * 1024 + 10)), None)
        .unwrap();
    state
        .add_blob(friend, friend, owner, 1, hash(1), hash(2), SubscriptionId::Default, 1024, None, pk(1), no_tokens())
        .unwrap();
    let err = state
        .add_blob(friend, friend, owner, 1, hash(2), hash(2), SubscriptionId::Default, 1, None, pk(1), no_tokens())
        .err()
        .unwrap();
    assert_eq!(err.cause, Cause::ApprovalExhausted);
    assert_eq!(err.kind(), ErrorKind::InsufficientFunds);
    assert_eq!(
        err.msg(),
        format!(
            "approval from {} to {} via caller {} has insufficient credit (available: 10; required: 3600)",
            owner, friend, friend
        )
    );
    let approval = state.get_credit_approval(owner, friend, friend).unwrap();
    assert_eq!(approval.used, big(3600 * 1024));
    check_ledger(&state);
}

#[test]
fn add_blob_through_an_expired_approval() {
    let owner = addr(100);
    let friend = addr(101);
    let mut state = funded(owner, 10, 1);
    state
        .approve_credit(owner, friend, None, 1, None, Some(3600))
        .unwrap();
    // The approval holds up to the epoch before its expiry.
    state
        .add_blob(friend, friend, owner, 3600, hash(1), hash(2), SubscriptionId::Default, 1, None, pk(1), no_tokens())
        .unwrap();
    let err = state
        .add_blob(friend, friend, owner, 3601, hash(2), hash(2), SubscriptionId::Default, 1, None, pk(1), no_tokens())
        .err()
        .unwrap();
    assert_eq!(err.cause, Cause::ApprovalExpired);
    assert_eq!(err.kind(), ErrorKind::Forbidden);
    assert_eq!(
        err.msg(),
        format!("approval from {} to {} via caller {} expired", owner, friend, friend)
    );
}

#[test]
fn add_blob_that_shrinks_the_coverage_releases_credit() {
    let a = addr(100);
    let mut state = funded(a, 10, 1);
    add(&mut state, a, 1, hash(1), SubscriptionId::Default, 1024, Some(10000)).unwrap();
    let before = state.get_account(a).unwrap();
    add(&mut state, a, 1, hash(1), SubscriptionId::Default, 1024, Some(4000)).unwrap();
    let after = state.get_account(a).unwrap();
    assert_eq!(after.credit_committed, big(4000 * 1024));
    assert_eq!(&after.credit_free - &before.credit_free, big(6000 * 1024));
    assert_eq!(state.expiries.len(), 1);
    check_ledger(&state);
}

#[test]
fn add_blob_resets_a_failed_blob() {
    let a = addr(100);
    let mut state = funded(a, 10, 1);
    add(&mut state, a, 1, hash(1), SubscriptionId::Default, 1024, None).unwrap();
    state
        .set_blob_pending(a, hash(1), SubscriptionId::Default, pk(7))
        .unwrap();
    state
        .finalize_blob(a, 2, hash(1), SubscriptionId::Default, BlobStatus::Failed)
        .unwrap();
    let (sub, _) = add(&mut state, a, 3, hash(1), SubscriptionId::Default, 1024, None).unwrap();
    assert!(!sub.failed);
    assert_eq!(
        state.get_blob_status(a, hash(1), SubscriptionId::Default),
        Some(BlobStatus::Added)
    );
    assert_eq!(state.added.len(), 1);
    check_ledger(&state);
}

#[test]
fn renew_unknown_blob() {
    let a = addr(100);
    let mut state = funded(a, 10, 1);
    let err = state
        .renew_blob(a, 5, hash(1), SubscriptionId::Default)
        .err()
        .unwrap();
    assert_eq!(err.cause, Cause::BlobNotFound);
    assert_eq!(err.kind(), ErrorKind::NotFound);
    assert_eq!(err.msg(), format!("blob {} not found", "01".repeat(32)));
}

#[test]
fn renew_failed_blob() {
    let a = addr(100);
    let mut state = funded(a, 10, 1);
    add(&mut state, a, 1, hash(1), SubscriptionId::Default, 1024, None).unwrap();
    state
        .set_blob_pending(a, hash(1), SubscriptionId::Default, pk(7))
        .unwrap();
    state
        .finalize_blob(a, 2, hash(1), SubscriptionId::Default, BlobStatus::Failed)
        .unwrap();
    let err = state
        .renew_blob(a, 5, hash(1), SubscriptionId::Default)
        .err()
        .unwrap();
    assert_eq!(err.cause, Cause::RenewFailedBlob);
    assert_eq!(err.kind(), ErrorKind::Forbidden);
    assert_eq!(err.msg(), format!("cannot renew failed blob {}", "01".repeat(32)));
}

#[test]
fn renew_for_a_stranger() {
    let a = addr(100);
    let mut state = funded(a, 10, 1);
    add(&mut state, a, 1, hash(1), SubscriptionId::Default, 1024, None).unwrap();
    let err = state
        .renew_blob(addr(101), 5, hash(1), SubscriptionId::Default)
        .err()
        .unwrap();
    assert_eq!(err.cause, Cause::NotSubscribed);
    assert_eq!(err.kind(), ErrorKind::Forbidden);
    assert_eq!(
        err.msg(),
        format!("subscriber {} is not subscribed to blob {}", addr(101), "01".repeat(32))
    );
    assert_eq!(state.accounts.len(), 1);
}

#[test]
fn renew_unknown_subscription() {
    let a = addr(100);
    let mut state = funded(a, 10, 1);
    add(&mut state, a, 1, hash(1), SubscriptionId::Default, 1024, None).unwrap();
    let err = state.renew_blob(a, 5, hash(1), key("foo")).err().unwrap();
    assert_eq!(err.cause, Cause::SubscriptionNotFound);
    assert_eq!(err.kind(), ErrorKind::NotFound);
    assert_eq!(err.msg(), "subscription id 666f6f not found");
}

#[test]
fn renew_after_the_approval_was_revoked() {
    let owner = addr(100);
    let friend = addr(101);
    let mut state = funded(owner, 10, 1);
    state
        .approve_credit(owner, friend, None, 1, None, None)
        .unwrap();
    state
        .add_blob(friend, friend, owner, 1, hash(1), hash(2), SubscriptionId::Default, 1024, None, pk(1), no_tokens())
        .unwrap();
    state.revoke_credit(owner, friend, None).unwrap();
    let err = state
        .renew_blob(owner, 5, hash(1), SubscriptionId::Default)
        .err()
        .unwrap();
    assert_eq!(err.cause, Cause::ApprovalNotFound);
    assert_eq!(
        err.msg(),
        format!("approval from {} to {} via caller {} not found", owner, friend, friend)
    );
    // The tick deletes what it cannot renew.
    let gone = state.debit_accounts(3601).unwrap();
    assert_eq!(gone, vec![hash(1)]);
    assert!(state.blobs.is_empty());
    check_ledger(&state);
}

#[test]
fn finalize_from_added() {
    let a = addr(100);
    let mut state = funded(a, 10, 1);
    add(&mut state, a, 1, hash(1), SubscriptionId::Default, 1024, None).unwrap();
    let err = state
        .finalize_blob(a, 2, hash(1), SubscriptionId::Default, BlobStatus::Resolved)
        .err()
        .unwrap();
    assert_eq!(err.cause, Cause::FinalizeFromAdded);
    assert_eq!(err.kind(), ErrorKind::IllegalState);
    assert_eq!(
        err.msg(),
        format!("blob {} cannot be finalized from status added", hash(1).to_string())
    );
}

#[test]
fn finalize_as_added() {
    let a = addr(100);
    let mut state = funded(a, 10, 1);
    let err = state
        .finalize_blob(a, 2, hash(1), SubscriptionId::Default, BlobStatus::Added)
        .err()
        .unwrap();
    assert_eq!(err.cause, Cause::FinalizeAsNonFinal);
    assert_eq!(err.kind(), ErrorKind::IllegalState);
    assert_eq!(
        err.msg(),
        format!("cannot finalize blob {} as added or pending", "01".repeat(32))
    );
}

#[test]
fn finalize_as_pending_leaves_the_blob_as_it_is() {
    let a = addr(1);
    let mut state = funded(a, 10, 1);
    add(&mut state, a, 1, hash(1), SubscriptionId::Default, 1024, None).unwrap();
    for status in [BlobStatus::Pending, BlobStatus::Added] {
        let err = state
            .finalize_blob(a, 11, hash(1), SubscriptionId::Default, status)
            .err()
            .unwrap();
        assert_eq!(err.cause, Cause::FinalizeAsNonFinal);
        assert_eq!(
            err.msg(),
            format!("cannot finalize blob {} as added or pending", hash(1).to_string())
        );
    }
    assert_eq!(
        state.get_blob_status(a, hash(1), SubscriptionId::Default),
        Some(BlobStatus::Added)
    );
    assert_eq!(state.credit_committed, big(3600 * 1024));
    assert_eq!(state.credit_debited, big(0));
    assert_eq!(state.capacity_used, big(1024));
    assert_eq!(state.expiries.len(), 1);
    assert_eq!(state.added.len(), 1);
    assert!(state.pending.is_empty());
    check_ledger(&state);
}

#[test]
fn finalize_missing_blob_changes_nothing() {
    let a = addr(100);
    let mut state = funded(a, 10, 1);
    state
        .finalize_blob(addr(101), 2, hash(1), SubscriptionId::Default, BlobStatus::Failed)
        .unwrap();
    assert_eq!(state.accounts.len(), 1);
    assert!(state.blobs.is_empty());
}

#[test]
fn finalize_for_a_stranger_or_an_unknown_subscription() {
    let a = addr(100);
    let mut state = funded(a, 10, 1);
    add(&mut state, a, 1, hash(1), SubscriptionId::Default, 1024, None).unwrap();
    state
        .set_blob_pending(a, hash(1), SubscriptionId::Default, pk(7))
        .unwrap();
    let err = state
        .finalize_blob(addr(101), 2, hash(1), SubscriptionId::Default, BlobStatus::Resolved)
        .err()
        .unwrap();
    assert_eq!(err.cause, Cause::NotSubscribed);
    assert_eq!(
        err.msg(),
        format!("subscriber {} is not subscribed to blob {}", addr(101), "01".repeat(32))
    );
    let err = state
        .finalize_blob(a, 2, hash(1), key("foo"), BlobStatus::Failed)
        .err()
        .unwrap();
    assert_eq!(err.cause, Cause::SubscriptionNotFound);
    assert_eq!(
        state.get_blob_status(a, hash(1), SubscriptionId::Default),
        Some(BlobStatus::Pending)
    );
}

#[test]
fn failed_blob_is_pending_for_a_subscription_that_did_not_fail() {
    let a = addr(100);
    let mut state = funded(a, 10, 1);
    add(&mut state, a, 1, hash(1), SubscriptionId::Default, 1024, None).unwrap();
    add(&mut state, a, 1, hash(1), key("foo"), 1024, None).unwrap();
    state
        .set_blob_pending(a, hash(1), SubscriptionId::Default, pk(7))
        .unwrap();
    state
        .finalize_blob(a, 2, hash(1), SubscriptionId::Default, BlobStatus::Failed)
        .unwrap();
    assert_eq!(
        state.get_blob_status(a, hash(1), SubscriptionId::Default),
        Some(BlobStatus::Failed)
    );
    assert_eq!(
        state.get_blob_status(a, hash(1), key("foo")),
        Some(BlobStatus::Pending)
    );
    assert_eq!(state.get_blob_status(a, hash(1), key("bar")), None);
    assert_eq!(
        state.get_blob_status(addr(101), hash(1), SubscriptionId::Default),
        None
    );
    assert_eq!(
        state.get_blob_status(a, hash(2), SubscriptionId::Default),
        None
    );
    // The group still covers the blob, so no capacity was released.
    assert_eq!(state.capacity_used, big(1024));
    check_ledger(&state);
}

#[test]
fn failed_refund_stops_at_the_next_subscription() {
    let a = addr(100);
    let mut state = funded(a, 10, 1);
    add(&mut state, a, 1, hash(1), SubscriptionId::Default, 1024, None).unwrap();
    add(&mut state, a, 6, hash(1), key("foo"), 1024, None).unwrap();
    state.debit_accounts(11).unwrap();
    assert_eq!(state.credit_debited, big(10 * 1024));
    state
        .set_blob_pending(a, hash(1), SubscriptionId::Default, pk(7))
        .unwrap();
    state
        .finalize_blob(a, 12, hash(1), SubscriptionId::Default, BlobStatus::Failed)
        .unwrap();
    // The five epochs before the second subscription began are given back.
    assert_eq!(state.credit_debited, big(5 * 1024));
    assert_eq!(state.credit_committed, big((3606 - 11) * 1024));
    check_ledger(&state);
}

#[test]
fn delete_by_a_stranger() {
    let a = addr(100);
    let mut state = funded(a, 10, 1);
    add(&mut state, a, 1, hash(1), SubscriptionId::Default, 1024, None).unwrap();
    let err = state
        .delete_blob(addr(101), addr(101), a, 2, hash(1), SubscriptionId::Default)
        .err()
        .unwrap();
    assert_eq!(err.cause, Cause::NotSubscriber);
    assert_eq!(err.kind(), ErrorKind::Forbidden);
    assert_eq!(
        err.msg(),
        format!("origin {} is not subscriber {} for blob {}", addr(101), a, "01".repeat(32))
    );
    let err = state
        .delete_blob(addr(101), addr(101), addr(101), 2, hash(1), SubscriptionId::Default)
        .err()
        .unwrap();
    assert_eq!(err.cause, Cause::NotSubscribed);
    let err = state
        .delete_blob(a, a, a, 2, hash(1), key("foo"))
        .err()
        .unwrap();
    assert_eq!(err.cause, Cause::SubscriptionNotFound);
    assert_eq!(state.blobs.len(), 1);
    assert_eq!(state.accounts.len(), 1);
}

#[test]
fn delete_by_another_delegate() {
    let owner = addr(100);
    let friend = addr(101);
    let other = addr(102);
    let mut state = funded(owner, 10, 1);
    state
        .approve_credit(owner, friend, None, 1, None, None)
        .unwrap();
    state
        .approve_credit(owner, other, None, 1, None, None)
        .unwrap();
    state
        .add_blob(friend, friend, owner, 1, hash(1), hash(2), SubscriptionId::Default, 1024, None, pk(1), no_tokens())
        .unwrap();
    let err = state
        .delete_blob(other, other, owner, 2, hash(1), SubscriptionId::Default)
        .err()
        .unwrap();
    assert_eq!(err.cause, Cause::NotDelegate);
    assert_eq!(err.kind(), ErrorKind::Forbidden);
    assert_eq!(
        err.msg(),
        format!(
            "origin {} is not delegate origin {} or caller {} is not delegate caller {} or subscriber {} for blob {}",
            other,
            friend,
            other,
            friend,
            owner,
            "01".repeat(32)
        )
    );
    // The delegate that paid may delete, and its approval counts the credit as
    // no longer used.
    let gone = state
        .delete_blob(friend, friend, owner, 2, hash(1), SubscriptionId::Default)
        .unwrap();
    assert!(gone);
    let approval = state.get_credit_approval(owner, friend, friend).unwrap();
    assert_eq!(approval.used, big(1024));
    check_ledger(&state);
}

#[test]
fn delete_after_the_approval_was_revoked() {
    let owner = addr(100);
    let friend = addr(101);
    let mut state = funded(owner, 10, 1);
    state
        .approve_credit(owner, friend, None, 1, None, None)
        .unwrap();
    state
        .add_blob(friend, friend, owner, 1, hash(1), hash(2), SubscriptionId::Default, 1024, None, pk(1), no_tokens())
        .unwrap();
    state.revoke_credit(owner, friend, None).unwrap();
    let err = state
        .delete_blob(friend, friend, owner, 2, hash(1), SubscriptionId::Default)
        .err()
        .unwrap();
    assert_eq!(err.cause, Cause::ApprovalNotFound);
    // The subscriber itself may still delete.
    assert!(state
        .delete_blob(owner, owner, owner, 2, hash(1), SubscriptionId::Default)
        .unwrap());
    check_ledger(&state);
}

#[test]
fn delete_through_an_expired_approval() {
    let owner = addr(100);
    let friend = addr(101);
    let mut state = funded(owner, 10, 1);
    state
        .approve_credit(owner, friend, None, 1, None, Some(3600))
        .unwrap();
    state
        .add_blob(friend, friend, owner, 1, hash(1), hash(2), SubscriptionId::Default, 1024, Some(5000), pk(1), no_tokens())
        .unwrap();
    let err = state
        .delete_blob(friend, friend, owner, 3601, hash(1), SubscriptionId::Default)
        .err()
        .unwrap();
    assert_eq!(err.cause, Cause::ApprovalExpired);
}

#[test]
fn delete_a_subscription_that_covers_no_epoch() {
    let a = addr(100);
    let mut state = funded(a, 10, 1);
    // Before epoch zero a subscription can end at or before epoch zero, and then
    // it covers nothing.
    add(&mut state, a, -5000, hash(1), SubscriptionId::Default, 1024, None).unwrap();
    let err = state
        .delete_blob(a, a, a, -4000, hash(1), SubscriptionId::Default)
        .err()
        .unwrap();
    assert_eq!(err.cause, Cause::NoGroupExpiry);
    assert_eq!(err.kind(), ErrorKind::IllegalState);
    assert_eq!(
        err.msg(),
        format!("subscriptions of {} to blob {} cover no epoch", a, "01".repeat(32))
    );
}

#[test]
fn add_on_a_ledger_that_sells_no_credit_per_token() {
    let a = addr(1);
    let mut state = State::new(CAPACITY, 0);
    // Nothing is bought where nothing is missing, and no tokens are taken.
    let err = add(&mut state, a, 1, hash(1), SubscriptionId::Default, 1024, None)
        .err()
        .unwrap();
    assert_eq!(err.cause, Cause::InsufficientCredit);
    assert_eq!(
        err.msg(),
        format!("account {} has insufficient credit (available: 0; required: 3686400)", a)
    );
    let (sub, unspent) = state
        .add_blob(a, a, a, 1, hash(1), hash(2), SubscriptionId::Default, 0, None, pk(1), TokenAmount::from_atto(5))
        .unwrap();
    assert_eq!(sub.expiry, 3601);
    assert_eq!(unspent, TokenAmount::from_atto(5));
    assert_eq!(state.credit_sold, big(0));
    check_ledger(&state);
}

#[test]
fn second_blob_after_the_first_ended_is_debited_past_what_was_committed() {
    let a = addr(1);
    let mut state = funded(a, 10, 1);
    add(&mut state, a, 1, hash(1), SubscriptionId::Default, 1024, Some(3600)).unwrap();
    // No tick came at the end of the first blob: the account is debited for
    // ten epochs more than it had committed.
    add(&mut state, a, 3611, hash(2), SubscriptionId::Default, 1, None).unwrap();
    assert_eq!(state.credit_debited, big(3610 * 1024));
    assert_eq!(state.credit_committed, big(3600 - 10 * 1024));
    assert_eq!(state.credit_committed, big(-6640));
    check_ledger(&state);
    // The tick deletes the first blob, and what was debited past its end goes back.
    let gone = state.debit_accounts(3611).unwrap();
    assert_eq!(gone, vec![hash(1)]);
    assert_eq!(state.credit_debited, big(3600 * 1024));
    assert_eq!(state.credit_committed, big(3600));
    assert_eq!(state.capacity_used, big(1));
    check_ledger(&state);
}

#[test]
fn failed_blob_added_again_is_released_twice() {
    let a = addr(1);
    let mut state = funded(a, 10, 1);
    add(&mut state, a, 1, hash(1), SubscriptionId::Default, 1024, None).unwrap();
    state
        .set_blob_pending(a, hash(1), SubscriptionId::Default, pk(7))
        .unwrap();
    state
        .finalize_blob(a, 1, hash(1), SubscriptionId::Default, BlobStatus::Failed)
        .unwrap();
    assert_eq!(state.capacity_used, big(0));
    assert_eq!(state.credit_committed, big(0));
    // Adding again counts no capacity, as the blob and the group are there.
    add(&mut state, a, 1, hash(1), SubscriptionId::Default, 1024, None).unwrap();
    assert_eq!(state.capacity_used, big(0));
    assert!(state.delete_blob(a, a, a, 1, hash(1), SubscriptionId::Default).unwrap());
    assert_eq!(state.capacity_used, big(-1024));
    assert_eq!(state.get_account(a).unwrap().capacity_used, big(-1024));
    assert!(state.blobs.is_empty());
}

#[test]
fn delete_one_of_two_subscribers_keeps_the_blob() {
    let a = addr(100);
    let b = addr(101);
    let mut state = funded(a, 10, 1);
    state.buy_credit(b, TokenAmount::from_whole(10), 1).unwrap();
    add(&mut state, a, 1, hash(1), SubscriptionId::Default, 1024, None).unwrap();
    add(&mut state, b, 1, hash(1), SubscriptionId::Default, 1024, None).unwrap();
    // The subnet counts the blob once, each subscriber in full.
    assert_eq!(state.capacity_used, big(1024));
    assert_eq!(state.get_account(a).unwrap().capacity_used, big(1024));
    assert_eq!(state.get_account(b).unwrap().capacity_used, big(1024));
    let gone = state
        .delete_blob(a, a, a, 1, hash(1), SubscriptionId::Default)
        .unwrap();
    assert!(!gone);
    assert_eq!(state.capacity_used, big(1024));
    assert_eq!(state.get_account(a).unwrap().capacity_used, big(0));
    let gone = state
        .delete_blob(b, b, b, 1, hash(1), SubscriptionId::Default)
        .unwrap();
    assert!(gone);
    assert_eq!(state.capacity_used, big(0));
    check_ledger(&state);
}

#[test]
fn set_pending_moves_the_blob_between_the_lists() {
    let a = addr(100);
    let mut state = funded(a, 10, 1);
    add(&mut state, a, 1, hash(1), SubscriptionId::Default, 1024, None).unwrap();
    assert_eq!(state.added.len(), 1);
    assert_eq!(state.pending.len(), 0);
    state
        .set_blob_pending(a, hash(1), SubscriptionId::Default, pk(7))
        .unwrap();
    assert_eq!(state.added.len(), 0);
    assert_eq!(state.pending.len(), 1);
    assert_eq!(
        state.get_blob_status(a, hash(1), SubscriptionId::Default),
        Some(BlobStatus::Pending)
    );
    // A blob that is gone is not listed.
    state
        .set_blob_pending(a, hash(2), SubscriptionId::Default, pk(7))
        .unwrap();
    assert_eq!(state.pending.len(), 1);
    let pending = state.get_pending_blobs(10);
    assert_eq!(pending.len(), 1);
    assert_eq!(pending[0].0, hash(1));
    assert_eq!(pending[0].1, vec![(a, SubscriptionId::Default, pk(7))]);
}

#[test]
fn added_blobs_come_in_order_of_hash() {
    let a = addr(100);
    let mut state = funded(a, 10, 1);
    let mut high = [0u8; 32];
    high[0] = 1;
    let mut low = [0u8; 32];
    low[31] = 255;
    add(&mut state, a, 1, blobs::ids::Hash(high), SubscriptionId::Default, 1, None).unwrap();
    add(&mut state, a, 1, hash(9), SubscriptionId::Default, 1, None).unwrap();
    add(&mut state, a, 1, blobs::ids::Hash(low), key("x"), 1, None).unwrap();
    add(&mut state, a, 1, blobs::ids::Hash(low), key("y"), 1, None).unwrap();
    let all = state.get_added_blobs(10);
    let hashes: Vec<blobs::ids::Hash> = all.iter().map(|e| e.0).collect();
    assert_eq!(
        hashes,
        vec![blobs::ids::Hash(low), blobs::ids::Hash(high), hash(9)]
    );
    assert_eq!(all[0].1.len(), 2);
    let first = state.get_added_blobs(2);
    assert_eq!(first.len(), 2);
    assert_eq!(first[1].0, blobs::ids::Hash(high));
    assert!(state.get_added_blobs(0).is_empty());
}

#[test]
fn stats_match_the_state() {
    let a = addr(100);
    let mut state = funded(a, 10, 2);
    add(&mut state, a, 1, hash(1), SubscriptionId::Default, 100, None).unwrap();
    add(&mut state, a, 1, hash(2), SubscriptionId::Default, 200, None).unwrap();
    add(&mut state, a, 1, hash(3), SubscriptionId::Default, 400, None).unwrap();
    state
        .set_blob_pending(a, hash(3), SubscriptionId::Default, pk(7))
        .unwrap();
    state.debit_accounts(11).unwrap();
    let stats = state.get_stats(TokenAmount::from_whole(3));
    assert_eq!(stats.balance, TokenAmount::from_whole(3));
    assert_eq!(stats.capacity_free, BigInt::from(CAPACITY - 700));
    assert_eq!(stats.capacity_used, big(700));
    assert_eq!(stats.credit_sold, state.credit_sold);
    assert_eq!(stats.credit_committed, big(3600 * 700 - 10 * 700));
    assert_eq!(stats.credit_debited, big(10 * 700));
    assert_eq!(stats.blob_credits_per_byte_block, 2);
    assert_eq!(stats.num_accounts, 1);
    assert_eq!(stats.num_blobs, 3);
    assert_eq!(stats.num_resolving, 1);
    assert_eq!(stats.bytes_resolving, 400);
    assert_eq!(stats.num_added, 2);
    assert_eq!(stats.bytes_added, 300);
    check_ledger(&state);
}

#[test]
fn tick_renews_what_renews_by_itself() {
    let a = addr(100);
    let mut state = funded(a, 10, 1);
    add(&mut state, a, 1, hash(1), SubscriptionId::Default, 1024, None).unwrap();
    add(&mut state, a, 1, hash(2), SubscriptionId::Default, 2048, Some(3600)).unwrap();
    let gone = state.debit_accounts(3601).unwrap();
    assert_eq!(gone, vec![hash(2)]);
    let blob = state.get_blob(hash(1)).unwrap();
    let sub = blob
        .subscribers
        .get(&a)
        .unwrap()
        .subscriptions
        .get(&SubscriptionId::Default)
        .unwrap();
    assert_eq!(sub.expiry, 3601 + AUTO_TTL);
    let account = state.get_account(a).unwrap();
    assert_eq!(account.last_debit_epoch, 3601);
    assert_eq!(account.capacity_used, big(1024));
    assert_eq!(account.credit_committed, big(3600 * 1024));
    assert_eq!(state.credit_debited, big(3600 * (1024 + 2048)));
    assert_eq!(state.expiries.len(), 1);
    check_ledger(&state);
}

#[test]
fn tick_touches_accounts_without_capacity() {
    let a = addr(100);
    let mut state = funded(a, 1, 1);
    state.debit_accounts(77).unwrap();
    let account = state.get_account(a).unwrap();
    assert_eq!(account.last_debit_epoch, 77);
    assert_eq!(state.credit_debited, big(0));
    check_ledger(&state);
}

#[test]
fn tick_deletes_what_cannot_pay_for_renewal() {
    let a = addr(100);
    let mut state = State::new(CAPACITY, 1);
    state
        .buy_credit(a, TokenAmount::from_atto(3600 * 10), 1)
        .unwrap();
    add(&mut state, a, 1, hash(1), SubscriptionId::Default, 10, None).unwrap();
    let gone = state.debit_accounts(3601).unwrap();
    assert_eq!(gone, vec![hash(1)]);
    assert!(state.blobs.is_empty());
    assert!(state.expiries.is_empty());
    assert!(state.added.is_empty());
    let account = state.get_account(a).unwrap();
    assert_eq!(account.credit_free, big(0));
    assert_eq!(account.credit_committed, big(0));
    assert_eq!(state.credit_debited, big(3600 * 10));
    check_ledger(&state);
}

#[test]
fn overwrite_replaces_one_blob_by_another() {
    let a = addr(100);
    let mut state = funded(a, 10, 1);
    add(&mut state, a, 1, hash(1), key("k"), 1024, None).unwrap();
    let (gone, sub, unspent) = state
        .overwrite_blob(hash(1), a, a, a, 1, hash(2), hash(3), key("k"), 2048, None, pk(2), no_tokens())
        .unwrap();
    assert!(gone);
    assert_eq!(sub.expiry, 1 + AUTO_TTL);
    assert_eq!(unspent, no_tokens());
    assert!(state.get_blob(hash(1)).is_none());
    assert_eq!(state.get_blob(hash(2)).unwrap().size, 2048);
    assert_eq!(state.capacity_used, big(2048));
    check_ledger(&state);
}

#[test]
fn overwrite_that_cannot_add_deletes_nothing() {
    let a = addr(100);
    let mut state = funded(a, 10, 1);
    add(&mut state, a, 1, hash(1), key("k"), 1024, None).unwrap();
    let before = state.get_account(a).unwrap();
    let err = state
        .overwrite_blob(hash(1), a, a, a, 1, hash(2), hash(3), key("k"), 2048, Some(5), pk(2), no_tokens())
        .err()
        .unwrap();
    assert_eq!(err.cause, Cause::BlobTtlTooShort);
    assert!(state.get_blob(hash(1)).is_some());
    assert!(state.get_blob(hash(2)).is_none());
    let after = state.get_account(a).unwrap();
    assert_eq!(after.credit_free, before.credit_free);
    assert_eq!(after.credit_committed, before.credit_committed);
    assert_eq!(state.capacity_used, big(1024));
    assert_eq!(state.expiries.len(), 1);
    assert_eq!(state.added.len(), 1);
    check_ledger(&state);
}

#[test]
fn overwrite_that_may_not_delete_adds_nothing() {
    let a = addr(100);
    let mut state = funded(a, 10, 1);
    add(&mut state, a, 1, hash(1), key("k"), 1024, None).unwrap();
    let err = state
        .overwrite_blob(hash(1), a, a, a, 1, hash(2), hash(3), key("other"), 2048, None, pk(2), no_tokens())
        .err()
        .unwrap();
    assert_eq!(err.cause, Cause::SubscriptionNotFound);
    assert!(state.get_blob(hash(2)).is_none());
    check_ledger(&state);
}

#[test]
fn ledger_holds_through_a_long_run() {
    let a = addr(100);
    let b = addr(101);
    let c = addr(102);
    let mut state = funded(a, 100, 3);
    state.buy_credit(b, TokenAmount::from_whole(100), 1).unwrap();
    state
        .approve_credit(a, c, Some(b), 1, Some(BigUint::from(u64::MAX)), Some(100000))
        .unwrap();
    let mut epoch = 1;
    for round in 0..40u8 {
        epoch += 977;
        let h = hash(round % 7);
        let id = if round % 3 == 0 {
            SubscriptionId::Default
        } else {
            key(&format!("id{}", round % 4))
        };
        let ttl = if round % 2 == 0 { None } else { Some(3600 + 500 * (round as i64 % 5)) };
        let _ = match round % 5 {
            0 => state
                .add_blob(c, b, a, epoch, h, hash(0), id, 1000 + round as u64, ttl, pk(round), no_tokens())
                .map(|_| ()),
            1 => add(&mut state, b, epoch, h, id, 1000 + round as u64, ttl).map(|_| ()),
            2 => state.set_blob_pending(a, h, id, pk(round)),
            3 => state.finalize_blob(
                a,
                epoch,
                h,
                id,
                if round % 2 == 0 { BlobStatus::Resolved } else { BlobStatus::Failed },
            ),
            _ => state.delete_blob(b, b, b, epoch, h, id).map(|_| ()),
        };
        check_ledger(&state);
        if round % 4 == 3 {
            state.debit_accounts(epoch).unwrap();
            check_ledger(&state);
        }
    }
    state.debit_accounts(epoch + 100000).unwrap();
    check_ledger(&state);
    for (_, account) in state.accounts.entries.iter() {
        assert_eq!(account.last_debit_epoch, epoch + 100000);
    }
}

#[test]
fn copy_of_the_state_stays_as_it_was() {
    let owner = addr(100);
    let friend = addr(101);
    let mut state = funded(owner, 10, 1);
    state
        .approve_credit(owner, friend, None, 1, Some(BigUint::from(u64::MAX)), None)
        .unwrap();
    state
        .add_blob(friend, friend, owner, 1, hash(1), hash(2), key("k"), 1024, None, pk(1), no_tokens())
        .unwrap();
    state
        .set_blob_pending(owner, hash(1), key("k"), pk(1))
        .unwrap();
    add(&mut state, owner, 2, hash(3), SubscriptionId::Default, 10, Some(4000)).unwrap();
    let copy = state.dup();
    state.debit_accounts(5000).unwrap();
    assert!(state.blobs.len() < 2);
    assert_eq!(copy.blobs.len(), 2);
    assert_eq!(copy.expiries.len(), 2);
    assert_eq!(copy.added.len(), 1);
    assert_eq!(copy.pending.len(), 1);
    assert_eq!(copy.credit_committed, big(3600 * 1024 - 1024 + 4000 * 10));
    assert_eq!(copy.credit_debited, big(1024));
    let account = copy.get_account(owner).unwrap();
    assert_eq!(account.last_debit_epoch, 2);
    let approval = copy.get_credit_approval(owner, friend, friend).unwrap();
    assert_eq!(approval.used, big(3600 * 1024));
    assert_eq!(
        copy.get_blob_status(owner, hash(1), key("k")),
        Some(BlobStatus::Pending)
    );
    let listed = copy.get_pending_blobs(5);
    assert_eq!(listed[0].1, vec![(owner, key("k"), pk(1))]);
    check_ledger(&copy);
}

#[test]
fn add_blob_asks_for_credit_before_capacity() {
    let a = addr(100);
    let mut state = State::new(1000, 1);
    state.buy_credit(a, TokenAmount::from_atto(10), 1).unwrap();
    let err = add(&mut state, a, 1, hash(1), SubscriptionId::Default, 2000, None)
        .err()
        .unwrap();
    assert_eq!(err.cause, Cause::InsufficientCredit);
}

#[test]
fn set_pending_takes_the_blob_off_the_added_list_for_all() {
    let a = addr(100);
    let b = addr(101);
    let mut state = funded(a, 10, 1);
    state.buy_credit(b, TokenAmount::from_whole(10), 1).unwrap();
    add(&mut state, a, 1, hash(1), SubscriptionId::Default, 1024, None).unwrap();
    add(&mut state, b, 1, hash(1), SubscriptionId::Default, 1024, None).unwrap();
    assert_eq!(state.get_added_blobs(10)[0].1.len(), 2);
    state
        .set_blob_pending(a, hash(1), SubscriptionId::Default, pk(7))
        .unwrap();
    assert!(state.added.is_empty());
    // A second subscriber that is set pending is listed next to the first.
    state
        .set_blob_pending(b, hash(1), SubscriptionId::Default, pk(8))
        .unwrap();
    let pending = state.get_pending_blobs(10);
    assert_eq!(pending.len(), 1);
    assert_eq!(pending[0].1.len(), 2);
    check_ledger(&state);
}

#[test]
fn approve_credit_with_a_limit_below_what_was_used() {
    let owner = addr(100);
    let friend = addr(101);
    let mut state = funded(owner, 10, 1);
    state
        .approve_credit(owner, friend, None, 1, None, None)
        .unwrap();
    state
        .add_blob(friend, friend, owner, 1, hash(1), hash(2), SubscriptionId::Default, 1, None, pk(1), no_tokens())
        .unwrap();
    let err = state
        .approve_credit(owner, friend, None, 1, Some(BigUint::from(3599u32)), None)
        .err()
        .unwrap();
    assert_eq!(err.cause, Cause::LimitBelowUsed);
    assert_eq!(err.kind(), ErrorKind::IllegalArgument);
    assert_eq!(
        err.msg(),
        "limit cannot be less than amount of already spent credits (3600)"
    );
    // The approval is as it was; a limit that covers what was used is taken.
    let approval = state.get_credit_approval(owner, friend, friend).unwrap();
    assert_eq!(approval.limit, None);
    let approval = state
        .approve_credit(owner, friend, None, 1, Some(BigUint::from(3600u32)), None)
        .unwrap();
    assert_eq!(approval.limit, Some(big(3600)));
    assert_eq!(approval.used, big(3600));
}

#[test]
fn ttl_status_is_kept_with_the_account() {
    let a = addr(100);
    let mut state = funded(a, 1, 1);
    assert_eq!(
        state.get_account(a).unwrap().ttl_status,
        blobs::account::TtlStatus::Default
    );
    state
        .set_account_blob_ttl_status(a, blobs::account::TtlStatus::Extended, 5)
        .unwrap();
    let account = state.get_account(a).unwrap();
    assert_eq!(account.ttl_status, blobs::account::TtlStatus::Extended);
    assert_eq!(account.credit_free, state.credit_sold);
    assert_eq!(account.last_debit_epoch, 1);
    // An account that is not there is made.
    state
        .set_account_blob_ttl_status(addr(101), blobs::account::TtlStatus::Reduced, 5)
        .unwrap();
    let account = state.get_account(addr(101)).unwrap();
    assert_eq!(account.ttl_status, blobs::account::TtlStatus::Reduced);
    assert_eq!(account.credit_free, big(0));
    assert_eq!(account.last_debit_epoch, 5);
    check_ledger(&state);
}

#[test]
fn revoke_credit_of_an_unknown_account() {
    let mut state = State::new(CAPACITY, 1);
    let err = state
        .revoke_credit(addr(100), addr(101), None)
        .err()
        .unwrap();
    assert_eq!(err.cause, Cause::AccountNotFound);
    assert_eq!(err.kind(), ErrorKind::NotFound);
    assert_eq!(err.msg(), format!("account {} not found", addr(100)));
    assert!(state.accounts.is_empty());
}
