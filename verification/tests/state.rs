use blobs::account::Account;
use blobs::blob::BlobStatus;
use blobs::ids::PublicKey;
use blobs::ids::SubscriptionId;
use blobs::model::AUTO_TTL;
use blobs::model::MIN_TTL;
use blobs::state::State;
use fvm_shared::address::Address;
use fvm_shared::bigint::BigInt;
use fvm_shared::bigint::BigUint;
use fvm_shared::econ::TokenAmount;
use num_traits::Zero;
use rand::RngCore;

fn new_hash(size: usize) -> (blobs::ids::Hash, u64) {
    let mut rng = rand::thread_rng();
    let mut data = [0u8; 32];
    rng.fill_bytes(&mut data);
    (blobs::ids::Hash(data), size as u64)
}

fn new_metadata_hash() -> blobs::ids::Hash {
    let mut rng = rand::thread_rng();
    let mut data = [0u8; 32];
    rng.fill_bytes(&mut data);
    blobs::ids::Hash(data)
}

fn new_pk() -> PublicKey {
    let mut rng = rand::thread_rng();
    let mut data = [0u8; 32];
    rng.fill_bytes(&mut data);
    PublicKey(data)
}

// The state does not care about the address type: actor addresses are easy to make.
fn new_address() -> Address {
    let mut rng = rand::thread_rng();
    let mut data = vec![0u8; 32];
    rng.fill_bytes(&mut data);
    Address::new_actor(&data)
}

fn check_approval(account: Account, origin: Address, caller: Address, expect_used: BigInt) {
    if !account.approvals.is_empty() {
        let approvals = account.approvals.get(&origin).unwrap();
        let approval = if origin == caller {
            approvals.get(&origin).unwrap()
        } else {
            approvals.get(&caller).unwrap()
        };
        assert_eq!(approval.used, expect_used);
    }
}

#[test]
fn test_buy_credit_success() {
    let capacity = 1024;
    let mut state = State::new(capacity, 1);
    let recipient = new_address();
    let amount = TokenAmount::from_whole(1);

    let res = state.buy_credit(recipient, amount.clone(), 1);
    assert!(res.is_ok());
    let account = res.unwrap();
    let credit_sold = amount.atto() * state.credit_debit_rate;
    assert_eq!(account.credit_free, credit_sold);
    assert_eq!(state.credit_sold, credit_sold);
    assert_eq!(state.accounts.len(), 1);
}

#[test]
fn test_buy_credit_negative_amount() {
    let capacity = 1024;
    let mut state = State::new(capacity, 1);
    let recipient = new_address();
    let amount = TokenAmount::from_whole(-1);

    let res = state.buy_credit(recipient, amount, 1);
    assert!(res.is_err());
    assert_eq!(res.err().unwrap().msg(), "token amount must be positive");
}

#[test]
fn test_buy_credit_at_capacity() {
    let capacity = 1024;
    let mut state = State::new(capacity, 1);
    let recipient = new_address();
    let amount = TokenAmount::from_whole(1);

    state.capacity_used = BigInt::from(capacity);
    let res = state.buy_credit(recipient, amount, 1);
    assert!(res.is_err());
    assert_eq!(
        res.err().unwrap().msg(),
        "credits not available (subnet has reached storage capacity)"
    );
}

#[test]
fn test_approve_credit_success() {
    let capacity = 1024;
    let mut state = State::new(capacity, 1);
    let from = new_address();
    let to = new_address();
    let current_epoch = 1;

    // No limit or expiry
    let res = state.approve_credit(from, to, None, current_epoch, None, None);
    assert!(res.is_ok());
    let approval = res.unwrap();
    assert_eq!(approval.limit, None);
    assert_eq!(approval.expiry, None);

    // Add limit
    let limit = 1_000_000_000_000_000_000u64;
    let res = state.approve_credit(
        from,
        to,
        None,
        current_epoch,
        Some(BigUint::from(limit)),
        None,
    );
    assert!(res.is_ok());
    let approval = res.unwrap();
    assert_eq!(approval.limit, Some(BigInt::from(limit)));
    assert_eq!(approval.expiry, None);

    // Add ttl
    let ttl = i64::from(MIN_TTL);
    let res = state.approve_credit(
        from,
        to,
        None,
        current_epoch,
        Some(BigUint::from(limit)),
        Some(ttl),
    );
    assert!(res.is_ok());
    let approval = res.unwrap();
    assert_eq!(approval.limit, Some(BigInt::from(limit)));
    assert_eq!(approval.expiry, Some(ttl + current_epoch));

    // Require caller
    let require_caller = new_address();
    let res = state.approve_credit(from, to, Some(require_caller), current_epoch, None, None);
    assert!(res.is_ok());

    // Check the account approvals
    let account = state.get_account(from).unwrap();
    assert_eq!(account.approvals.len(), 1);
    let approvals = account.approvals.get(&to).unwrap();
    assert!(approvals.contains_key(&to));
    assert!(approvals.contains_key(&require_caller));
}

#[test]
fn test_approve_credit_invalid_ttl() {
    let capacity = 1024;
    let mut state = State::new(capacity, 1);
    let from = new_address();
    let to = new_address();
    let current_epoch = 1;

    let ttl = i64::from(MIN_TTL - 1);
    let res = state.approve_credit(from, to, None, current_epoch, None, Some(ttl));
    assert!(res.is_err());
    assert_eq!(
        res.err().unwrap().msg(),
        format!("minimum approval TTL is {}", MIN_TTL)
    );
}

#[test]
fn test_approve_credit_insufficient_credit() {
    let capacity = 1024;
    let mut state = State::new(capacity, 1);
    let from = new_address();
    let to = new_address();
    let current_epoch = 1;

    let amount = TokenAmount::from_whole(10);
    state
        .buy_credit(from, amount.clone(), current_epoch)
        .unwrap();
    let res = state.approve_credit(from, to, None, current_epoch, None, None);
    assert!(res.is_ok());

    // Add a blob
    let (hash, size) = new_hash(1024);
    let res = state.add_blob(
        to,
        to,
        from,
        current_epoch,
        hash,
        new_metadata_hash(),
        SubscriptionId::Default,
        size,
        None,
        new_pk(),
        TokenAmount::zero(),
    );
    assert!(res.is_ok());

    // Check approval
    let account = state.get_account(from).unwrap();
    let approval = account.approvals.get(&to).unwrap().get(&to).unwrap();
    assert_eq!(account.credit_committed, approval.used);

    // Try to update approval with a limit below what's already been committed
    let limit = 1_000u64;
    let res = state.approve_credit(
        from,
        to,
        None,
        current_epoch,
        Some(BigUint::from(limit)),
        None,
    );
    assert!(res.is_err());
    assert_eq!(
        res.err().unwrap().msg(),
        format!(
            "limit cannot be less than amount of already spent credits ({})",
            approval.used
        )
    );
}

#[test]
fn test_revoke_credit_success() {
    let capacity = 1024;
    let mut state = State::new(capacity, 1);
    let from = new_address();
    let to = new_address();
    let current_epoch = 1;

    let res = state.approve_credit(from, to, None, current_epoch, None, None);
    assert!(res.is_ok());

    // Add another and require caller
    let require_caller = new_address();
    let res = state.approve_credit(from, to, Some(require_caller), current_epoch, None, None);
    assert!(res.is_ok());

    // Check the account approvals
    let account = state.get_account(from).unwrap();
    assert_eq!(account.approvals.len(), 1);
    let approvals = account.approvals.get(&to).unwrap();
    assert!(approvals.contains_key(&to));
    assert!(approvals.contains_key(&require_caller));

    // Remove first
    let res = state.revoke_credit(from, to, None);
    assert!(res.is_ok());
    let account = state.get_account(from).unwrap();
    assert_eq!(account.approvals.len(), 1);
    let approvals = account.approvals.get(&to).unwrap();
    assert!(!approvals.contains_key(&to));
    assert!(approvals.contains_key(&require_caller));

    // Remove second
    let res = state.revoke_credit(from, to, Some(require_caller));
    assert!(res.is_ok());
    let account = state.get_account(from).unwrap();
    assert_eq!(account.approvals.len(), 0);
}

#[test]
fn test_revoke_credit_account_not_found() {
    let capacity = 1024;
    let mut state = State::new(capacity, 1);
    let from = new_address();
    let to = new_address();

    let res = state.revoke_credit(from, to, None);
    assert!(res.is_err());
    assert_eq!(
        res.err().unwrap().msg(),
        format!("account {} not found", from)
    );
}

#[test]
fn test_debit_accounts_delete_from_disc() {
    let capacity = 1024 * 1024;
    let mut state = State::new(capacity, 1);
    let origin = new_address();
    let current_epoch = i64::from(1);
    let token_amount = TokenAmount::from_whole(10);
    state
        .buy_credit(origin, token_amount.clone(), current_epoch)
        .unwrap();
    debit_accounts_delete_from_disc(state, origin, origin, origin, current_epoch, token_amount);
}

#[test]
fn test_debit_accounts_delete_from_disc_with_approval() {
    let capacity = 1024 * 1024;
    let mut state = State::new(capacity, 1);
    let origin = new_address();
    let subscriber = new_address();
    let current_epoch = i64::from(1);
    let token_amount = TokenAmount::from_whole(10);
    state
        .buy_credit(subscriber, token_amount.clone(), current_epoch)
        .unwrap();
    state
        .approve_credit(subscriber, origin, None, current_epoch, None, None)
        .unwrap();
    debit_accounts_delete_from_disc(
        state,
        origin,
        origin,
        subscriber,
        current_epoch,
        token_amount,
    );
}

fn debit_accounts_delete_from_disc(
    mut state: State,
    origin: Address,
    caller: Address,
    subscriber: Address,
    current_epoch: i64,
    token_amount: TokenAmount,
) {
    let mut credit_amount = token_amount.atto() * state.credit_debit_rate;

    // Add blob with default a subscription ID
    let (hash, size) = new_hash(1024);
    let add1_epoch = current_epoch;
    let id1 = SubscriptionId::Default;
    let ttl1 = i64::from(MIN_TTL);
    let source = new_pk();
    let res = state.add_blob(
        origin,
        caller,
        subscriber,
        add1_epoch,
        hash,
        new_metadata_hash(),
        id1.clone(),
        size,
        Some(ttl1),
        source,
        TokenAmount::zero(),
    );
    assert!(res.is_ok());

    // Set to status pending
    let res = state.set_blob_pending(subscriber, hash, id1.clone(), source);
    assert!(res.is_ok());

    // Finalize as resolved
    let finalize_epoch = i64::from(11);
    let res = state.finalize_blob(
        subscriber,
        finalize_epoch,
        hash,
        id1.clone(),
        BlobStatus::Resolved,
    );
    assert!(res.is_ok());

    // Check the account balance
    let account = state.get_account(subscriber).unwrap();
    assert_eq!(account.last_debit_epoch, add1_epoch);
    assert_eq!(account.credit_committed, BigInt::from(ttl1 as u64 * size));
    credit_amount -= &account.credit_committed;
    assert_eq!(account.credit_free, credit_amount);
    assert_eq!(account.capacity_used, BigInt::from(size));

    // Add the same blob but this time uses a different subscription ID
    let add2_epoch = i64::from(21);
    let ttl2 = i64::from(MIN_TTL);
    let id2 = SubscriptionId::Key(b"foo".to_vec());
    let source = new_pk();
    let res = state.add_blob(
        origin,
        caller,
        subscriber,
        add2_epoch,
        hash,
        new_metadata_hash(),
        id2.clone(),
        size,
        Some(ttl2),
        source,
        TokenAmount::zero(),
    );
    assert!(res.is_ok());

    // Check the account balance
    let account = state.get_account(subscriber).unwrap();
    assert_eq!(account.last_debit_epoch, add2_epoch);
    assert_eq!(
        account.credit_committed, // stays the same becuase we're starting over
        BigInt::from(ttl2 as u64 * size),
    );
    credit_amount -= BigInt::from((add2_epoch - add1_epoch) as u64 * size);
    assert_eq!(account.credit_free, credit_amount);
    assert_eq!(account.capacity_used, BigInt::from(size)); // not changed

    // Check the subscription group
    let blob = state.get_blob(hash).unwrap();
    let group = blob.subscribers.get(&subscriber).unwrap();
    assert_eq!(group.subscriptions.len(), 2);

    // Debit all accounts at an epoch between the two expiries (3601-3621)
    let debit_epoch = i64::from(MIN_TTL + 11);
    let deletes_from_disc = state.debit_accounts(debit_epoch).unwrap();
    assert!(deletes_from_disc.is_empty());

    // Check the account balance
    let account = state.get_account(subscriber).unwrap();
    assert_eq!(account.last_debit_epoch, debit_epoch);
    assert_eq!(
        account.credit_committed, // debit reduces this
        BigInt::from((ttl2 - (debit_epoch - add2_epoch)) as u64 * size),
    );
    assert_eq!(account.credit_free, credit_amount); // not changed
    assert_eq!(account.capacity_used, BigInt::from(size)); // not changed

    // Check the subscription group
    let blob = state.get_blob(hash).unwrap();
    let group = blob.subscribers.get(&subscriber).unwrap();
    assert_eq!(group.subscriptions.len(), 1); // the first subscription was deleted

    // Debit all accounts at an epoch greater than group expiry (3621)
    let debit_epoch = i64::from(MIN_TTL + 31);
    let deletes_from_disc = state.debit_accounts(debit_epoch).unwrap();
    assert!(!deletes_from_disc.is_empty()); // blob is marked for deletion

    // Check the account balance
    let account = state.get_account(subscriber).unwrap();
    assert_eq!(account.last_debit_epoch, debit_epoch);
    assert_eq!(
        account.credit_committed, // the second debit reduces this to zero
        BigInt::from(0),
    );
    assert_eq!(account.credit_free, credit_amount); // not changed
    assert_eq!(account.capacity_used, BigInt::from(0));

    // Check state
    assert_eq!(state.credit_committed, BigInt::from(0)); // credit was released
    assert_eq!(
        state.credit_debited,
        token_amount.atto() - &account.credit_free
    );
    assert_eq!(state.capacity_used, BigInt::from(0)); // capacity was released

    // Check indexes
    assert_eq!(state.expiries.len(), 0);
    assert_eq!(state.added.len(), 0);
    assert_eq!(state.pending.len(), 0);

    // Check approval
    let account_committed = account.credit_committed.clone();
    check_approval(
        account,
        origin,
        caller,
        state.credit_debited + account_committed,
    );
}

#[test]
fn test_add_blob_refund() {
    let capacity = 1024 * 1024;
    let mut state = State::new(capacity, 1);
    let origin = new_address();
    let current_epoch = i64::from(1);
    let token_amount = TokenAmount::from_whole(10);
    state
        .buy_credit(origin, token_amount.clone(), current_epoch)
        .unwrap();
    add_blob_refund(state, origin, origin, origin, current_epoch, token_amount);
}

#[test]
fn test_add_blob_refund_with_approval() {
    let capacity = 1024 * 1024;
    let mut state = State::new(capacity, 1);
    let origin = new_address();
    let subscriber = new_address();
    let current_epoch = i64::from(1);
    let token_amount = TokenAmount::from_whole(10);
    state
        .buy_credit(subscriber, token_amount.clone(), current_epoch)
        .unwrap();
    state
        .approve_credit(subscriber, origin, None, current_epoch, None, None)
        .unwrap();
    add_blob_refund(
        state,
        origin,
        origin,
        subscriber,
        current_epoch,
        token_amount,
    );
}

fn add_blob_refund(
    mut state: State,
    origin: Address,
    caller: Address,
    subscriber: Address,
    current_epoch: i64,
    token_amount: TokenAmount,
) {
    let mut credit_amount = token_amount.atto() * state.credit_debit_rate;

    // Add blob with default a subscription ID
    let (hash1, size1) = new_hash(1024);
    let add1_epoch = current_epoch;
    let id1 = SubscriptionId::Default;
    let source = new_pk();
    let res = state.add_blob(
        origin,
        caller,
        subscriber,
        add1_epoch,
        hash1,
        new_metadata_hash(),
        id1.clone(),
        size1,
        Some(MIN_TTL),
        source,
        TokenAmount::zero(),
    );
    assert!(res.is_ok());

    // Check the account balance
    let account = state.get_account(subscriber).unwrap();
    assert_eq!(account.last_debit_epoch, add1_epoch);
    assert_eq!(
        account.credit_committed,
        BigInt::from(MIN_TTL as u64 * size1),
    );
    credit_amount -= &account.credit_committed;
    assert_eq!(account.credit_free, credit_amount);
    assert_eq!(account.capacity_used, BigInt::from(size1));

    // Add another blob past the first blob's expiry
    let (hash2, size2) = new_hash(2048);
    let add2_epoch = i64::from(MIN_TTL + 11);
    let id2 = SubscriptionId::Key(b"foo".to_vec());
    let source = new_pk();
    let res = state.add_blob(
        origin,
        caller,
        subscriber,
        add2_epoch,
        hash2,
        new_metadata_hash(),
        id2.clone(),
        size2,
        None,
        source,
        TokenAmount::zero(),
    );
    assert!(res.is_ok());

    // Check the account balance
    let account = state.get_account(subscriber).unwrap();
    assert_eq!(account.last_debit_epoch, add2_epoch);
    let blob1_expiry = i64::from(MIN_TTL + add1_epoch);
    let overcharge = BigInt::from((add2_epoch - blob1_expiry) as u64 * size1);
    assert_eq!(
        account.credit_committed, // this includes an overcharge that needs to be refunded
        AUTO_TTL as u64 * size2 - overcharge,
    );
    credit_amount -= BigInt::from(AUTO_TTL as u64 * size2);
    assert_eq!(account.credit_free, credit_amount);
    assert_eq!(account.capacity_used, BigInt::from(size1 + size2));

    // Check state
    assert_eq!(state.credit_committed, account.credit_committed);
    assert_eq!(
        state.credit_debited,
        token_amount.atto() - (&account.credit_free + &account.credit_committed)
    );
    assert_eq!(state.capacity_used, account.capacity_used);

    // Check indexes
    assert_eq!(state.expiries.len(), 2);
    assert_eq!(state.added.len(), 2);
    assert_eq!(state.pending.len(), 0);

    // Add the first (now expired) blob again
    let add3_epoch = i64::from(MIN_TTL + 21);
    let id1 = SubscriptionId::Default;
    let source = new_pk();
    let res = state.add_blob(
        origin,
        caller,
        subscriber,
        add3_epoch,
        hash1,
        new_metadata_hash(),
        id1.clone(),
        size1,
        None,
        source,
        TokenAmount::zero(),
    );
    assert!(res.is_ok());

    // Check the account balance
    let account = state.get_account(subscriber).unwrap();
    assert_eq!(account.last_debit_epoch, add3_epoch);
    assert_eq!(
        account.credit_committed,
        // The debits taken past the first blob's expiry up to the last debit went
        // back; the account still pays for both blobs from the last debit on.
        BigInt::from(
            (AUTO_TTL - (add3_epoch - add2_epoch)) as u64 * size2 + AUTO_TTL as u64 * size1
        ) - BigInt::from((add3_epoch - add2_epoch) as u64 * size1),
    );
    credit_amount -= BigInt::from(AUTO_TTL as u64 * size1);
    assert_eq!(account.credit_free, credit_amount);
    assert_eq!(account.capacity_used, BigInt::from(size1 + size2));

    // Check state
    assert_eq!(state.credit_committed, account.credit_committed);
    assert_eq!(
        state.credit_debited,
        token_amount.atto() - (&account.credit_free + &account.credit_committed)
    );
    assert_eq!(state.capacity_used, account.capacity_used);

    // Check indexes
    assert_eq!(state.expiries.len(), 2);
    assert_eq!(state.added.len(), 2);
    assert_eq!(state.pending.len(), 0);

    // Check approval
    let account_committed = account.credit_committed.clone();
    check_approval(
        account,
        origin,
        caller,
        state.credit_debited + account_committed,
    );
}

#[test]
fn test_add_blob_same_hash_same_account() {
    let capacity = 1024 * 1024;
    let mut state = State::new(capacity, 1);
    let origin = new_address();
    let current_epoch = i64::from(1);
    let token_amount = TokenAmount::from_whole(10);
    state
        .buy_credit(origin, token_amount.clone(), current_epoch)
        .unwrap();
    add_blob_same_hash_same_account(state, origin, origin, origin, current_epoch, token_amount);
}

#[test]
fn test_add_blob_same_hash_same_account_with_approval() {
    let capacity = 1024 * 1024;
    let mut state = State::new(capacity, 1);
    let origin = new_address();
    let subscriber = new_address();
    let current_epoch = i64::from(1);
    let token_amount = TokenAmount::from_whole(10);
    state
        .buy_credit(subscriber, token_amount.clone(), current_epoch)
        .unwrap();
    state
        .approve_credit(subscriber, origin, None, current_epoch, None, None)
        .unwrap();
    add_blob_same_hash_same_account(
        state,
        origin,
        origin,
        subscriber,
        current_epoch,
        token_amount,
    );
}

#[test]
fn test_add_blob_same_hash_same_account_with_scoped_approval() {
    let capacity = 1024 * 1024;
    let mut state = State::new(capacity, 1);
    let origin = new_address();
    let caller = new_address();
    let subscriber = new_address();
    let current_epoch = i64::from(1);
    let token_amount = TokenAmount::from_whole(10);
    state
        .buy_credit(subscriber, token_amount.clone(), current_epoch)
        .unwrap();
    state
        .approve_credit(subscriber, origin, Some(caller), current_epoch, None, None)
        .unwrap();
    add_blob_same_hash_same_account(
        state,
        origin,
        caller,
        subscriber,
        current_epoch,
        token_amount,
    );
}

fn add_blob_same_hash_same_account(
    mut state: State,
    origin: Address,
    caller: Address,
    subscriber: Address,
    current_epoch: i64,
    token_amount: TokenAmount,
) {
    let mut credit_amount = token_amount.atto() * state.credit_debit_rate;

    // Add blob with default a subscription ID
    let (hash, size) = new_hash(1024);
    let add1_epoch = current_epoch;
    let id1 = SubscriptionId::Default;
    let source = new_pk();
    let res = state.add_blob(
        origin,
        caller,
        subscriber,
        add1_epoch,
        hash,
        new_metadata_hash(),
        id1.clone(),
        size,
        None,
        source,
        TokenAmount::zero(),
    );
    assert!(res.is_ok());
    let (sub, _) = res.unwrap();
    assert_eq!(sub.added, add1_epoch);
    assert_eq!(sub.expiry, add1_epoch + AUTO_TTL);
    assert!(sub.auto_renew);
    assert_eq!(sub.source, source);
    assert!(!sub.failed);
    if subscriber != origin {
        assert_eq!(sub.delegate, Some((origin, caller)));
    }

    // Check the blob status
    assert_eq!(
        state.get_blob_status(subscriber, hash, id1.clone()),
        Some(BlobStatus::Added)
    );

    // Check the blob
    let blob = state.get_blob(hash).unwrap();
    assert_eq!(blob.subscribers.len(), 1);
    assert_eq!(blob.status, BlobStatus::Added);
    assert_eq!(blob.size, size);

    // Check the subscription group
    let group = blob.subscribers.get(&subscriber).unwrap();
    assert_eq!(group.subscriptions.len(), 1);
    let got_sub = group.subscriptions.get(&id1.clone()).unwrap();
    assert_eq!(*got_sub, sub);

    // Check the account balance
    let account = state.get_account(subscriber).unwrap();
    assert_eq!(account.last_debit_epoch, add1_epoch);
    assert_eq!(
        account.credit_committed,
        BigInt::from(AUTO_TTL as u64 * size),
    );
    credit_amount -= &account.credit_committed;
    assert_eq!(account.credit_free, credit_amount);
    assert_eq!(account.capacity_used, BigInt::from(size));

    // Set to status pending
    let res = state.set_blob_pending(subscriber, hash, id1.clone(), source);
    assert!(res.is_ok());

    // Finalize as resolved
    let finalize_epoch = i64::from(11);
    let res = state.finalize_blob(
        subscriber,
        finalize_epoch,
        hash,
        id1.clone(),
        BlobStatus::Resolved,
    );
    assert!(res.is_ok());
    assert_eq!(
        state.get_blob_status(subscriber, hash, id1.clone()),
        Some(BlobStatus::Resolved)
    );

    // Add the same blob again with a default subscription ID
    let add2_epoch = i64::from(21);
    let source = new_pk();
    let res = state.add_blob(
        origin,
        caller,
        subscriber,
        add2_epoch,
        hash,
        new_metadata_hash(),
        id1.clone(),
        size,
        None,
        source,
        TokenAmount::zero(),
    );
    assert!(res.is_ok());
    let (sub, _) = res.unwrap();
    assert_eq!(sub.added, add1_epoch); // added should not change
    assert_eq!(sub.expiry, add2_epoch + AUTO_TTL);
    assert!(sub.auto_renew);
    assert_eq!(sub.source, source);
    assert!(!sub.failed);
    if subscriber != origin {
        assert_eq!(sub.delegate, Some((origin, caller)));
    }

    // Check the blob status
    // Should already be resolved
    assert_eq!(
        state.get_blob_status(subscriber, hash, id1.clone()),
        Some(BlobStatus::Resolved)
    );

    // Check the blob
    let blob = state.get_blob(hash).unwrap();
    assert_eq!(blob.subscribers.len(), 1);
    assert_eq!(blob.status, BlobStatus::Resolved);
    assert_eq!(blob.size, size);

    // Check the subscription group
    let group = blob.subscribers.get(&subscriber).unwrap();
    assert_eq!(group.subscriptions.len(), 1); // Still only one subscription
    let got_sub = group.subscriptions.get(&id1.clone()).unwrap();
    assert_eq!(*got_sub, sub);

    // Check the account balance
    let account = state.get_account(subscriber).unwrap();
    assert_eq!(account.last_debit_epoch, add2_epoch);
    assert_eq!(
        account.credit_committed, // stays the same becuase we're starting over
        BigInt::from(AUTO_TTL as u64 * size),
    );
    credit_amount -= BigInt::from((add2_epoch - add1_epoch) as u64 * size);
    assert_eq!(account.credit_free, credit_amount);
    assert_eq!(account.capacity_used, BigInt::from(size)); // not changed

    // Add the same blob again but use a different subscription ID
    let add3_epoch = i64::from(31);
    let id2 = SubscriptionId::Key(b"foo".to_vec());
    let source = new_pk();
    let res = state.add_blob(
        origin,
        caller,
        subscriber,
        add3_epoch,
        hash,
        new_metadata_hash(),
        id2.clone(),
        size,
        None,
        source,
        TokenAmount::zero(),
    );
    assert!(res.is_ok());
    let (sub, _) = res.unwrap();
    assert_eq!(sub.added, add3_epoch);
    assert_eq!(sub.expiry, add3_epoch + AUTO_TTL);
    assert!(sub.auto_renew);
    assert_eq!(sub.source, source);
    assert!(!sub.failed);
    if subscriber != origin {
        assert_eq!(sub.delegate, Some((origin, caller)));
    }

    // Check the blob status
    // Should already be resolved
    assert_eq!(
        state.get_blob_status(subscriber, hash, id2.clone()),
        Some(BlobStatus::Resolved)
    );

    // Check the blob
    let blob = state.get_blob(hash).unwrap();
    assert_eq!(blob.subscribers.len(), 1); // still only one subscriber
    assert_eq!(blob.status, BlobStatus::Resolved);
    assert_eq!(blob.size, size);

    // Check the subscription group
    let group = blob.subscribers.get(&subscriber).unwrap();
    assert_eq!(group.subscriptions.len(), 2);
    let got_sub = group.subscriptions.get(&id2.clone()).unwrap();
    assert_eq!(*got_sub, sub);

    // Check the account balance
    let account = state.get_account(subscriber).unwrap();
    assert_eq!(account.last_debit_epoch, add3_epoch);
    assert_eq!(
        account.credit_committed, // stays the same becuase we're starting over
        BigInt::from(AUTO_TTL as u64 * size),
    );
    credit_amount -= BigInt::from((add3_epoch - add2_epoch) as u64 * size);
    assert_eq!(account.credit_free, credit_amount);
    assert_eq!(account.capacity_used, BigInt::from(size)); // not changed

    // Debit all accounts
    let debit_epoch = i64::from(41);
    let deletes_from_disc = state.debit_accounts(debit_epoch).unwrap();
    assert!(deletes_from_disc.is_empty());

    // Check the account balance
    let account = state.get_account(subscriber).unwrap();
    assert_eq!(account.last_debit_epoch, debit_epoch);
    assert_eq!(
        account.credit_committed, // debit reduces this
        BigInt::from((AUTO_TTL - (debit_epoch - add3_epoch)) as u64 * size),
    );
    assert_eq!(account.credit_free, credit_amount); // not changed
    assert_eq!(account.capacity_used, BigInt::from(size)); // not changed

    // Check indexes
    assert_eq!(state.expiries.len(), 2);
    assert_eq!(state.added.len(), 0);
    assert_eq!(state.pending.len(), 0);

    // Delete the default subscription ID
    let delete_epoch = i64::from(51);
    let res = state.delete_blob(origin, caller, subscriber, delete_epoch, hash, id1.clone());
    assert!(res.is_ok());
    let delete_from_disk = res.unwrap();
    assert!(!delete_from_disk);

    // Check the blob
    let blob = state.get_blob(hash).unwrap();
    assert_eq!(blob.subscribers.len(), 1); // still one subscriber
    assert_eq!(blob.status, BlobStatus::Resolved);
    assert_eq!(blob.size, size);

    // Check the subscription group
    let group = blob.subscribers.get(&subscriber).unwrap();
    assert_eq!(group.subscriptions.len(), 1);
    let sub = group.subscriptions.get(&id2.clone()).unwrap();
    assert_eq!(sub.added, add3_epoch);
    assert_eq!(sub.expiry, add3_epoch + AUTO_TTL);

    // Check the account balance
    let account = state.get_account(subscriber).unwrap();
    assert_eq!(account.last_debit_epoch, delete_epoch);
    assert_eq!(
        account.credit_committed, // debit reduces this
        BigInt::from((AUTO_TTL - (delete_epoch - add3_epoch)) as u64 * size),
    );
    assert_eq!(account.credit_free, credit_amount); // not changed
    assert_eq!(account.capacity_used, BigInt::from(size)); // not changed

    // Check state
    assert_eq!(state.credit_committed, account.credit_committed);
    assert_eq!(
        state.credit_debited,
        token_amount.atto() - (&account.credit_free + &account.credit_committed)
    );
    assert_eq!(state.capacity_used, BigInt::from(size));

    // Check indexes
    assert_eq!(state.expiries.len(), 1);
    assert_eq!(state.added.len(), 0);
    assert_eq!(state.pending.len(), 0);

    // Check approval
    let account_committed = account.credit_committed.clone();
    check_approval(
        account,
        origin,
        caller,
        state.credit_debited + account_committed,
    );
}

#[test]
fn test_renew_blob_success() {
    let capacity = 1024 * 1024;
    let mut state = State::new(capacity, 1);
    let subscriber = new_address();
    let current_epoch = i64::from(1);
    let amount = TokenAmount::from_whole(10);
    state
        .buy_credit(subscriber, amount.clone(), current_epoch)
        .unwrap();
    let mut credit_amount = amount.atto() * state.credit_debit_rate;

    // Add blob with default a subscription ID
    let (hash, size) = new_hash(1024);
    let add_epoch = current_epoch;
    let source = new_pk();
    let res = state.add_blob(
        subscriber,
        subscriber,
        subscriber,
        add_epoch,
        hash,
        new_metadata_hash(),
        SubscriptionId::Default,
        size,
        None,
        source,
        TokenAmount::zero(),
    );
    assert!(res.is_ok());

    // Check the account balance
    let account = state.get_account(subscriber).unwrap();
    assert_eq!(account.last_debit_epoch, add_epoch);
    assert_eq!(
        account.credit_committed,
        BigInt::from(AUTO_TTL as u64 * size),
    );
    credit_amount -= &account.credit_committed;
    assert_eq!(account.credit_free, credit_amount);
    assert_eq!(account.capacity_used, BigInt::from(size));

    // Set to status pending
    let res = state.set_blob_pending(subscriber, hash, SubscriptionId::Default, source);
    assert!(res.is_ok());

    // Finalize as resolved
    let finalize_epoch = i64::from(11);
    let res = state.finalize_blob(
        subscriber,
        finalize_epoch,
        hash,
        SubscriptionId::Default,
        BlobStatus::Resolved,
    );
    assert!(res.is_ok());

    // Renew blob
    let renew_epoch = i64::from(21);
    let res = state.renew_blob(subscriber, renew_epoch, hash, SubscriptionId::Default);
    assert!(res.is_ok());

    // Check the account balance
    let account = state.get_account(subscriber).unwrap();
    assert_eq!(account.last_debit_epoch, add_epoch);
    assert_eq!(
        account.credit_committed,
        BigInt::from((AUTO_TTL + (renew_epoch - add_epoch)) as u64 * size),
    );
    credit_amount -= (renew_epoch - add_epoch) as u64 * size;
    assert_eq!(account.credit_free, credit_amount);
    assert_eq!(account.capacity_used, BigInt::from(size));

    // Check state
    assert_eq!(state.credit_committed, account.credit_committed);
    assert_eq!(
        state.credit_debited,
        amount.atto() - (&account.credit_free + &account.credit_committed)
    );
    assert_eq!(state.capacity_used, account.capacity_used);

    // Check indexes
    assert_eq!(state.expiries.len(), 1);
    assert_eq!(state.added.len(), 0);
    assert_eq!(state.pending.len(), 0);
}

#[test]
fn test_renew_blob_refund() {
    let capacity = 1024 * 1024;
    let mut state = State::new(capacity, 1);
    let subscriber = new_address();
    let current_epoch = i64::from(1);
    let amount = TokenAmount::from_whole(10);
    state
        .buy_credit(subscriber, amount.clone(), current_epoch)
        .unwrap();
    let mut credit_amount = amount.atto() * state.credit_debit_rate;

    // Add blob with default a subscription ID
    let (hash1, size1) = new_hash(1024);
    let add1_epoch = current_epoch;
    let id1 = SubscriptionId::Default;
    let source = new_pk();
    let res = state.add_blob(
        subscriber,
        subscriber,
        subscriber,
        add1_epoch,
        hash1,
        new_metadata_hash(),
        id1.clone(),
        size1,
        None,
        source,
        TokenAmount::zero(),
    );
    assert!(res.is_ok());

    // Check the account balance
    let account = state.get_account(subscriber).unwrap();
    assert_eq!(account.last_debit_epoch, add1_epoch);
    assert_eq!(
        account.credit_committed,
        BigInt::from(AUTO_TTL as u64 * size1),
    );
    credit_amount -= &account.credit_committed;
    assert_eq!(account.credit_free, credit_amount);
    assert_eq!(account.capacity_used, BigInt::from(size1));

    // Add another blob past the first blob's expiry
    let (hash2, size2) = new_hash(2048);
    let add2_epoch = i64::from(AUTO_TTL + 11);
    let id2 = SubscriptionId::Key(b"foo".to_vec());
    let source = new_pk();
    let res = state.add_blob(
        subscriber,
        subscriber,
        subscriber,
        add2_epoch,
        hash2,
        new_metadata_hash(),
        id2.clone(),
        size2,
        None,
        source,
        TokenAmount::zero(),
    );
    assert!(res.is_ok());

    // Check the account balance
    let account = state.get_account(subscriber).unwrap();
    assert_eq!(account.last_debit_epoch, add2_epoch);
    let blob1_expiry = i64::from(AUTO_TTL + add1_epoch);
    let overcharge = BigInt::from((add2_epoch - blob1_expiry) as u64 * size1);
    assert_eq!(
        account.credit_committed, // this includes an overcharge that needs to be accounted for
        AUTO_TTL as u64 * size2 - overcharge,
    );
    credit_amount -= BigInt::from(AUTO_TTL as u64 * size2);
    assert_eq!(account.credit_free, credit_amount);
    assert_eq!(account.capacity_used, BigInt::from(size1 + size2));

    // Check state
    assert_eq!(state.credit_committed, account.credit_committed);
    assert_eq!(
        state.credit_debited,
        amount.atto() - (&account.credit_free + &account.credit_committed)
    );
    assert_eq!(state.capacity_used, account.capacity_used);

    // Check indexes
    assert_eq!(state.expiries.len(), 2);
    assert_eq!(state.added.len(), 2);
    assert_eq!(state.pending.len(), 0);

    // Renew the first blob
    let renew_epoch = i64::from(AUTO_TTL + 31);
    let res = state.renew_blob(subscriber, renew_epoch, hash1, id1.clone());
    assert!(res.is_ok());

    // Check the account balance
    let account = state.get_account(subscriber).unwrap();
    assert_eq!(account.last_debit_epoch, add2_epoch);
    let blob1_expiry2 = i64::from(AUTO_TTL + renew_epoch);
    let blob2_expiry = i64::from(AUTO_TTL + add2_epoch);
    assert_eq!(
        account.credit_committed,
        BigInt::from(
            (blob2_expiry - add2_epoch) as u64 * size2
                + (blob1_expiry2 - add2_epoch) as u64 * size1
        ),
    );
    credit_amount -= BigInt::from((blob1_expiry2 - add2_epoch) as u64 * size1);
    assert_eq!(account.credit_free, credit_amount);
    assert_eq!(account.capacity_used, BigInt::from(size1 + size2));

    // Check state
    assert_eq!(state.credit_committed, account.credit_committed);
    assert_eq!(
        state.credit_debited,
        amount.atto() - (&account.credit_free + &account.credit_committed)
    );
    assert_eq!(state.capacity_used, account.capacity_used);

    // Check indexes
    assert_eq!(state.expiries.len(), 2);
    assert_eq!(state.added.len(), 2);
    assert_eq!(state.pending.len(), 0);
}

#[test]
fn test_finalize_blob_from_bad_state() {
    let capacity = 1024 * 1024;
    let mut state = State::new(capacity, 1);
    let subscriber = new_address();
    let current_epoch = i64::from(1);
    let amount = TokenAmount::from_whole(10);
    state
        .buy_credit(subscriber, amount.clone(), current_epoch)
        .unwrap();

    // Add a blob
    let (hash, size) = new_hash(1024);
    let res = state.add_blob(
        subscriber,
        subscriber,
        subscriber,
        current_epoch,
        hash,
        new_metadata_hash(),
        SubscriptionId::Default,
        size,
        None,
        new_pk(),
        TokenAmount::zero(),
    );
    assert!(res.is_ok());

    // Finalize as pending
    let finalize_epoch = i64::from(11);
    let res = state.finalize_blob(
        subscriber,
        finalize_epoch,
        hash,
        SubscriptionId::Default,
        BlobStatus::Pending,
    );
    assert!(res.is_err());
    assert_eq!(
        res.err().unwrap().msg(),
        format!("cannot finalize blob {} as added or pending", hash.to_string())
    );
}

#[test]
fn test_finalize_blob_resolved() {
    let capacity = 1024 * 1024;
    let mut state = State::new(capacity, 1);
    let subscriber = new_address();
    let current_epoch = i64::from(1);
    let amount = TokenAmount::from_whole(10);
    state
        .buy_credit(subscriber, amount.clone(), current_epoch)
        .unwrap();

    // Add a blob
    let (hash, size) = new_hash(1024);
    let source = new_pk();
    let res = state.add_blob(
        subscriber,
        subscriber,
        subscriber,
        current_epoch,
        hash,
        new_metadata_hash(),
        SubscriptionId::Default,
        size,
        None,
        source,
        TokenAmount::zero(),
    );
    assert!(res.is_ok());

    // Set to status pending
    let res = state.set_blob_pending(subscriber, hash, SubscriptionId::Default, source);
    assert!(res.is_ok());

    // Finalize as resolved
    let finalize_epoch = i64::from(11);
    let res = state.finalize_blob(
        subscriber,
        finalize_epoch,
        hash,
        SubscriptionId::Default,
        BlobStatus::Resolved,
    );
    assert!(res.is_ok());

    // Check status
    let status = state
        .get_blob_status(subscriber, hash, SubscriptionId::Default)
        .unwrap();
    assert!(matches!(status, BlobStatus::Resolved));

    // Check indexes
    assert_eq!(state.expiries.len(), 1);
    assert_eq!(state.added.len(), 0);
    assert_eq!(state.pending.len(), 0);
}

#[test]
fn test_finalize_blob_failed() {
    let capacity = 1024 * 1024;
    let mut state = State::new(capacity, 1);
    let subscriber = new_address();
    let current_epoch = i64::from(1);
    let amount = TokenAmount::from_whole(10);
    state
        .buy_credit(subscriber, amount.clone(), current_epoch)
        .unwrap();
    let credit_amount = amount.atto() * state.credit_debit_rate;

    // Add a blob
    let add_epoch = current_epoch;
    let (hash, size) = new_hash(1024);
    let source = new_pk();
    let res = state.add_blob(
        subscriber,
        subscriber,
        subscriber,
        add_epoch,
        hash,
        new_metadata_hash(),
        SubscriptionId::Default,
        size,
        None,
        source,
        TokenAmount::zero(),
    );
    assert!(res.is_ok());

    // Set to status pending
    let res = state.set_blob_pending(subscriber, hash, SubscriptionId::Default, source);
    assert!(res.is_ok());

    // Finalize as failed
    let finalize_epoch = i64::from(11);
    let res = state.finalize_blob(
        subscriber,
        finalize_epoch,
        hash,
        SubscriptionId::Default,
        BlobStatus::Failed,
    );
    assert!(res.is_ok());

    // Check status
    let status = state
        .get_blob_status(subscriber, hash, SubscriptionId::Default)
        .unwrap();
    assert!(matches!(status, BlobStatus::Failed));

    // Check the account balance
    let account = state.get_account(subscriber).unwrap();
    assert_eq!(account.last_debit_epoch, add_epoch);
    assert_eq!(account.credit_committed, BigInt::from(0)); // credit was released
    assert_eq!(account.credit_free, credit_amount);
    assert_eq!(account.capacity_used, BigInt::from(0)); // capacity was released

    // Check state
    assert_eq!(state.credit_committed, BigInt::from(0)); // credit was released
    assert_eq!(state.credit_debited, BigInt::from(0));
    assert_eq!(state.capacity_used, BigInt::from(0)); // capacity was released

    // Check indexes
    assert_eq!(state.expiries.len(), 1); // remains until the blob is explicitly deleted
    assert_eq!(state.added.len(), 0);
    assert_eq!(state.pending.len(), 0);
}

#[test]
fn test_finalize_blob_failed_refund() {
    let capacity = 1024 * 1024;
    let mut state = State::new(capacity, 1);
    let subscriber = new_address();
    let current_epoch = i64::from(1);
    let amount = TokenAmount::from_whole(10);
    state
        .buy_credit(subscriber, amount.clone(), current_epoch)
        .unwrap();
    let mut credit_amount = amount.atto() * state.credit_debit_rate;

    // Add a blob
    let add_epoch = current_epoch;
    let (hash, size) = new_hash(1024);
    let source = new_pk();
    let res = state.add_blob(
        subscriber,
        subscriber,
        subscriber,
        add_epoch,
        hash,
        new_metadata_hash(),
        SubscriptionId::Default,
        size,
        None,
        source,
        TokenAmount::zero(),
    );
    assert!(res.is_ok());

    // Check the account balance
    let account = state.get_account(subscriber).unwrap();
    assert_eq!(account.last_debit_epoch, add_epoch);
    assert_eq!(
        account.credit_committed,
        BigInt::from(AUTO_TTL as u64 * size),
    );
    credit_amount -= &account.credit_committed;
    assert_eq!(account.credit_free, credit_amount);
    assert_eq!(account.capacity_used, BigInt::from(size));

    // Check state
    assert_eq!(state.credit_committed, account.credit_committed);
    assert_eq!(state.credit_debited, BigInt::from(0));
    assert_eq!(state.capacity_used, account.capacity_used); // capacity was released

    // Debit accounts to trigger a refund when we fail below
    let debit_epoch = i64::from(11);
    let deletes_from_disc = state.debit_accounts(debit_epoch).unwrap();
    assert!(deletes_from_disc.is_empty());

    // Check the account balance
    let account = state.get_account(subscriber).unwrap();
    assert_eq!(account.last_debit_epoch, debit_epoch);
    assert_eq!(
        account.credit_committed,
        BigInt::from((AUTO_TTL - (debit_epoch - add_epoch)) as u64 * size),
    );
    assert_eq!(account.credit_free, credit_amount); // not changed
    assert_eq!(account.capacity_used, BigInt::from(size));

    // Check state
    assert_eq!(state.credit_committed, account.credit_committed);
    assert_eq!(
        state.credit_debited,
        BigInt::from((debit_epoch - add_epoch) as u64 * size)
    );
    assert_eq!(state.capacity_used, account.capacity_used);

    // Set to status pending
    let res = state.set_blob_pending(subscriber, hash, SubscriptionId::Default, source);
    assert!(res.is_ok());

    // Finalize as failed
    let finalize_epoch = i64::from(21);
    let res = state.finalize_blob(
        subscriber,
        finalize_epoch,
        hash,
        SubscriptionId::Default,
        BlobStatus::Failed,
    );
    assert!(res.is_ok());

    // Check status
    let status = state
        .get_blob_status(subscriber, hash, SubscriptionId::Default)
        .unwrap();
    assert!(matches!(status, BlobStatus::Failed));

    // Check the account balance
    let account = state.get_account(subscriber).unwrap();
    assert_eq!(account.last_debit_epoch, debit_epoch);
    assert_eq!(account.credit_committed, BigInt::from(0)); // credit was released
    assert_eq!(account.credit_free, amount.atto() * state.credit_debit_rate); // credit was refunded
    assert_eq!(account.capacity_used, BigInt::from(0)); // capacity was released

    // Check state
    assert_eq!(state.credit_committed, BigInt::from(0)); // credit was released
    assert_eq!(state.credit_debited, BigInt::from(0)); // credit was refunded and released
    assert_eq!(state.capacity_used, BigInt::from(0)); // capacity was released

    // Check indexes
    assert_eq!(state.expiries.len(), 1); // remains until the blob is explicitly deleted
    assert_eq!(state.added.len(), 0);
    assert_eq!(state.pending.len(), 0);
}

#[test]
fn test_delete_blob_refund() {
    let capacity = 1024 * 1024;
    let mut state = State::new(capacity, 1);
    let origin = new_address();
    let current_epoch = i64::from(1);
    let token_amount = TokenAmount::from_whole(10);
    state
        .buy_credit(origin, token_amount.clone(), current_epoch)
        .unwrap();
    delete_blob_refund(state, origin, origin, origin, current_epoch, token_amount);
}

#[test]
fn test_delete_blob_refund_with_approval() {
    let capacity = 1024 * 1024;
    let mut state = State::new(capacity, 1);
    let origin = new_address();
    let subscriber = new_address();
    let current_epoch = i64::from(1);
    let token_amount = TokenAmount::from_whole(10);
    state
        .buy_credit(subscriber, token_amount.clone(), current_epoch)
        .unwrap();
    state
        .approve_credit(subscriber, origin, None, current_epoch, None, None)
        .unwrap();
    delete_blob_refund(
        state,
        origin,
        origin,
        subscriber,
        current_epoch,
        token_amount,
    );
}

fn delete_blob_refund(
    mut state: State,
    origin: Address,
    caller: Address,
    subscriber: Address,
    current_epoch: i64,
    token_amount: TokenAmount,
) {
    let mut credit_amount = token_amount.atto() * state.credit_debit_rate;

    // Add a blob
    let add1_epoch = current_epoch;
    let (hash1, size1) = new_hash(1024);
    let res = state.add_blob(
        origin,
        caller,
        subscriber,
        add1_epoch,
        hash1,
        new_metadata_hash(),
        SubscriptionId::Default,
        size1,
        Some(MIN_TTL),
        new_pk(),
        TokenAmount::zero(),
    );
    assert!(res.is_ok());

    // Check the account balance
    let account = state.get_account(subscriber).unwrap();
    assert_eq!(account.last_debit_epoch, add1_epoch);
    assert_eq!(
        account.credit_committed,
        BigInt::from(MIN_TTL as u64 * size1),
    );
    credit_amount -= &account.credit_committed;
    assert_eq!(account.credit_free, credit_amount);
    assert_eq!(account.capacity_used, BigInt::from(size1));

    // Add another blob past the first blob expiry
    // This will trigger a debit on the account
    let add2_epoch = i64::from(MIN_TTL + 10);
    let (hash2, size2) = new_hash(2048);
    let res = state.add_blob(
        origin,
        caller,
        subscriber,
        add2_epoch,
        hash2,
        new_metadata_hash(),
        SubscriptionId::Default,
        size2,
        Some(MIN_TTL),
        new_pk(),
        TokenAmount::zero(),
    );
    assert!(res.is_ok());

    // Check the account balance
    let account = state.get_account(subscriber).unwrap();
    assert_eq!(account.last_debit_epoch, add2_epoch);
    let blob1_expiry = i64::from(MIN_TTL + add1_epoch);
    let overcharge = BigInt::from((add2_epoch - blob1_expiry) as u64 * size1);
    assert_eq!(
        account.credit_committed, // this includes an overcharge that needs to be refunded
        MIN_TTL as u64 * size2 - overcharge,
    );
    credit_amount -= BigInt::from(MIN_TTL as u64 * size2);
    assert_eq!(account.credit_free, credit_amount);
    assert_eq!(account.capacity_used, BigInt::from(size1 + size2));

    // Delete the first blob
    let delete_epoch = i64::from(MIN_TTL + 20);
    let delete_from_disc = state
        .delete_blob(
            origin,
            caller,
            subscriber,
            delete_epoch,
            hash1,
            SubscriptionId::Default,
        )
        .unwrap();
    assert!(delete_from_disc);

    // Check the account balance
    let account = state.get_account(subscriber).unwrap();
    assert_eq!(account.last_debit_epoch, add2_epoch); // not changed, blob is expired
    assert_eq!(
        account.credit_committed, // should not include overcharge due to refund
        BigInt::from(MIN_TTL as u64 * size2),
    );
    assert_eq!(account.credit_free, credit_amount); // not changed
    assert_eq!(account.capacity_used, BigInt::from(size2));

    // Check state
    assert_eq!(state.credit_committed, account.credit_committed); // credit was released
    assert_eq!(state.credit_debited, BigInt::from(MIN_TTL as u64 * size1));
    assert_eq!(state.capacity_used, BigInt::from(size2)); // capacity was released

    // Check indexes
    assert_eq!(state.expiries.len(), 1);
    assert_eq!(state.added.len(), 1);
    assert_eq!(state.pending.len(), 0);

    // Check approval
    let account_committed = account.credit_committed.clone();
    check_approval(
        account,
        origin,
        caller,
        state.credit_debited + account_committed,
    );
}

