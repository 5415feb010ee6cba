//! Whether the credit for a request is there, and how it is found.

use crate::account::CreditApproval;
use crate::error::ActorError;
use crate::error::Cause;
use crate::model;
use crate::model::ApprovalView;
use crate::model::AUTO_TTL;
use crate::model::MIN_TTL;
use crate::num::big_div_u64;
use crate::num::big_is_zero;
use crate::num::big_le;
use crate::num::big_lt;
use crate::num::big_sub;
use crate::num::big_value;
use crate::num::big_zero;
use crate::num::token_atto;
use crate::num::token_from_atto;
use crate::num::token_value;
use crate::text::approval_exhausted;
use crate::text::approval_expired;
use crate::text::blob_ttl_too_short;
use crate::text::inline_buy_with_delegation;
use crate::text::insufficient_credit;
use crate::text::insufficient_tokens;
use crate::text::lemma_names_no_amounts;
use crate::text::says_amounts;
use crate::text::says_plainly;
use fvm_shared::address::Address;
use fvm_shared::bigint::BigInt;
use fvm_shared::econ::TokenAmount;
use vstd::prelude::*;

verus! {

/// An approval in use: who spends, through which caller, and the approval.
/// The account whose credit is spent is not part of it.
pub struct CreditDelegation<'a> {
    /// The address that sent the transaction.
    pub origin: Address,
    /// The address that called the ledger: the origin itself, or a contract
    /// such as a bucket acting for it.
    pub caller: Address,
    /// The approval that lets the origin spend through the caller.
    pub approval: &'a CreditApproval,
}

impl<'a> CreditDelegation<'a> {
    pub fn new(origin: Address, caller: Address, approval: &'a CreditApproval) -> (r: Self)
        ensures
            r.origin == origin,
            r.caller == caller,
            r.approval == approval,
    {
        CreditDelegation { origin, caller, approval }
    }

    /// The origin and the caller.
    pub fn addresses(&self) -> (r: (Address, Address))
        ensures
            r == (self.origin, self.caller),
    {
        (self.origin, self.caller)
    }
}

/// The approval of a delegation, if there is a delegation.
pub open spec fn approval_of(d: Option<CreditDelegation>) -> Option<ApprovalView> {
    match d {
        Some(x) => Some(x.approval@),
        None => None,
    }
}

/// The time-to-live that a request gets, and whether its subscription renews
/// by itself: the one asked for, which must not be below the minimum, or the
/// automatic one.
pub fn accept_ttl(ttl: Option<i64>) -> (r: Result<(i64, bool), ActorError>)
    ensures
        match model::accept_ttl(crate::account::epoch_option_value(ttl)) {
            Ok((t, auto_renew)) => r matches Ok(got) && got.0 == t && got.1 == auto_renew,
            Err(c) => r matches Err(e) && e.cause == c && says_plainly(e),
        },
{
    let (t, auto_renew) = match ttl {
        Some(t) => (t, false),
        None => (AUTO_TTL, true),
    };
    if t < MIN_TTL {
        Err(blob_ttl_too_short())
    } else {
        Ok((t, auto_renew))
    }
}

/// Checks that the account's free credit covers what is required.
pub fn ensure_enough_credits(subscriber: &Address, credit_free: &BigInt, required_credit: &BigInt) -> (r:
    Result<(), ActorError>)
    ensures
        match model::ensure_enough_credits(big_value(*credit_free), big_value(*required_credit)) {
            Ok(_) => r is Ok,
            Err(c) => r matches Err(e) && e.cause == c && says_amounts(
                e,
                (big_value(*credit_free), big_value(*required_credit)),
            ),
        },
{
    if big_le(required_credit, credit_free) {
        Ok(())
    } else {
        Err(insufficient_credit(subscriber, credit_free, required_credit))
    }
}

/// Checks that the approval in use, if any, has the required credit left
/// under its limit and has not expired.
pub fn ensure_delegated_credit(
    subscriber: &Address,
    current_epoch: i64,
    required_credit: &BigInt,
    delegation: &Option<CreditDelegation>,
) -> (r: Result<(), ActorError>)
    ensures
        match model::ensure_delegated_credit(
            current_epoch as int,
            big_value(*required_credit),
            approval_of(*delegation),
        ) {
            Ok(_) => r is Ok,
            Err(c) => r matches Err(e) && e.cause == c && says_amounts(
                e,
                (model::approval_left(approval_of(*delegation)), big_value(*required_credit)),
            ),
        },
{
    if let Some(d) = delegation {
        if let Some(limit) = &d.approval.limit {
            let unused = big_sub(limit, &d.approval.used);
            if big_lt(&unused, required_credit) {
                return Err(
                    approval_exhausted(subscriber, &d.origin, &d.caller, &unused, required_credit),
                );
            }
        }
        if let Some(expiry) = d.approval.expiry {
            if expiry <= current_epoch {
                return Err(approval_expired(subscriber, &d.origin, &d.caller));
            }
        }
    }
    Ok(())
}

/// Checks that the subscriber has the required credit, in its account and
/// under the approval in use.
pub fn ensure_credit(
    subscriber: &Address,
    current_epoch: i64,
    credit_free: &BigInt,
    required_credit: &BigInt,
    delegation: &Option<CreditDelegation>,
) -> (r: Result<(), ActorError>)
    ensures
        match model::ensure_credit(
            current_epoch as int,
            big_value(*credit_free),
            big_value(*required_credit),
            approval_of(*delegation),
        ) {
            Ok(_) => r is Ok,
            Err(c) => r matches Err(e) && e.cause == c && says_amounts(
                e,
                model::credit_amounts(
                    c,
                    big_value(*credit_free),
                    big_value(*required_credit),
                    approval_of(*delegation),
                ),
            ),
        },
{
    match ensure_enough_credits(subscriber, credit_free, required_credit) {
        Err(e) => Err(e),
        Ok(_) => match ensure_delegated_credit(
            subscriber,
            current_epoch,
            required_credit,
            delegation,
        ) {
            Err(e) => {
                proof {
                    let approval = approval_of(*delegation);
                    let required = big_value(*required_credit);
                    if e.cause != Cause::ApprovalExhausted {
                        lemma_names_no_amounts(
                            e,
                            (model::approval_left(approval), required),
                            model::credit_amounts(
                                e.cause,
                                big_value(*credit_free),
                                required,
                                approval,
                            ),
                        );
                    }
                }
                Err(e)
            },
            Ok(_) => Ok(()),
        },
    }
}

/// Finds the required credit: in the account, or by buying what is missing
/// with the tokens sent. Hands out the credit to buy and the tokens that go
/// back to the caller; the caller adds the credit bought to the account and
/// to the credit sold.
pub fn ensure_credit_or_buy(
    account_credit_free: &BigInt,
    credit_required: &BigInt,
    tokens_received: &TokenAmount,
    debit_credit_rate: u64,
    subscriber: &Address,
    current_epoch: i64,
    delegate: &Option<CreditDelegation>,
) -> (r: Result<(BigInt, TokenAmount), ActorError>)
    requires
        model::buys(
            big_value(*account_credit_free),
            big_value(*credit_required),
            token_value(*tokens_received),
            approval_of(*delegate),
        ) ==> debit_credit_rate > 0,
    ensures
        match model::ensure_credit_or_buy(
            big_value(*account_credit_free),
            big_value(*credit_required),
            token_value(*tokens_received),
            debit_credit_rate as int,
            current_epoch as int,
            approval_of(*delegate),
        ) {
            Ok(p) => r matches Ok(got) && big_value(got.0) == p.bought && token_value(got.1)
                == p.unspent,
            Err(c) => r matches Err(e) && e.cause == c && says_amounts(
                e,
                model::purchase_amounts(
                    c,
                    big_value(*account_credit_free),
                    big_value(*credit_required),
                    token_value(*tokens_received),
                    debit_credit_rate as int,
                    approval_of(*delegate),
                ),
            ),
        },
{
    let tokens = token_atto(tokens_received);
    if !big_is_zero(&tokens) {
        if delegate.is_some() {
            Err(inline_buy_with_delegation(subscriber))
        } else if big_lt(account_credit_free, credit_required) {
            let credits_needed = big_sub(credit_required, account_credit_free);
            let tokens_needed = big_div_u64(&credits_needed, debit_credit_rate);
            if big_le(&tokens_needed, &tokens) {
                let rebate = big_sub(&tokens, &tokens_needed);
                Ok((credits_needed, token_from_atto(rebate)))
            } else {
                Err(
                    insufficient_tokens(
                        subscriber,
                        tokens_received,
                        &token_from_atto(tokens_needed),
                    ),
                )
            }
        } else {
            Ok((big_zero(), token_from_atto(tokens)))
        }
    } else {
        match ensure_credit(
            subscriber,
            current_epoch,
            account_credit_free,
            credit_required,
            delegate,
        ) {
            Err(e) => Err(e),
            Ok(_) => Ok((big_zero(), token_from_atto(big_zero()))),
        }
    }
}

} // verus!
