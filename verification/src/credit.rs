//! Buying credit, and approving others to spend it.

use crate::account::approval_at;
use crate::account::approvals_view;
use crate::account::caller_approvals_view;
use crate::account::find_approval_key;
use crate::account::Account;
use crate::account::CreditApproval;
use crate::account::TtlStatus;
use crate::error::ActorError;
use crate::key::Key;
use crate::model::ApprovalView;
use crate::model::MIN_TTL;
use crate::num::big_add;
use crate::num::big_from_biguint;
use crate::num::big_from_u64;
use crate::num::big_is_negative;
use crate::num::big_is_zero;
use crate::num::big_lt;
use crate::num::big_mul;
use crate::num::big_zero;
use crate::num::biguint_value;
use crate::num::token_atto;
use crate::num::token_value;
use crate::state::put_account;
use crate::state::take_account;
use crate::state::State;
use crate::text::account_not_found;
use crate::text::says_amounts;
use crate::text::says_plainly;
use crate::text::approval_ttl_too_short;
use crate::text::limit_below_used;
use crate::text::negative_token_amount;
use crate::text::no_capacity;
use crate::transitions;
use crate::vecmap::VecMap;
use fvm_shared::address::Address;
use fvm_shared::bigint::BigUint;
use fvm_shared::econ::TokenAmount;
use vstd::prelude::*;

verus! {

/// The number an optional unsigned big integer holds.
pub open spec fn biguint_option_value(b: Option<BigUint>) -> Option<int> {
    match b {
        Some(v) => Some(biguint_value(v)),
        None => None,
    }
}

impl State {
    /// Sells credit to `recipient` for `amount` tokens, which the host has
    /// taken already, and returns the recipient's account as it then is.
    pub fn buy_credit(&mut self, recipient: Address, amount: TokenAmount, current_epoch: i64) -> (r:
        Result<Account, ActorError>)
        requires
            old(self).wf(),
        ensures
            final(self).wf(),
            match transitions::buy_credit(
                old(self)@,
                recipient,
                token_value(amount),
                current_epoch as int,
            ) {
                Ok((s, a)) => r matches Ok(account) && final(self)@ == s && account@ == a
                    && account.wf(),
                Err(c) => r matches Err(e) && e.cause == c && says_plainly(e) && *final(self) == *old(self),
            },
    {
        let atto = token_atto(&amount);
        if big_is_negative(&atto) {
            return Err(negative_token_amount());
        }
        let available = self.capacity_available();
        if big_is_zero(&available) {
            return Err(no_capacity());
        }
        let rate = big_from_u64(self.credit_debit_rate);
        let credits = big_mul(&rate, &atto);
        self.credit_sold = big_add(&self.credit_sold, &credits);
        let mut account = take_account(&mut self.accounts, &recipient, current_epoch);
        account.credit_free = big_add(&account.credit_free, &credits);
        let snapshot = account.dup();
        put_account(&mut self.accounts, recipient, account);
        proof {
            let m = transitions::buy_credit(
                old(self)@,
                recipient,
                token_value(amount),
                current_epoch as int,
            );
            assert(m is Ok);
            assert(snapshot@ =~= m->Ok_0.1);
            assert(self@ =~~= m->Ok_0.0);
        }
        Ok(snapshot)
    }

    /// Lets `to` spend the credit of `from`: through `require_caller` only where
    /// that is given, up to `limit`, and for `ttl` epochs from now. Returns the
    /// approval.
    pub fn approve_credit(
        &mut self,
        from: Address,
        to: Address,
        require_caller: Option<Address>,
        current_epoch: i64,
        limit: Option<BigUint>,
        ttl: Option<i64>,
    ) -> (r: Result<CreditApproval, ActorError>)
        requires
            old(self).wf(),
            ttl matches Some(t) ==> t + current_epoch <= i64::MAX,
        ensures
            final(self).wf(),
            match transitions::approve_credit(
                old(self)@,
                from,
                to,
                require_caller,
                current_epoch as int,
                biguint_option_value(limit),
                crate::account::epoch_option_value(ttl),
            ) {
                Ok((s, a)) => r matches Ok(approval) && final(self)@ == s && approval@ == a,
                Err(c) => r matches Err(e) && e.cause == c && says_amounts(
                    e,
                    (0, transitions::approval_used(old(self)@, from, to, require_caller, current_epoch as int)),
                ) && *final(self) == *old(self),
            },
    {
        let ghost limit_value = biguint_option_value(limit);
        let limit = match limit {
            Some(l) => Some(big_from_biguint(l)),
            None => None,
        };
        if let Some(t) = ttl {
            if t < MIN_TTL {
                return Err(approval_ttl_too_short());
            }
        }
        let expiry = match ttl {
            Some(t) => Some(t + current_epoch),
            None => None,
        };
        let caller = match require_caller {
            Some(c) => c,
            None => to,
        };
        // Look before touching anything: a limit below what was used is refused.
        if let Some(l) = &limit {
            if let Some(account) = self.accounts.get(&from) {
                if let Some(given) = account.approvals.get(&to) {
                    if let Some(approval) = given.get(&caller) {
                        if big_lt(l, &approval.used) {
                            return Err(limit_below_used(&approval.used));
                        }
                    }
                }
            }
        }
        let mut account = take_account(&mut self.accounts, &from, current_epoch);
        let ghost account0 = account;
        let mut given = match account.approvals.take(&to) {
            Some(g) => g,
            None => VecMap::new(),
        };
        let ghost given0 = given;
        let used = match given.take(&caller) {
            Some(a) => a.used,
            None => big_zero(),
        };
        let approval = CreditApproval { limit, expiry, used };
        let result = approval.dup();
        given.insert(caller, approval);
        account.approvals.insert(to, given);
        proof {
            assert(caller_approvals_view(given) =~= caller_approvals_view(given0).insert(
                caller,
                approval@,
            ));
            if !account0.approvals@.contains_key(to) {
                assert(caller_approvals_view(given0) =~= Map::<Address, ApprovalView>::empty());
            }
            assert(approvals_view(account.approvals) =~= approvals_view(account0.approvals).insert(
                to,
                caller_approvals_view(given),
            ));
            assert forall|x: Address| #[trigger]
                account.approvals@.contains_key(x) implies account.approvals@[x].wf() by {
                if x != to {
                    assert(account0.approvals@.contains_key(x));
                }
            }
        }
        put_account(&mut self.accounts, from, account);
        proof {
            let m = transitions::approve_credit(
                old(self)@,
                from,
                to,
                require_caller,
                current_epoch as int,
                limit_value,
                crate::account::epoch_option_value(ttl),
            );
            assert(m is Ok);
            assert(result@ =~= m->Ok_0.1);
            assert(self@ =~~= m->Ok_0.0);
        }
        Ok(result)
    }

    /// Sets the time-to-live status of an account, which is made if need be.
    pub fn set_account_blob_ttl_status(
        &mut self,
        account: Address,
        status: TtlStatus,
        current_epoch: i64,
    ) -> (r: Result<(), ActorError>)
        requires
            old(self).wf(),
        ensures
            final(self).wf(),
            r is Ok,
            final(self)@ == transitions::set_account_blob_ttl_status(
                old(self)@,
                account,
                status,
                current_epoch as int,
            ),
    {
        let mut found = take_account(&mut self.accounts, &account, current_epoch);
        found.ttl_status = status;
        put_account(&mut self.accounts, account, found);
        proof {
            assert(self@ =~~= transitions::set_account_blob_ttl_status(
                old(self)@,
                account,
                status,
                current_epoch as int,
            ));
        }
        Ok(())
    }

    /// The approval that lets `receiver` spend the credit of `from` through
    /// `caller`, if there is one: the one for any caller first.
    pub fn get_credit_approval(&self, from: Address, receiver: Address, caller: Address) -> (r:
        Option<CreditApproval>)
        requires
            self.wf(),
        ensures
            match transitions::get_credit_approval(self@, from, receiver, caller) {
                Some(a) => r matches Some(approval) && approval@ == a,
                None => r is None,
            },
    {
        match self.accounts.get(&from) {
            None => None,
            Some(account) => match find_approval_key(&account.approvals, &receiver, &caller) {
                Some(key) => Some(approval_at(&account.approvals, &receiver, &key).dup()),
                None => None,
            },
        }
    }

    /// Takes back the approval from `from` to `to`: the one for `for_caller`
    /// where that is given, else the one for any caller.
    pub fn revoke_credit(&mut self, from: Address, to: Address, for_caller: Option<Address>) -> (r:
        Result<(), ActorError>)
        requires
            old(self).wf(),
        ensures
            final(self).wf(),
            match transitions::revoke_credit(old(self)@, from, to, for_caller) {
                Ok(s) => r is Ok && final(self)@ == s,
                Err(c) => r matches Err(e) && e.cause == c && says_plainly(e) && *final(self) == *old(self),
            },
    {
        if !self.accounts.contains_key(&from) {
            return Err(account_not_found(&from));
        }
        let caller = match for_caller {
            Some(c) => c,
            None => to,
        };
        let mut account = take_account(&mut self.accounts, &from, 0);
        let ghost account0 = account;
        match account.approvals.take(&to) {
            Some(mut given) => {
                let ghost given0 = given;
                given.take(&caller);
                proof {
                    assert(caller_approvals_view(given) =~= caller_approvals_view(given0).remove(
                        caller,
                    ));
                    if caller_approvals_view(given) == Map::<Address, ApprovalView>::empty() {
                        assert(given@.dom() =~= caller_approvals_view(given).dom());
                        assert(given@ =~= Map::<Address, CreditApproval>::empty());
                    } else if given@ == Map::<Address, CreditApproval>::empty() {
                        assert(caller_approvals_view(given) =~= Map::<
                            Address,
                            ApprovalView,
                        >::empty());
                    }
                }
                if !given.is_empty() {
                    account.approvals.insert(to, given);
                    proof {
                        assert(approvals_view(account.approvals) =~= approvals_view(
                            account0.approvals,
                        ).insert(to, caller_approvals_view(given)));
                    }
                } else {
                    proof {
                        assert(approvals_view(account.approvals) =~= approvals_view(
                            account0.approvals,
                        ).remove(to));
                    }
                }
            },
            None => {},
        }
        proof {
            assert forall|x: Address| #[trigger]
                account.approvals@.contains_key(x) implies account.approvals@[x].wf() by {
                if x != to {
                    assert(account0.approvals@.contains_key(x));
                }
            }
        }
        put_account(&mut self.accounts, from, account);
        proof {
            let m = transitions::revoke_credit(old(self)@, from, to, for_caller);
            assert(m is Ok);
            assert(self@ =~~= m->Ok_0);
        }
        Ok(())
    }
}

} // verus!
