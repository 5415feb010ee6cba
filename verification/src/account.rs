//! Accounts and the credit approvals they give.

use crate::key::Key;
use crate::model::approval_key;
use crate::model::spend_through;
use crate::model::AccountView;
use crate::model::ApprovalView;
use crate::model::ApprovalsView;
use crate::num::big_add;
use crate::num::big_clone;
use crate::num::big_value;
use crate::num::big_zero;
use crate::vecmap::VecMap;
use fvm_shared::address::Address;
use fvm_shared::bigint::BigInt;
use vstd::prelude::*;

verus! {

/// Lets another address spend an account's credit.
#[derive(Debug)]
pub struct CreditApproval {
    /// The most that may be used through the approval, if limited.
    pub limit: Option<BigInt>,
    /// The epoch from which the approval no longer holds, if any.
    pub expiry: Option<i64>,
    /// The credit committed through the approval and not yet reclaimed.
    pub used: BigInt,
}

/// The number an optional big integer holds.
pub open spec fn big_option_value(b: Option<BigInt>) -> Option<int> {
    match b {
        Some(v) => Some(big_value(v)),
        None => None,
    }
}

/// The number an optional epoch holds.
pub open spec fn epoch_option_value(e: Option<i64>) -> Option<int> {
    match e {
        Some(v) => Some(v as int),
        None => None,
    }
}

impl CreditApproval {
    /// The approval, with its numbers as integers.
    pub open spec fn view(&self) -> ApprovalView {
        ApprovalView {
            limit: big_option_value(self.limit),
            expiry: epoch_option_value(self.expiry),
            used: big_value(self.used),
        }
    }

    /// A copy.
    pub fn dup(&self) -> (r: Self)
        ensures
            r@ == self@,
    {
        let limit = match &self.limit {
            Some(l) => Some(big_clone(l)),
            None => None,
        };
        CreditApproval { limit, expiry: self.expiry, used: big_clone(&self.used) }
    }
}

/// The approvals given to one receiver, by caller.
pub type CallerApprovals = VecMap<Address, CreditApproval>;

/// The approvals an account has given, by receiver.
pub type Approvals = VecMap<Address, CallerApprovals>;

/// What one receiver's approvals are, by caller.
pub open spec fn caller_approvals_view(m: CallerApprovals) -> Map<Address, ApprovalView> {
    m@.map_values(|a: CreditApproval| a@)
}

/// What an account's approvals are.
pub open spec fn approvals_view(m: Approvals) -> ApprovalsView {
    m@.map_values(|c: CallerApprovals| caller_approvals_view(c))
}

/// Every map of the approvals is well-formed, and no receiver is left
/// without an approval.
pub open spec fn approvals_wf(m: Approvals) -> bool {
    &&& m.wf()
    &&& forall|to: Address| #[trigger] m@.contains_key(to) ==> m@[to].wf()
}

/// A copy of one receiver's approvals.
pub fn dup_caller_approvals(m: &CallerApprovals) -> (r: CallerApprovals)
    requires
        m.wf(),
    ensures
        r.wf(),
        caller_approvals_view(r) == caller_approvals_view(*m),
{
    let n = m.len();
    let mut r: CallerApprovals = VecMap::new();
    let mut i: usize = 0;
    while i < n
        invariant
            m.wf(),
            r.wf(),
            i <= n,
            n == m.entries@.len(),
            r.entries@.len() == i,
            r.ids() == m.ids().take(i as int),
            forall|j: int| 0 <= j < i ==> (#[trigger] r.entries@[j]).1@ == m.entries@[j].1@,
        decreases n - i,
    {
        let k = *m.key_at(i);
        let v = m.value_at(i).dup();
        proof {
            assert(!r.ids().contains(k.ident())) by {
                if r.ids().contains(k.ident()) {
                    let j = r.ids().index_of(k.ident());
                    assert(m.ids()[j] == m.ids()[i as int]);
                }
            }
        }
        r.put(k, v);
        proof {
            assert(r.ids() =~= m.ids().take(i + 1));
        }
        i += 1;
    }
    proof {
        assert(m.ids().take(n as int) =~= m.ids());
        r.lemma_same_view(*m, |a: CreditApproval| a@);
    }
    r
}

/// A copy of an account's approvals.
pub fn dup_approvals(m: &Approvals) -> (r: Approvals)
    requires
        approvals_wf(*m),
    ensures
        approvals_wf(r),
        approvals_view(r) == approvals_view(*m),
{
    let n = m.len();
    let mut r: Approvals = VecMap::new();
    let mut i: usize = 0;
    while i < n
        invariant
            approvals_wf(*m),
            r.wf(),
            i <= n,
            n == m.entries@.len(),
            r.entries@.len() == i,
            r.ids() == m.ids().take(i as int),
            forall|j: int|
                0 <= j < i ==> (#[trigger] r.entries@[j]).1.wf() && caller_approvals_view(
                    r.entries@[j].1,
                ) == caller_approvals_view(m.entries@[j].1),
        decreases n - i,
    {
        let k = *m.key_at(i);
        proof {
            m.lemma_entry(i as int);
        }
        let v = dup_caller_approvals(m.value_at(i));
        proof {
            assert(!r.ids().contains(k.ident())) by {
                if r.ids().contains(k.ident()) {
                    let j = r.ids().index_of(k.ident());
                    assert(m.ids()[j] == m.ids()[i as int]);
                }
            }
        }
        r.put(k, v);
        proof {
            assert(r.ids() =~= m.ids().take(i + 1));
        }
        i += 1;
    }
    proof {
        assert(m.ids().take(n as int) =~= m.ids());
        r.lemma_same_view(*m, |c: CallerApprovals| caller_approvals_view(c));
        assert forall|to: Address| #[trigger] r@.contains_key(to) implies r@[to].wf() by {
            r.lemma_key(to);
        }
    }
    r
}

/// Under which caller the approval for `origin` through `caller` is found.
pub fn find_approval_key(m: &Approvals, origin: &Address, caller: &Address) -> (r: Option<Address>)
    requires
        approvals_wf(*m),
    ensures
        r == approval_key(approvals_view(*m), *origin, *caller),
{
    match m.get(origin) {
        Some(inner) => {
            if inner.contains_key(origin) {
                Some(*origin)
            } else if inner.contains_key(caller) {
                Some(*caller)
            } else {
                None
            }
        },
        None => None,
    }
}

/// The approval at `(origin, key)`.
pub fn approval_at<'a>(m: &'a Approvals, origin: &Address, key: &Address) -> (r: &'a CreditApproval)
    requires
        approvals_wf(*m),
        approvals_view(*m).contains_key(*origin),
        approvals_view(*m)[*origin].contains_key(*key),
    ensures
        r@ == approvals_view(*m)[*origin][*key],
{
    let inner = m.get(origin).unwrap();
    inner.get(key).unwrap()
}

/// Counts `amount` more as used through the approval at `(origin, key)`.
pub fn spend(m: &mut Approvals, origin: &Address, key: &Address, amount: &BigInt)
    requires
        approvals_wf(*old(m)),
        approvals_view(*old(m)).contains_key(*origin),
        approvals_view(*old(m))[*origin].contains_key(*key),
    ensures
        approvals_wf(*final(m)),
        approvals_view(*final(m)) == spend_through(
            approvals_view(*old(m)),
            *origin,
            *key,
            big_value(*amount),
        ),
{
    let ghost before = *m;
    let mut inner = m.take(origin).unwrap();
    let ghost inner0 = inner;
    let mut approval = inner.take(key).unwrap();
    approval.used = big_add(&approval.used, amount);
    inner.insert(*key, approval);
    m.insert(*origin, inner);
    proof {
        let f = |a: CreditApproval| a@;
        let g = |c: CallerApprovals| caller_approvals_view(c);
        assert(inner@ =~= inner0@.insert(*key, approval));
        assert(caller_approvals_view(inner) =~= caller_approvals_view(inner0).insert(
            *key,
            approval@,
        ));
        assert(m@ =~= before@.insert(*origin, inner));
        assert(approvals_view(*m) =~= approvals_view(before).insert(
            *origin,
            caller_approvals_view(inner),
        ));
        assert forall|to: Address| #[trigger] m@.contains_key(to) implies m@[to].wf() by {
            if to != *origin {
                assert(before@.contains_key(to));
            }
        }
    }
}

/// Which times-to-live an account may ask for its blobs. The ledger keeps the
/// status; the host that admits the calls enforces it.
#[derive(Clone, Copy, Debug, PartialEq, Eq, Structural)]
pub enum TtlStatus {
    /// The status of a new account: no restriction.
    Default,
    /// A reduced range.
    Reduced,
    /// An extended range.
    Extended,
}

/// An account: what it holds, what it uses, and whom it lets spend.
#[derive(Debug)]
pub struct Account {
    /// The bytes of all blobs that the account subscribes to.
    pub capacity_used: BigInt,
    /// Credit that can be committed.
    pub credit_free: BigInt,
    /// Credit committed to subscriptions, from which debits are taken.
    pub credit_committed: BigInt,
    /// The epoch up to which the account was debited.
    pub last_debit_epoch: i64,
    /// Which times-to-live the account may ask for.
    pub ttl_status: TtlStatus,
    /// The approvals given: by receiver, then by caller. An approval under the
    /// receiver's own address holds for any caller.
    pub approvals: Approvals,
}

impl Account {
    /// Well-formedness: the approvals are.
    pub open spec fn wf(&self) -> bool {
        approvals_wf(self.approvals)
    }

    /// The account, with its numbers as integers and its approvals as maps.
    pub open spec fn view(&self) -> AccountView {
        AccountView {
            capacity_used: big_value(self.capacity_used),
            credit_free: big_value(self.credit_free),
            credit_committed: big_value(self.credit_committed),
            last_debit_epoch: self.last_debit_epoch as int,
            ttl_status: self.ttl_status,
            approvals: approvals_view(self.approvals),
        }
    }

    /// A fresh account with the given free credit, debited up to `epoch`.
    pub fn new(credit_free: BigInt, current_epoch: i64) -> (r: Self)
        ensures
            r.wf(),
            r@ == crate::model::new_account(big_value(credit_free), current_epoch as int),
    {
        let r = Account {
            capacity_used: big_zero(),
            credit_free,
            credit_committed: big_zero(),
            last_debit_epoch: current_epoch,
            ttl_status: TtlStatus::Default,
            approvals: VecMap::new(),
        };
        proof {
            assert(approvals_view(r.approvals) =~= Map::empty());
        }
        r
    }

    /// A copy.
    pub fn dup(&self) -> (r: Self)
        requires
            self.wf(),
        ensures
            r.wf(),
            r@ == self@,
    {
        Account {
            capacity_used: big_clone(&self.capacity_used),
            credit_free: big_clone(&self.credit_free),
            credit_committed: big_clone(&self.credit_committed),
            last_debit_epoch: self.last_debit_epoch,
            ttl_status: self.ttl_status,
            approvals: dup_approvals(&self.approvals),
        }
    }
}

} // verus!
