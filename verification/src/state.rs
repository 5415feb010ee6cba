//! The ledger: accounts, blobs and indexes, and the running totals.

use crate::account::Account;
use crate::blob::Blob;
use crate::ids;
use crate::index::expiries_view;
use crate::index::expiries_wf;
use crate::index::sources_view;
use crate::index::sources_wf;
use crate::index::Expiries;
use crate::index::Sources;
use crate::key::Key;
use crate::model::AccountView;
use crate::model::BlobView;
use crate::model::StateView;
use crate::num::big_from_u64;
use crate::num::big_sub;
use crate::num::big_value;
use crate::num::big_zero;
use crate::ordmap::OrdMap;
use crate::transitions::genesis;
use crate::vecmap::VecMap;
use fvm_shared::address::Address;
use fvm_shared::bigint::BigInt;
use vstd::prelude::*;

verus! {

/// The accounts, by address.
pub type Accounts = VecMap<Address, Account>;

/// The blobs, by hash.
pub type Blobs = VecMap<ids::Hash, Blob>;

/// What the accounts are.
pub open spec fn accounts_view(m: Accounts) -> Map<Address, AccountView> {
    m@.map_values(|a: Account| a@)
}

/// What the blobs are.
pub open spec fn blobs_view(m: Blobs) -> Map<ids::Hash, BlobView> {
    m@.map_values(|b: Blob| b@)
}

/// Every account is well-formed, and each address has one.
pub open spec fn accounts_wf(m: Accounts) -> bool {
    &&& m.wf()
    &&& forall|a: Address| #[trigger] m@.contains_key(a) ==> m@[a].wf()
}

/// Every blob is well-formed, and each hash has one.
pub open spec fn blobs_wf(m: Blobs) -> bool {
    &&& m.wf()
    &&& forall|h: ids::Hash| #[trigger] m@.contains_key(h) ==> m@[h].wf()
}

/// Takes the account at `addr` out of the map, or makes a fresh one, debited
/// up to `epoch`, where there is none.
pub fn take_account(accounts: &mut Accounts, addr: &Address, epoch: i64) -> (a: Account)
    requires
        accounts_wf(*old(accounts)),
    ensures
        accounts_wf(*final(accounts)),
        a.wf(),
        a@ == if accounts_view(*old(accounts)).contains_key(*addr) {
            accounts_view(*old(accounts))[*addr]
        } else {
            crate::model::new_account(0, epoch as int)
        },
        accounts_view(*final(accounts)) == accounts_view(*old(accounts)).remove(*addr),
{
    let ghost before = *accounts;
    let r = accounts.take(addr);
    proof {
        assert(accounts_view(*accounts) =~= accounts_view(before).remove(*addr));
        assert forall|a: Address| #[trigger] accounts@.contains_key(a) implies accounts@[a].wf() by {
            assert(before@.contains_key(a));
        }
    }
    match r {
        Some(a) => a,
        None => Account::new(big_zero(), epoch),
    }
}

/// Puts an account into the map at `addr`.
pub fn put_account(accounts: &mut Accounts, addr: Address, a: Account)
    requires
        accounts_wf(*old(accounts)),
        a.wf(),
    ensures
        accounts_wf(*final(accounts)),
        accounts_view(*final(accounts)) == accounts_view(*old(accounts)).insert(addr, a@),
{
    let ghost before = *accounts;
    accounts.insert(addr, a);
    proof {
        assert(accounts_view(*accounts) =~= accounts_view(before).insert(addr, a@));
        assert forall|x: Address| #[trigger] accounts@.contains_key(x) implies accounts@[x].wf() by {
            if x != addr {
                assert(before@.contains_key(x));
            }
        }
    }
}

/// Takes the blob at `hash` out of the map, if there is one.
pub fn take_blob(blobs: &mut Blobs, hash: &ids::Hash) -> (r: Option<Blob>)
    requires
        blobs_wf(*old(blobs)),
    ensures
        blobs_wf(*final(blobs)),
        blobs_view(*final(blobs)) == blobs_view(*old(blobs)).remove(*hash),
        match r {
            Some(b) => b.wf() && blobs_view(*old(blobs)).contains_key(*hash) && b@ == blobs_view(
                *old(blobs),
            )[*hash],
            None => !blobs_view(*old(blobs)).contains_key(*hash),
        },
{
    let ghost before = *blobs;
    let r = blobs.take(hash);
    proof {
        assert(blobs_view(*blobs) =~= blobs_view(before).remove(*hash));
        assert forall|h: ids::Hash| #[trigger] blobs@.contains_key(h) implies blobs@[h].wf() by {
            assert(before@.contains_key(h));
        }
    }
    r
}

/// Puts a blob into the map at `hash`.
pub fn put_blob(blobs: &mut Blobs, hash: ids::Hash, b: Blob)
    requires
        blobs_wf(*old(blobs)),
        b.wf(),
    ensures
        blobs_wf(*final(blobs)),
        blobs_view(*final(blobs)) == blobs_view(*old(blobs)).insert(hash, b@),
{
    let ghost before = *blobs;
    blobs.insert(hash, b);
    proof {
        assert(blobs_view(*blobs) =~= blobs_view(before).insert(hash, b@));
        assert forall|h: ids::Hash| #[trigger] blobs@.contains_key(h) implies blobs@[h].wf() by {
            if h != hash {
                assert(before@.contains_key(h));
            }
        }
    }
}

/// All accounts and stored blobs of the subnet, with its running totals.
#[derive(Debug)]
pub struct State {
    /// The storage capacity of the subnet, in bytes.
    pub capacity_total: BigInt,
    /// The bytes in use: each blob once, however many subscribe to it.
    pub capacity_used: BigInt,
    /// All credit ever sold.
    pub credit_sold: BigInt,
    /// The credit committed to subscriptions, over all accounts.
    pub credit_committed: BigInt,
    /// All credit ever debited for storage.
    pub credit_debited: BigInt,
    /// The credit that one atto token buys, set at genesis.
    pub credit_debit_rate: u64,
    /// The accounts, by address.
    pub accounts: Accounts,
    /// The blobs, by hash.
    pub blobs: Blobs,
    /// The subscriptions, by the epoch at which they end.
    pub expiries: Expiries,
    /// The blobs that wait to be picked up for ingestion, with their sources.
    pub added: Sources,
    /// The blobs that are being fetched, with their sources.
    pub pending: Sources,
}

impl State {
    /// Well-formedness: every map in the state holds each key once, and the
    /// indexes are in ascending order.
    pub open spec fn wf(&self) -> bool {
        &&& accounts_wf(self.accounts)
        &&& blobs_wf(self.blobs)
        &&& expiries_wf(self.expiries)
        &&& sources_wf(self.added)
        &&& sources_wf(self.pending)
    }

    /// The state as mathematics: totals as integers, the rest as maps and sets.
    pub open spec fn view(&self) -> StateView {
        StateView {
            capacity_total: big_value(self.capacity_total),
            capacity_used: big_value(self.capacity_used),
            credit_sold: big_value(self.credit_sold),
            credit_committed: big_value(self.credit_committed),
            credit_debited: big_value(self.credit_debited),
            credit_debit_rate: self.credit_debit_rate as int,
            accounts: accounts_view(self.accounts),
            blobs: blobs_view(self.blobs),
            expiries: expiries_view(self.expiries),
            added: sources_view(self.added),
            pending: sources_view(self.pending),
        }
    }

    /// The view of a state has finitely many accounts and blobs, and neither
    /// its rate nor the size of a blob is negative: the laws of the ledger
    /// speak of such views.
    pub proof fn lemma_view(&self)
        ensures
            self@.accounts.dom().finite(),
            self@.blobs.dom().finite(),
            crate::bounds::natural(self@),
    {
        self.accounts.lemma_finite();
        self.blobs.lemma_finite();
        assert(self@.accounts.dom() =~= self.accounts@.dom());
        assert(self@.blobs.dom() =~= self.blobs@.dom());
    }

    /// The state at genesis, with the given capacity in bytes and the given
    /// number of credits per atto token.
    pub fn new(capacity: u64, credit_debit_rate: u64) -> (r: Self)
        ensures
            r.wf(),
            r@ == genesis(capacity as int, credit_debit_rate as int),
    {
        let r = State {
            capacity_total: big_from_u64(capacity),
            capacity_used: big_zero(),
            credit_sold: big_zero(),
            credit_committed: big_zero(),
            credit_debited: big_zero(),
            credit_debit_rate,
            accounts: VecMap::new(),
            blobs: VecMap::new(),
            expiries: OrdMap::new(),
            added: OrdMap::new(),
            pending: OrdMap::new(),
        };
        proof {
            assert(r@ =~~= genesis(capacity as int, credit_debit_rate as int));
        }
        r
    }

    /// The capacity that is left: the total less what is in use.
    pub fn capacity_available(&self) -> (r: BigInt)
        ensures
            big_value(r) == self@.capacity_total - self@.capacity_used,
    {
        big_sub(&self.capacity_total, &self.capacity_used)
    }

    /// The account at `address`, if there is one.
    pub fn get_account(&self, address: Address) -> (r: Option<Account>)
        requires
            self.wf(),
        ensures
            match r {
                Some(a) => a.wf() && self@.accounts.contains_key(address) && a@
                    == self@.accounts[address],
                None => !self@.accounts.contains_key(address),
            },
    {
        match self.accounts.get(&address) {
            Some(a) => Some(a.dup()),
            None => None,
        }
    }

    /// The blob at `hash`, if there is one.
    pub fn get_blob(&self, hash: ids::Hash) -> (r: Option<Blob>)
        requires
            self.wf(),
        ensures
            match r {
                Some(b) => b.wf() && self@.blobs.contains_key(hash) && b@ == self@.blobs[hash],
                None => !self@.blobs.contains_key(hash),
            },
    {
        match self.blobs.get(&hash) {
            Some(b) => Some(b.dup()),
            None => None,
        }
    }
}

} // verus!
