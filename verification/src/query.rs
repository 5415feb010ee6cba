//! Reading the ledger.

use crate::blob::BlobStatus;
use crate::ids;
use crate::ids::SubscriptionId;
use crate::index::sources_wf;
use crate::index::Source;
use crate::index::SourceSet;
use crate::index::Sources;
use crate::key::Key;
use crate::model::BlobView;
use crate::num::big_clone;
use crate::num::big_value;
use crate::ordmap::ascending;
use crate::state::Blobs;
use crate::state::State;
use crate::transitions;
use fvm_shared::address::Address;
use fvm_shared::bigint::BigInt;
use fvm_shared::econ::TokenAmount;
use vstd::prelude::*;

verus! {

/// The totals of the subnet.
#[derive(Debug)]
pub struct GetStatsReturn {
    /// The tokens that the subnet has earned.
    pub balance: TokenAmount,
    /// The storage capacity that is left.
    pub capacity_free: BigInt,
    /// The storage capacity in use.
    pub capacity_used: BigInt,
    /// All credit ever sold.
    pub credit_sold: BigInt,
    /// The credit committed to subscriptions.
    pub credit_committed: BigInt,
    /// All credit ever debited.
    pub credit_debited: BigInt,
    /// The credit that one atto token buys.
    pub blob_credits_per_byte_block: u64,
    /// The number of accounts.
    pub num_accounts: u64,
    /// The number of blobs.
    pub num_blobs: u64,
    /// The number of blobs that are being fetched.
    pub num_resolving: u64,
    /// The bytes of the blobs that are being fetched.
    pub bytes_resolving: u64,
    /// The number of blobs that wait to be picked up.
    pub num_added: u64,
    /// The bytes of the blobs that wait to be picked up.
    pub bytes_added: u64,
}

/// The size of the blob at `hash`, or zero where there is none.
pub open spec fn size_of(blobs: Map<ids::Hash, BlobView>, hash: ids::Hash) -> int {
    if blobs.contains_key(hash) {
        blobs[hash].size
    } else {
        0
    }
}

/// The bytes of the first `n` of the listed blobs together.
pub open spec fn bytes_of(blobs: Map<ids::Hash, BlobView>, hashes: Seq<ids::Hash>, n: int) -> int
    decreases n,
{
    if n <= 0 {
        0
    } else {
        bytes_of(blobs, hashes, n - 1) + size_of(blobs, hashes[n - 1])
    }
}

/// A number of bytes as a `u64`, which holds at most `u64::MAX`.
pub open spec fn capped(bytes: int) -> int {
    if bytes <= u64::MAX {
        bytes
    } else {
        u64::MAX as int
    }
}

/// The bytes of the blobs that an ingestion index lists, capped at `u64::MAX`.
pub fn listed_bytes(blobs: &Blobs, index: &Sources) -> (r: u64)
    requires
        crate::state::blobs_wf(*blobs),
    ensures
        r == capped(
            bytes_of(crate::state::blobs_view(*blobs), index.ids(), index.ids().len() as int),
        ),
{
    let n = index.len();
    let mut total: u64 = 0;
    let mut i: usize = 0;
    while i < n
        invariant
            crate::state::blobs_wf(*blobs),
            i <= n,
            n == index.map.entries@.len(),
            n == index.ids().len(),
            total == capped(bytes_of(crate::state::blobs_view(*blobs), index.ids(), i as int)),
            bytes_of(crate::state::blobs_view(*blobs), index.ids(), i as int) >= 0,
        decreases n - i,
    {
        let size = match blobs.get(index.key_at(i)) {
            Some(b) => b.size,
            None => 0,
        };
        total = total.saturating_add(size);
        i += 1;
    }
    total
}

/// The sources of an entry of an ingestion index, as a list.
pub fn list_sources(set: &SourceSet) -> (r: Vec<Source>)
    ensures
        r@.len() == set.entries@.len(),
        forall|i: int| 0 <= i < r@.len() ==> (#[trigger] r@[i]).ident() == set.ids()[i],
{
    let n = set.len();
    let mut r: Vec<Source> = Vec::new();
    let mut i: usize = 0;
    while i < n
        invariant
            i <= n,
            n == set.entries@.len(),
            r@.len() == i,
            forall|j: int| 0 <= j < i ==> (#[trigger] r@[j]).ident() == set.ids()[j],
        decreases n - i,
    {
        r.push(set.key_at(i).dup());
        i += 1;
    }
    r
}

/// The first `size` entries of an ingestion index, which is in ascending
/// order of hash: each blob with its sources.
pub fn first_listed(index: &Sources, size: u32) -> (r: Vec<(ids::Hash, Vec<Source>)>)
    requires
        sources_wf(*index),
    ensures
        r@.len() == if size <= index.ids().len() {
            size as int
        } else {
            index.ids().len() as int
        },
        ascending::<ids::Hash>(index.ids()),
        forall|i: int|
            0 <= i < r@.len() ==> {
                let entry = #[trigger] r@[i];
                &&& entry.0 == index.ids()[i]
                &&& index@.contains_key(entry.0)
                &&& entry.1@.len() == index@[entry.0].entries@.len()
                &&& forall|j: int|
                    0 <= j < entry.1@.len() ==> (#[trigger] entry.1@[j]).ident()
                        == index@[entry.0].ids()[j]
            },
{
    let n = index.len();
    let mut r: Vec<(ids::Hash, Vec<Source>)> = Vec::new();
    let mut i: usize = 0;
    while i < n && i < size as usize
        invariant
            sources_wf(*index),
            i <= n,
            i <= size,
            n == index.map.entries@.len(),
            n == index.ids().len(),
            r@.len() == i,
            forall|k: int|
                0 <= k < i ==> {
                    let entry = #[trigger] r@[k];
                    &&& entry.0 == index.ids()[k]
                    &&& index@.contains_key(entry.0)
                    &&& entry.1@.len() == index@[entry.0].entries@.len()
                    &&& forall|j: int|
                        0 <= j < entry.1@.len() ==> (#[trigger] entry.1@[j]).ident()
                            == index@[entry.0].ids()[j]
                },
        decreases n - i,
    {
        let hash = *index.key_at(i);
        let sources = list_sources(index.value_at(i));
        r.push((hash, sources));
        i += 1;
    }
    r
}

impl State {
    /// The totals of the subnet, next to the token balance that the host read.
    pub fn get_stats(&self, balance: TokenAmount) -> (r: GetStatsReturn)
        requires
            self.wf(),
        ensures
            r.balance == balance,
            big_value(r.capacity_free) == self@.capacity_total - self@.capacity_used,
            big_value(r.capacity_used) == self@.capacity_used,
            big_value(r.credit_sold) == self@.credit_sold,
            big_value(r.credit_committed) == self@.credit_committed,
            big_value(r.credit_debited) == self@.credit_debited,
            r.blob_credits_per_byte_block == self@.credit_debit_rate,
            r.num_accounts == self@.accounts.dom().len(),
            r.num_blobs == self@.blobs.dom().len(),
            r.num_resolving == self@.pending.dom().len(),
            r.num_added == self@.added.dom().len(),
            r.bytes_resolving == capped(
                bytes_of(self@.blobs, self.pending.ids(), self.pending.ids().len() as int),
            ),
            r.bytes_added == capped(
                bytes_of(self@.blobs, self.added.ids(), self.added.ids().len() as int),
            ),
    {
        proof {
            assert(self@.accounts.dom() =~= self.accounts@.dom());
            assert(self@.blobs.dom() =~= self.blobs@.dom());
            assert(self@.pending.dom() =~= self.pending@.dom());
            assert(self@.added.dom() =~= self.added@.dom());
        }
        GetStatsReturn {
            balance,
            capacity_free: self.capacity_available(),
            capacity_used: big_clone(&self.capacity_used),
            credit_sold: big_clone(&self.credit_sold),
            credit_committed: big_clone(&self.credit_committed),
            credit_debited: big_clone(&self.credit_debited),
            blob_credits_per_byte_block: self.credit_debit_rate,
            num_accounts: self.accounts.len() as u64,
            num_blobs: self.blobs.len() as u64,
            num_resolving: self.pending.len() as u64,
            bytes_resolving: listed_bytes(&self.blobs, &self.pending),
            num_added: self.added.len() as u64,
            bytes_added: listed_bytes(&self.blobs, &self.added),
        }
    }

    /// How the ingestion of blob `hash` stands for subscription `id` of
    /// `subscriber`; `None` where the subscriber does not subscribe to it.
    pub fn get_blob_status(&self, subscriber: Address, hash: ids::Hash, id: SubscriptionId) -> (r:
        Option<BlobStatus>)
        requires
            self.wf(),
        ensures
            r == transitions::get_blob_status(self@, subscriber, hash, id.ident()),
    {
        let blob = match self.blobs.get(&hash) {
            Some(b) => b,
            None => {
                return None;
            },
        };
        let group = match blob.subscribers.get(&subscriber) {
            Some(g) => g,
            None => {
                return None;
            },
        };
        match blob.status {
            BlobStatus::Failed => match group.subscriptions.get(&id) {
                Some(sub) => if sub.failed {
                    Some(BlobStatus::Failed)
                } else {
                    Some(BlobStatus::Pending)
                },
                None => None,
            },
            status => Some(status),
        }
    }

    /// The first `size` blobs, in ascending order of hash, that wait to be
    /// picked up for ingestion, each with its sources.
    pub fn get_added_blobs(&self, size: u32) -> (r: Vec<(ids::Hash, Vec<Source>)>)
        requires
            self.wf(),
        ensures
            r@.len() == if size <= self.added.ids().len() {
                size as int
            } else {
                self.added.ids().len() as int
            },
            ascending::<ids::Hash>(self.added.ids()),
            forall|i: int|
                0 <= i < r@.len() ==> {
                    let entry = #[trigger] r@[i];
                    &&& entry.0 == self.added.ids()[i]
                    &&& self.added@.contains_key(entry.0)
                    &&& entry.1@.len() == self.added@[entry.0].entries@.len()
                    &&& forall|j: int|
                        0 <= j < entry.1@.len() ==> (#[trigger] entry.1@[j]).ident()
                            == self.added@[entry.0].ids()[j]
                },
    {
        first_listed(&self.added, size)
    }

    /// The first `size` blobs, in ascending order of hash, that are being
    /// fetched, each with its sources.
    pub fn get_pending_blobs(&self, size: u32) -> (r: Vec<(ids::Hash, Vec<Source>)>)
        requires
            self.wf(),
        ensures
            r@.len() == if size <= self.pending.ids().len() {
                size as int
            } else {
                self.pending.ids().len() as int
            },
            ascending::<ids::Hash>(self.pending.ids()),
            forall|i: int|
                0 <= i < r@.len() ==> {
                    let entry = #[trigger] r@[i];
                    &&& entry.0 == self.pending.ids()[i]
                    &&& self.pending@.contains_key(entry.0)
                    &&& entry.1@.len() == self.pending@[entry.0].entries@.len()
                    &&& forall|j: int|
                        0 <= j < entry.1@.len() ==> (#[trigger] entry.1@[j]).ident()
                            == self.pending@[entry.0].ids()[j]
                },
    {
        first_listed(&self.pending, size)
    }
}

} // verus!
