//! Blob hashes, node keys and subscription identifiers.

use crate::key::Key;
use crate::key::OrdKey;
use fvm_shared::address::Address;
use vstd::prelude::*;

verus! {

/// Whether two 32-byte strings are the same.
pub fn same_bytes(a: &[u8; 32], b: &[u8; 32]) -> (r: bool)
    ensures
        r == (*a == *b),
{
    let mut i: usize = 0;
    while i < 32
        invariant
            i <= 32,
            forall|j: int| 0 <= j < i ==> a[j] == b[j],
        decreases 32 - i,
    {
        if a[i] != b[i] {
            return false;
        }
        i += 1;
    }
    assert(*a =~= *b);
    true
}

/// Byte-wise dictionary order on 32-byte strings: at the first position where
/// they differ, `a` has the smaller byte.
pub open spec fn bytes_before(a: [u8; 32], b: [u8; 32]) -> bool {
    exists|i: int| bytes_split_at(a, b, i)
}

/// `a` and `b` agree before position `i`, where `a` has the smaller byte.
pub open spec fn bytes_split_at(a: [u8; 32], b: [u8; 32], i: int) -> bool {
    &&& 0 <= i < 32
    &&& a[i] < b[i]
    &&& forall|j: int| 0 <= j < i ==> a[j] == b[j]
}

/// The first position below `n` at which the two differ, or `n`.
pub open spec fn first_difference(a: [u8; 32], b: [u8; 32], n: int) -> int
    decreases n,
{
    if n <= 0 {
        0
    } else {
        let d = first_difference(a, b, n - 1);
        if d < n - 1 || a[n - 1] != b[n - 1] {
            d
        } else {
            n
        }
    }
}

/// `first_difference` is where the common prefix ends.
pub proof fn lemma_first_difference(a: [u8; 32], b: [u8; 32], n: int)
    requires
        0 <= n <= 32,
    ensures
        0 <= first_difference(a, b, n) <= n,
        forall|j: int| 0 <= j < first_difference(a, b, n) ==> a[j] == b[j],
        first_difference(a, b, n) < n ==> a[first_difference(a, b, n)] != b[first_difference(
            a,
            b,
            n,
        )],
    decreases n,
{
    if n > 0 {
        lemma_first_difference(a, b, n - 1);
    }
}

/// Dictionary order is a strict total order.
pub proof fn lemma_bytes_before_total_order()
    ensures
        forall|a: [u8; 32]| !(#[trigger] bytes_before(a, a)),
        forall|a: [u8; 32], b: [u8; 32], c: [u8; 32]|
            #[trigger] bytes_before(a, b) && #[trigger] bytes_before(b, c) ==> bytes_before(a, c),
        forall|a: [u8; 32], b: [u8; 32]|
            a != b ==> #[trigger] bytes_before(a, b) || #[trigger] bytes_before(b, a),
{
    assert forall|a: [u8; 32], b: [u8; 32], c: [u8; 32]|
        #[trigger] bytes_before(a, b) && #[trigger] bytes_before(b, c) implies bytes_before(
        a,
        c,
    ) by {
        let i = choose|i: int| bytes_split_at(a, b, i);
        let k = choose|k: int| bytes_split_at(b, c, k);
        let m = if i <= k { i } else { k };
        assert(bytes_split_at(a, c, m));
    }
    assert forall|a: [u8; 32], b: [u8; 32]| a != b implies #[trigger] bytes_before(a, b)
        || #[trigger] bytes_before(b, a) by {
        lemma_first_difference(a, b, 32);
        let d = first_difference(a, b, 32);
        if d == 32 {
            assert(a =~= b);
        } else if a[d] < b[d] {
            assert(bytes_split_at(a, b, d));
        } else {
            assert(bytes_split_at(b, a, d));
        }
    }
}

/// Whether `a` comes before `b` in dictionary order.
pub fn bytes_precede(a: &[u8; 32], b: &[u8; 32]) -> (r: bool)
    ensures
        r == bytes_before(*a, *b),
{
    let mut i: usize = 0;
    while i < 32
        invariant
            i <= 32,
            forall|j: int| 0 <= j < i ==> a[j] == b[j],
        decreases 32 - i,
    {
        if a[i] < b[i] {
            assert(bytes_split_at(*a, *b, i as int));
            return true;
        }
        if a[i] > b[i] {
            assert forall|k: int| !bytes_split_at(*a, *b, k) by {
                if bytes_split_at(*a, *b, k) {
                    if k < i {
                    } else if k > i {
                        assert(a[i as int] == b[i as int]);
                    }
                }
            }
            return false;
        }
        i += 1;
    }
    assert forall|k: int| !bytes_split_at(*a, *b, k) by {}
    false
}

/// The BLAKE3 hash of a blob: 32 bytes.
#[derive(Clone, Copy, Debug, PartialEq, Eq, PartialOrd, Ord)]
pub struct Hash(pub [u8; 32]);

/// The public key of the node that a blob is fetched from: 32 bytes.
#[derive(Clone, Copy, Debug, PartialEq, Eq, PartialOrd, Ord)]
pub struct PublicKey(pub [u8; 32]);

impl Key for Hash {
    type Id = Hash;

    open spec fn ident(&self) -> Hash {
        *self
    }

    fn same(&self, other: &Self) -> (r: bool) {
        same_bytes(&self.0, &other.0)
    }

    fn dup(&self) -> (r: Self) {
        *self
    }
}

impl OrdKey for Hash {
    open spec fn before(a: Hash, b: Hash) -> bool {
        bytes_before(a.0, b.0)
    }

    proof fn before_is_total_order() {
        lemma_bytes_before_total_order();
    }

    fn precedes(&self, other: &Self) -> (r: bool) {
        bytes_precede(&self.0, &other.0)
    }
}

impl Key for PublicKey {
    type Id = PublicKey;

    open spec fn ident(&self) -> PublicKey {
        *self
    }

    fn same(&self, other: &Self) -> (r: bool) {
        same_bytes(&self.0, &other.0)
    }

    fn dup(&self) -> (r: Self) {
        *self
    }
}

/// Tells apart the subscriptions that one subscriber holds on one blob.
#[derive(Clone, Debug, PartialEq, Eq)]
pub enum SubscriptionId {
    /// The subscription that is meant when none is named.
    Default,
    /// A subscription named by a byte string.
    Key(Vec<u8>),
}

/// Whether two byte strings are the same.
pub fn same_byte_vec(a: &Vec<u8>, b: &Vec<u8>) -> (r: bool)
    ensures
        r == (a@ == b@),
{
    if a.len() != b.len() {
        return false;
    }
    let n = a.len();
    let mut i: usize = 0;
    while i < n
        invariant
            i <= n,
            n == a@.len(),
            n == b@.len(),
            forall|j: int| 0 <= j < i ==> a@[j] == b@[j],
        decreases n - i,
    {
        if a[i] != b[i] {
            return false;
        }
        i += 1;
    }
    assert(a@ =~= b@);
    true
}

/// A copy of a byte string.
pub fn dup_byte_vec(a: &Vec<u8>) -> (r: Vec<u8>)
    ensures
        r@ == a@,
{
    let n = a.len();
    let mut r: Vec<u8> = Vec::new();
    let mut i: usize = 0;
    while i < n
        invariant
            i <= n,
            n == a@.len(),
            r@ == a@.take(i as int),
        decreases n - i,
    {
        r.push(a[i]);
        assert(r@ =~= a@.take(i + 1));
        i += 1;
    }
    assert(a@.take(n as int) =~= a@);
    r
}

impl Key for SubscriptionId {
    /// `None` for the default subscription, else the bytes of the name.
    type Id = Option<Seq<u8>>;

    open spec fn ident(&self) -> Option<Seq<u8>> {
        match self {
            SubscriptionId::Default => None,
            SubscriptionId::Key(k) => Some(k@),
        }
    }

    fn same(&self, other: &Self) -> (r: bool) {
        match (self, other) {
            (SubscriptionId::Default, SubscriptionId::Default) => true,
            (SubscriptionId::Key(a), SubscriptionId::Key(b)) => same_byte_vec(a, b),
            _ => false,
        }
    }

    fn dup(&self) -> (r: Self) {
        match self {
            SubscriptionId::Default => SubscriptionId::Default,
            SubscriptionId::Key(k) => SubscriptionId::Key(dup_byte_vec(k)),
        }
    }
}

/// Names one subscription in the expiry index: the blob and the subscription id.
#[derive(Clone, Debug, PartialEq, Eq)]
pub struct ExpiryKey {
    /// The blob.
    pub hash: Hash,
    /// The subscription on it.
    pub id: SubscriptionId,
}

impl ExpiryKey {
    /// The key for subscription `id` on blob `hash`.
    pub fn new(hash: Hash, id: &SubscriptionId) -> (r: Self)
        ensures
            r.hash == hash,
            r.id.ident() == id.ident(),
    {
        ExpiryKey { hash, id: id.dup() }
    }
}

impl Key for ExpiryKey {
    type Id = (Hash, Option<Seq<u8>>);

    open spec fn ident(&self) -> (Hash, Option<Seq<u8>>) {
        (self.hash, self.id.ident())
    }

    fn same(&self, other: &Self) -> (r: bool) {
        self.hash.same(&other.hash) && self.id.same(&other.id)
    }

    fn dup(&self) -> (r: Self) {
        ExpiryKey { hash: self.hash, id: self.id.dup() }
    }
}

/// The identity of a source entry: subscriber, subscription id, node key.
pub type SourceId = (Address, Option<Seq<u8>>, PublicKey);

impl Key for (Address, SubscriptionId, PublicKey) {
    type Id = SourceId;

    open spec fn ident(&self) -> SourceId {
        (self.0, self.1.ident(), self.2)
    }

    fn same(&self, other: &Self) -> (r: bool) {
        self.0.same(&other.0) && self.1.same(&other.1) && self.2.same(&other.2)
    }

    fn dup(&self) -> (r: Self) {
        (self.0, self.1.dup(), self.2)
    }
}

} // verus!
