//! Identifiers that can key a map.

use crate::address::same_address;
use fvm_shared::address::Address;
use vstd::prelude::*;

verus! {

/// A value that identifies something. Two keys name the same thing exactly when
/// their identities are equal.
pub trait Key: Sized {
    /// The mathematical identity of a key.
    type Id;

    /// The identity of this key.
    spec fn ident(&self) -> Self::Id;

    /// Whether two keys have the same identity.
    fn same(&self, other: &Self) -> (r: bool)
        ensures
            r == (self.ident() == other.ident()),
    ;

    /// Another key with the same identity.
    fn dup(&self) -> (r: Self)
        ensures
            r.ident() == self.ident(),
    ;
}

/// A key whose identities are strictly and totally ordered.
pub trait OrdKey: Key {
    /// Whether identity `a` comes strictly before identity `b`.
    spec fn before(a: Self::Id, b: Self::Id) -> bool;

    /// `before` is irreflexive, transitive and total.
    proof fn before_is_total_order()
        ensures
            forall|a: Self::Id| !(#[trigger] Self::before(a, a)),
            forall|a: Self::Id, b: Self::Id, c: Self::Id|
                #[trigger] Self::before(a, b) && #[trigger] Self::before(b, c) ==> Self::before(
                    a,
                    c,
                ),
            forall|a: Self::Id, b: Self::Id|
                a != b ==> #[trigger] Self::before(a, b) || #[trigger] Self::before(b, a),
    ;

    /// Whether this key comes strictly before the other.
    fn precedes(&self, other: &Self) -> (r: bool)
        ensures
            r == Self::before(self.ident(), other.ident()),
    ;
}

impl Key for Address {
    type Id = Address;

    open spec fn ident(&self) -> Address {
        *self
    }

    fn same(&self, other: &Self) -> (r: bool) {
        same_address(self, other)
    }

    fn dup(&self) -> (r: Self) {
        *self
    }
}

impl Key for i64 {
    type Id = int;

    open spec fn ident(&self) -> int {
        *self as int
    }

    fn same(&self, other: &Self) -> (r: bool) {
        *self == *other
    }

    fn dup(&self) -> (r: Self) {
        *self
    }
}

impl OrdKey for i64 {
    open spec fn before(a: int, b: int) -> bool {
        a < b
    }

    proof fn before_is_total_order() {
    }

    fn precedes(&self, other: &Self) -> (r: bool) {
        *self < *other
    }
}

} // verus!
