//! Actor addresses.
//!
//! An address is an `fvm_shared` value that the ledger only carries around and
//! compares: it never looks inside one.

use fvm_shared::address::Address;
use vstd::prelude::*;

verus! {

/// `fvm_shared::address::Address`: the address of an actor.
#[verifier::external_type_specification]
#[verifier::external_body]
pub struct ExAddress(Address);

/// Trusted: `==` on `Address` (derived field by field over plain data) holds
/// exactly when the two are the same address.
#[verifier::external_body]
pub(crate) fn same_address(a: &Address, b: &Address) -> (r: bool)
    ensures
        r == (*a == *b),
{
    a == b
}

/// Trusted: the text that `Display` prints for an address. It depends on the
/// network that the process was configured for, so nothing is said of it.
#[verifier::external_body]
pub(crate) fn address_text(a: &Address) -> (r: String) {
    format!("{}", a)
}

} // verus!
