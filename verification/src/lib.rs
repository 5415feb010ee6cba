//! Credit accounting and blob lifecycle for a credit-metered storage subnet.
//!
//! Accounts buy credit with tokens and commit it to the blobs they subscribe
//! to; a tick per block debits what the stored bytes cost and renews or deletes
//! the subscriptions that have ended. [`state::State`] is the ledger;
//! [`transitions`] says what each of its operations does, over the
//! mathematical view of the ledger in [`model`]; [`totals`], [`bounds`],
//! [`consistency`] and [`laws`] prove what holds of every state that the
//! operations reach.

pub mod account;
pub mod add;
pub mod address;
pub mod blob;
pub mod bounds;
pub mod consistency;
pub mod credit;
pub mod delete;
pub mod error;
pub mod finalize;
pub mod funds;
pub mod ids;
pub mod index;
pub mod key;
pub mod laws;
pub mod manifest;
pub mod model;
pub mod num;
pub mod ordmap;
pub mod overwrite;
pub mod query;
pub mod range;
pub mod renew;
pub mod replica;
pub mod state;
pub mod sum;
pub mod text;
pub mod tick;
pub mod totals;
pub mod transitions;
pub mod vecmap;
