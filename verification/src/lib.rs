//! A permissioned token ledger: balances whose movement is gated by signer
//! authority, pause and freeze flags, identity verification and a compliance
//! policy.
//!
//! An instruction arrives as a payload and a list of accounts. The
//! [`processor`] reads the payload ([`instruction`]), checks the caller's
//! authority and the state of the records that the accounts store
//! ([`state`], laid out as [`codec`] says), asks the deployment's policies
//! ([`policy`]), and changes balances and supply by checked arithmetic
//! ([`ledger`]). Whatever it rejects, it leaves untouched.
//!
//! What the ledger decides on is part of its records: a token holds the
//! roster of its agents, an identity storage the identities of the verified
//! holders, a compliance record its rules. The built-in policies decide from
//! these; a deployment's own policies take their place through the traits of
//! [`policy`].
//!
//! Every operation comes with a function that says what it does to the
//! accounts, and is proved to do exactly that. [`laws`] holds what follows
//! for every input: conservation of balances, the separation of the roles,
//! and the order of the checks.

pub mod account;
pub mod codec;
pub mod error;
pub mod instruction;
pub mod laws;
pub mod ledger;
pub mod policy;
pub mod processor;
pub mod pubkey;
pub mod rent;
pub mod state;
