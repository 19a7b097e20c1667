//! The two decisions that a deployment configures: whether a holder is
//! verified, and whether a transfer complies. Each is one method of a trait,
//! so that a rule engine can take the place of the built-in policies without
//! a change to the ledger's operations.
//!
//! A policy decides from what the accounts store that an operation is handed
//! for it. It answers `Ok(true)` or `Ok(false)`, or fails where it cannot
//! make sense of an account.

use crate::account::{AccountInfo, AccountView};
use crate::error::ProgramError;
use crate::pubkey::Pubkey;
use crate::state::{Compliance, ComplianceView, IdentityRegistry, IdentityRegistryView};
use vstd::prelude::*;

verus! {

/// Decides whether a holder is verified.
pub trait IdentityPolicy {
    /// What the policy says of `address`, given the bytes `registry` that
    /// the identity registry's account stores and the account `storage` that
    /// is handed in as the identity storage. A policy states its decision
    /// here; where it does not, nothing is known of it.
    open spec fn verified(registry: Seq<u8>, storage: AccountView, address: Seq<u8>) -> Result<
        bool,
        ProgramError,
    > {
        arbitrary()
    }

    /// Whether `address` is verified, given the bytes `registry` that the
    /// identity registry's account stores and the account `storage` that is
    /// handed in as the identity storage.
    fn is_verified(registry: &[u8], storage: &AccountInfo, address: &Pubkey) -> (r: Result<
        bool,
        ProgramError,
    >)
        ensures
            r == Self::verified(registry@, storage@, address@),
    ;
}

/// Decides whether a transfer complies.
pub trait CompliancePolicy {
    /// What the policy says of a transfer of `amount` from `from` to `to`,
    /// given the bytes `data` that the compliance account stores. A policy
    /// states its decision here; where it does not, nothing is known of it.
    open spec fn complies(data: Seq<u8>, from: Seq<u8>, to: Seq<u8>, amount: u64) -> Result<
        bool,
        ProgramError,
    > {
        arbitrary()
    }

    /// Whether a transfer of `amount` from `from` to `to` complies, given the
    /// bytes `data` that the compliance account stores.
    fn check_transfer(data: &[u8], from: &Pubkey, to: &Pubkey, amount: u64) -> (r: Result<
        bool,
        ProgramError,
    >)
        ensures
            r == Self::complies(data@, from@, to@, amount),
    ;
}

/// The built-in identity policy: the registry's account must store an
/// initialized identity registry, and a holder is verified where the
/// account handed in is that registry's identity storage and holds an
/// initialized identity of the holder.
impl IdentityPolicy for IdentityRegistry {
    open spec fn verified(registry: Seq<u8>, storage: AccountView, address: Seq<u8>) -> Result<
        bool,
        ProgramError,
    > {
        match IdentityRegistryView::unpacking(registry) {
            Err(e) => Err(e),
            Ok(record) => Ok(record.is_verified_address(storage, address)),
        }
    }

    fn is_verified(registry: &[u8], storage: &AccountInfo, address: &Pubkey) -> (r: Result<
        bool,
        ProgramError,
    >) {
        match IdentityRegistry::unpack(registry) {
            Ok(record) => Ok(record.is_verified_address(storage, address)),
            Err(e) => Err(e),
        }
    }
}

/// The built-in compliance policy: the account must store an initialized
/// compliance record, and every rule of the record must approve.
impl CompliancePolicy for Compliance {
    open spec fn complies(data: Seq<u8>, from: Seq<u8>, to: Seq<u8>, amount: u64) -> Result<
        bool,
        ProgramError,
    > {
        match ComplianceView::unpacking(data) {
            Err(e) => Err(e),
            Ok(compliance) => Ok(compliance.check_transfer(from, to, amount)),
        }
    }

    fn check_transfer(data: &[u8], from: &Pubkey, to: &Pubkey, amount: u64) -> (r: Result<
        bool,
        ProgramError,
    >) {
        match Compliance::unpack(data) {
            Ok(compliance) => Ok(compliance.check_transfer(from, to, amount)),
            Err(e) => Err(e),
        }
    }
}

} // verus!
