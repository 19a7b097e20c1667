//! The instruction processor: for each operation, the ordered checks that
//! decide whether it may run, and the change it makes to the accounts it is
//! handed.
//!
//! Every operation is all or nothing. Its outcome is given by a spec function
//! from the accounts before the call to either the accounts after it or the
//! error; where it is the error, the accounts are left as they were.
//!
//! The checks of an operation come in this order: enough accounts are
//! there; the program owns the accounts whose records are read; the caller
//! signed; the records that the operation works on load and belong
//! together; the caller has the role that the operation asks for; the policy
//! accounts are the ones that the token refers to; then what the operation
//! itself asks. An account that a record does not refer to is refused as an
//! invalid argument.

use crate::account::{same_shape, store_data, views, AccountInfo, AccountView};
use crate::codec::{
    holds_key, holds_u64, keys_view, overlay, splice, without, without_key, without_u64,
};
use crate::error::{ProgramError, TokenError};
use crate::instruction::{TokenInstruction, TokenInstructionView};
use crate::ledger::{burn_amount, burned, mint_amount, minted, move_amount, moved};
use crate::policy::{CompliancePolicy, IdentityPolicy};
use crate::pubkey::Pubkey;
use crate::rent::{check_rent, exemption};
use crate::state::{
    find_free_slot, find_identity, free_identity_slot, holds_identity, identity_slot,
    identity_slot_of, lemma_found_slot_in_range, ClaimTopics, ClaimTopicsView, Compliance,
    ComplianceView, Identity, IdentityRegistry, IdentityRegistryView, IdentityView, Token,
    TokenAccount, TokenAccountView, TokenView, TrustedIssuer, TrustedIssuerView, TrustedIssuers,
    TrustedIssuersView, ACCOUNT_FROZEN_FLAG,
};
use vstd::prelude::*;
use vstd::slice::*;

verus! {

/// The accounts after `bytes` have been written over the start of what
/// account `i` stores.
pub open spec fn stored(a: Seq<AccountView>, i: int, bytes: Seq<u8>) -> Seq<AccountView> {
    a.update(i, a[i].with_data(overlay(a[i].data, bytes)))
}

/// The accounts after `bytes` have been written from offset `at` on over
/// what account `i` stores.
pub open spec fn stored_at(a: Seq<AccountView>, i: int, at: int, bytes: Seq<u8>) -> Seq<
    AccountView,
> {
    a.update(i, a[i].with_data(splice(a[i].data, at, bytes)))
}

/// The program error that carries `e`.
pub open spec fn fail<T>(e: TokenError) -> Result<T, ProgramError> {
    Err(ProgramError::of(e))
}

/// Writes `bytes` over the start of what account `i` stores.
fn save(accounts: &mut Vec<AccountInfo>, i: usize, bytes: &Vec<u8>)
    requires
        i < old(accounts)@.len(),
        bytes@.len() <= views(old(accounts)@)[i as int].data.len(),
    ensures
        views(final(accounts)@) == stored(views(old(accounts)@), i as int, bytes@),
        final(accounts)@.len() == old(accounts)@.len(),
        same_shape(views(old(accounts)@), views(final(accounts)@)),
{
    let mut data = accounts[i].data.clone();
    assert(data@ =~= accounts@[i as int].data@);
    crate::codec::write_prefix(&mut data, bytes);
    store_data(accounts, i, data);
}

/// Writes `bytes` from offset `at` on over what account `i` stores.
fn save_at(accounts: &mut Vec<AccountInfo>, i: usize, at: usize, bytes: &Vec<u8>)
    requires
        i < old(accounts)@.len(),
        at + bytes@.len() <= views(old(accounts)@)[i as int].data.len(),
    ensures
        views(final(accounts)@) == stored_at(views(old(accounts)@), i as int, at as int, bytes@),
        final(accounts)@.len() == old(accounts)@.len(),
        same_shape(views(old(accounts)@), views(final(accounts)@)),
{
    let mut data = accounts[i].data.clone();
    assert(data@ =~= accounts@[i as int].data@);
    crate::codec::write_at(&mut data, at, bytes);
    store_data(accounts, i, data);
}

/// Whether the program owns account `i`.
fn owned(accounts: &Vec<AccountInfo>, i: usize, program_id: &Pubkey) -> (b: bool)
    requires
        i < accounts@.len(),
    ensures
        b == (views(accounts@)[i as int].owner == program_id@),
{
    accounts[i].is_owned_by(program_id)
}

/// Whether account `i` signed.
fn signed(accounts: &Vec<AccountInfo>, i: usize) -> (b: bool)
    requires
        i < accounts@.len(),
    ensures
        b == views(accounts@)[i as int].is_signer,
{
    accounts[i].is_signer
}

/// The address of account `i`.
fn key_of(accounts: &Vec<AccountInfo>, i: usize) -> (k: Pubkey)
    requires
        i < accounts@.len(),
    ensures
        k@ == views(accounts@)[i as int].key,
{
    accounts[i].key
}

/// Whether two addresses are the same.
fn same_key(a: &Pubkey, b: &Pubkey) -> (r: bool)
    ensures
        r == (a@ == b@),
{
    a.equals(b)
}

/// Loads the token that account `i` stores.
fn load_token(accounts: &Vec<AccountInfo>, i: usize) -> (r: Result<Token, ProgramError>)
    requires
        i < accounts@.len(),
    ensures
        match r {
            Ok(v) => TokenView::unpacking(views(accounts@)[i as int].data) == Ok::<TokenView, ProgramError>(
                v@,
            ),
            Err(e) => TokenView::unpacking(views(accounts@)[i as int].data) == Err::<
                TokenView,
                ProgramError,
            >(e),
        },
{
    Token::unpack(accounts[i].data.as_slice())
}

/// Loads the token account that account `i` stores.
fn load_token_account(
    accounts: &Vec<AccountInfo>,
    i: usize,
) -> (r: Result<TokenAccount, ProgramError>)
    requires
        i < accounts@.len(),
    ensures
        match r {
            Ok(v) => TokenAccountView::unpacking(views(accounts@)[i as int].data) == Ok::<TokenAccountView, ProgramError>(
                v@,
            ),
            Err(e) => TokenAccountView::unpacking(views(accounts@)[i as int].data) == Err::<
                TokenAccountView,
                ProgramError,
            >(e),
        },
{
    TokenAccount::unpack(accounts[i].data.as_slice())
}

/// Loads the identity registry that account `i` stores.
fn load_registry(
    accounts: &Vec<AccountInfo>,
    i: usize,
) -> (r: Result<IdentityRegistry, ProgramError>)
    requires
        i < accounts@.len(),
    ensures
        match r {
            Ok(v) => IdentityRegistryView::unpacking(views(accounts@)[i as int].data) == Ok::<IdentityRegistryView, ProgramError>(
                v@,
            ),
            Err(e) => IdentityRegistryView::unpacking(views(accounts@)[i as int].data) == Err::<
                IdentityRegistryView,
                ProgramError,
            >(e),
        },
{
    IdentityRegistry::unpack(accounts[i].data.as_slice())
}

/// Loads the compliance record that account `i` stores.
fn load_compliance(accounts: &Vec<AccountInfo>, i: usize) -> (r: Result<Compliance, ProgramError>)
    requires
        i < accounts@.len(),
    ensures
        match r {
            Ok(v) => ComplianceView::unpacking(views(accounts@)[i as int].data) == Ok::<ComplianceView, ProgramError>(
                v@,
            ),
            Err(e) => ComplianceView::unpacking(views(accounts@)[i as int].data) == Err::<
                ComplianceView,
                ProgramError,
            >(e),
        },
{
    Compliance::unpack(accounts[i].data.as_slice())
}

/// Loads the claim topics record that account `i` stores.
fn load_claim_topics(
    accounts: &Vec<AccountInfo>,
    i: usize,
) -> (r: Result<ClaimTopics, ProgramError>)
    requires
        i < accounts@.len(),
    ensures
        match r {
            Ok(v) => ClaimTopicsView::unpacking(views(accounts@)[i as int].data) == Ok::<ClaimTopicsView, ProgramError>(
                v@,
            ),
            Err(e) => ClaimTopicsView::unpacking(views(accounts@)[i as int].data) == Err::<
                ClaimTopicsView,
                ProgramError,
            >(e),
        },
{
    ClaimTopics::unpack(accounts[i].data.as_slice())
}

/// Loads the trusted issuers registry that account `i` stores.
fn load_issuers(accounts: &Vec<AccountInfo>, i: usize) -> (r: Result<TrustedIssuers, ProgramError>)
    requires
        i < accounts@.len(),
    ensures
        match r {
            Ok(v) => TrustedIssuersView::unpacking(views(accounts@)[i as int].data) == Ok::<TrustedIssuersView, ProgramError>(
                v@,
            ),
            Err(e) => TrustedIssuersView::unpacking(views(accounts@)[i as int].data) == Err::<
                TrustedIssuersView,
                ProgramError,
            >(e),
        },
{
    TrustedIssuers::unpack(accounts[i].data.as_slice())
}

/// Loads the trusted issuer record that account `i` stores.
fn load_issuer(accounts: &Vec<AccountInfo>, i: usize) -> (r: Result<TrustedIssuer, ProgramError>)
    requires
        i < accounts@.len(),
    ensures
        match r {
            Ok(v) => TrustedIssuerView::unpacking(views(accounts@)[i as int].data) == Ok::<TrustedIssuerView, ProgramError>(
                v@,
            ),
            Err(e) => TrustedIssuerView::unpacking(views(accounts@)[i as int].data) == Err::<
                TrustedIssuerView,
                ProgramError,
            >(e),
        },
{
    TrustedIssuer::unpack(accounts[i].data.as_slice())
}

/// Program state handler.
pub struct Processor {}

impl Processor {
    /// The identity and compliance gate of a balance-moving operation, as a
    /// function of what was found: whether the token is paused, whether
    /// source and destination are frozen, what the identity policy says of
    /// the two holders (or why it could not be asked), and what the
    /// compliance policy says of the transfer (or why it could not be asked).
    ///
    /// The checks are made in this order, and the first that fails decides:
    /// the token is not paused, else `TokenPaused`; neither account is
    /// frozen, else `AddressFrozen`; the identity policy could be asked, else
    /// its error, and verifies both holders, else `IdentityNotVerified`; the
    /// compliance policy could be asked, else its error, and lets the
    /// transfer pass, else `TransferNotCompliant`.
    pub open spec fn transfer_gate(
        paused: bool,
        source_frozen: bool,
        dest_frozen: bool,
        verified: Result<(bool, bool), ProgramError>,
        compliant: Result<bool, ProgramError>,
    ) -> Result<(), ProgramError> {
        if paused {
            fail(TokenError::TokenPaused)
        } else if source_frozen || dest_frozen {
            fail(TokenError::AddressFrozen)
        } else {
            match verified {
                Err(e) => Err(e),
                Ok((source_verified, dest_verified)) => if !source_verified || !dest_verified {
                    fail(TokenError::IdentityNotVerified)
                } else {
                    match compliant {
                        Err(e) => Err(e),
                        Ok(passes) => if !passes {
                            fail(TokenError::TransferNotCompliant)
                        } else {
                            Ok(())
                        },
                    }
                },
            }
        }
    }

    /// What the identity policy says of two holders, given the bytes that
    /// the registry's account stores and the identity storage account, or
    /// why it cannot say: the error of the source's decision, else that of
    /// the destination's.
    pub open spec fn verified_by<I: IdentityPolicy>(
        registry: Seq<u8>,
        storage: AccountView,
        source: Seq<u8>,
        dest: Seq<u8>,
    ) -> Result<(bool, bool), ProgramError> {
        match I::verified(registry, storage, source) {
            Err(e) => Err(e),
            Ok(source_verified) => match I::verified(registry, storage, dest) {
                Err(e) => Err(e),
                Ok(dest_verified) => Ok((source_verified, dest_verified)),
            },
        }
    }

    /// The records of a movement between two token accounts of one token,
    /// over accounts `[_, source, destination, token, ..]`: token, source and
    /// destination load, in this order, and both token accounts refer to the
    /// token account that is handed in, else `InvalidArgument`.
    pub open spec fn movement_records(a: Seq<AccountView>) -> Result<
        (TokenView, TokenAccountView, TokenAccountView),
        ProgramError,
    > {
        match (
            TokenView::unpacking(a[3].data),
            TokenAccountView::unpacking(a[1].data),
            TokenAccountView::unpacking(a[2].data),
        ) {
            (Err(e), _, _) => Err(e),
            (_, Err(e), _) => Err(e),
            (_, _, Err(e)) => Err(e),
            (Ok(token), Ok(source), Ok(dest)) => if source.token != a[3].key || dest.token
                != a[3].key {
                Err(ProgramError::InvalidArgument)
            } else {
                Ok((token, source, dest))
            },
        }
    }

    /// Loads the records of a movement between two token accounts.
    fn load_movement(accounts: &Vec<AccountInfo>) -> (r: Result<
        (Token, TokenAccount, TokenAccount),
        ProgramError,
    >)
        requires
            accounts@.len() >= 4,
        ensures
            match r {
                Ok((t, s, d)) => Self::movement_records(views(accounts@)) == Ok::<
                    (TokenView, TokenAccountView, TokenAccountView),
                    ProgramError,
                >((t@, s@, d@)),
                Err(e) => Self::movement_records(views(accounts@)) == Err::<
                    (TokenView, TokenAccountView, TokenAccountView),
                    ProgramError,
                >(e),
            },
    {
        let token = match load_token(accounts, 3) {
            Ok(v) => v,
            Err(e) => {
                return Err(e);
            },
        };
        let source = match load_token_account(accounts, 1) {
            Ok(v) => v,
            Err(e) => {
                return Err(e);
            },
        };
        let dest = match load_token_account(accounts, 2) {
            Ok(v) => v,
            Err(e) => {
                return Err(e);
            },
        };
        let token_key = key_of(accounts, 3);
        if !same_key(&source.token, &token_key) || !same_key(&dest.token, &token_key) {
            return Err(ProgramError::InvalidArgument);
        }
        Ok((token, source, dest))
    }

    /// The part that a transfer and a forced transfer share, once the
    /// caller's authority is settled, over the accounts `[_, source,
    /// destination, token, identity registry, compliance, identity
    /// storage]`: the registry and the compliance account are the ones that
    /// the token refers to, else `InvalidArgument`; then the identity and
    /// compliance gate, and the movement of `amount`.
    pub open spec fn guarded_move<I: IdentityPolicy, C: CompliancePolicy>(
        a: Seq<AccountView>,
        amount: u64,
        token: TokenView,
        source: TokenAccountView,
        dest: TokenAccountView,
    ) -> Result<Seq<AccountView>, ProgramError> {
        if token.identity_registry != a[4].key || token.compliance != a[5].key {
            Err(ProgramError::InvalidArgument)
        } else {
            match Self::transfer_gate(
                token.is_paused,
                source.is_frozen(),
                dest.is_frozen(),
                Self::verified_by::<I>(a[4].data, a[6], source.owner, dest.owner),
                C::complies(a[5].data, source.owner, dest.owner, amount),
            ) {
                Err(e) => Err(e),
                Ok(_) => Self::moved_between(a, 1, 2, amount, source, dest),
            }
        }
    }

    /// The accounts after `amount` has moved from the token account in
    /// account `from` to the one in account `to`. Where the two are one
    /// account, its balance is what it was.
    pub open spec fn moved_between(
        a: Seq<AccountView>,
        from: int,
        to: int,
        amount: u64,
        source: TokenAccountView,
        dest: TokenAccountView,
    ) -> Result<Seq<AccountView>, ProgramError> {
        match moved(source.amount, dest.amount, amount) {
            Err(e) => fail(e),
            Ok((left, arrived)) => if a[from].key == a[to].key {
                Ok(
                    stored(stored(a, from, source.encoding()), to, dest.encoding()),
                )
            } else {
                Ok(
                    stored(
                        stored(a, from, (TokenAccountView { amount: left, ..source }).encoding()),
                        to,
                        (TokenAccountView { amount: arrived, ..dest }).encoding(),
                    ),
                )
            },
        }
    }

    /// Moves `amount` between the token accounts in accounts `from` and `to`,
    /// which have been loaded as `source` and `dest`.
    fn move_between(
        accounts: &mut Vec<AccountInfo>,
        from: usize,
        to: usize,
        amount: u64,
        source: TokenAccount,
        dest: TokenAccount,
    ) -> (r: Result<(), ProgramError>)
        requires
            from < old(accounts)@.len(),
            to < old(accounts)@.len(),
            from != to,
            views(old(accounts)@)[from as int].data.len() == TokenAccount::LEN,
            views(old(accounts)@)[to as int].data.len() == TokenAccount::LEN,
        ensures
            match Self::moved_between(
                views(old(accounts)@),
                from as int,
                to as int,
                amount,
                source@,
                dest@,
            ) {
                Ok(after) => r is Ok && views(final(accounts)@) == after,
                Err(e) => r == Err::<(), ProgramError>(e) && views(final(accounts)@) == views(
                    old(accounts)@,
                ),
            },
            same_shape(views(old(accounts)@), views(final(accounts)@)),
    {
        let (left, arrived) = match move_amount(source.amount, dest.amount, amount) {
            Ok(pair) => pair,
            Err(e) => {
                return Err(ProgramError::from(e));
            },
        };
        let mut source = source;
        let mut dest = dest;
        let from_key = key_of(accounts, from);
        let to_key = key_of(accounts, to);
        if !same_key(&from_key, &to_key) {
            source.amount = left;
            dest.amount = arrived;
        }
        let bytes = source.encode();
        save(accounts, from, &bytes);
        let bytes = dest.encode();
        save(accounts, to, &bytes);
        Ok(())
    }

    /// Runs the checks that a transfer and a forced transfer share, and moves
    /// `amount` from source to destination.
    fn run_guarded_move<I: IdentityPolicy, C: CompliancePolicy>(
        accounts: &mut Vec<AccountInfo>,
        amount: u64,
        token: &Token,
        source: TokenAccount,
        dest: TokenAccount,
    ) -> (r: Result<(), ProgramError>)
        requires
            old(accounts)@.len() >= 7,
            views(old(accounts)@)[1].data.len() == TokenAccount::LEN,
            views(old(accounts)@)[2].data.len() == TokenAccount::LEN,
        ensures
            match Self::guarded_move::<I, C>(
                views(old(accounts)@),
                amount,
                token@,
                source@,
                dest@,
            ) {
                Ok(after) => r is Ok && views(final(accounts)@) == after,
                Err(e) => r == Err::<(), ProgramError>(e) && views(final(accounts)@) == views(
                    old(accounts)@,
                ),
            },
            same_shape(views(old(accounts)@), views(final(accounts)@)),
    {
        let registry_key = key_of(accounts, 4);
        let compliance_key = key_of(accounts, 5);
        if !same_key(&token.identity_registry, &registry_key) || !same_key(
            &token.compliance,
            &compliance_key,
        ) {
            return Err(ProgramError::InvalidArgument);
        }
        if token.is_paused {
            return Err(ProgramError::from(TokenError::TokenPaused));
        }
        if source.is_frozen() {
            return Err(ProgramError::from(TokenError::AddressFrozen));
        }
        if dest.is_frozen() {
            return Err(ProgramError::from(TokenError::AddressFrozen));
        }
        let source_verified = match I::is_verified(
            accounts[4].data.as_slice(),
            &accounts[6],
            &source.owner,
        ) {
            Ok(v) => v,
            Err(e) => {
                return Err(e);
            },
        };
        let dest_verified = match I::is_verified(
            accounts[4].data.as_slice(),
            &accounts[6],
            &dest.owner,
        ) {
            Ok(v) => v,
            Err(e) => {
                return Err(e);
            },
        };
        if !source_verified || !dest_verified {
            return Err(ProgramError::from(TokenError::IdentityNotVerified));
        }
        let passes = match C::check_transfer(
            accounts[5].data.as_slice(),
            &source.owner,
            &dest.owner,
            amount,
        ) {
            Ok(v) => v,
            Err(e) => {
                return Err(e);
            },
        };
        if !passes {
            return Err(ProgramError::from(TokenError::TransferNotCompliant));
        }
        Self::move_between(accounts, 1, 2, amount, source, dest)
    }

    /// What a transfer of `amount` does to the accounts `[owner, source,
    /// destination, token, identity registry, compliance, identity storage]`.
    ///
    /// In this order: seven accounts are there; the program owns the six that
    /// store records; the owner signed; token, source and destination load
    /// and the token accounts refer to the token; the signer owns the source,
    /// else `InvalidOwner`; registry and compliance are the token's; the
    /// token is not paused; neither account is frozen; the identity policy
    /// `I` verifies both holders; the compliance policy `C` lets the transfer
    /// pass; the source holds `amount` and the destination can take it. Then
    /// `amount` leaves the source and arrives at the destination.
    pub open spec fn transfer_outcome_with<I: IdentityPolicy, C: CompliancePolicy>(
        a: Seq<AccountView>,
        amount: u64,
        program_id: Seq<u8>,
    ) -> Result<Seq<AccountView>, ProgramError> {
        if a.len() < 7 {
            Err(ProgramError::NotEnoughAccountKeys)
        } else if a[1].owner != program_id
            || a[2].owner != program_id
            || a[3].owner != program_id
            || a[4].owner != program_id
            || a[5].owner != program_id
            || a[6].owner != program_id {
            fail(TokenError::IncorrectProgramId)
        } else if !a[0].is_signer {
            Err(ProgramError::MissingRequiredSignature)
        } else {
            match Self::movement_records(a) {
                Err(e) => Err(e),
                Ok((token, source, dest)) => if source.owner != a[0].key {
                    fail(TokenError::InvalidOwner)
                } else {
                    Self::guarded_move::<I, C>(a, amount, token, source, dest)
                },
            }
        }
    }

    /// What a transfer does under the built-in policies: the identity
    /// registry with its storage, and the compliance record with its rules,
    /// decide.
    pub open spec fn transfer_outcome(
        a: Seq<AccountView>,
        amount: u64,
        program_id: Seq<u8>,
    ) -> Result<Seq<AccountView>, ProgramError> {
        Self::transfer_outcome_with::<IdentityRegistry, Compliance>(a, amount, program_id)
    }

    /// Processes a transfer of `amount` from the signer's token account,
    /// under the identity policy `I` and the compliance policy `C`.
    ///
    /// Accounts: the owner, who signs; the source token account; the
    /// destination token account; the token; the identity registry; the
    /// compliance policy; the identity storage.
    pub fn process_transfer_with<I: IdentityPolicy, C: CompliancePolicy>(
        accounts: &mut Vec<AccountInfo>,
        amount: u64,
        program_id: &Pubkey,
    ) -> (r: Result<(), ProgramError>)
        ensures
            match Self::transfer_outcome_with::<I, C>(views(old(accounts)@), amount, program_id@) {
                Ok(after) => r is Ok && views(final(accounts)@) == after,
                Err(e) => r == Err::<(), ProgramError>(e) && views(final(accounts)@) == views(
                    old(accounts)@,
                ),
            },
            same_shape(views(old(accounts)@), views(final(accounts)@)),
    {
        if accounts.len() < 7 {
            return Err(ProgramError::NotEnoughAccountKeys);
        }
        if !owned(accounts, 1, program_id)
            || !owned(accounts, 2, program_id)
            || !owned(accounts, 3, program_id)
            || !owned(accounts, 4, program_id)
            || !owned(accounts, 5, program_id)
            || !owned(accounts, 6, program_id) {
            return Err(ProgramError::from(TokenError::IncorrectProgramId));
        }
        if !signed(accounts, 0) {
            return Err(ProgramError::MissingRequiredSignature);
        }
        let (token, source, dest) = match Self::load_movement(accounts) {
            Ok(v) => v,
            Err(e) => {
                return Err(e);
            },
        };
        let owner = key_of(accounts, 0);
        if !same_key(&source.owner, &owner) {
            return Err(ProgramError::from(TokenError::InvalidOwner));
        }
        Self::run_guarded_move::<I, C>(accounts, amount, &token, source, dest)
    }

    /// Processes a transfer of `amount` from the signer's token account,
    /// under the built-in policies.
    ///
    /// Accounts: the owner, who signs; the source token account; the
    /// destination token account; the token; the identity registry; the
    /// compliance policy; the identity storage.
    pub fn process_transfer(
        accounts: &mut Vec<AccountInfo>,
        amount: u64,
        program_id: &Pubkey,
    ) -> (r: Result<(), ProgramError>)
        ensures
            match Self::transfer_outcome(views(old(accounts)@), amount, program_id@) {
                Ok(after) => r is Ok && views(final(accounts)@) == after,
                Err(e) => r == Err::<(), ProgramError>(e) && views(final(accounts)@) == views(
                    old(accounts)@,
                ),
            },
            same_shape(views(old(accounts)@), views(final(accounts)@)),
    {
        Self::process_transfer_with::<IdentityRegistry, Compliance>(accounts, amount, program_id)
    }

    /// What a forced transfer of `amount` does to the accounts `[agent,
    /// source, destination, token, identity registry, compliance, identity
    /// storage]`.
    ///
    /// In this order: seven accounts are there; the program owns the six that
    /// store records; the agent signed; token, source and destination load
    /// and the token accounts refer to the token; the token's roster holds
    /// the signer, else `InvalidAgent`; then the checks and the movement of
    /// a transfer.
    pub open spec fn forced_transfer_outcome_with<I: IdentityPolicy, C: CompliancePolicy>(
        a: Seq<AccountView>,
        amount: u64,
        program_id: Seq<u8>,
    ) -> Result<Seq<AccountView>, ProgramError> {
        if a.len() < 7 {
            Err(ProgramError::NotEnoughAccountKeys)
        } else if a[1].owner != program_id
            || a[2].owner != program_id
            || a[3].owner != program_id
            || a[4].owner != program_id
            || a[5].owner != program_id
            || a[6].owner != program_id {
            fail(TokenError::IncorrectProgramId)
        } else if !a[0].is_signer {
            Err(ProgramError::MissingRequiredSignature)
        } else {
            match Self::movement_records(a) {
                Err(e) => Err(e),
                Ok((token, source, dest)) => if !token.is_agent(a[0].key) {
                    fail(TokenError::InvalidAgent)
                } else {
                    Self::guarded_move::<I, C>(a, amount, token, source, dest)
                },
            }
        }
    }

    /// What a forced transfer does under the built-in policies.
    pub open spec fn forced_transfer_outcome(
        a: Seq<AccountView>,
        amount: u64,
        program_id: Seq<u8>,
    ) -> Result<Seq<AccountView>, ProgramError> {
        Self::forced_transfer_outcome_with::<IdentityRegistry, Compliance>(a, amount, program_id)
    }

    /// Processes a transfer of `amount` that an agent of the token orders,
    /// under the identity policy `I` and the compliance policy `C`.
    ///
    /// Accounts: the agent, who signs; the source token account; the
    /// destination token account; the token; the identity registry; the
    /// compliance policy; the identity storage.
    pub fn process_forced_transfer_with<I: IdentityPolicy, C: CompliancePolicy>(
        accounts: &mut Vec<AccountInfo>,
        amount: u64,
        program_id: &Pubkey,
    ) -> (r: Result<(), ProgramError>)
        ensures
            match Self::forced_transfer_outcome_with::<I, C>(
                views(old(accounts)@),
                amount,
                program_id@,
            ) {
                Ok(after) => r is Ok && views(final(accounts)@) == after,
                Err(e) => r == Err::<(), ProgramError>(e) && views(final(accounts)@) == views(
                    old(accounts)@,
                ),
            },
            same_shape(views(old(accounts)@), views(final(accounts)@)),
    {
        if accounts.len() < 7 {
            return Err(ProgramError::NotEnoughAccountKeys);
        }
        if !owned(accounts, 1, program_id)
            || !owned(accounts, 2, program_id)
            || !owned(accounts, 3, program_id)
            || !owned(accounts, 4, program_id)
            || !owned(accounts, 5, program_id)
            || !owned(accounts, 6, program_id) {
            return Err(ProgramError::from(TokenError::IncorrectProgramId));
        }
        if !signed(accounts, 0) {
            return Err(ProgramError::MissingRequiredSignature);
        }
        let (token, source, dest) = match Self::load_movement(accounts) {
            Ok(v) => v,
            Err(e) => {
                return Err(e);
            },
        };
        let agent = key_of(accounts, 0);
        if !token.is_agent(&agent) {
            return Err(ProgramError::from(TokenError::InvalidAgent));
        }
        Self::run_guarded_move::<I, C>(accounts, amount, &token, source, dest)
    }

    /// Processes a transfer of `amount` that an agent of the token orders,
    /// under the built-in policies.
    ///
    /// Accounts: the agent, who signs; the source token account; the
    /// destination token account; the token; the identity registry; the
    /// compliance policy; the identity storage.
    pub fn process_forced_transfer(
        accounts: &mut Vec<AccountInfo>,
        amount: u64,
        program_id: &Pubkey,
    ) -> (r: Result<(), ProgramError>)
        ensures
            match Self::forced_transfer_outcome(views(old(accounts)@), amount, program_id@) {
                Ok(after) => r is Ok && views(final(accounts)@) == after,
                Err(e) => r == Err::<(), ProgramError>(e) && views(final(accounts)@) == views(
                    old(accounts)@,
                ),
            },
            same_shape(views(old(accounts)@), views(final(accounts)@)),
    {
        Self::process_forced_transfer_with::<IdentityRegistry, Compliance>(accounts, amount, program_id)
    }

    /// The token and the token account of an operation on one token account,
    /// over accounts `[_, token account, token, ..]`: both load, the token
    /// first, and the token account refers to the token account that is
    /// handed in, else `InvalidArgument`.
    pub open spec fn holding_records(a: Seq<AccountView>) -> Result<
        (TokenView, TokenAccountView),
        ProgramError,
    > {
        match (TokenView::unpacking(a[2].data), TokenAccountView::unpacking(a[1].data)) {
            (Err(e), _) => Err(e),
            (_, Err(e)) => Err(e),
            (Ok(token), Ok(holding)) => if holding.token != a[2].key {
                Err(ProgramError::InvalidArgument)
            } else {
                Ok((token, holding))
            },
        }
    }

    /// Loads the token and the token account of an operation on one token
    /// account.
    fn load_holding(accounts: &Vec<AccountInfo>) -> (r: Result<(Token, TokenAccount), ProgramError>)
        requires
            accounts@.len() >= 3,
        ensures
            match r {
                Ok((t, h)) => Self::holding_records(views(accounts@)) == Ok::<
                    (TokenView, TokenAccountView),
                    ProgramError,
                >((t@, h@)),
                Err(e) => Self::holding_records(views(accounts@)) == Err::<
                    (TokenView, TokenAccountView),
                    ProgramError,
                >(e),
            },
    {
        let token = match load_token(accounts, 2) {
            Ok(v) => v,
            Err(e) => {
                return Err(e);
            },
        };
        let holding = match load_token_account(accounts, 1) {
            Ok(v) => v,
            Err(e) => {
                return Err(e);
            },
        };
        let token_key = key_of(accounts, 2);
        if !same_key(&holding.token, &token_key) {
            return Err(ProgramError::InvalidArgument);
        }
        Ok((token, holding))
    }

    /// Writes back the token in account 2 and the token account in account
    /// 1, from which they were loaded; the token keeps its name, its symbol
    /// and its roster.
    fn save_holding(accounts: &mut Vec<AccountInfo>, token: &Token, holding: &TokenAccount)
        requires
            old(accounts)@.len() >= 3,
            views(old(accounts)@)[1].data.len() == TokenAccount::LEN,
            TokenView::unpacking(views(old(accounts)@)[2].data) matches Ok(loaded) && loaded.name
                == token@.name && loaded.symbol == token@.symbol && loaded.agents
                == token@.agents,
        ensures
            views(final(accounts)@) == stored(
                stored(views(old(accounts)@), 2, token@.encoding()),
                1,
                holding@.encoding(),
            ),
            same_shape(views(old(accounts)@), views(final(accounts)@)),
    {
        proof {
            TokenView::lemma_decoded_fits(views(accounts@)[2].data);
        }
        let bytes = token.encode();
        save(accounts, 2, &bytes);
        let bytes = holding.encode();
        save(accounts, 1, &bytes);
    }

    /// What minting `amount` does to the accounts `[agent, destination,
    /// token, identity registry, identity storage]`.
    ///
    /// In this order: five accounts are there; the program owns the four that
    /// store records; the agent signed; token and destination load and the
    /// destination refers to the token; the token's roster holds the signer,
    /// else `InvalidAgent`; the registry is the token's, else
    /// `InvalidArgument`; the token is not paused; the destination is not
    /// frozen; the identity policy `I` verifies the destination's holder;
    /// supply and balance can take `amount`. Then supply and balance grow by
    /// `amount`.
    pub open spec fn mint_outcome_with<I: IdentityPolicy>(
        a: Seq<AccountView>,
        amount: u64,
        program_id: Seq<u8>,
    ) -> Result<Seq<AccountView>, ProgramError> {
        if a.len() < 5 {
            Err(ProgramError::NotEnoughAccountKeys)
        } else if a[1].owner != program_id
            || a[2].owner != program_id
            || a[3].owner != program_id
            || a[4].owner != program_id {
            fail(TokenError::IncorrectProgramId)
        } else if !a[0].is_signer {
            Err(ProgramError::MissingRequiredSignature)
        } else {
            match Self::holding_records(a) {
                Err(e) => Err(e),
                Ok((token, dest)) => if !token.is_agent(a[0].key) {
                    fail(TokenError::InvalidAgent)
                } else if token.identity_registry != a[3].key {
                    Err(ProgramError::InvalidArgument)
                } else if token.is_paused {
                    fail(TokenError::TokenPaused)
                } else if dest.is_frozen() {
                    fail(TokenError::AddressFrozen)
                } else {
                    match I::verified(a[3].data, a[4], dest.owner) {
                        Err(e) => Err(e),
                        Ok(dest_verified) => if !dest_verified {
                            fail(TokenError::IdentityNotVerified)
                        } else {
                            match minted(token.supply, dest.amount, amount) {
                                Err(e) => fail(e),
                                Ok((supply, balance)) => Ok(
                                    stored(
                                        stored(a, 2, (TokenView { supply, ..token }).encoding()),
                                        1,
                                        (TokenAccountView { amount: balance, ..dest }).encoding(),
                                    ),
                                ),
                            }
                        },
                    }
                },
            }
        }
    }

    /// What minting does under the built-in identity policy.
    pub open spec fn mint_outcome(a: Seq<AccountView>, amount: u64, program_id: Seq<u8>) -> Result<
        Seq<AccountView>,
        ProgramError,
    > {
        Self::mint_outcome_with::<IdentityRegistry>(a, amount, program_id)
    }

    /// Processes the minting of `amount` to a token account, under the
    /// identity policy `I`.
    ///
    /// Accounts: the agent, who signs; the destination token account; the
    /// token; the identity registry; the identity storage.
    pub fn process_mint_with<I: IdentityPolicy>(
        accounts: &mut Vec<AccountInfo>,
        amount: u64,
        program_id: &Pubkey,
    ) -> (r: Result<(), ProgramError>)
        ensures
            match Self::mint_outcome_with::<I>(views(old(accounts)@), amount, program_id@) {
                Ok(after) => r is Ok && views(final(accounts)@) == after,
                Err(e) => r == Err::<(), ProgramError>(e) && views(final(accounts)@) == views(
                    old(accounts)@,
                ),
            },
            same_shape(views(old(accounts)@), views(final(accounts)@)),
    {
        if accounts.len() < 5 {
            return Err(ProgramError::NotEnoughAccountKeys);
        }
        if !owned(accounts, 1, program_id)
            || !owned(accounts, 2, program_id)
            || !owned(accounts, 3, program_id)
            || !owned(accounts, 4, program_id) {
            return Err(ProgramError::from(TokenError::IncorrectProgramId));
        }
        if !signed(accounts, 0) {
            return Err(ProgramError::MissingRequiredSignature);
        }
        let (mut token, mut dest) = match Self::load_holding(accounts) {
            Ok(v) => v,
            Err(e) => {
                return Err(e);
            },
        };
        let agent = key_of(accounts, 0);
        if !token.is_agent(&agent) {
            return Err(ProgramError::from(TokenError::InvalidAgent));
        }
        let registry_key = key_of(accounts, 3);
        if !same_key(&token.identity_registry, &registry_key) {
            return Err(ProgramError::InvalidArgument);
        }
        if token.is_paused {
            return Err(ProgramError::from(TokenError::TokenPaused));
        }
        if dest.is_frozen() {
            return Err(ProgramError::from(TokenError::AddressFrozen));
        }
        let dest_verified = match I::is_verified(
            accounts[3].data.as_slice(),
            &accounts[4],
            &dest.owner,
        ) {
            Ok(v) => v,
            Err(e) => {
                return Err(e);
            },
        };
        if !dest_verified {
            return Err(ProgramError::from(TokenError::IdentityNotVerified));
        }
        let (supply, balance) = match mint_amount(token.supply, dest.amount, amount) {
            Ok(pair) => pair,
            Err(e) => {
                return Err(ProgramError::from(e));
            },
        };
        token.supply = supply;
        dest.amount = balance;
        Self::save_holding(accounts, &token, &dest);
        Ok(())
    }

    /// Processes the minting of `amount` to a token account, under the
    /// built-in identity policy.
    ///
    /// Accounts: the agent, who signs; the destination token account; the
    /// token; the identity registry; the identity storage.
    pub fn process_mint(
        accounts: &mut Vec<AccountInfo>,
        amount: u64,
        program_id: &Pubkey,
    ) -> (r: Result<(), ProgramError>)
        ensures
            match Self::mint_outcome(views(old(accounts)@), amount, program_id@) {
                Ok(after) => r is Ok && views(final(accounts)@) == after,
                Err(e) => r == Err::<(), ProgramError>(e) && views(final(accounts)@) == views(
                    old(accounts)@,
                ),
            },
            same_shape(views(old(accounts)@), views(final(accounts)@)),
    {
        Self::process_mint_with::<IdentityRegistry>(accounts, amount, program_id)
    }

    /// What burning `amount` does to the accounts `[owner, source, token]`.
    ///
    /// In this order: three accounts are there; the program owns source and
    /// token; the owner signed; token and source load and the source refers
    /// to the token; the signer owns the source, else `InvalidOwner`; the
    /// token is not paused; the source is not frozen; source and supply hold
    /// `amount`. Then supply and balance shrink by `amount`.
    pub open spec fn burn_outcome(a: Seq<AccountView>, amount: u64, program_id: Seq<u8>) -> Result<
        Seq<AccountView>,
        ProgramError,
    > {
        if a.len() < 3 {
            Err(ProgramError::NotEnoughAccountKeys)
        } else if a[1].owner != program_id || a[2].owner != program_id {
            fail(TokenError::IncorrectProgramId)
        } else if !a[0].is_signer {
            Err(ProgramError::MissingRequiredSignature)
        } else {
            match Self::holding_records(a) {
                Err(e) => Err(e),
                Ok((token, source)) => if source.owner != a[0].key {
                    fail(TokenError::InvalidOwner)
                } else if token.is_paused {
                    fail(TokenError::TokenPaused)
                } else if source.is_frozen() {
                    fail(TokenError::AddressFrozen)
                } else {
                    match burned(token.supply, source.amount, amount) {
                        Err(e) => fail(e),
                        Ok((supply, balance)) => Ok(
                            stored(
                                stored(a, 2, (TokenView { supply, ..token }).encoding()),
                                1,
                                (TokenAccountView { amount: balance, ..source }).encoding(),
                            ),
                        ),
                    }
                },
            }
        }
    }

    /// Processes the burning of `amount` from the signer's token account.
    ///
    /// Accounts: the owner, who signs; the source token account; the token.
    pub fn process_burn(
        accounts: &mut Vec<AccountInfo>,
        amount: u64,
        program_id: &Pubkey,
    ) -> (r: Result<(), ProgramError>)
        ensures
            match Self::burn_outcome(views(old(accounts)@), amount, program_id@) {
                Ok(after) => r is Ok && views(final(accounts)@) == after,
                Err(e) => r == Err::<(), ProgramError>(e) && views(final(accounts)@) == views(
                    old(accounts)@,
                ),
            },
            same_shape(views(old(accounts)@), views(final(accounts)@)),
    {
        if accounts.len() < 3 {
            return Err(ProgramError::NotEnoughAccountKeys);
        }
        if !owned(accounts, 1, program_id) || !owned(accounts, 2, program_id) {
            return Err(ProgramError::from(TokenError::IncorrectProgramId));
        }
        if !signed(accounts, 0) {
            return Err(ProgramError::MissingRequiredSignature);
        }
        let (mut token, mut source) = match Self::load_holding(accounts) {
            Ok(v) => v,
            Err(e) => {
                return Err(e);
            },
        };
        let owner = key_of(accounts, 0);
        if !same_key(&source.owner, &owner) {
            return Err(ProgramError::from(TokenError::InvalidOwner));
        }
        if token.is_paused {
            return Err(ProgramError::from(TokenError::TokenPaused));
        }
        if source.is_frozen() {
            return Err(ProgramError::from(TokenError::AddressFrozen));
        }
        let (supply, balance) = match burn_amount(token.supply, source.amount, amount) {
            Ok(pair) => pair,
            Err(e) => {
                return Err(ProgramError::from(e));
            },
        };
        token.supply = supply;
        source.amount = balance;
        Self::save_holding(accounts, &token, &source);
        Ok(())
    }

    /// What recovering `amount` does to the accounts `[token owner, lost
    /// account, recovery destination, token]`.
    ///
    /// In this order: four accounts are there; the program owns the three
    /// that store records; the token's owner signed; token, lost account and
    /// destination load and the token accounts refer to the token; the
    /// signer owns the token, else `Unauthorized`; the lost account holds
    /// `amount` and the destination can take it. Then `amount` leaves the
    /// lost account and arrives at the destination; the supply stays.
    pub open spec fn recover_outcome(
        a: Seq<AccountView>,
        amount: u64,
        program_id: Seq<u8>,
    ) -> Result<Seq<AccountView>, ProgramError> {
        if a.len() < 4 {
            Err(ProgramError::NotEnoughAccountKeys)
        } else if a[1].owner != program_id || a[2].owner != program_id || a[3].owner != program_id {
            fail(TokenError::IncorrectProgramId)
        } else if !a[0].is_signer {
            Err(ProgramError::MissingRequiredSignature)
        } else {
            match Self::movement_records(a) {
                Err(e) => Err(e),
                Ok((token, lost, dest)) => if token.owner != a[0].key {
                    fail(TokenError::Unauthorized)
                } else {
                    Self::moved_between(a, 1, 2, amount, lost, dest)
                },
            }
        }
    }

    /// Processes the recovery of `amount` from a lost holder's token account.
    ///
    /// Accounts: the token's owner, who signs; the lost token account; the
    /// recovery destination; the token.
    pub fn process_recover(
        accounts: &mut Vec<AccountInfo>,
        amount: u64,
        program_id: &Pubkey,
    ) -> (r: Result<(), ProgramError>)
        ensures
            match Self::recover_outcome(views(old(accounts)@), amount, program_id@) {
                Ok(after) => r is Ok && views(final(accounts)@) == after,
                Err(e) => r == Err::<(), ProgramError>(e) && views(final(accounts)@) == views(
                    old(accounts)@,
                ),
            },
            same_shape(views(old(accounts)@), views(final(accounts)@)),
    {
        if accounts.len() < 4 {
            return Err(ProgramError::NotEnoughAccountKeys);
        }
        if !owned(accounts, 1, program_id)
            || !owned(accounts, 2, program_id)
            || !owned(accounts, 3, program_id) {
            return Err(ProgramError::from(TokenError::IncorrectProgramId));
        }
        if !signed(accounts, 0) {
            return Err(ProgramError::MissingRequiredSignature);
        }
        let (token, lost, dest) = match Self::load_movement(accounts) {
            Ok(v) => v,
            Err(e) => {
                return Err(e);
            },
        };
        let signer = key_of(accounts, 0);
        if !same_key(&token.owner, &signer) {
            return Err(ProgramError::from(TokenError::Unauthorized));
        }
        Self::move_between(accounts, 1, 2, amount, lost, dest)
    }

    /// The target of a freeze or an unfreeze over the accounts `[agent,
    /// target, token]`, once the caller's authority is settled.
    ///
    /// In this order: three accounts are there; the program owns target and
    /// token; the agent signed; token and target load and the target refers
    /// to the token; the token's roster holds the signer, else
    /// `InvalidAgent`.
    pub open spec fn agent_target(a: Seq<AccountView>, program_id: Seq<u8>) -> Result<
        TokenAccountView,
        ProgramError,
    > {
        if a.len() < 3 {
            Err(ProgramError::NotEnoughAccountKeys)
        } else if a[1].owner != program_id || a[2].owner != program_id {
            fail(TokenError::IncorrectProgramId)
        } else if !a[0].is_signer {
            Err(ProgramError::MissingRequiredSignature)
        } else {
            match Self::holding_records(a) {
                Err(e) => Err(e),
                Ok((token, target)) => if !token.is_agent(a[0].key) {
                    fail(TokenError::InvalidAgent)
                } else {
                    Ok(target)
                },
            }
        }
    }

    /// Settles the authority of a freeze or an unfreeze and loads its target.
    fn load_agent_target(accounts: &Vec<AccountInfo>, program_id: &Pubkey) -> (r: Result<
        TokenAccount,
        ProgramError,
    >)
        ensures
            match r {
                Ok(v) => Self::agent_target(views(accounts@), program_id@) == Ok::<
                    TokenAccountView,
                    ProgramError,
                >(v@),
                Err(e) => Self::agent_target(views(accounts@), program_id@) == Err::<
                    TokenAccountView,
                    ProgramError,
                >(e),
            },
            r is Ok ==> accounts@.len() >= 3 && views(accounts@)[1].data.len()
                == TokenAccount::LEN,
    {
        if accounts.len() < 3 {
            return Err(ProgramError::NotEnoughAccountKeys);
        }
        if !owned(accounts, 1, program_id) || !owned(accounts, 2, program_id) {
            return Err(ProgramError::from(TokenError::IncorrectProgramId));
        }
        if !signed(accounts, 0) {
            return Err(ProgramError::MissingRequiredSignature);
        }
        let (token, target) = match Self::load_holding(accounts) {
            Ok(v) => v,
            Err(e) => {
                return Err(e);
            },
        };
        let agent = key_of(accounts, 0);
        if !token.is_agent(&agent) {
            return Err(ProgramError::from(TokenError::InvalidAgent));
        }
        Ok(target)
    }

    /// What freezing does to the accounts `[agent, target, token]`: once the
    /// agent's authority is settled, bit 0 of the target's flags is set. A
    /// target that is frozen already stays frozen.
    pub open spec fn freeze_outcome(a: Seq<AccountView>, program_id: Seq<u8>) -> Result<
        Seq<AccountView>,
        ProgramError,
    > {
        match Self::agent_target(a, program_id) {
            Err(e) => Err(e),
            Ok(target) => Ok(
                stored(
                    a,
                    1,
                    (TokenAccountView {
                        state: target.state |ACCOUNT_FROZEN_FLAG,
                        ..target
                    }).encoding(),
                ),
            ),
        }
    }

    /// Processes the freezing of a token account.
    ///
    /// Accounts: the agent, who signs; the target token account; the token.
    pub fn process_freeze_address(
        accounts: &mut Vec<AccountInfo>,
        program_id: &Pubkey,
    ) -> (r: Result<(), ProgramError>)
        ensures
            match Self::freeze_outcome(views(old(accounts)@), program_id@) {
                Ok(after) => r is Ok && views(final(accounts)@) == after,
                Err(e) => r == Err::<(), ProgramError>(e) && views(final(accounts)@) == views(
                    old(accounts)@,
                ),
            },
            same_shape(views(old(accounts)@), views(final(accounts)@)),
    {
        let mut target = match Self::load_agent_target(accounts, program_id) {
            Ok(v) => v,
            Err(e) => {
                return Err(e);
            },
        };
        target.state = target.state |ACCOUNT_FROZEN_FLAG;
        let bytes = target.encode();
        save(accounts, 1, &bytes);
        Ok(())
    }

    /// What unfreezing does to the accounts `[agent, target, token]`: once the
    /// agent's authority is settled, bit 0 of the target's flags is cleared. A
    /// target that is not frozen stays so.
    pub open spec fn unfreeze_outcome(a: Seq<AccountView>, program_id: Seq<u8>) -> Result<
        Seq<AccountView>,
        ProgramError,
    > {
        match Self::agent_target(a, program_id) {
            Err(e) => Err(e),
            Ok(target) => Ok(
                stored(
                    a,
                    1,
                    (TokenAccountView {
                        state: target.state & !ACCOUNT_FROZEN_FLAG,
                        ..target
                    }).encoding(),
                ),
            ),
        }
    }

    /// Processes the unfreezing of a token account.
    ///
    /// Accounts: the agent, who signs; the target token account; the token.
    pub fn process_unfreeze_address(
        accounts: &mut Vec<AccountInfo>,
        program_id: &Pubkey,
    ) -> (r: Result<(), ProgramError>)
        ensures
            match Self::unfreeze_outcome(views(old(accounts)@), program_id@) {
                Ok(after) => r is Ok && views(final(accounts)@) == after,
                Err(e) => r == Err::<(), ProgramError>(e) && views(final(accounts)@) == views(
                    old(accounts)@,
                ),
            },
            same_shape(views(old(accounts)@), views(final(accounts)@)),
    {
        let mut target = match Self::load_agent_target(accounts, program_id) {
            Ok(v) => v,
            Err(e) => {
                return Err(e);
            },
        };
        target.state = target.state & !ACCOUNT_FROZEN_FLAG;
        let bytes = target.encode();
        save(accounts, 1, &bytes);
        Ok(())
    }

    /// The token of an operation that only the token's owner may order,
    /// over accounts that start with `[token owner, token]`.
    ///
    /// In this order: `n` accounts are there; the program owns the token
    /// account; the owner signed; the token loads; the signer owns the
    /// token, else `Unauthorized`.
    pub open spec fn owner_token(a: Seq<AccountView>, n: nat, program_id: Seq<u8>) -> Result<
        TokenView,
        ProgramError,
    > {
        if a.len() < n {
            Err(ProgramError::NotEnoughAccountKeys)
        } else if a[1].owner != program_id {
            fail(TokenError::IncorrectProgramId)
        } else if !a[0].is_signer {
            Err(ProgramError::MissingRequiredSignature)
        } else {
            match TokenView::unpacking(a[1].data) {
                Err(e) => Err(e),
                Ok(token) => if token.owner != a[0].key {
                    fail(TokenError::Unauthorized)
                } else {
                    Ok(token)
                },
            }
        }
    }

    /// Settles the authority of the token's owner and loads the token.
    fn load_owner_token(accounts: &Vec<AccountInfo>, n: usize, program_id: &Pubkey) -> (r: Result<
        Token,
        ProgramError,
    >)
        requires
            n >= 2,
        ensures
            match r {
                Ok(v) => Self::owner_token(views(accounts@), n as nat, program_id@) == Ok::<
                    TokenView,
                    ProgramError,
                >(v@),
                Err(e) => Self::owner_token(views(accounts@), n as nat, program_id@) == Err::<
                    TokenView,
                    ProgramError,
                >(e),
            },
            r matches Ok(v) ==> accounts@.len() >= n && TokenView::unpacking(
                views(accounts@)[1].data,
            ) == Ok::<TokenView, ProgramError>(v@),
    {
        if accounts.len() < n {
            return Err(ProgramError::NotEnoughAccountKeys);
        }
        if !owned(accounts, 1, program_id) {
            return Err(ProgramError::from(TokenError::IncorrectProgramId));
        }
        if !signed(accounts, 0) {
            return Err(ProgramError::MissingRequiredSignature);
        }
        let token = match load_token(accounts, 1) {
            Ok(v) => v,
            Err(e) => {
                return Err(e);
            },
        };
        let signer = key_of(accounts, 0);
        if !same_key(&token.owner, &signer) {
            return Err(ProgramError::from(TokenError::Unauthorized));
        }
        Ok(token)
    }

    /// Writes a token back to account 1, from which it was loaded; the token
    /// keeps its name, its symbol and its roster.
    fn save_token(accounts: &mut Vec<AccountInfo>, token: &Token)
        requires
            old(accounts)@.len() >= 2,
            TokenView::unpacking(views(old(accounts)@)[1].data) matches Ok(loaded) && loaded.name
                == token@.name && loaded.symbol == token@.symbol && loaded.agents
                == token@.agents,
        ensures
            views(final(accounts)@) == stored(views(old(accounts)@), 1, token@.encoding()),
            same_shape(views(old(accounts)@), views(final(accounts)@)),
    {
        proof {
            TokenView::lemma_decoded_fits(views(accounts@)[1].data);
        }
        let bytes = token.encode();
        save(accounts, 1, &bytes);
    }

    /// What pausing does to the accounts `[token owner, token]`: once the
    /// owner's authority is settled, the token is paused. A token that is
    /// paused already stays paused.
    pub open spec fn pause_outcome(a: Seq<AccountView>, program_id: Seq<u8>) -> Result<
        Seq<AccountView>,
        ProgramError,
    > {
        match Self::owner_token(a, 2, program_id) {
            Err(e) => Err(e),
            Ok(token) => Ok(stored(a, 1, (TokenView { is_paused: true, ..token }).encoding())),
        }
    }

    /// Processes the operation `pause`.
    ///
    /// Accounts: the token's owner, who signs; the token.
    pub fn process_pause(
        accounts: &mut Vec<AccountInfo>,
        program_id: &Pubkey,
    ) -> (r: Result<(), ProgramError>)
        ensures
            match Self::pause_outcome(views(old(accounts)@), program_id@) {
                Ok(after) => r is Ok && views(final(accounts)@) == after,
                Err(e) => r == Err::<(), ProgramError>(e) && views(final(accounts)@) == views(
                    old(accounts)@,
                ),
            },
            same_shape(views(old(accounts)@), views(final(accounts)@)),
    {
        let mut token = match Self::load_owner_token(accounts, 2, program_id) {
            Ok(v) => v,
            Err(e) => {
                return Err(e);
            },
        };
        token.is_paused = true;
        Self::save_token(accounts, &token);
        Ok(())
    }

    /// What unpausing does to the accounts `[token owner, token]`: once the
    /// owner's authority is settled, the token is not paused. A token that
    /// is not paused stays so.
    pub open spec fn unpause_outcome(a: Seq<AccountView>, program_id: Seq<u8>) -> Result<
        Seq<AccountView>,
        ProgramError,
    > {
        match Self::owner_token(a, 2, program_id) {
            Err(e) => Err(e),
            Ok(token) => Ok(stored(a, 1, (TokenView { is_paused: false, ..token }).encoding())),
        }
    }

    /// Processes the operation `unpause`.
    ///
    /// Accounts: the token's owner, who signs; the token.
    pub fn process_unpause(
        accounts: &mut Vec<AccountInfo>,
        program_id: &Pubkey,
    ) -> (r: Result<(), ProgramError>)
        ensures
            match Self::unpause_outcome(views(old(accounts)@), program_id@) {
                Ok(after) => r is Ok && views(final(accounts)@) == after,
                Err(e) => r == Err::<(), ProgramError>(e) && views(final(accounts)@) == views(
                    old(accounts)@,
                ),
            },
            same_shape(views(old(accounts)@), views(final(accounts)@)),
    {
        let mut token = match Self::load_owner_token(accounts, 2, program_id) {
            Ok(v) => v,
            Err(e) => {
                return Err(e);
            },
        };
        token.is_paused = false;
        Self::save_token(accounts, &token);
        Ok(())
    }

    /// What rebinding the compliance policy does to the accounts `[token
    /// owner, token, new compliance]`: once the owner's authority is settled,
    /// the token refers to the third account as its policy, and later
    /// operations on the token accept that account only.
    pub open spec fn set_compliance_outcome(a: Seq<AccountView>, program_id: Seq<u8>) -> Result<
        Seq<AccountView>,
        ProgramError,
    > {
        match Self::owner_token(a, 3, program_id) {
            Err(e) => Err(e),
            Ok(token) => Ok(stored(a, 1, (TokenView { compliance: a[2].key, ..token }).encoding())),
        }
    }

    /// Processes the operation `set_compliance`.
    ///
    /// Accounts: the token's owner, who signs; the token; the new compliance
    /// account.
    pub fn process_set_compliance(
        accounts: &mut Vec<AccountInfo>,
        program_id: &Pubkey,
    ) -> (r: Result<(), ProgramError>)
        ensures
            match Self::set_compliance_outcome(views(old(accounts)@), program_id@) {
                Ok(after) => r is Ok && views(final(accounts)@) == after,
                Err(e) => r == Err::<(), ProgramError>(e) && views(final(accounts)@) == views(
                    old(accounts)@,
                ),
            },
            same_shape(views(old(accounts)@), views(final(accounts)@)),
    {
        let mut token = match Self::load_owner_token(accounts, 3, program_id) {
            Ok(v) => v,
            Err(e) => {
                return Err(e);
            },
        };
        token.compliance = key_of(accounts, 2);
        Self::save_token(accounts, &token);
        Ok(())
    }

    /// What rebinding the identity registry does to the accounts `[token
    /// owner, token, new registry]`: once the owner's authority is settled,
    /// the token refers to the third account as its registry, and later
    /// operations on the token accept that account only.
    pub open spec fn set_identity_registry_outcome(a: Seq<AccountView>, program_id: Seq<u8>) -> Result<
        Seq<AccountView>,
        ProgramError,
    > {
        match Self::owner_token(a, 3, program_id) {
            Err(e) => Err(e),
            Ok(token) => {
                Ok(stored(a, 1, (TokenView { identity_registry: a[2].key, ..token }).encoding()))
            },
        }
    }

    /// Processes the operation `set_identity_registry`.
    ///
    /// Accounts: the token's owner, who signs; the token; the new identity
    /// registry account.
    pub fn process_set_identity_registry(
        accounts: &mut Vec<AccountInfo>,
        program_id: &Pubkey,
    ) -> (r: Result<(), ProgramError>)
        ensures
            match Self::set_identity_registry_outcome(views(old(accounts)@), program_id@) {
                Ok(after) => r is Ok && views(final(accounts)@) == after,
                Err(e) => r == Err::<(), ProgramError>(e) && views(final(accounts)@) == views(
                    old(accounts)@,
                ),
            },
            same_shape(views(old(accounts)@), views(final(accounts)@)),
    {
        let mut token = match Self::load_owner_token(accounts, 3, program_id) {
            Ok(v) => v,
            Err(e) => {
                return Err(e);
            },
        };
        token.identity_registry = key_of(accounts, 2);
        Self::save_token(accounts, &token);
        Ok(())
    }

    /// What adding an agent does to the accounts `[token owner, token,
    /// agent]`: once the owner's authority is settled, the token's roster
    /// holds the address of the third account. Where it held it already,
    /// nothing changes; where the roster has no room left in the token's
    /// slot, the operation fails with `InvalidAccountData`.
    pub open spec fn add_agent_outcome(a: Seq<AccountView>, program_id: Seq<u8>) -> Result<
        Seq<AccountView>,
        ProgramError,
    > {
        match Self::owner_token(a, 3, program_id) {
            Err(e) => Err(e),
            Ok(token) => if token.is_agent(a[2].key) {
                Ok(a)
            } else if (TokenView { agents: token.agents.push(a[2].key), ..token }).encoded_len()
                > Token::LEN {
                Err(ProgramError::InvalidAccountData)
            } else {
                Ok(
                    stored(
                        a,
                        1,
                        (TokenView { agents: token.agents.push(a[2].key), ..token }).encoding(),
                    ),
                )
            },
        }
    }

    /// What removing an agent does to the accounts `[token owner, token,
    /// agent]`: once the owner's authority is settled, the token's roster no
    /// longer holds the address of the third account. Where it did not hold
    /// it, the operation fails with `InvalidAgent`.
    pub open spec fn remove_agent_outcome(a: Seq<AccountView>, program_id: Seq<u8>) -> Result<
        Seq<AccountView>,
        ProgramError,
    > {
        match Self::owner_token(a, 3, program_id) {
            Err(e) => Err(e),
            Ok(token) => if !token.is_agent(a[2].key) {
                fail(TokenError::InvalidAgent)
            } else {
                Ok(
                    stored(
                        a,
                        1,
                        (TokenView { agents: without(token.agents, a[2].key), ..token }).encoding(),
                    ),
                )
            },
        }
    }

    /// Processes the adding of an agent.
    ///
    /// Accounts: the token's owner, who signs; the token; the agent.
    pub fn process_add_agent(
        accounts: &mut Vec<AccountInfo>,
        program_id: &Pubkey,
    ) -> (r: Result<(), ProgramError>)
        ensures
            match Self::add_agent_outcome(views(old(accounts)@), program_id@) {
                Ok(after) => r is Ok && views(final(accounts)@) == after,
                Err(e) => r == Err::<(), ProgramError>(e) && views(final(accounts)@) == views(
                    old(accounts)@,
                ),
            },
            same_shape(views(old(accounts)@), views(final(accounts)@)),
    {
        let token = match Self::load_owner_token(accounts, 3, program_id) {
            Ok(v) => v,
            Err(e) => {
                return Err(e);
            },
        };
        let agent = key_of(accounts, 2);
        if token.is_agent(&agent) {
            return Ok(());
        }
        proof {
            TokenView::lemma_decoded_fits(views(accounts@)[1].data);
        }
        let ghost before = token@;
        let mut agents = token.agents;
        agents.push(agent);
        proof {
            assert(keys_view(agents@) =~= before.agents.push(agent@));
        }
        let token = Token {
            is_initialized: token.is_initialized,
            owner: token.owner,
            name: token.name,
            symbol: token.symbol,
            decimals: token.decimals,
            supply: token.supply,
            is_paused: token.is_paused,
            identity_registry: token.identity_registry,
            compliance: token.compliance,
            agents,
        };
        let bytes = token.encode();
        if bytes.len() > Token::LEN {
            return Err(ProgramError::InvalidAccountData);
        }
        save(accounts, 1, &bytes);
        Ok(())
    }

    /// Processes the removing of an agent.
    ///
    /// Accounts: the token's owner, who signs; the token; the agent.
    pub fn process_remove_agent(
        accounts: &mut Vec<AccountInfo>,
        program_id: &Pubkey,
    ) -> (r: Result<(), ProgramError>)
        ensures
            match Self::remove_agent_outcome(views(old(accounts)@), program_id@) {
                Ok(after) => r is Ok && views(final(accounts)@) == after,
                Err(e) => r == Err::<(), ProgramError>(e) && views(final(accounts)@) == views(
                    old(accounts)@,
                ),
            },
            same_shape(views(old(accounts)@), views(final(accounts)@)),
    {
        let token = match Self::load_owner_token(accounts, 3, program_id) {
            Ok(v) => v,
            Err(e) => {
                return Err(e);
            },
        };
        let agent = key_of(accounts, 2);
        if !token.is_agent(&agent) {
            return Err(ProgramError::from(TokenError::InvalidAgent));
        }
        proof {
            TokenView::lemma_decoded_fits(views(accounts@)[1].data);
            crate::codec::lemma_without(token@.agents, agent@);
        }
        let agents = without_key(&token.agents, &agent);
        let token = Token {
            is_initialized: token.is_initialized,
            owner: token.owner,
            name: token.name,
            symbol: token.symbol,
            decimals: token.decimals,
            supply: token.supply,
            is_paused: token.is_paused,
            identity_registry: token.identity_registry,
            compliance: token.compliance,
            agents,
        };
        let bytes = token.encode();
        save(accounts, 1, &bytes);
        Ok(())
    }

    /// The registry of an identity operation over the accounts `[authority,
    /// identity registry, identity storage, holder]`, once the caller's
    /// authority is settled.
    ///
    /// In this order: four accounts are there; the program owns registry and
    /// storage; the authority signed; the registry loads; the storage
    /// account is the one that the registry refers to, else
    /// `InvalidArgument`; the signer owns the registry or is on its roster,
    /// else `Unauthorized`.
    pub open spec fn registrar_registry(a: Seq<AccountView>, program_id: Seq<u8>) -> Result<
        IdentityRegistryView,
        ProgramError,
    > {
        if a.len() < 4 {
            Err(ProgramError::NotEnoughAccountKeys)
        } else if a[1].owner != program_id || a[2].owner != program_id {
            fail(TokenError::IncorrectProgramId)
        } else if !a[0].is_signer {
            Err(ProgramError::MissingRequiredSignature)
        } else {
            match IdentityRegistryView::unpacking(a[1].data) {
                Err(e) => Err(e),
                Ok(registry) => if registry.identity_storage != a[2].key {
                    Err(ProgramError::InvalidArgument)
                } else if registry.owner != a[0].key && !registry.is_agent(a[0].key) {
                    fail(TokenError::Unauthorized)
                } else {
                    Ok(registry)
                },
            }
        }
    }

    /// Settles the authority of an identity operation and loads the
    /// registry.
    fn load_registrar_registry(accounts: &Vec<AccountInfo>, program_id: &Pubkey) -> (r: Result<
        IdentityRegistry,
        ProgramError,
    >)
        ensures
            match r {
                Ok(v) => Self::registrar_registry(views(accounts@), program_id@) == Ok::<
                    IdentityRegistryView,
                    ProgramError,
                >(v@),
                Err(e) => Self::registrar_registry(views(accounts@), program_id@) == Err::<
                    IdentityRegistryView,
                    ProgramError,
                >(e),
            },
            r is Ok ==> accounts@.len() >= 4,
    {
        if accounts.len() < 4 {
            return Err(ProgramError::NotEnoughAccountKeys);
        }
        if !owned(accounts, 1, program_id) || !owned(accounts, 2, program_id) {
            return Err(ProgramError::from(TokenError::IncorrectProgramId));
        }
        if !signed(accounts, 0) {
            return Err(ProgramError::MissingRequiredSignature);
        }
        let registry = match load_registry(accounts, 1) {
            Ok(v) => v,
            Err(e) => {
                return Err(e);
            },
        };
        let storage = key_of(accounts, 2);
        if !same_key(&registry.identity_storage, &storage) {
            return Err(ProgramError::InvalidArgument);
        }
        let authority = key_of(accounts, 0);
        if !same_key(&registry.owner, &authority) && !registry.is_agent(&authority) {
            return Err(ProgramError::from(TokenError::Unauthorized));
        }
        Ok(registry)
    }

    /// What registering an identity does to the accounts `[authority,
    /// identity registry, identity storage, holder]`.
    ///
    /// Once the authority is settled: the registry holds no identity of the
    /// holder yet, else `IdentityAlreadyExists`; the storage has a slot that
    /// holds no initialized identity, else `InvalidAccountData`. Then the
    /// first such slot stores the holder's identity, with the fingerprint
    /// and the country that were handed in.
    pub open spec fn register_identity_outcome(
        a: Seq<AccountView>,
        identity: Seq<u8>,
        country: u16,
        program_id: Seq<u8>,
    ) -> Result<Seq<AccountView>, ProgramError> {
        match Self::registrar_registry(a, program_id) {
            Err(e) => Err(e),
            Ok(registry) => if registry.identity_exists(a[2], a[3].key) {
                fail(TokenError::IdentityAlreadyExists)
            } else {
                match find_free_slot(a[2].data, 0) {
                    None => Err(ProgramError::InvalidAccountData),
                    Some(k) => Ok(
                        stored_at(
                            a,
                            2,
                            k * 128,
                            (IdentityView {
                                is_initialized: true,
                                owner: a[3].key,
                                identity_hash: identity,
                                country,
                            }).encoding(),
                        ),
                    ),
                }
            },
        }
    }

    /// Processes the registration of a holder's identity.
    ///
    /// Accounts: the registry's owner or agent, who signs; the identity
    /// registry; the identity storage; the holder.
    pub fn process_register_identity(
        accounts: &mut Vec<AccountInfo>,
        identity: [u8; 32],
        country: u16,
        program_id: &Pubkey,
    ) -> (r: Result<(), ProgramError>)
        ensures
            match Self::register_identity_outcome(
                views(old(accounts)@),
                identity@,
                country,
                program_id@,
            ) {
                Ok(after) => r is Ok && views(final(accounts)@) == after,
                Err(e) => r == Err::<(), ProgramError>(e) && views(final(accounts)@) == views(
                    old(accounts)@,
                ),
            },
            same_shape(views(old(accounts)@), views(final(accounts)@)),
    {
        let registry = match Self::load_registrar_registry(accounts, program_id) {
            Ok(v) => v,
            Err(e) => {
                return Err(e);
            },
        };
        let holder = key_of(accounts, 3);
        if registry.identity_exists(&accounts[2], &holder) {
            return Err(ProgramError::from(TokenError::IdentityAlreadyExists));
        }
        let k = match free_identity_slot(accounts[2].data.as_slice()) {
            Some(k) => k,
            None => {
                return Err(ProgramError::InvalidAccountData);
            },
        };
        let record = Identity {
            is_initialized: true,
            owner: holder,
            identity_hash: identity,
            country,
        };
        let len: usize = accounts[2].data_len();
        assert(k * 128 + 128 <= len);
        let bytes = record.encode();
        save_at(accounts, 2, k * 128, &bytes);
        Ok(())
    }

    /// The slot and the identity that an update or a deletion works on, over
    /// the accounts `[authority, identity registry, identity storage,
    /// holder]`: once the authority is settled, the first slot of the storage
    /// that holds an initialized identity of the holder, else
    /// `IdentityNotFound`.
    pub open spec fn registrar_identity(a: Seq<AccountView>, program_id: Seq<u8>) -> Result<
        (int, IdentityView),
        ProgramError,
    > {
        match Self::registrar_registry(a, program_id) {
            Err(e) => Err(e),
            Ok(_) => match find_identity(a[2].data, a[3].key, 0) {
                None => fail(TokenError::IdentityNotFound),
                Some(k) => Ok((k, IdentityView::decoding(identity_slot(a[2].data, k)).unwrap())),
            },
        }
    }

    /// Settles the authority of an update or a deletion and loads the
    /// holder's identity.
    fn load_registrar_identity(accounts: &Vec<AccountInfo>, program_id: &Pubkey) -> (r: Result<
        (usize, Identity),
        ProgramError,
    >)
        ensures
            match r {
                Ok((k, v)) => Self::registrar_identity(views(accounts@), program_id@) == Ok::<
                    (int, IdentityView),
                    ProgramError,
                >((k as int, v@)),
                Err(e) => Self::registrar_identity(views(accounts@), program_id@) == Err::<
                    (int, IdentityView),
                    ProgramError,
                >(e),
            },
            r matches Ok((k, _)) ==> accounts@.len() >= 4 && k * 128 + 128 <= views(
                accounts@,
            )[2].data.len(),
    {
        match Self::load_registrar_registry(accounts, program_id) {
            Ok(_) => {},
            Err(e) => {
                return Err(e);
            },
        }
        let holder = key_of(accounts, 3);
        let k = match identity_slot_of(accounts[2].data.as_slice(), &holder) {
            Some(k) => k,
            None => {
                return Err(ProgramError::from(TokenError::IdentityNotFound));
            },
        };
        proof {
            lemma_found_slot_in_range(views(accounts@)[2].data, holder@, 0);
        }
        let len: usize = accounts[2].data_len();
        assert(k * 128 + 128 <= len);
        let slot = slice_subrange(accounts[2].data.as_slice(), k * 128, k * 128 + 128);
        match Identity::unpack_from_slice(slot) {
            Ok(present) => Ok((k, present)),
            Err(e) => Err(e),
        }
    }

    /// What the operation `update_identity` does to the accounts `[authority, identity
    /// registry, identity storage, holder]`: the holder's identity gets the new
    /// fingerprint.
    pub open spec fn update_identity_outcome(
        a: Seq<AccountView>,
        identity: Seq<u8>,
        program_id: Seq<u8>,
    ) -> Result<Seq<AccountView>, ProgramError> {
        match Self::registrar_identity(a, program_id) {
            Err(e) => Err(e),
            Ok((k, present)) => Ok(
                stored_at(a, 2, k * 128, (IdentityView { identity_hash: identity, ..present }).encoding()),
            ),
        }
    }

    /// Processes the operation `update_identity`.
    ///
    /// Accounts: the registry's owner or agent, who signs; the identity
    /// registry; the identity storage; the holder.
    pub fn process_update_identity(
        accounts: &mut Vec<AccountInfo>,
        identity: [u8; 32],
        program_id: &Pubkey,
    ) -> (r: Result<(), ProgramError>)
        ensures
            match Self::update_identity_outcome(views(old(accounts)@), identity@, program_id@) {
                Ok(after) => r is Ok && views(final(accounts)@) == after,
                Err(e) => r == Err::<(), ProgramError>(e) && views(final(accounts)@) == views(
                    old(accounts)@,
                ),
            },
            same_shape(views(old(accounts)@), views(final(accounts)@)),
    {
        let (k, mut present) = match Self::load_registrar_identity(accounts, program_id) {
            Ok(v) => v,
            Err(e) => {
                return Err(e);
            },
        };
        present.identity_hash = identity;
        let len: usize = accounts[2].data_len();
        assert(k * 128 + 128 <= len);
        let bytes = present.encode();
        save_at(accounts, 2, k * 128, &bytes);
        Ok(())
    }

    /// What the operation `update_country` does to the accounts `[authority, identity
    /// registry, identity storage, holder]`: the holder's identity gets the new
    /// country code.
    pub open spec fn update_country_outcome(
        a: Seq<AccountView>,
        country: u16,
        program_id: Seq<u8>,
    ) -> Result<Seq<AccountView>, ProgramError> {
        match Self::registrar_identity(a, program_id) {
            Err(e) => Err(e),
            Ok((k, present)) => Ok(
                stored_at(a, 2, k * 128, (IdentityView { country, ..present }).encoding()),
            ),
        }
    }

    /// Processes the operation `update_country`.
    ///
    /// Accounts: the registry's owner or agent, who signs; the identity
    /// registry; the identity storage; the holder.
    pub fn process_update_country(
        accounts: &mut Vec<AccountInfo>,
        country: u16,
        program_id: &Pubkey,
    ) -> (r: Result<(), ProgramError>)
        ensures
            match Self::update_country_outcome(views(old(accounts)@), country, program_id@) {
                Ok(after) => r is Ok && views(final(accounts)@) == after,
                Err(e) => r == Err::<(), ProgramError>(e) && views(final(accounts)@) == views(
                    old(accounts)@,
                ),
            },
            same_shape(views(old(accounts)@), views(final(accounts)@)),
    {
        let (k, mut present) = match Self::load_registrar_identity(accounts, program_id) {
            Ok(v) => v,
            Err(e) => {
                return Err(e);
            },
        };
        present.country = country;
        let len: usize = accounts[2].data_len();
        assert(k * 128 + 128 <= len);
        let bytes = present.encode();
        save_at(accounts, 2, k * 128, &bytes);
        Ok(())
    }

    /// What the operation `delete_identity` does to the accounts `[authority, identity
    /// registry, identity storage, holder]`: the holder's identity is no longer
    /// initialized, and its slot is free.
    pub open spec fn delete_identity_outcome(
        a: Seq<AccountView>,
        program_id: Seq<u8>,
    ) -> Result<Seq<AccountView>, ProgramError> {
        match Self::registrar_identity(a, program_id) {
            Err(e) => Err(e),
            Ok((k, present)) => Ok(
                stored_at(a, 2, k * 128, (IdentityView { is_initialized: false, ..present }).encoding()),
            ),
        }
    }

    /// Processes the operation `delete_identity`.
    ///
    /// Accounts: the registry's owner or agent, who signs; the identity
    /// registry; the identity storage; the holder.
    pub fn process_delete_identity(
        accounts: &mut Vec<AccountInfo>,
        program_id: &Pubkey,
    ) -> (r: Result<(), ProgramError>)
        ensures
            match Self::delete_identity_outcome(views(old(accounts)@), program_id@) {
                Ok(after) => r is Ok && views(final(accounts)@) == after,
                Err(e) => r == Err::<(), ProgramError>(e) && views(final(accounts)@) == views(
                    old(accounts)@,
                ),
            },
            same_shape(views(old(accounts)@), views(final(accounts)@)),
    {
        let (k, mut present) = match Self::load_registrar_identity(accounts, program_id) {
            Ok(v) => v,
            Err(e) => {
                return Err(e);
            },
        };
        present.is_initialized = false;
        let len: usize = accounts[2].data_len();
        assert(k * 128 + 128 <= len);
        let bytes = present.encode();
        save_at(accounts, 2, k * 128, &bytes);
        Ok(())
    }

    /// The claim topics record of an operation that only its owner may
    /// order, over the accounts `[owner, claim topics]`.
    ///
    /// In this order: two accounts are there; the program owns the claim
    /// topics account; the owner signed; the record loads; the signer owns
    /// it, else `Unauthorized`.
    pub open spec fn owner_claim_topics(a: Seq<AccountView>, program_id: Seq<u8>) -> Result<
        ClaimTopicsView,
        ProgramError,
    > {
        if a.len() < 2 {
            Err(ProgramError::NotEnoughAccountKeys)
        } else if a[1].owner != program_id {
            fail(TokenError::IncorrectProgramId)
        } else if !a[0].is_signer {
            Err(ProgramError::MissingRequiredSignature)
        } else {
            match ClaimTopicsView::unpacking(a[1].data) {
                Err(e) => Err(e),
                Ok(record) => if record.owner != a[0].key {
                    fail(TokenError::Unauthorized)
                } else {
                    Ok(record)
                },
            }
        }
    }

    /// Settles the authority over the claim topics record and loads it.
    fn load_owner_claim_topics(accounts: &Vec<AccountInfo>, program_id: &Pubkey) -> (r: Result<
        ClaimTopics,
        ProgramError,
    >)
        ensures
            match r {
                Ok(v) => Self::owner_claim_topics(views(accounts@), program_id@) == Ok::<
                    ClaimTopicsView,
                    ProgramError,
                >(v@),
                Err(e) => Self::owner_claim_topics(views(accounts@), program_id@) == Err::<
                    ClaimTopicsView,
                    ProgramError,
                >(e),
            },
            r matches Ok(v) ==> accounts@.len() >= 2 && ClaimTopicsView::unpacking(
                views(accounts@)[1].data,
            ) == Ok::<ClaimTopicsView, ProgramError>(v@),
    {
        if accounts.len() < 2 {
            return Err(ProgramError::NotEnoughAccountKeys);
        }
        if !owned(accounts, 1, program_id) {
            return Err(ProgramError::from(TokenError::IncorrectProgramId));
        }
        if !signed(accounts, 0) {
            return Err(ProgramError::MissingRequiredSignature);
        }
        let record = match load_claim_topics(accounts, 1) {
            Ok(v) => v,
            Err(e) => {
                return Err(e);
            },
        };
        let signer = key_of(accounts, 0);
        if !same_key(&record.owner, &signer) {
            return Err(ProgramError::from(TokenError::Unauthorized));
        }
        Ok(record)
    }

    /// What adding a claim topic does to the accounts `[owner, claim
    /// topics]`: once the owner's authority is settled, the record holds the
    /// former topics and `topic`. Where it held `topic` already, nothing
    /// changes; where the record has no room left in its slot, the operation
    /// fails with `InvalidClaimTopic`.
    pub open spec fn add_claim_topic_outcome(
        a: Seq<AccountView>,
        topic: u64,
        program_id: Seq<u8>,
    ) -> Result<Seq<AccountView>, ProgramError> {
        match Self::owner_claim_topics(a, program_id) {
            Err(e) => Err(e),
            Ok(record) => if record.topics.contains(topic) {
                Ok(a)
            } else if (ClaimTopicsView { topics: record.topics.push(topic), ..record }).encoded_len()
                > ClaimTopics::LEN {
                fail(TokenError::InvalidClaimTopic)
            } else {
                Ok(
                    stored(
                        a,
                        1,
                        (ClaimTopicsView { topics: record.topics.push(topic), ..record }).encoding(),
                    ),
                )
            },
        }
    }

    /// What removing a claim topic does to the accounts `[owner, claim
    /// topics]`: once the owner's authority is settled, the record holds the
    /// former topics without `topic`. Where it did not hold `topic`, the
    /// operation fails with `InvalidClaimTopic`.
    pub open spec fn remove_claim_topic_outcome(
        a: Seq<AccountView>,
        topic: u64,
        program_id: Seq<u8>,
    ) -> Result<Seq<AccountView>, ProgramError> {
        match Self::owner_claim_topics(a, program_id) {
            Err(e) => Err(e),
            Ok(record) => if !record.topics.contains(topic) {
                fail(TokenError::InvalidClaimTopic)
            } else {
                Ok(
                    stored(
                        a,
                        1,
                        (ClaimTopicsView { topics: without(record.topics, topic), ..record }).encoding(),
                    ),
                )
            },
        }
    }

    /// Processes the adding of a required claim topic.
    ///
    /// Accounts: the record's owner, who signs; the claim topics account.
    pub fn process_add_claim_topic(
        accounts: &mut Vec<AccountInfo>,
        topic: u64,
        program_id: &Pubkey,
    ) -> (r: Result<(), ProgramError>)
        ensures
            match Self::add_claim_topic_outcome(views(old(accounts)@), topic, program_id@) {
                Ok(after) => r is Ok && views(final(accounts)@) == after,
                Err(e) => r == Err::<(), ProgramError>(e) && views(final(accounts)@) == views(
                    old(accounts)@,
                ),
            },
            same_shape(views(old(accounts)@), views(final(accounts)@)),
    {
        let record = match Self::load_owner_claim_topics(accounts, program_id) {
            Ok(v) => v,
            Err(e) => {
                return Err(e);
            },
        };
        if holds_u64(&record.topics, topic) {
            return Ok(());
        }
        proof {
            ClaimTopicsView::lemma_decoded_fits(views(accounts@)[1].data);
        }
        let mut topics = record.topics;
        topics.push(topic);
        let record = ClaimTopics { is_initialized: record.is_initialized, owner: record.owner, topics };
        let bytes = record.encode();
        if bytes.len() > ClaimTopics::LEN {
            return Err(ProgramError::from(TokenError::InvalidClaimTopic));
        }
        save(accounts, 1, &bytes);
        Ok(())
    }

    /// Processes the removing of a required claim topic.
    ///
    /// Accounts: the record's owner, who signs; the claim topics account.
    pub fn process_remove_claim_topic(
        accounts: &mut Vec<AccountInfo>,
        topic: u64,
        program_id: &Pubkey,
    ) -> (r: Result<(), ProgramError>)
        ensures
            match Self::remove_claim_topic_outcome(views(old(accounts)@), topic, program_id@) {
                Ok(after) => r is Ok && views(final(accounts)@) == after,
                Err(e) => r == Err::<(), ProgramError>(e) && views(final(accounts)@) == views(
                    old(accounts)@,
                ),
            },
            same_shape(views(old(accounts)@), views(final(accounts)@)),
    {
        let record = match Self::load_owner_claim_topics(accounts, program_id) {
            Ok(v) => v,
            Err(e) => {
                return Err(e);
            },
        };
        if !holds_u64(&record.topics, topic) {
            return Err(ProgramError::from(TokenError::InvalidClaimTopic));
        }
        proof {
            ClaimTopicsView::lemma_decoded_fits(views(accounts@)[1].data);
            crate::codec::lemma_without(record@.topics, topic);
        }
        let topics = without_u64(&record.topics, topic);
        let record = ClaimTopics { is_initialized: record.is_initialized, owner: record.owner, topics };
        let bytes = record.encode();
        save(accounts, 1, &bytes);
        Ok(())
    }

    /// Whether the caller may change the trusted issuers, over the accounts
    /// `[owner, trusted issuers registry, issuer]`.
    ///
    /// In this order: three accounts are there; the program owns the
    /// registry and the issuer's account; the owner signed; the registry
    /// loads; the signer owns it, else `Unauthorized`.
    pub open spec fn owner_issuers(a: Seq<AccountView>, program_id: Seq<u8>) -> Result<
        TrustedIssuersView,
        ProgramError,
    > {
        if a.len() < 3 {
            Err(ProgramError::NotEnoughAccountKeys)
        } else if a[1].owner != program_id || a[2].owner != program_id {
            fail(TokenError::IncorrectProgramId)
        } else if !a[0].is_signer {
            Err(ProgramError::MissingRequiredSignature)
        } else {
            match TrustedIssuersView::unpacking(a[1].data) {
                Err(e) => Err(e),
                Ok(registry) => if registry.owner != a[0].key {
                    fail(TokenError::Unauthorized)
                } else {
                    Ok(registry)
                },
            }
        }
    }

    /// Settles the authority over the trusted issuers registry.
    fn check_owner_issuers(accounts: &Vec<AccountInfo>, program_id: &Pubkey) -> (r: Result<
        (),
        ProgramError,
    >)
        ensures
            match r {
                Ok(_) => Self::owner_issuers(views(accounts@), program_id@) is Ok,
                Err(e) => Self::owner_issuers(views(accounts@), program_id@) == Err::<
                    TrustedIssuersView,
                    ProgramError,
                >(e),
            },
            r is Ok ==> accounts@.len() >= 3,
    {
        if accounts.len() < 3 {
            return Err(ProgramError::NotEnoughAccountKeys);
        }
        if !owned(accounts, 1, program_id) || !owned(accounts, 2, program_id) {
            return Err(ProgramError::from(TokenError::IncorrectProgramId));
        }
        if !signed(accounts, 0) {
            return Err(ProgramError::MissingRequiredSignature);
        }
        let registry = match load_issuers(accounts, 1) {
            Ok(v) => v,
            Err(e) => {
                return Err(e);
            },
        };
        let signer = key_of(accounts, 0);
        if !same_key(&registry.owner, &signer) {
            return Err(ProgramError::from(TokenError::Unauthorized));
        }
        Ok(())
    }

    /// The issuer record of a removal or an update, over the accounts
    /// `[owner, trusted issuers registry, issuer]`: once the owner's
    /// authority is settled, the issuer's account stores an initialized
    /// issuer record, and the record is held by the registry that is handed
    /// in, else `InvalidIssuer`.
    pub open spec fn held_issuer(a: Seq<AccountView>, program_id: Seq<u8>) -> Result<
        TrustedIssuerView,
        ProgramError,
    > {
        match Self::owner_issuers(a, program_id) {
            Err(e) => Err(e),
            Ok(_) => match TrustedIssuerView::unpacking(a[2].data) {
                Err(e) => Err(e),
                Ok(issuer) => if issuer.registry != a[1].key {
                    fail(TokenError::InvalidIssuer)
                } else {
                    Ok(issuer)
                },
            },
        }
    }

    /// Settles the authority over the trusted issuers registry and loads
    /// the issuer record.
    fn load_held_issuer(accounts: &Vec<AccountInfo>, program_id: &Pubkey) -> (r: Result<
        TrustedIssuer,
        ProgramError,
    >)
        ensures
            match r {
                Ok(v) => Self::held_issuer(views(accounts@), program_id@) == Ok::<
                    TrustedIssuerView,
                    ProgramError,
                >(v@),
                Err(e) => Self::held_issuer(views(accounts@), program_id@) == Err::<
                    TrustedIssuerView,
                    ProgramError,
                >(e),
            },
            r matches Ok(v) ==> accounts@.len() >= 3 && TrustedIssuerView::unpacking(
                views(accounts@)[2].data,
            ) == Ok::<TrustedIssuerView, ProgramError>(v@),
    {
        match Self::check_owner_issuers(accounts, program_id) {
            Ok(_) => {},
            Err(e) => {
                return Err(e);
            },
        }
        let issuer = match load_issuer(accounts, 2) {
            Ok(v) => v,
            Err(e) => {
                return Err(e);
            },
        };
        let registry = key_of(accounts, 1);
        if !same_key(&issuer.registry, &registry) {
            return Err(ProgramError::from(TokenError::InvalidIssuer));
        }
        Ok(issuer)
    }

    /// The longest list of claim topics that an issuer record can hold in
    /// its slot.
    pub open spec fn issuer_topics_fit(claim_topics: Seq<u64>) -> bool {
        37 + 8 * claim_topics.len() <= TrustedIssuer::LEN
    }

    /// What adding a trusted issuer does to the accounts `[owner, trusted
    /// issuers registry, issuer]`: once the owner's authority is settled,
    /// the issuer's account stores an issuer record that the registry holds,
    /// with `claim_topics` as the issuer's topics.
    ///
    /// The issuer's account must have the length of an issuer record, else
    /// `InvalidAccountData`; it must not store an initialized issuer record
    /// yet, else `InvalidIssuer`; the topics must fit in the record, else
    /// `InvalidClaimTopic`.
    pub open spec fn add_trusted_issuer_outcome(
        a: Seq<AccountView>,
        claim_topics: Seq<u64>,
        program_id: Seq<u8>,
    ) -> Result<Seq<AccountView>, ProgramError> {
        match Self::owner_issuers(a, program_id) {
            Err(e) => Err(e),
            Ok(_) => if a[2].data.len() != TrustedIssuer::LEN {
                Err(ProgramError::InvalidAccountData)
            } else if TrustedIssuerView::decoding(a[2].data) matches Some(present)
                && present.is_initialized {
                fail(TokenError::InvalidIssuer)
            } else if !Self::issuer_topics_fit(claim_topics) {
                fail(TokenError::InvalidClaimTopic)
            } else {
                Ok(
                    stored(
                        a,
                        2,
                        (TrustedIssuerView {
                            is_initialized: true,
                            registry: a[1].key,
                            topics: claim_topics,
                        }).encoding(),
                    ),
                )
            },
        }
    }

    /// What removing a trusted issuer does to the accounts `[owner, trusted
    /// issuers registry, issuer]`: the issuer record that the registry held
    /// is no longer initialized, so the issuer is no longer held.
    pub open spec fn remove_trusted_issuer_outcome(
        a: Seq<AccountView>,
        program_id: Seq<u8>,
    ) -> Result<Seq<AccountView>, ProgramError> {
        match Self::held_issuer(a, program_id) {
            Err(e) => Err(e),
            Ok(issuer) => Ok(
                stored(a, 2, (TrustedIssuerView { is_initialized: false, ..issuer }).encoding()),
            ),
        }
    }

    /// What updating an issuer's claim topics does to the accounts `[owner,
    /// trusted issuers registry, issuer]`: the issuer record that the
    /// registry holds has `claim_topics` as its topics. The topics must fit
    /// in the record, else `InvalidClaimTopic`.
    pub open spec fn update_issuer_claim_topics_outcome(
        a: Seq<AccountView>,
        claim_topics: Seq<u64>,
        program_id: Seq<u8>,
    ) -> Result<Seq<AccountView>, ProgramError> {
        match Self::held_issuer(a, program_id) {
            Err(e) => Err(e),
            Ok(issuer) => if !Self::issuer_topics_fit(claim_topics) {
                fail(TokenError::InvalidClaimTopic)
            } else {
                Ok(stored(a, 2, (TrustedIssuerView { topics: claim_topics, ..issuer }).encoding()))
            },
        }
    }

    /// Processes the adding of a trusted issuer.
    ///
    /// Accounts: the registry's owner, who signs; the trusted issuers
    /// registry; the issuer's account.
    pub fn process_add_trusted_issuer(
        accounts: &mut Vec<AccountInfo>,
        claim_topics: Vec<u64>,
        program_id: &Pubkey,
    ) -> (r: Result<(), ProgramError>)
        ensures
            match Self::add_trusted_issuer_outcome(views(old(accounts)@), claim_topics@, program_id@) {
                Ok(after) => r is Ok && views(final(accounts)@) == after,
                Err(e) => r == Err::<(), ProgramError>(e) && views(final(accounts)@) == views(
                    old(accounts)@,
                ),
            },
            same_shape(views(old(accounts)@), views(final(accounts)@)),
    {
        match Self::check_owner_issuers(accounts, program_id) {
            Ok(_) => {},
            Err(e) => {
                return Err(e);
            },
        }
        match TrustedIssuer::unpack_unchecked(accounts[2].data.as_slice()) {
            Ok(present) => {
                if present.is_initialized() {
                    return Err(ProgramError::from(TokenError::InvalidIssuer));
                }
            },
            Err(e) => {
                if accounts[2].data_len() != TrustedIssuer::LEN {
                    return Err(e);
                }
            },
        }
        if claim_topics.len() > (TrustedIssuer::LEN - 37) / 8 {
            return Err(ProgramError::from(TokenError::InvalidClaimTopic));
        }
        let record = TrustedIssuer {
            is_initialized: true,
            registry: key_of(accounts, 1),
            topics: claim_topics,
        };
        let bytes = record.encode();
        save(accounts, 2, &bytes);
        Ok(())
    }

    /// Processes the removing of a trusted issuer.
    ///
    /// Accounts: the registry's owner, who signs; the trusted issuers
    /// registry; the issuer's account.
    pub fn process_remove_trusted_issuer(
        accounts: &mut Vec<AccountInfo>,
        program_id: &Pubkey,
    ) -> (r: Result<(), ProgramError>)
        ensures
            match Self::remove_trusted_issuer_outcome(views(old(accounts)@), program_id@) {
                Ok(after) => r is Ok && views(final(accounts)@) == after,
                Err(e) => r == Err::<(), ProgramError>(e) && views(final(accounts)@) == views(
                    old(accounts)@,
                ),
            },
            same_shape(views(old(accounts)@), views(final(accounts)@)),
    {
        let issuer = match Self::load_held_issuer(accounts, program_id) {
            Ok(v) => v,
            Err(e) => {
                return Err(e);
            },
        };
        proof {
            TrustedIssuerView::lemma_decoded_fits(views(accounts@)[2].data);
        }
        let record = TrustedIssuer {
            is_initialized: false,
            registry: issuer.registry,
            topics: issuer.topics,
        };
        let bytes = record.encode();
        save(accounts, 2, &bytes);
        Ok(())
    }

    /// Processes the update of a trusted issuer's claim topics.
    ///
    /// Accounts: the registry's owner, who signs; the trusted issuers
    /// registry; the issuer's account.
    pub fn process_update_issuer_claim_topics(
        accounts: &mut Vec<AccountInfo>,
        claim_topics: Vec<u64>,
        program_id: &Pubkey,
    ) -> (r: Result<(), ProgramError>)
        ensures
            match Self::update_issuer_claim_topics_outcome(
                views(old(accounts)@),
                claim_topics@,
                program_id@,
            ) {
                Ok(after) => r is Ok && views(final(accounts)@) == after,
                Err(e) => r == Err::<(), ProgramError>(e) && views(final(accounts)@) == views(
                    old(accounts)@,
                ),
            },
            same_shape(views(old(accounts)@), views(final(accounts)@)),
    {
        let issuer = match Self::load_held_issuer(accounts, program_id) {
            Ok(v) => v,
            Err(e) => {
                return Err(e);
            },
        };
        if claim_topics.len() > (TrustedIssuer::LEN - 37) / 8 {
            return Err(ProgramError::from(TokenError::InvalidClaimTopic));
        }
        let record = TrustedIssuer {
            is_initialized: issuer.is_initialized,
            registry: issuer.registry,
            topics: claim_topics,
        };
        let bytes = record.encode();
        save(accounts, 2, &bytes);
        Ok(())
    }

    /// The compliance record of an operation that only its owner may order,
    /// over the accounts `[owner, compliance, rule]`.
    ///
    /// In this order: three accounts are there; the program owns the
    /// compliance account; the owner signed; the record loads; the signer
    /// owns it, else `Unauthorized`.
    pub open spec fn owner_compliance(a: Seq<AccountView>, program_id: Seq<u8>) -> Result<
        ComplianceView,
        ProgramError,
    > {
        if a.len() < 3 {
            Err(ProgramError::NotEnoughAccountKeys)
        } else if a[1].owner != program_id {
            fail(TokenError::IncorrectProgramId)
        } else if !a[0].is_signer {
            Err(ProgramError::MissingRequiredSignature)
        } else {
            match ComplianceView::unpacking(a[1].data) {
                Err(e) => Err(e),
                Ok(record) => if record.owner != a[0].key {
                    fail(TokenError::Unauthorized)
                } else {
                    Ok(record)
                },
            }
        }
    }

    /// Settles the authority over the compliance record and loads it.
    fn load_owner_compliance(accounts: &Vec<AccountInfo>, program_id: &Pubkey) -> (r: Result<
        Compliance,
        ProgramError,
    >)
        ensures
            match r {
                Ok(v) => Self::owner_compliance(views(accounts@), program_id@) == Ok::<
                    ComplianceView,
                    ProgramError,
                >(v@),
                Err(e) => Self::owner_compliance(views(accounts@), program_id@) == Err::<
                    ComplianceView,
                    ProgramError,
                >(e),
            },
            r matches Ok(v) ==> accounts@.len() >= 3 && ComplianceView::unpacking(
                views(accounts@)[1].data,
            ) == Ok::<ComplianceView, ProgramError>(v@),
    {
        if accounts.len() < 3 {
            return Err(ProgramError::NotEnoughAccountKeys);
        }
        if !owned(accounts, 1, program_id) {
            return Err(ProgramError::from(TokenError::IncorrectProgramId));
        }
        if !signed(accounts, 0) {
            return Err(ProgramError::MissingRequiredSignature);
        }
        let record = match load_compliance(accounts, 1) {
            Ok(v) => v,
            Err(e) => {
                return Err(e);
            },
        };
        let signer = key_of(accounts, 0);
        if !same_key(&record.owner, &signer) {
            return Err(ProgramError::from(TokenError::Unauthorized));
        }
        Ok(record)
    }

    /// What adding a compliance rule does to the accounts `[owner,
    /// compliance, rule]`: once the owner's authority is settled, the rule
    /// set holds the former rules and the rule that the third account names.
    /// Where it held that rule already, nothing changes; where the record
    /// has no room left in its slot, the operation fails with
    /// `InvalidAccountData`.
    pub open spec fn add_compliance_rule_outcome(
        a: Seq<AccountView>,
        program_id: Seq<u8>,
    ) -> Result<Seq<AccountView>, ProgramError> {
        match Self::owner_compliance(a, program_id) {
            Err(e) => Err(e),
            Ok(record) => if record.rules.contains(a[2].key) {
                Ok(a)
            } else if (ComplianceView { rules: record.rules.push(a[2].key), ..record }).encoded_len()
                > Compliance::LEN {
                Err(ProgramError::InvalidAccountData)
            } else {
                Ok(
                    stored(
                        a,
                        1,
                        (ComplianceView { rules: record.rules.push(a[2].key), ..record }).encoding(),
                    ),
                )
            },
        }
    }

    /// What removing a compliance rule does to the accounts `[owner,
    /// compliance, rule]`: once the owner's authority is settled, the rule
    /// set holds the former rules without the rule that the third account
    /// names. Where it did not hold that rule, the operation fails with
    /// `InvalidArgument`.
    pub open spec fn remove_compliance_rule_outcome(
        a: Seq<AccountView>,
        program_id: Seq<u8>,
    ) -> Result<Seq<AccountView>, ProgramError> {
        match Self::owner_compliance(a, program_id) {
            Err(e) => Err(e),
            Ok(record) => if !record.rules.contains(a[2].key) {
                Err(ProgramError::InvalidArgument)
            } else {
                Ok(
                    stored(
                        a,
                        1,
                        (ComplianceView { rules: without(record.rules, a[2].key), ..record }).encoding(),
                    ),
                )
            },
        }
    }

    /// Processes the adding of a compliance rule.
    ///
    /// Accounts: the compliance owner, who signs; the compliance account;
    /// the rule.
    pub fn process_add_compliance_rule(
        accounts: &mut Vec<AccountInfo>,
        program_id: &Pubkey,
    ) -> (r: Result<(), ProgramError>)
        ensures
            match Self::add_compliance_rule_outcome(views(old(accounts)@), program_id@) {
                Ok(after) => r is Ok && views(final(accounts)@) == after,
                Err(e) => r == Err::<(), ProgramError>(e) && views(final(accounts)@) == views(
                    old(accounts)@,
                ),
            },
            same_shape(views(old(accounts)@), views(final(accounts)@)),
    {
        let record = match Self::load_owner_compliance(accounts, program_id) {
            Ok(v) => v,
            Err(e) => {
                return Err(e);
            },
        };
        let rule = key_of(accounts, 2);
        if holds_key(&record.rules, &rule) {
            return Ok(());
        }
        proof {
            ComplianceView::lemma_decoded_fits(views(accounts@)[1].data);
        }
        let ghost before = record@;
        let mut rules = record.rules;
        rules.push(rule);
        proof {
            assert(keys_view(rules@) =~= before.rules.push(rule@));
        }
        let record = Compliance { is_initialized: record.is_initialized, owner: record.owner, rules };
        let bytes = record.encode();
        if bytes.len() > Compliance::LEN {
            return Err(ProgramError::InvalidAccountData);
        }
        save(accounts, 1, &bytes);
        Ok(())
    }

    /// Processes the removing of a compliance rule.
    ///
    /// Accounts: the compliance owner, who signs; the compliance account;
    /// the rule.
    pub fn process_remove_compliance_rule(
        accounts: &mut Vec<AccountInfo>,
        program_id: &Pubkey,
    ) -> (r: Result<(), ProgramError>)
        ensures
            match Self::remove_compliance_rule_outcome(views(old(accounts)@), program_id@) {
                Ok(after) => r is Ok && views(final(accounts)@) == after,
                Err(e) => r == Err::<(), ProgramError>(e) && views(final(accounts)@) == views(
                    old(accounts)@,
                ),
            },
            same_shape(views(old(accounts)@), views(final(accounts)@)),
    {
        let record = match Self::load_owner_compliance(accounts, program_id) {
            Ok(v) => v,
            Err(e) => {
                return Err(e);
            },
        };
        let rule = key_of(accounts, 2);
        if !holds_key(&record.rules, &rule) {
            return Err(ProgramError::InvalidArgument);
        }
        proof {
            ComplianceView::lemma_decoded_fits(views(accounts@)[1].data);
            crate::codec::lemma_without(record@.rules, rule@);
        }
        let rules = without_key(&record.rules, &rule);
        let record = Compliance { is_initialized: record.is_initialized, owner: record.owner, rules };
        let bytes = record.encode();
        save(accounts, 1, &bytes);
        Ok(())
    }

    /// The token that initialization writes: no supply, not paused, no
    /// agents.
    pub open spec fn initial_token(
        a: Seq<AccountView>,
        name: Seq<char>,
        symbol: Seq<char>,
        decimals: u8,
    ) -> TokenView {
        TokenView {
            is_initialized: true,
            owner: a[2].key,
            name,
            symbol,
            decimals,
            supply: 0,
            is_paused: false,
            identity_registry: a[3].key,
            compliance: a[4].key,
            agents: Seq::<Seq<u8>>::empty(),
        }
    }

    /// Whether a token with this name and symbol, and no agents, fits in a
    /// token's slot.
    pub open spec fn token_fits(name: Seq<char>, symbol: Seq<char>) -> bool {
        119 + vstd::utf8::encode_utf8(name).len() + vstd::utf8::encode_utf8(symbol).len()
            <= Token::LEN
    }

    /// What initializing a token does to the accounts `[token, rent record,
    /// owner, identity registry, compliance]`, where the rent record has
    /// said `exempt` of the token account.
    ///
    /// In this order: five accounts are there; the program owns the token
    /// account; the owner signed; the rent record could be asked, else
    /// `InvalidArgument`; the token account is exempt from rent, else
    /// `NotRentExempt`; the token account has the length of a token record
    /// and stores no initialized token yet, else `InvalidAccountData`: a
    /// token is created once. Then the account stores a token with no
    /// supply, not paused, without agents, owned by the third account and
    /// bound to the fourth and fifth.
    pub open spec fn initialize_token_outcome(
        a: Seq<AccountView>,
        name: Seq<char>,
        symbol: Seq<char>,
        decimals: u8,
        program_id: Seq<u8>,
        exempt: Option<bool>,
    ) -> Result<Seq<AccountView>, ProgramError> {
        if a.len() < 5 {
            Err(ProgramError::NotEnoughAccountKeys)
        } else if a[0].owner != program_id {
            fail(TokenError::IncorrectProgramId)
        } else if !a[2].is_signer {
            Err(ProgramError::MissingRequiredSignature)
        } else if exempt is None {
            Err(ProgramError::InvalidArgument)
        } else if exempt == Some(false) {
            fail(TokenError::NotRentExempt)
        } else if a[0].data.len() != Token::LEN {
            Err(ProgramError::InvalidAccountData)
        } else if TokenView::decoding(a[0].data) matches Some(present) && present.is_initialized {
            Err(ProgramError::InvalidAccountData)
        } else {
            Ok(stored(a, 0, Self::initial_token(a, name, symbol, decimals).encoding()))
        }
    }

    /// Initializes a token, given what the rent record has said of the token
    /// account. The token's record must fit in a token's slot.
    pub fn initialize_token_with_rent(
        accounts: &mut Vec<AccountInfo>,
        name: String,
        symbol: String,
        decimals: u8,
        program_id: &Pubkey,
        exempt: Option<bool>,
    ) -> (r: Result<(), ProgramError>)
        requires
            Self::token_fits(name@, symbol@),
        ensures
            match Self::initialize_token_outcome(
                views(old(accounts)@),
                name@,
                symbol@,
                decimals,
                program_id@,
                exempt,
            ) {
                Ok(after) => r is Ok && views(final(accounts)@) == after,
                Err(e) => r == Err::<(), ProgramError>(e) && views(final(accounts)@) == views(
                    old(accounts)@,
                ),
            },
            same_shape(views(old(accounts)@), views(final(accounts)@)),
    {
        if accounts.len() < 5 {
            return Err(ProgramError::NotEnoughAccountKeys);
        }
        if !owned(accounts, 0, program_id) {
            return Err(ProgramError::from(TokenError::IncorrectProgramId));
        }
        if !signed(accounts, 2) {
            return Err(ProgramError::MissingRequiredSignature);
        }
        match exempt {
            None => {
                return Err(ProgramError::InvalidArgument);
            },
            Some(false) => {
                return Err(ProgramError::from(TokenError::NotRentExempt));
            },
            Some(true) => {},
        }
        match Token::unpack_unchecked(accounts[0].data.as_slice()) {
            Ok(present) => {
                if present.is_initialized() {
                    return Err(ProgramError::InvalidAccountData);
                }
            },
            Err(e) => {
                if accounts[0].data_len() != Token::LEN {
                    return Err(e);
                }
            },
        }
        let token = Token {
            is_initialized: true,
            owner: key_of(accounts, 2),
            name,
            symbol,
            decimals,
            supply: 0,
            is_paused: false,
            identity_registry: key_of(accounts, 3),
            compliance: key_of(accounts, 4),
            agents: Vec::new(),
        };
        proof {
            assert(keys_view(token.agents@) =~= Seq::<Seq<u8>>::empty());
        }
        let bytes = token.encode();
        save(accounts, 0, &bytes);
        Ok(())
    }

    /// What the rent record in the second account says of the token account
    /// in the first; nothing where there are fewer than two accounts.
    pub open spec fn token_rent(a: Seq<AccountView>) -> Option<bool> {
        if a.len() < 2 {
            None
        } else {
            exemption(a[1].key, a[1].data, a[0].lamports, a[0].data.len() as usize)
        }
    }

    /// Processes the initialization of a token. The token's record must fit
    /// in a token's slot.
    ///
    /// Accounts: the token account; the rent record; the owner, who signs;
    /// the identity registry; the compliance policy.
    pub fn process_initialize_token(
        accounts: &mut Vec<AccountInfo>,
        name: String,
        symbol: String,
        decimals: u8,
        program_id: &Pubkey,
    ) -> (r: Result<(), ProgramError>)
        requires
            Self::token_fits(name@, symbol@),
        ensures
            match Self::initialize_token_outcome(
                views(old(accounts)@),
                name@,
                symbol@,
                decimals,
                program_id@,
                Self::token_rent(views(old(accounts)@)),
            ) {
                Ok(after) => r is Ok && views(final(accounts)@) == after,
                Err(e) => r == Err::<(), ProgramError>(e) && views(final(accounts)@) == views(
                    old(accounts)@,
                ),
            },
            same_shape(views(old(accounts)@), views(final(accounts)@)),
    {
        if accounts.len() < 5 {
            return Err(ProgramError::NotEnoughAccountKeys);
        }
        let exempt = check_rent(
            &accounts[1].key,
            &accounts[1].data,
            accounts[0].lamports(),
            accounts[0].data_len(),
        );
        Self::initialize_token_with_rent(accounts, name, symbol, decimals, program_id, exempt)
    }

    /// What an instruction does to the accounts: what the operation that it
    /// names does, with the instruction's fields as its arguments. An
    /// initialization whose name and symbol do not fit in a token's slot is
    /// not a valid instruction.
    pub open spec fn instruction_outcome_with<I: IdentityPolicy, C: CompliancePolicy>(
        program_id: Seq<u8>,
        a: Seq<AccountView>,
        ix: TokenInstructionView,
    ) -> Result<Seq<AccountView>, ProgramError> {
        match ix {
            TokenInstructionView::InitializeToken { name, symbol, decimals } => {
                if !Self::token_fits(name, symbol) {
                    fail(TokenError::InvalidInstruction)
                } else {
                    Self::initialize_token_outcome(
                        a,
                        name,
                        symbol,
                        decimals,
                        program_id,
                        Self::token_rent(a),
                    )
                }
            },
            TokenInstructionView::Transfer { amount } => {
                Self::transfer_outcome_with::<I, C>(a, amount, program_id)
            },
            TokenInstructionView::ForcedTransfer { amount } => {
                Self::forced_transfer_outcome_with::<I, C>(a, amount, program_id)
            },
            TokenInstructionView::Mint { amount } => {
                Self::mint_outcome_with::<I>(a, amount, program_id)
            },
            TokenInstructionView::Burn { amount } => {
                Self::burn_outcome(a, amount, program_id)
            },
            TokenInstructionView::Recover { amount } => {
                Self::recover_outcome(a, amount, program_id)
            },
            TokenInstructionView::FreezeAddress => {
                Self::freeze_outcome(a, program_id)
            },
            TokenInstructionView::UnfreezeAddress => {
                Self::unfreeze_outcome(a, program_id)
            },
            TokenInstructionView::SetCompliance => {
                Self::set_compliance_outcome(a, program_id)
            },
            TokenInstructionView::SetIdentityRegistry => {
                Self::set_identity_registry_outcome(a, program_id)
            },
            TokenInstructionView::AddAgent => {
                Self::add_agent_outcome(a, program_id)
            },
            TokenInstructionView::RemoveAgent => {
                Self::remove_agent_outcome(a, program_id)
            },
            TokenInstructionView::Pause => {
                Self::pause_outcome(a, program_id)
            },
            TokenInstructionView::Unpause => {
                Self::unpause_outcome(a, program_id)
            },
            TokenInstructionView::RegisterIdentity { identity, country } => {
                Self::register_identity_outcome(a, identity, country, program_id)
            },
            TokenInstructionView::UpdateIdentity { identity } => {
                Self::update_identity_outcome(a, identity, program_id)
            },
            TokenInstructionView::UpdateCountry { country } => {
                Self::update_country_outcome(a, country, program_id)
            },
            TokenInstructionView::DeleteIdentity => {
                Self::delete_identity_outcome(a, program_id)
            },
            TokenInstructionView::AddClaimTopic { topic } => {
                Self::add_claim_topic_outcome(a, topic, program_id)
            },
            TokenInstructionView::RemoveClaimTopic { topic } => {
                Self::remove_claim_topic_outcome(a, topic, program_id)
            },
            TokenInstructionView::AddTrustedIssuer { claim_topics } => {
                Self::add_trusted_issuer_outcome(a, claim_topics, program_id)
            },
            TokenInstructionView::RemoveTrustedIssuer => {
                Self::remove_trusted_issuer_outcome(a, program_id)
            },
            TokenInstructionView::UpdateIssuerClaimTopics { claim_topics } => {
                Self::update_issuer_claim_topics_outcome(a, claim_topics, program_id)
            },
            TokenInstructionView::AddComplianceRule => {
                Self::add_compliance_rule_outcome(a, program_id)
            },
            TokenInstructionView::RemoveComplianceRule => {
                Self::remove_compliance_rule_outcome(a, program_id)
            },
        }
    }

    /// What an instruction does under the built-in policies.
    pub open spec fn instruction_outcome(
        program_id: Seq<u8>,
        a: Seq<AccountView>,
        ix: TokenInstructionView,
    ) -> Result<Seq<AccountView>, ProgramError> {
        Self::instruction_outcome_with::<IdentityRegistry, Compliance>(program_id, a, ix)
    }

    /// What a payload does to the accounts: where it spells an instruction,
    /// what that instruction does; else it fails with `InvalidInstruction`.
    pub open spec fn process_outcome_with<I: IdentityPolicy, C: CompliancePolicy>(
        program_id: Seq<u8>,
        a: Seq<AccountView>,
        input: Seq<u8>,
    ) -> Result<Seq<AccountView>, ProgramError> {
        match TokenInstructionView::decoding(input) {
            None => fail(TokenError::InvalidInstruction),
            Some(ix) => Self::instruction_outcome_with::<I, C>(program_id, a, ix),
        }
    }

    /// What a payload does under the built-in policies.
    pub open spec fn process_outcome(
        program_id: Seq<u8>,
        a: Seq<AccountView>,
        input: Seq<u8>,
    ) -> Result<Seq<AccountView>, ProgramError> {
        Self::process_outcome_with::<IdentityRegistry, Compliance>(program_id, a, input)
    }

    /// Processes an instruction under the identity policy `I` and the
    /// compliance policy `C`: reads it from the payload `input` and hands it
    /// to the operation that it names. A payload that spells no instruction
    /// is rejected before any account is looked at.
    pub fn process_with<I: IdentityPolicy, C: CompliancePolicy>(
        program_id: &Pubkey,
        accounts: &mut Vec<AccountInfo>,
        input: &[u8],
    ) -> (r: Result<(), ProgramError>)
        ensures
            match Self::process_outcome_with::<I, C>(program_id@, views(old(accounts)@), input@) {
                Ok(after) => r is Ok && views(final(accounts)@) == after,
                Err(e) => r == Err::<(), ProgramError>(e) && views(final(accounts)@) == views(
                    old(accounts)@,
                ),
            },
            same_shape(views(old(accounts)@), views(final(accounts)@)),
    {
        let instruction = match TokenInstruction::try_from_slice(input) {
            Ok(v) => v,
            Err(e) => {
                return Err(e);
            },
        };
        Self::dispatch_with::<I, C>(program_id, accounts, instruction)
    }

    /// Processes an instruction under the built-in policies: reads it from
    /// the payload `input` and hands it to the operation that it names. A
    /// payload that spells no instruction is rejected before any account is
    /// looked at.
    pub fn process(program_id: &Pubkey, accounts: &mut Vec<AccountInfo>, input: &[u8]) -> (r:
        Result<(), ProgramError>)
        ensures
            match Self::process_outcome(program_id@, views(old(accounts)@), input@) {
                Ok(after) => r is Ok && views(final(accounts)@) == after,
                Err(e) => r == Err::<(), ProgramError>(e) && views(final(accounts)@) == views(
                    old(accounts)@,
                ),
            },
            same_shape(views(old(accounts)@), views(final(accounts)@)),
    {
        Self::process_with::<IdentityRegistry, Compliance>(program_id, accounts, input)
    }

    /// Hands an instruction to the operation that it names, under the
    /// built-in policies.
    pub fn dispatch(
        program_id: &Pubkey,
        accounts: &mut Vec<AccountInfo>,
        instruction: TokenInstruction,
    ) -> (r: Result<(), ProgramError>)
        ensures
            match Self::instruction_outcome(program_id@, views(old(accounts)@), instruction@) {
                Ok(after) => r is Ok && views(final(accounts)@) == after,
                Err(e) => r == Err::<(), ProgramError>(e) && views(final(accounts)@) == views(
                    old(accounts)@,
                ),
            },
            same_shape(views(old(accounts)@), views(final(accounts)@)),
    {
        Self::dispatch_with::<IdentityRegistry, Compliance>(program_id, accounts, instruction)
    }

    /// Hands an instruction to the operation that it names, under the
    /// identity policy `I` and the compliance policy `C`.
    pub fn dispatch_with<I: IdentityPolicy, C: CompliancePolicy>(
        program_id: &Pubkey,
        accounts: &mut Vec<AccountInfo>,
        instruction: TokenInstruction,
    ) -> (r: Result<(), ProgramError>)
        ensures
            match Self::instruction_outcome_with::<I, C>(
                program_id@,
                views(old(accounts)@),
                instruction@,
            ) {
                Ok(after) => r is Ok && views(final(accounts)@) == after,
                Err(e) => r == Err::<(), ProgramError>(e) && views(final(accounts)@) == views(
                    old(accounts)@,
                ),
            },
            same_shape(views(old(accounts)@), views(final(accounts)@)),
    {
        match instruction {
            TokenInstruction::InitializeToken { name, symbol, decimals } => {
                let n = name.as_str().as_bytes().len();
                let m = symbol.as_str().as_bytes().len();
                if n > Token::LEN - 119 || m > Token::LEN - 119 - n {
                    return Err(ProgramError::from(TokenError::InvalidInstruction));
                }
                Self::process_initialize_token(accounts, name, symbol, decimals, program_id)
            },
            TokenInstruction::Transfer { amount } => {
                Self::process_transfer_with::<I, C>(accounts, amount, program_id)
            },
            TokenInstruction::ForcedTransfer { amount } => {
                Self::process_forced_transfer_with::<I, C>(accounts, amount, program_id)
            },
            TokenInstruction::Mint { amount } => {
                Self::process_mint_with::<I>(accounts, amount, program_id)
            },
            TokenInstruction::Burn { amount } => {
                Self::process_burn(accounts, amount, program_id)
            },
            TokenInstruction::Recover { amount } => {
                Self::process_recover(accounts, amount, program_id)
            },
            TokenInstruction::FreezeAddress => {
                Self::process_freeze_address(accounts, program_id)
            },
            TokenInstruction::UnfreezeAddress => {
                Self::process_unfreeze_address(accounts, program_id)
            },
            TokenInstruction::SetCompliance => {
                Self::process_set_compliance(accounts, program_id)
            },
            TokenInstruction::SetIdentityRegistry => {
                Self::process_set_identity_registry(accounts, program_id)
            },
            TokenInstruction::AddAgent => {
                Self::process_add_agent(accounts, program_id)
            },
            TokenInstruction::RemoveAgent => {
                Self::process_remove_agent(accounts, program_id)
            },
            TokenInstruction::Pause => {
                Self::process_pause(accounts, program_id)
            },
            TokenInstruction::Unpause => {
                Self::process_unpause(accounts, program_id)
            },
            TokenInstruction::RegisterIdentity { identity, country } => {
                Self::process_register_identity(accounts, identity, country, program_id)
            },
            TokenInstruction::UpdateIdentity { identity } => {
                Self::process_update_identity(accounts, identity, program_id)
            },
            TokenInstruction::UpdateCountry { country } => {
                Self::process_update_country(accounts, country, program_id)
            },
            TokenInstruction::DeleteIdentity => {
                Self::process_delete_identity(accounts, program_id)
            },
            TokenInstruction::AddClaimTopic { topic } => {
                Self::process_add_claim_topic(accounts, topic, program_id)
            },
            TokenInstruction::RemoveClaimTopic { topic } => {
                Self::process_remove_claim_topic(accounts, topic, program_id)
            },
            TokenInstruction::AddTrustedIssuer { claim_topics } => {
                Self::process_add_trusted_issuer(accounts, claim_topics, program_id)
            },
            TokenInstruction::RemoveTrustedIssuer => {
                Self::process_remove_trusted_issuer(accounts, program_id)
            },
            TokenInstruction::UpdateIssuerClaimTopics { claim_topics } => {
                Self::process_update_issuer_claim_topics(accounts, claim_topics, program_id)
            },
            TokenInstruction::AddComplianceRule => {
                Self::process_add_compliance_rule(accounts, program_id)
            },
            TokenInstruction::RemoveComplianceRule => {
                Self::process_remove_compliance_rule(accounts, program_id)
            },
        }
    }
}

} // verus!
