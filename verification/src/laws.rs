//! What holds of the processor whatever it is handed: balances are
//! conserved, authority cannot be borrowed from another role, and the checks
//! of the identity and compliance gate come in a fixed order.
//!
//! Each statement is about the outcome functions of the processor, which the
//! executable operations are proved to follow.

use crate::account::AccountView;
use crate::codec::{keys_well_formed, lemma_without, overlay, splice, without};
use crate::error::{ProgramError, TokenError};
use crate::instruction::TokenInstructionView;
use crate::ledger::{burned, minted, moved, Ledger, Operation};
use crate::policy::{CompliancePolicy, IdentityPolicy};
use crate::processor::{fail, Processor};
use crate::state::{
    find_free_slot, find_identity, holds_identity, identity_slot, identity_slots,
    lemma_found_slot_in_range, slot_holds, ClaimTopicsView, ComplianceView, IdentityRegistry,
    IdentityRegistryView, IdentityView, TokenAccountView, TokenView, TrustedIssuerView,
};
use vstd::prelude::*;

verus! {

/// The token account that account `i` stores.
pub open spec fn token_account_in(a: Seq<AccountView>, i: int) -> TokenAccountView {
    TokenAccountView::unpacking(a[i].data).unwrap()
}

/// The token that account `i` stores.
pub open spec fn token_in(a: Seq<AccountView>, i: int) -> TokenView {
    TokenView::unpacking(a[i].data).unwrap()
}

/// Two lists of accounts differ at most in what the accounts `i` and `j`
/// store.
pub open spec fn same_but_data(a: Seq<AccountView>, b: Seq<AccountView>, i: int, j: int) -> bool {
    &&& b.len() == a.len()
    &&& forall|k: int| 0 <= k < a.len() && k != i && k != j ==> b[k] == a[k]
    &&& 0 <= i < a.len() ==> b[i] == a[i].with_data(b[i].data)
    &&& 0 <= j < a.len() ==> b[j] == a[j].with_data(b[j].data)
}

/// A token account that is written over the slot from which a token account
/// was loaded is the token account that is loaded there afterwards.
pub proof fn lemma_token_account_reloads(data: Seq<u8>, next: TokenAccountView)
    requires
        TokenAccountView::unpacking(data) matches Ok(loaded) && next.token == loaded.token
            && next.owner == loaded.owner && next.is_initialized,
    ensures
        TokenAccountView::unpacking(overlay(data, next.encoding())) == Ok::<
            TokenAccountView,
            ProgramError,
        >(next),
{
    TokenAccountView::lemma_decoded_fits(data);
    next.lemma_decoding_of_stored(data);
}

/// A token that is written over the slot from which a token with the same
/// name and symbol was loaded is the token that is loaded there afterwards.
pub proof fn lemma_token_reloads(data: Seq<u8>, next: TokenView)
    requires
        TokenView::unpacking(data) matches Ok(loaded) && next.name == loaded.name && next.symbol
            == loaded.symbol && next.owner == loaded.owner && next.identity_registry
            == loaded.identity_registry && next.compliance == loaded.compliance && next.agents
            == loaded.agents && next.is_initialized,
    ensures
        TokenView::unpacking(overlay(data, next.encoding())) == Ok::<TokenView, ProgramError>(next),
{
    TokenView::lemma_decoded_fits(data);
    next.lemma_decoding_of_stored(data);
}

/// Conservation of a movement: where `amount` has moved between the token
/// accounts in accounts 1 and 2, both still load, nothing but their balances
/// has changed, and the sum of the two balances is what it was.
pub proof fn lemma_movement_conserves(
    a: Seq<AccountView>,
    amount: u64,
    after: Seq<AccountView>,
)
    requires
        a.len() > 2,
        TokenAccountView::unpacking(a[1].data) is Ok,
        TokenAccountView::unpacking(a[2].data) is Ok,
        Processor::moved_between(
            a,
            1,
            2,
            amount,
            token_account_in(a, 1),
            token_account_in(a, 2),
        ) == Ok::<Seq<AccountView>, ProgramError>(after),
    ensures
        same_but_data(a, after, 1, 2),
        TokenAccountView::unpacking(after[1].data) is Ok,
        TokenAccountView::unpacking(after[2].data) is Ok,
        token_account_in(after, 1) == (TokenAccountView {
            amount: token_account_in(after, 1).amount,
            ..token_account_in(a, 1)
        }),
        token_account_in(after, 2) == (TokenAccountView {
            amount: token_account_in(after, 2).amount,
            ..token_account_in(a, 2)
        }),
        token_account_in(after, 1).amount + token_account_in(after, 2).amount == token_account_in(
            a,
            1,
        ).amount + token_account_in(a, 2).amount,
{
    let source = token_account_in(a, 1);
    let dest = token_account_in(a, 2);
    match moved(source.amount, dest.amount, amount) {
        Ok((left, arrived)) => {
            if a[1].key == a[2].key {
                lemma_token_account_reloads(a[1].data, source);
                lemma_token_account_reloads(a[2].data, dest);
            } else {
                lemma_token_account_reloads(a[1].data, TokenAccountView { amount: left, ..source });
                lemma_token_account_reloads(
                    a[2].data,
                    TokenAccountView { amount: arrived, ..dest },
                );
            }
        },
        Err(_) => {},
    }
}

/// Conservation under a transfer: a transfer that is accepted changes
/// nothing but the balances of source and destination, and leaves their sum
/// as it was.
pub proof fn lemma_transfer_conserves<I: IdentityPolicy, C: CompliancePolicy>(
    a: Seq<AccountView>,
    amount: u64,
    program_id: Seq<u8>,
)
    requires
        Processor::transfer_outcome_with::<I, C>(a, amount, program_id) is Ok,
    ensures
        ({
            let after = Processor::transfer_outcome_with::<I, C>(a, amount, program_id).unwrap();
            &&& same_but_data(a, after, 1, 2)
            &&& token_account_in(a, 1).token == a[3].key
            &&& token_account_in(a, 2).token == a[3].key
            &&& TokenAccountView::unpacking(after[1].data) is Ok
            &&& TokenAccountView::unpacking(after[2].data) is Ok
            &&& token_account_in(after, 1).amount + token_account_in(after, 2).amount
                == token_account_in(a, 1).amount + token_account_in(a, 2).amount
        }),
{
    let after = Processor::transfer_outcome_with::<I, C>(a, amount, program_id).unwrap();
    lemma_movement_conserves(a, amount, after);
}

/// Conservation under a forced transfer: a forced transfer that is accepted
/// changes nothing but the balances of source and destination, and leaves
/// their sum as it was.
pub proof fn lemma_forced_transfer_conserves<I: IdentityPolicy, C: CompliancePolicy>(
    a: Seq<AccountView>,
    amount: u64,
    program_id: Seq<u8>,
)
    requires
        Processor::forced_transfer_outcome_with::<I, C>(a, amount, program_id) is Ok,
    ensures
        ({
            let after = Processor::forced_transfer_outcome_with::<I, C>(
                a,
                amount,
                program_id,
            ).unwrap();
            &&& same_but_data(a, after, 1, 2)
            &&& token_account_in(a, 1).token == a[3].key
            &&& token_account_in(a, 2).token == a[3].key
            &&& TokenAccountView::unpacking(after[1].data) is Ok
            &&& TokenAccountView::unpacking(after[2].data) is Ok
            &&& token_account_in(after, 1).amount + token_account_in(after, 2).amount
                == token_account_in(a, 1).amount + token_account_in(a, 2).amount
        }),
{
    let after = Processor::forced_transfer_outcome_with::<I, C>(a, amount, program_id).unwrap();
    lemma_movement_conserves(a, amount, after);
}

/// Conservation under a recovery: a recovery that is accepted changes
/// nothing but the balances of the lost account and the destination, leaves
/// their sum as it was, and does not touch the token and its supply.
pub proof fn lemma_recover_conserves(a: Seq<AccountView>, amount: u64, program_id: Seq<u8>)
    requires
        Processor::recover_outcome(a, amount, program_id) is Ok,
    ensures
        ({
            let after = Processor::recover_outcome(a, amount, program_id).unwrap();
            &&& same_but_data(a, after, 1, 2)
            &&& after[3] == a[3]
            &&& token_account_in(a, 1).token == a[3].key
            &&& token_account_in(a, 2).token == a[3].key
            &&& TokenAccountView::unpacking(after[1].data) is Ok
            &&& TokenAccountView::unpacking(after[2].data) is Ok
            &&& token_account_in(after, 1).amount + token_account_in(after, 2).amount
                == token_account_in(a, 1).amount + token_account_in(a, 2).amount
        }),
{
    let after = Processor::recover_outcome(a, amount, program_id).unwrap();
    lemma_movement_conserves(a, amount, after);
}

/// Conservation under a mint: a mint that is accepted changes nothing but
/// the supply of the token in account 2 and the balance of the token account
/// in account 1, and both grow by `amount`.
pub proof fn lemma_mint_conserves<I: IdentityPolicy>(
    a: Seq<AccountView>,
    amount: u64,
    program_id: Seq<u8>,
)
    requires
        Processor::mint_outcome_with::<I>(a, amount, program_id) is Ok,
    ensures
        ({
            let after = Processor::mint_outcome_with::<I>(a, amount, program_id).unwrap();
            &&& same_but_data(a, after, 1, 2)
            &&& token_account_in(a, 1).token == a[2].key
            &&& TokenAccountView::unpacking(after[1].data) is Ok
            &&& TokenView::unpacking(after[2].data) is Ok
            &&& token_in(after, 2) == (TokenView {
                supply: token_in(after, 2).supply,
                ..token_in(a, 2)
            })
            &&& token_account_in(after, 1) == (TokenAccountView {
                amount: token_account_in(after, 1).amount,
                ..token_account_in(a, 1)
            })
            &&& token_in(after, 2).supply == token_in(a, 2).supply + amount
            &&& token_account_in(after, 1).amount == token_account_in(a, 1).amount + amount
        }),
{
    let token = token_in(a, 2);
    let dest = token_account_in(a, 1);
    match minted(token.supply, dest.amount, amount) {
        Ok((supply, balance)) => {
            lemma_token_reloads(a[2].data, TokenView { supply, ..token });
            lemma_token_account_reloads(a[1].data, TokenAccountView { amount: balance, ..dest });
        },
        Err(_) => {},
    }
}

/// Conservation under a burn: a burn that is accepted changes nothing but
/// the supply of the token in account 2 and the balance of the token account
/// in account 1, and both shrink by `amount`.
pub proof fn lemma_burn_conserves(a: Seq<AccountView>, amount: u64, program_id: Seq<u8>)
    requires
        Processor::burn_outcome(a, amount, program_id) is Ok,
    ensures
        ({
            let after = Processor::burn_outcome(a, amount, program_id).unwrap();
            &&& same_but_data(a, after, 1, 2)
            &&& token_account_in(a, 1).token == a[2].key
            &&& TokenAccountView::unpacking(after[1].data) is Ok
            &&& TokenView::unpacking(after[2].data) is Ok
            &&& token_in(after, 2) == (TokenView {
                supply: token_in(after, 2).supply,
                ..token_in(a, 2)
            })
            &&& token_account_in(after, 1) == (TokenAccountView {
                amount: token_account_in(after, 1).amount,
                ..token_account_in(a, 1)
            })
            &&& token_in(after, 2).supply == token_in(a, 2).supply - amount
            &&& token_account_in(after, 1).amount == token_account_in(a, 1).amount - amount
        }),
{
    let token = token_in(a, 2);
    let source = token_account_in(a, 1);
    match burned(token.supply, source.amount, amount) {
        Ok((supply, balance)) => {
            lemma_token_reloads(a[2].data, TokenView { supply, ..token });
            lemma_token_account_reloads(a[1].data, TokenAccountView { amount: balance, ..source });
        },
        Err(_) => {},
    }
}

/// The engine's ledger that a list of accounts spells: the supply of the
/// token in account `token`, and the balances of the token accounts in the
/// accounts `holders`, in that order.
pub open spec fn ledger_of(a: Seq<AccountView>, token: int, holders: Seq<int>) -> Ledger {
    Ledger {
        supply: token_in(a, token).supply,
        balances: Seq::new(holders.len(), |k: int| token_account_in(a, holders[k]).amount),
    }
}

/// An accepted transfer is a transfer of the engine: on the ledger that the
/// accounts spell it is the engine's step from the source to the
/// destination, and where the two are one account, the engine's step from
/// that account to itself.
pub proof fn lemma_transfer_is_engine_step<I: IdentityPolicy, C: CompliancePolicy>(
    a: Seq<AccountView>,
    amount: u64,
    program_id: Seq<u8>,
)
    requires
        Processor::transfer_outcome_with::<I, C>(a, amount, program_id) is Ok,
    ensures
        ({
            let after = Processor::transfer_outcome_with::<I, C>(a, amount, program_id).unwrap();
            &&& after[3] == a[3]
            &&& a[1].key != a[2].key ==> ledger_of(after, 3, seq![1, 2]) == ledger_of(
                a,
                3,
                seq![1, 2],
            ).step(Operation::Transfer { from: 0, to: 1, amount })
            &&& a[1].key == a[2].key ==> ledger_of(after, 3, seq![1]) == ledger_of(
                a,
                3,
                seq![1],
            ).step(Operation::Transfer { from: 0, to: 0, amount })
        }),
{
    let after = Processor::transfer_outcome_with::<I, C>(a, amount, program_id).unwrap();
    lemma_movement_is_engine_step(a, amount, after);
}

/// An accepted forced transfer is a transfer of the engine.
pub proof fn lemma_forced_transfer_is_engine_step<I: IdentityPolicy, C: CompliancePolicy>(
    a: Seq<AccountView>,
    amount: u64,
    program_id: Seq<u8>,
)
    requires
        Processor::forced_transfer_outcome_with::<I, C>(a, amount, program_id) is Ok,
    ensures
        ({
            let after = Processor::forced_transfer_outcome_with::<I, C>(
                a,
                amount,
                program_id,
            ).unwrap();
            &&& after[3] == a[3]
            &&& a[1].key != a[2].key ==> ledger_of(after, 3, seq![1, 2]) == ledger_of(
                a,
                3,
                seq![1, 2],
            ).step(Operation::Transfer { from: 0, to: 1, amount })
            &&& a[1].key == a[2].key ==> ledger_of(after, 3, seq![1]) == ledger_of(
                a,
                3,
                seq![1],
            ).step(Operation::Transfer { from: 0, to: 0, amount })
        }),
{
    let after = Processor::forced_transfer_outcome_with::<I, C>(a, amount, program_id).unwrap();
    lemma_movement_is_engine_step(a, amount, after);
}

/// An accepted recovery is a transfer of the engine.
pub proof fn lemma_recover_is_engine_step(a: Seq<AccountView>, amount: u64, program_id: Seq<u8>)
    requires
        Processor::recover_outcome(a, amount, program_id) is Ok,
    ensures
        ({
            let after = Processor::recover_outcome(a, amount, program_id).unwrap();
            &&& after[3] == a[3]
            &&& a[1].key != a[2].key ==> ledger_of(after, 3, seq![1, 2]) == ledger_of(
                a,
                3,
                seq![1, 2],
            ).step(Operation::Transfer { from: 0, to: 1, amount })
            &&& a[1].key == a[2].key ==> ledger_of(after, 3, seq![1]) == ledger_of(
                a,
                3,
                seq![1],
            ).step(Operation::Transfer { from: 0, to: 0, amount })
        }),
{
    let after = Processor::recover_outcome(a, amount, program_id).unwrap();
    lemma_movement_is_engine_step(a, amount, after);
}

/// A movement between the token accounts in accounts 1 and 2 is a transfer
/// of the engine, on the ledger of any token that account 3 stores.
pub proof fn lemma_movement_is_engine_step(
    a: Seq<AccountView>,
    amount: u64,
    after: Seq<AccountView>,
)
    requires
        a.len() > 3,
        TokenAccountView::unpacking(a[1].data) is Ok,
        TokenAccountView::unpacking(a[2].data) is Ok,
        Processor::moved_between(
            a,
            1,
            2,
            amount,
            token_account_in(a, 1),
            token_account_in(a, 2),
        ) == Ok::<Seq<AccountView>, ProgramError>(after),
    ensures
        after[3] == a[3],
        a[1].key != a[2].key ==> ledger_of(after, 3, seq![1, 2]) == ledger_of(
            a,
            3,
            seq![1, 2],
        ).step(Operation::Transfer { from: 0, to: 1, amount }),
        a[1].key == a[2].key ==> ledger_of(after, 3, seq![1]) == ledger_of(a, 3, seq![1]).step(
            Operation::Transfer { from: 0, to: 0, amount },
        ),
{
    lemma_movement_conserves(a, amount, after);
    let source = token_account_in(a, 1);
    let dest = token_account_in(a, 2);
    match moved(source.amount, dest.amount, amount) {
        Ok((left, arrived)) => {
            if a[1].key == a[2].key {
                lemma_token_account_reloads(a[1].data, source);
                assert(ledger_of(after, 3, seq![1]).balances =~= ledger_of(a, 3, seq![1]).balances);
            } else {
                lemma_token_account_reloads(a[1].data, TokenAccountView { amount: left, ..source });
                lemma_token_account_reloads(
                    a[2].data,
                    TokenAccountView { amount: arrived, ..dest },
                );
                let before = ledger_of(a, 3, seq![1, 2]);
                assert(ledger_of(after, 3, seq![1, 2]).balances =~= before.balances.update(
                    0,
                    left,
                ).update(1, arrived));
            }
        },
        Err(_) => {},
    }
}

/// An accepted mint is a mint of the engine, on the ledger of the token in
/// account 2 and the token account in account 1.
pub proof fn lemma_mint_is_engine_step<I: IdentityPolicy>(
    a: Seq<AccountView>,
    amount: u64,
    program_id: Seq<u8>,
)
    requires
        Processor::mint_outcome_with::<I>(a, amount, program_id) is Ok,
    ensures
        ledger_of(
            Processor::mint_outcome_with::<I>(a, amount, program_id).unwrap(),
            2,
            seq![1],
        ) == ledger_of(a, 2, seq![1]).step(Operation::Mint { to: 0, amount }),
{
    let after = Processor::mint_outcome_with::<I>(a, amount, program_id).unwrap();
    lemma_mint_conserves::<I>(a, amount, program_id);
    let before = ledger_of(a, 2, seq![1]);
    assert(ledger_of(after, 2, seq![1]).balances =~= before.balances.update(
        0,
        token_account_in(after, 1).amount,
    ));
}

/// An accepted burn is a burn of the engine, on the ledger of the token in
/// account 2 and the token account in account 1.
pub proof fn lemma_burn_is_engine_step(a: Seq<AccountView>, amount: u64, program_id: Seq<u8>)
    requires
        Processor::burn_outcome(a, amount, program_id) is Ok,
    ensures
        ledger_of(Processor::burn_outcome(a, amount, program_id).unwrap(), 2, seq![1]) == ledger_of(
            a,
            2,
            seq![1],
        ).step(Operation::Burn { from: 0, amount }),
{
    let after = Processor::burn_outcome(a, amount, program_id).unwrap();
    lemma_burn_conserves(a, amount, program_id);
    let before = ledger_of(a, 2, seq![1]);
    assert(ledger_of(after, 2, seq![1]).balances =~= before.balances.update(
        0,
        token_account_in(after, 1).amount,
    ));
}

/// Pause comes first: on a paused token the answer is `TokenPaused`,
/// whatever the frozen flags are and whatever registry and policy say or
/// fail to say.
pub proof fn lemma_gate_pause_first(
    source_frozen: bool,
    dest_frozen: bool,
    verified: Result<(bool, bool), ProgramError>,
    compliant: Result<bool, ProgramError>,
)
    ensures
        Processor::transfer_gate(true, source_frozen, dest_frozen, verified, compliant) == fail::<
            (),
        >(TokenError::TokenPaused),
{
}

/// Freeze comes second: on a token that is not paused, a frozen source or
/// destination makes the answer `AddressFrozen`, whatever registry and
/// policy say or fail to say.
pub proof fn lemma_gate_freeze_second(
    source_frozen: bool,
    dest_frozen: bool,
    verified: Result<(bool, bool), ProgramError>,
    compliant: Result<bool, ProgramError>,
)
    requires
        source_frozen || dest_frozen,
    ensures
        Processor::transfer_gate(false, source_frozen, dest_frozen, verified, compliant) == fail::<
            (),
        >(TokenError::AddressFrozen),
{
}

/// Identity comes third and compliance last: on a token that is not paused,
/// between accounts that are not frozen, the answer is what the registry
/// could not say, else `IdentityNotVerified` where a holder is not verified,
/// else what the policy could not say, else `TransferNotCompliant` where the
/// policy objects; and the operation passes exactly where both holders are
/// verified and the policy agrees.
pub proof fn lemma_gate_identity_then_compliance(
    verified: Result<(bool, bool), ProgramError>,
    compliant: Result<bool, ProgramError>,
)
    ensures
        verified matches Err(e) ==> Processor::transfer_gate(
            false,
            false,
            false,
            verified,
            compliant,
        ) == Err::<(), ProgramError>(e),
        verified matches Ok((s, d)) && !(s && d) ==> Processor::transfer_gate(
            false,
            false,
            false,
            verified,
            compliant,
        ) == fail::<()>(TokenError::IdentityNotVerified),
        compliant matches Err(e) ==> (verified == Ok::<(bool, bool), ProgramError>((true, true))
            ==> Processor::transfer_gate(false, false, false, verified, compliant) == Err::<
            (),
            ProgramError,
        >(e)),
        verified == Ok::<(bool, bool), ProgramError>((true, true)) && compliant == Ok::<
            bool,
            ProgramError,
        >(false) ==> Processor::transfer_gate(false, false, false, verified, compliant) == fail::<
            (),
        >(TokenError::TransferNotCompliant),
        Processor::transfer_gate(false, false, false, verified, compliant) is Ok <==> verified
            == Ok::<(bool, bool), ProgramError>((true, true)) && compliant == Ok::<
            bool,
            ProgramError,
        >(true),
{
}

/// The accounts of a transfer are in order as far as authority goes: seven
/// accounts, the six that store records owned by the program, the owner's
/// signature, token and both token accounts loaded and belonging together,
/// the source owned by the signer, and registry and compliance the token's.
pub open spec fn transfer_authorized(a: Seq<AccountView>, program_id: Seq<u8>) -> bool {
    &&& a.len() >= 7
    &&& a[1].owner == program_id
    &&& a[2].owner == program_id
    &&& a[3].owner == program_id
    &&& a[4].owner == program_id
    &&& a[5].owner == program_id
    &&& a[6].owner == program_id
    &&& a[0].is_signer
    &&& Processor::movement_records(a) is Ok
    &&& token_account_in(a, 1).owner == a[0].key
    &&& token_in(a, 3).identity_registry == a[4].key
    &&& token_in(a, 3).compliance == a[5].key
}

/// Pause before freeze: a transfer on a paused token fails with
/// `TokenPaused`, also where source or destination is frozen, and whatever
/// the registry and compliance accounts store.
pub proof fn lemma_transfer_on_paused_token<I: IdentityPolicy, C: CompliancePolicy>(
    a: Seq<AccountView>,
    amount: u64,
    program_id: Seq<u8>,
)
    requires
        transfer_authorized(a, program_id),
        token_in(a, 3).is_paused,
    ensures
        Processor::transfer_outcome_with::<I, C>(a, amount, program_id) == fail::<Seq<AccountView>>(
            TokenError::TokenPaused,
        ),
{
}

/// A frozen account stops a transfer: on a token that is not paused, a
/// transfer from or to a frozen account fails with `AddressFrozen`, whatever
/// the registry and compliance accounts store.
pub proof fn lemma_transfer_with_frozen_account<I: IdentityPolicy, C: CompliancePolicy>(
    a: Seq<AccountView>,
    amount: u64,
    program_id: Seq<u8>,
)
    requires
        transfer_authorized(a, program_id),
        !token_in(a, 3).is_paused,
        token_account_in(a, 1).is_frozen() || token_account_in(a, 2).is_frozen(),
    ensures
        Processor::transfer_outcome_with::<I, C>(a, amount, program_id) == fail::<Seq<AccountView>>(
            TokenError::AddressFrozen,
        ),
{
}

/// Authority before status: a transfer whose signer does not own the
/// source fails with `InvalidOwner`, also on a paused token and between
/// frozen accounts.
pub proof fn lemma_transfer_by_stranger<I: IdentityPolicy, C: CompliancePolicy>(
    a: Seq<AccountView>,
    amount: u64,
    program_id: Seq<u8>,
)
    requires
        a.len() >= 7,
        a[1].owner == program_id,
        a[2].owner == program_id,
        a[3].owner == program_id,
        a[4].owner == program_id,
        a[5].owner == program_id,
        a[6].owner == program_id,
        a[0].is_signer,
        Processor::movement_records(a) is Ok,
        token_account_in(a, 1).owner != a[0].key,
    ensures
        Processor::transfer_outcome_with::<I, C>(a, amount, program_id) == fail::<Seq<AccountView>>(
            TokenError::InvalidOwner,
        ),
{
}

/// Pause before freeze, for a mint: a mint on a paused token, ordered by an
/// agent on the token's roster, fails with `TokenPaused`, also where the
/// destination is frozen, and whatever the identity policy decides.
pub proof fn lemma_mint_on_paused_token<I: IdentityPolicy>(
    a: Seq<AccountView>,
    amount: u64,
    program_id: Seq<u8>,
)
    requires
        a.len() >= 5,
        a[1].owner == program_id,
        a[2].owner == program_id,
        a[3].owner == program_id,
        a[4].owner == program_id,
        a[0].is_signer,
        Processor::holding_records(a) is Ok,
        token_in(a, 2).is_agent(a[0].key),
        token_in(a, 2).identity_registry == a[3].key,
        token_in(a, 2).is_paused,
    ensures
        Processor::mint_outcome_with::<I>(a, amount, program_id) == fail::<Seq<AccountView>>(
            TokenError::TokenPaused,
        ),
{
}

/// The owner's key is no place on the roster: a mint, a forced transfer, a
/// freeze and an unfreeze are accepted only where the token's roster holds
/// the signer.
pub proof fn lemma_agent_operations_need_roster<I: IdentityPolicy, C: CompliancePolicy>(
    a: Seq<AccountView>,
    amount: u64,
    program_id: Seq<u8>,
)
    ensures
        Processor::mint_outcome_with::<I>(a, amount, program_id) is Ok ==> token_in(a, 2).is_agent(
            a[0].key,
        ),
        Processor::forced_transfer_outcome_with::<I, C>(a, amount, program_id) is Ok ==> token_in(
            a,
            3,
        ).is_agent(a[0].key),
        Processor::freeze_outcome(a, program_id) is Ok ==> token_in(a, 2).is_agent(a[0].key),
        Processor::unfreeze_outcome(a, program_id) is Ok ==> token_in(a, 2).is_agent(a[0].key),
{
}

/// A mint that the token's owner signs without being on the roster is
/// rejected with `InvalidAgent`, as anybody else's is.
pub proof fn lemma_owner_off_roster_cannot_mint<I: IdentityPolicy>(
    a: Seq<AccountView>,
    amount: u64,
    program_id: Seq<u8>,
)
    requires
        a.len() >= 5,
        a[1].owner == program_id,
        a[2].owner == program_id,
        a[3].owner == program_id,
        a[4].owner == program_id,
        a[0].is_signer,
        Processor::holding_records(a) is Ok,
        a[0].key == token_in(a, 2).owner,
        !token_in(a, 2).agents.contains(a[0].key),
    ensures
        !token_in(a, 2).is_agent(a[0].key),
        Processor::mint_outcome_with::<I>(a, amount, program_id) == fail::<Seq<AccountView>>(
            TokenError::InvalidAgent,
        ),
{
}

/// An agent who is not the owner is an agent all the same: a mint that an
/// address on the roster signs passes the agent check whoever owns the
/// token, so that its outcome no longer depends on the signer.
pub proof fn lemma_roster_decides_alone(token: TokenView, key: Seq<u8>)
    ensures
        token.is_agent(key) == token.agents.contains(key),
        token.agents.len() == 0 ==> !token.is_agent(token.owner),
{
}

/// The accounts of an operation belong together: a balance-moving operation
/// is accepted only where the token accounts refer to the token that is
/// handed in, and where the registry and the compliance account are the ones
/// that the token refers to. After `SetCompliance` or `SetIdentityRegistry`
/// the former account is therefore refused.
pub proof fn lemma_accounts_belong_together<I: IdentityPolicy, C: CompliancePolicy>(
    a: Seq<AccountView>,
    amount: u64,
    program_id: Seq<u8>,
)
    ensures
        Processor::transfer_outcome_with::<I, C>(a, amount, program_id) is Ok ==> token_account_in(
            a,
            1,
        ).token == a[3].key && token_account_in(a, 2).token == a[3].key && token_in(
            a,
            3,
        ).identity_registry == a[4].key && token_in(a, 3).compliance == a[5].key,
        Processor::forced_transfer_outcome_with::<I, C>(a, amount, program_id) is Ok
            ==> token_account_in(a, 1).token == a[3].key && token_account_in(a, 2).token
            == a[3].key && token_in(a, 3).identity_registry == a[4].key && token_in(
            a,
            3,
        ).compliance == a[5].key,
        Processor::mint_outcome_with::<I>(a, amount, program_id) is Ok ==> token_account_in(
            a,
            1,
        ).token == a[2].key && token_in(a, 2).identity_registry == a[3].key,
        Processor::burn_outcome(a, amount, program_id) is Ok ==> token_account_in(a, 1).token
            == a[2].key,
        Processor::recover_outcome(a, amount, program_id) is Ok ==> token_account_in(a, 1).token
            == a[3].key && token_account_in(a, 2).token == a[3].key,
        Processor::freeze_outcome(a, program_id) is Ok ==> token_account_in(a, 1).token
            == a[2].key,
{
}

/// A place on the roster is no owner's key: pausing, unpausing, rebinding the
/// policy references, adding and removing an agent, and recovering are
/// accepted only where the signer is the token's owner.
pub proof fn lemma_owner_operations_need_owner(
    a: Seq<AccountView>,
    amount: u64,
    program_id: Seq<u8>,
)
    ensures
        Processor::pause_outcome(a, program_id) is Ok ==> token_in(a, 1).owner == a[0].key,
        Processor::unpause_outcome(a, program_id) is Ok ==> token_in(a, 1).owner == a[0].key,
        Processor::set_compliance_outcome(a, program_id) is Ok ==> token_in(a, 1).owner
            == a[0].key,
        Processor::set_identity_registry_outcome(a, program_id) is Ok ==> token_in(a, 1).owner
            == a[0].key,
        Processor::add_agent_outcome(a, program_id) is Ok ==> token_in(a, 1).owner == a[0].key,
        Processor::remove_agent_outcome(a, program_id) is Ok ==> token_in(a, 1).owner
            == a[0].key,
        Processor::recover_outcome(a, amount, program_id) is Ok ==> token_in(a, 3).owner
            == a[0].key,
{
}

/// A pause that an agent signs who is not the token's owner is rejected with
/// `Unauthorized`, also where the token's roster holds the signer.
pub proof fn lemma_agent_cannot_pause(a: Seq<AccountView>, program_id: Seq<u8>)
    requires
        a.len() >= 2,
        a[1].owner == program_id,
        a[0].is_signer,
        TokenView::unpacking(a[1].data) is Ok,
        token_in(a, 1).owner != a[0].key,
    ensures
        Processor::pause_outcome(a, program_id) == fail::<Seq<AccountView>>(
            TokenError::Unauthorized,
        ),
        Processor::unpause_outcome(a, program_id) == fail::<Seq<AccountView>>(
            TokenError::Unauthorized,
        ),
{
}

/// An agent that was added is on the roster: after an accepted `AddAgent`
/// the token loads with a roster that holds the third account's address,
/// and holds every address that it held before.
pub proof fn lemma_added_agent_is_on_roster(a: Seq<AccountView>, program_id: Seq<u8>)
    requires
        a.len() >= 3 ==> a[2].key.len() == 32,
        Processor::add_agent_outcome(a, program_id) is Ok,
    ensures
        ({
            let after = Processor::add_agent_outcome(a, program_id).unwrap();
            &&& same_but_data(a, after, 1, 1)
            &&& TokenView::unpacking(after[1].data) matches Ok(token) && token.is_agent(a[2].key)
                && (forall|key: Seq<u8>| token_in(a, 1).is_agent(key) ==> token.is_agent(key))
                && token == (TokenView { agents: token.agents, ..token_in(a, 1) })
        }),
{
    let token = token_in(a, 1);
    TokenView::lemma_decoded_fits(a[1].data);
    if !token.is_agent(a[2].key) {
        let next = TokenView { agents: token.agents.push(a[2].key), ..token };
        assert(keys_well_formed(next.agents));
        next.lemma_decoding_of_stored(a[1].data);
        assert(next.agents.last() == a[2].key);
        assert(next.agents[next.agents.len() - 1] == a[2].key);
        assert forall|key: Seq<u8>| token.is_agent(key) implies next.is_agent(key) by {
            let i = choose|i: int| 0 <= i < token.agents.len() && token.agents[i] == key;
            assert(next.agents[i] == key);
        }
    }
}

/// An agent that was removed is off the roster: after an accepted
/// `RemoveAgent` the token loads with a roster that does not hold the third
/// account's address.
pub proof fn lemma_removed_agent_is_off_roster(a: Seq<AccountView>, program_id: Seq<u8>)
    requires
        Processor::remove_agent_outcome(a, program_id) is Ok,
    ensures
        ({
            let after = Processor::remove_agent_outcome(a, program_id).unwrap();
            &&& same_but_data(a, after, 1, 1)
            &&& TokenView::unpacking(after[1].data) matches Ok(token) && !token.is_agent(a[2].key)
                && token == (TokenView { agents: token.agents, ..token_in(a, 1) })
        }),
{
    let token = token_in(a, 1);
    TokenView::lemma_decoded_fits(a[1].data);
    lemma_without(token.agents, a[2].key);
    let next = TokenView { agents: without(token.agents, a[2].key), ..token };
    lemma_without_well_formed(token.agents, a[2].key);
    next.lemma_decoding_of_stored(a[1].data);
}

/// What is left of a well-formed list of addresses is well formed.
pub proof fn lemma_without_well_formed(keys: Seq<Seq<u8>>, key: Seq<u8>)
    requires
        keys_well_formed(keys),
    ensures
        keys_well_formed(without(keys, key)),
    decreases keys.len(),
{
    if keys.len() > 0 {
        assert forall|i: int| 0 <= i < keys.drop_last().len() implies (
        #[trigger] keys.drop_last()[i]).len() == 32 by {
            assert(keys.drop_last()[i] == keys[i]);
        }
        lemma_without_well_formed(keys.drop_last(), key);
        assert(keys.last() == keys[keys.len() - 1]);
    }
}

/// Pausing and freezing take effect: after an accepted `Pause` the token
/// loads as paused and after an accepted `Unpause` as not paused; pausing a
/// paused token and unpausing a running one are accepted and change nothing
/// that is loaded.
pub proof fn lemma_pause_takes_effect(a: Seq<AccountView>, program_id: Seq<u8>)
    ensures
        Processor::pause_outcome(a, program_id) matches Ok(after) ==> same_but_data(a, after, 1, 1)
            && TokenView::unpacking(after[1].data) == Ok::<TokenView, ProgramError>(
            TokenView { is_paused: true, ..token_in(a, 1) },
        ),
        Processor::unpause_outcome(a, program_id) matches Ok(after) ==> same_but_data(
            a,
            after,
            1,
            1,
        ) && TokenView::unpacking(after[1].data) == Ok::<TokenView, ProgramError>(
            TokenView { is_paused: false, ..token_in(a, 1) },
        ),
{
    if Processor::pause_outcome(a, program_id) is Ok {
        lemma_token_reloads(a[1].data, TokenView { is_paused: true, ..token_in(a, 1) });
        lemma_token_reloads(a[1].data, TokenView { is_paused: false, ..token_in(a, 1) });
    }
}

/// Rebinding takes effect: after an accepted `SetCompliance` the token loads
/// with the third account as its compliance policy, after an accepted
/// `SetIdentityRegistry` with the third account as its identity registry,
/// and with nothing else changed.
pub proof fn lemma_rebinding_takes_effect(a: Seq<AccountView>, program_id: Seq<u8>)
    requires
        a.len() >= 3 ==> a[2].key.len() == 32,
    ensures
        Processor::set_compliance_outcome(a, program_id) matches Ok(after) ==> same_but_data(
            a,
            after,
            1,
            1,
        ) && TokenView::unpacking(after[1].data) == Ok::<TokenView, ProgramError>(
            TokenView { compliance: a[2].key, ..token_in(a, 1) },
        ),
        Processor::set_identity_registry_outcome(a, program_id) matches Ok(after)
            ==> same_but_data(a, after, 1, 1) && TokenView::unpacking(after[1].data) == Ok::<
            TokenView,
            ProgramError,
        >(TokenView { identity_registry: a[2].key, ..token_in(a, 1) }),
{
    if Processor::set_compliance_outcome(a, program_id) is Ok {
        let token = token_in(a, 1);
        TokenView::lemma_decoded_fits(a[1].data);
        (TokenView { compliance: a[2].key, ..token }).lemma_decoding_of_stored(a[1].data);
        (TokenView { identity_registry: a[2].key, ..token }).lemma_decoding_of_stored(a[1].data);
    }
}

/// Initialization takes effect: after an accepted initialization the token
/// account loads as a token with no supply, not paused, with the name, the
/// symbol and the decimals that were asked for, owned by the third account
/// and bound to the fourth and fifth.
pub proof fn lemma_initialized_token_loads(
    a: Seq<AccountView>,
    name: Seq<char>,
    symbol: Seq<char>,
    decimals: u8,
    program_id: Seq<u8>,
    exempt: Option<bool>,
)
    requires
        Processor::token_fits(name, symbol),
        a.len() >= 5 ==> a[2].key.len() == 32 && a[3].key.len() == 32 && a[4].key.len() == 32,
        Processor::initialize_token_outcome(a, name, symbol, decimals, program_id, exempt) is Ok,
    ensures
        ({
            let after = Processor::initialize_token_outcome(
                a,
                name,
                symbol,
                decimals,
                program_id,
                exempt,
            ).unwrap();
            &&& exempt == Some(true)
            &&& same_but_data(a, after, 0, 0)
            &&& TokenView::unpacking(after[0].data) == Ok::<TokenView, ProgramError>(
                Processor::initial_token(a, name, symbol, decimals),
            )
            &&& token_in(after, 0).supply == 0
            &&& !token_in(after, 0).is_paused
            &&& token_in(after, 0).owner == a[2].key
        }),
{
    Processor::initial_token(a, name, symbol, decimals).lemma_decoding_of_stored(a[0].data);
}

/// Bit 0 of the flags and nothing else: setting the frozen flag freezes,
/// clearing it unfreezes, and neither touches another bit.
pub proof fn lemma_frozen_flag(state: u8)
    ensures
        (state | 1u8) & 1u8 != 0,
        (state & !1u8) & 1u8 == 0,
        (state | 1u8) & !1u8 == state & !1u8,
        (state & !1u8) & !1u8 == state & !1u8,
        state & 1u8 != 0 ==> state | 1u8 == state,
        state & 1u8 == 0 ==> state & !1u8 == state,
{
    assert((state | 1u8) & 1u8 != 0) by (bit_vector);
    assert((state & !1u8) & 1u8 == 0) by (bit_vector);
    assert((state | 1u8) & !1u8 == state & !1u8) by (bit_vector);
    assert((state & !1u8) & !1u8 == state & !1u8) by (bit_vector);
    assert(state & 1u8 != 0 ==> state | 1u8 == state) by (bit_vector);
    assert(state & 1u8 == 0 ==> state & !1u8 == state) by (bit_vector);
}

/// Freezing takes effect: after an accepted `FreezeAddress` the target loads
/// as frozen, and after an accepted `UnfreezeAddress` as not frozen; in both
/// nothing else of the target has changed but bit 0 of its flags.
pub proof fn lemma_freeze_takes_effect(a: Seq<AccountView>, program_id: Seq<u8>)
    ensures
        Processor::freeze_outcome(a, program_id) matches Ok(after) ==> same_but_data(a, after, 1, 1)
            && TokenAccountView::unpacking(after[1].data) is Ok && token_account_in(
            after,
            1,
        ).is_frozen() && token_account_in(after, 1) == (TokenAccountView {
            state: token_account_in(after, 1).state,
            ..token_account_in(a, 1)
        }),
        Processor::unfreeze_outcome(a, program_id) matches Ok(after) ==> same_but_data(
            a,
            after,
            1,
            1,
        ) && TokenAccountView::unpacking(after[1].data) is Ok && !token_account_in(
            after,
            1,
        ).is_frozen() && token_account_in(after, 1) == (TokenAccountView {
            state: token_account_in(after, 1).state,
            ..token_account_in(a, 1)
        }),
{
    if Processor::freeze_outcome(a, program_id) is Ok {
        let target = token_account_in(a, 1);
        lemma_frozen_flag(target.state);
        lemma_token_account_reloads(
            a[1].data,
            TokenAccountView { state: target.state | 1u8, ..target },
        );
        lemma_token_account_reloads(
            a[1].data,
            TokenAccountView { state: target.state & !1u8, ..target },
        );
    }
}

/// Fail closed: a payload that spells no instruction is rejected with
/// `InvalidInstruction`, whatever the accounts hold. The processor then
/// leaves every account as it was, as it does for every rejection.
pub proof fn lemma_malformed_payload_is_rejected<I: IdentityPolicy, C: CompliancePolicy>(
    program_id: Seq<u8>,
    a: Seq<AccountView>,
    input: Seq<u8>,
)
    requires
        TokenInstructionView::decoding(input) is None,
    ensures
        Processor::process_outcome_with::<I, C>(program_id, a, input) == fail::<Seq<AccountView>>(
            TokenError::InvalidInstruction,
        ),
{
}

/// Fail closed on an unknown tag: an empty payload, and a payload whose
/// first byte is the tag of no variant, are rejected with
/// `InvalidInstruction`.
pub proof fn lemma_unknown_tag_is_rejected<I: IdentityPolicy, C: CompliancePolicy>(
    program_id: Seq<u8>,
    a: Seq<AccountView>,
    input: Seq<u8>,
)
    requires
        input.len() == 0 || input[0] >= 25,
    ensures
        Processor::process_outcome_with::<I, C>(program_id, a, input) == fail::<Seq<AccountView>>(
            TokenError::InvalidInstruction,
        ),
{
    TokenInstructionView::lemma_unknown_tag_is_rejected(input);
}

/// Fail closed on truncation: the bytes of an instruction, cut short
/// anywhere, are rejected with `InvalidInstruction`.
pub proof fn lemma_truncated_payload_is_rejected<I: IdentityPolicy, C: CompliancePolicy>(
    program_id: Seq<u8>,
    a: Seq<AccountView>,
    ix: TokenInstructionView,
    n: int,
)
    requires
        ix.well_formed(),
        0 <= n < ix.encoding().len(),
    ensures
        Processor::process_outcome_with::<I, C>(
            program_id,
            a,
            ix.encoding().subrange(0, n),
        ) == fail::<Seq<AccountView>>(TokenError::InvalidInstruction),
{
    ix.lemma_truncated_is_rejected(n);
}

/// The payload of an instruction reaches the operation that the instruction
/// names, with the fields that were written.
pub proof fn lemma_payload_reaches_its_operation<I: IdentityPolicy, C: CompliancePolicy>(
    program_id: Seq<u8>,
    a: Seq<AccountView>,
    ix: TokenInstructionView,
)
    requires
        ix.well_formed(),
    ensures
        Processor::process_outcome_with::<I, C>(program_id, a, ix.encoding())
            == Processor::instruction_outcome_with::<I, C>(program_id, a, ix),
{
    ix.lemma_decoding_of_encoding();
}

/// Writing into one slot of an identity storage leaves the number of slots
/// and every other slot as they were, and writes over the start of that
/// slot.
pub proof fn lemma_slot_after_write(data: Seq<u8>, k: int, j: int, bytes: Seq<u8>)
    requires
        0 <= k,
        k * 128 + 128 <= data.len(),
        bytes.len() <= 128,
        0 <= j < identity_slots(data),
    ensures
        identity_slots(splice(data, k * 128, bytes)) == identity_slots(data),
        j == k ==> identity_slot(splice(data, k * 128, bytes), j) == overlay(
            identity_slot(data, k),
            bytes,
        ),
        j != k ==> identity_slot(splice(data, k * 128, bytes), j) == identity_slot(data, j),
{
    let after = splice(data, k * 128, bytes);
    assert(after.len() == data.len());
    if j == k {
        assert(identity_slot(after, j) =~= overlay(identity_slot(data, k), bytes));
    } else {
        assert(identity_slot(after, j) =~= identity_slot(data, j));
    }
}

/// A slot that holds the identity of an address is found.
pub proof fn lemma_held_identity_is_found(data: Seq<u8>, address: Seq<u8>, from: int, k: int)
    requires
        0 <= from <= k < identity_slots(data),
        slot_holds(data, k, address),
    ensures
        find_identity(data, address, from) is Some,
    decreases k - from,
{
    if !slot_holds(data, from, address) {
        lemma_held_identity_is_found(data, address, from + 1, k);
    }
}

/// Where no slot holds the identity of an address, none is found.
pub proof fn lemma_unheld_identity_is_not_found(data: Seq<u8>, address: Seq<u8>, from: int)
    requires
        0 <= from,
        forall|j: int| from <= j < identity_slots(data) ==> !slot_holds(data, j, address),
    ensures
        find_identity(data, address, from) is None,
    decreases identity_slots(data) - from,
{
    if from < identity_slots(data) {
        lemma_unheld_identity_is_not_found(data, address, from + 1);
    }
}

/// A holder without an identity is not verified: where the registry loads
/// and its identity storage holds no initialized identity of the holder, the
/// built-in policy answers that the holder is not verified; and it answers
/// the same of every holder where the account handed in is not the
/// registry's identity storage.
pub proof fn lemma_holder_without_identity_is_not_verified(
    registry: Seq<u8>,
    storage: AccountView,
    address: Seq<u8>,
)
    requires
        IdentityRegistryView::unpacking(registry) matches Ok(record) && (storage.key
            != record.identity_storage || !holds_identity(storage.data, address)),
    ensures
        <IdentityRegistry as IdentityPolicy>::verified(registry, storage, address) == Ok::<
            bool,
            ProgramError,
        >(false),
        !IdentityRegistryView::unpacking(registry).unwrap().identity_exists(storage, address),
{
}

/// Registration takes effect: after an accepted registration the storage
/// holds the holder's identity with the fingerprint and the country that
/// were handed in, the registry says that the identity exists, and the
/// built-in policy verifies the holder.
pub proof fn lemma_registered_identity_exists(
    a: Seq<AccountView>,
    identity: Seq<u8>,
    country: u16,
    program_id: Seq<u8>,
)
    requires
        identity.len() == 32,
        a.len() >= 4 ==> a[3].key.len() == 32,
        Processor::register_identity_outcome(a, identity, country, program_id) is Ok,
    ensures
        ({
            let after = Processor::register_identity_outcome(
                a,
                identity,
                country,
                program_id,
            ).unwrap();
            let registry = IdentityRegistryView::unpacking(a[1].data).unwrap();
            let k = find_free_slot(a[2].data, 0).unwrap();
            &&& same_but_data(a, after, 2, 2)
            &&& IdentityView::decoding(identity_slot(after[2].data, k)) == Some(
                IdentityView {
                    is_initialized: true,
                    owner: a[3].key,
                    identity_hash: identity,
                    country,
                },
            )
            &&& registry.identity_exists(after[2], a[3].key)
            &&& registry.is_verified_address(after[2], a[3].key)
            &&& <IdentityRegistry as IdentityPolicy>::verified(after[1].data, after[2], a[3].key)
                == Ok::<bool, ProgramError>(true)
        }),
{
    let record = IdentityView {
        is_initialized: true,
        owner: a[3].key,
        identity_hash: identity,
        country,
    };
    let k = find_free_slot(a[2].data, 0).unwrap();
    lemma_found_slot_in_range(a[2].data, a[3].key, 0);
    record.lemma_decoding_of_stored(identity_slot(a[2].data, k));
    lemma_slot_after_write(a[2].data, k, k, record.encoding());
    let after = splice(a[2].data, k * 128, record.encoding());
    assert(slot_holds(after, k, a[3].key));
    lemma_held_identity_is_found(after, a[3].key, 0, k);
}

/// Deletion takes effect: after an accepted deletion of a holder whose
/// identity the storage held in one slot only, the registry says that no
/// identity of the holder exists, and the built-in policy no longer verifies
/// the holder.
pub proof fn lemma_deleted_identity_is_gone(a: Seq<AccountView>, program_id: Seq<u8>)
    requires
        Processor::delete_identity_outcome(a, program_id) is Ok,
        forall|j: int|
            0 <= j < identity_slots(a[2].data) && j != find_identity(
                a[2].data,
                a[3].key,
                0,
            ).unwrap() ==> !slot_holds(a[2].data, j, a[3].key),
    ensures
        ({
            let after = Processor::delete_identity_outcome(a, program_id).unwrap();
            let registry = IdentityRegistryView::unpacking(a[1].data).unwrap();
            &&& same_but_data(a, after, 2, 2)
            &&& !registry.identity_exists(after[2], a[3].key)
            &&& !registry.is_verified_address(after[2], a[3].key)
            &&& <IdentityRegistry as IdentityPolicy>::verified(after[1].data, after[2], a[3].key)
                == Ok::<bool, ProgramError>(false)
        }),
{
    let k = find_identity(a[2].data, a[3].key, 0).unwrap();
    lemma_found_slot_in_range(a[2].data, a[3].key, 0);
    let present = IdentityView::decoding(identity_slot(a[2].data, k)).unwrap();
    IdentityView::lemma_decoded_fits(identity_slot(a[2].data, k));
    let record = IdentityView { is_initialized: false, ..present };
    record.lemma_decoding_of_stored(identity_slot(a[2].data, k));
    let after = splice(a[2].data, k * 128, record.encoding());
    record.lemma_encoding_len();
    lemma_slot_after_write(a[2].data, k, k, record.encoding());
    assert(identity_slots(after) == identity_slots(a[2].data));
    assert(!slot_holds(after, k, a[3].key));
    assert forall|j: int| 0 <= j < identity_slots(after) implies !slot_holds(
        after,
        j,
        a[3].key,
    ) by {
        if j != k {
            lemma_slot_after_write(a[2].data, k, j, record.encoding());
            assert(!slot_holds(a[2].data, j, a[3].key));
        }
    }
    lemma_unheld_identity_is_not_found(after, a[3].key, 0);
}

/// A rule decides: the built-in compliance policy lets a transfer pass
/// exactly where no rule bars the sender and none bars the receiver. One
/// rule that rejects is enough to reject.
pub proof fn lemma_rules_decide(c: ComplianceView, from: Seq<u8>, to: Seq<u8>, amount: u64)
    ensures
        c.check_transfer(from, to, amount) <==> !c.rules.contains(from) && !c.rules.contains(to),
        c.rules.len() == 0 ==> c.check_transfer(from, to, amount),
{
    if c.check_transfer(from, to, amount) {
        if c.rules.contains(from) {
            let i = choose|i: int| 0 <= i < c.rules.len() && c.rules[i] == from;
            assert(ComplianceView::rule_approves(c.rules[i], from, to));
        }
        if c.rules.contains(to) {
            let i = choose|i: int| 0 <= i < c.rules.len() && c.rules[i] == to;
            assert(ComplianceView::rule_approves(c.rules[i], from, to));
        }
    } else {
        let i = choose|i: int|
            0 <= i < c.rules.len() && !ComplianceView::rule_approves(#[trigger] c.rules[i], from, to);
        if c.rules[i] == from {
            assert(c.rules.contains(from));
        } else {
            assert(c.rules.contains(to));
        }
    }
}

/// A rule that was added is held and decides: after an accepted
/// `AddComplianceRule` the compliance record loads with a rule set that
/// holds the former rules and the rule that the third account names, and it
/// rejects every transfer from or to that address.
pub proof fn lemma_added_rule_is_held(a: Seq<AccountView>, program_id: Seq<u8>)
    requires
        a.len() >= 3 ==> a[2].key.len() == 32,
        Processor::add_compliance_rule_outcome(a, program_id) is Ok,
    ensures
        ({
            let after = Processor::add_compliance_rule_outcome(a, program_id).unwrap();
            let before = ComplianceView::unpacking(a[1].data).unwrap();
            &&& same_but_data(a, after, 1, 1)
            &&& ComplianceView::unpacking(after[1].data) matches Ok(record)
                && record.rules.contains(a[2].key) && (forall|rule: Seq<u8>|
                before.rules.contains(rule) ==> record.rules.contains(rule)) && (forall|
                other: Seq<u8>,
                amount: u64,
            |
                !record.check_transfer(a[2].key, other, amount) && !record.check_transfer(
                    other,
                    a[2].key,
                    amount,
                ))
        }),
{
    let before = ComplianceView::unpacking(a[1].data).unwrap();
    ComplianceView::lemma_decoded_fits(a[1].data);
    let record = if before.rules.contains(a[2].key) {
        before
    } else {
        ComplianceView { rules: before.rules.push(a[2].key), ..before }
    };
    if !before.rules.contains(a[2].key) {
        assert(keys_well_formed(record.rules));
        record.lemma_decoding_of_stored(a[1].data);
        assert(record.rules[record.rules.len() - 1] == a[2].key);
        assert forall|rule: Seq<u8>| before.rules.contains(rule) implies record.rules.contains(
            rule,
        ) by {
            let i = choose|i: int| 0 <= i < before.rules.len() && before.rules[i] == rule;
            assert(record.rules[i] == rule);
        }
    }
    assert forall|other: Seq<u8>, amount: u64|
        !record.check_transfer(a[2].key, other, amount) && !record.check_transfer(
            other,
            a[2].key,
            amount,
        ) by {
        lemma_rules_decide(record, a[2].key, other, amount);
        lemma_rules_decide(record, other, a[2].key, amount);
    }
}

/// A rule that was removed is no longer held: after an accepted
/// `RemoveComplianceRule` the compliance record loads with a rule set that
/// does not hold the rule that the third account names.
pub proof fn lemma_removed_rule_is_not_held(a: Seq<AccountView>, program_id: Seq<u8>)
    requires
        Processor::remove_compliance_rule_outcome(a, program_id) is Ok,
    ensures
        ({
            let after = Processor::remove_compliance_rule_outcome(a, program_id).unwrap();
            let before = ComplianceView::unpacking(a[1].data).unwrap();
            &&& same_but_data(a, after, 1, 1)
            &&& ComplianceView::unpacking(after[1].data) == Ok::<ComplianceView, ProgramError>(
                ComplianceView { rules: without(before.rules, a[2].key), ..before },
            )
            &&& !without(before.rules, a[2].key).contains(a[2].key)
        }),
{
    let before = ComplianceView::unpacking(a[1].data).unwrap();
    ComplianceView::lemma_decoded_fits(a[1].data);
    lemma_without(before.rules, a[2].key);
    lemma_without_well_formed(before.rules, a[2].key);
    (ComplianceView { rules: without(before.rules, a[2].key), ..before }).lemma_decoding_of_stored(
        a[1].data,
    );
}

/// Claim topics take effect: after an accepted `AddClaimTopic` the record
/// loads with the former topics and `topic`; after an accepted
/// `RemoveClaimTopic` it loads with the former topics without `topic`.
pub proof fn lemma_claim_topics_take_effect(a: Seq<AccountView>, topic: u64, program_id: Seq<u8>)
    ensures
        Processor::add_claim_topic_outcome(a, topic, program_id) matches Ok(after)
            ==> same_but_data(a, after, 1, 1) && (ClaimTopicsView::unpacking(after[1].data)
            matches Ok(record) && record.topics.contains(topic) && (forall|t: u64|
            ClaimTopicsView::unpacking(a[1].data).unwrap().topics.contains(t)
                ==> record.topics.contains(t))),
        Processor::remove_claim_topic_outcome(a, topic, program_id) matches Ok(after)
            ==> same_but_data(a, after, 1, 1) && ClaimTopicsView::unpacking(after[1].data) == Ok::<
            ClaimTopicsView,
            ProgramError,
        >(
            ClaimTopicsView {
                topics: without(ClaimTopicsView::unpacking(a[1].data).unwrap().topics, topic),
                ..ClaimTopicsView::unpacking(a[1].data).unwrap()
            },
        ) && !without(ClaimTopicsView::unpacking(a[1].data).unwrap().topics, topic).contains(
            topic,
        ),
{
    if Processor::owner_claim_topics(a, program_id) is Ok {
        let before = ClaimTopicsView::unpacking(a[1].data).unwrap();
        ClaimTopicsView::lemma_decoded_fits(a[1].data);
        lemma_without(before.topics, topic);
        if Processor::add_claim_topic_outcome(a, topic, program_id) is Ok
            && !before.topics.contains(topic) {
            let record = ClaimTopicsView { topics: before.topics.push(topic), ..before };
            record.lemma_decoding_of_stored(a[1].data);
            assert(record.topics[record.topics.len() - 1] == topic);
            assert forall|t: u64| before.topics.contains(t) implies record.topics.contains(t) by {
                let i = choose|i: int| 0 <= i < before.topics.len() && before.topics[i] == t;
                assert(record.topics[i] == t);
            }
        }
        if Processor::remove_claim_topic_outcome(a, topic, program_id) is Ok {
            (ClaimTopicsView { topics: without(before.topics, topic), ..before }).lemma_decoding_of_stored(
                a[1].data,
            );
        }
    }
}

/// Trusted issuers take effect: after an accepted `AddTrustedIssuer` the
/// issuer's account loads as an issuer that the registry holds, with
/// `claim_topics` as its topics; after an accepted `UpdateIssuerClaimTopics`
/// it loads with `claim_topics` as its topics and nothing else changed;
/// after an accepted `RemoveTrustedIssuer` it loads no issuer.
pub proof fn lemma_trusted_issuers_take_effect(
    a: Seq<AccountView>,
    claim_topics: Seq<u64>,
    program_id: Seq<u8>,
)
    requires
        a.len() >= 3 ==> a[1].key.len() == 32,
    ensures
        Processor::add_trusted_issuer_outcome(a, claim_topics, program_id) matches Ok(after)
            ==> same_but_data(a, after, 2, 2) && TrustedIssuerView::unpacking(after[2].data)
            == Ok::<TrustedIssuerView, ProgramError>(
            TrustedIssuerView { is_initialized: true, registry: a[1].key, topics: claim_topics },
        ),
        Processor::update_issuer_claim_topics_outcome(a, claim_topics, program_id) matches Ok(
            after,
        ) ==> same_but_data(a, after, 2, 2) && TrustedIssuerView::unpacking(after[2].data)
            == Ok::<TrustedIssuerView, ProgramError>(
            TrustedIssuerView {
                topics: claim_topics,
                ..TrustedIssuerView::unpacking(a[2].data).unwrap()
            },
        ),
        Processor::remove_trusted_issuer_outcome(a, program_id) matches Ok(after)
            ==> same_but_data(a, after, 2, 2) && TrustedIssuerView::unpacking(after[2].data)
            == Err::<TrustedIssuerView, ProgramError>(ProgramError::UninitializedAccount),
{
    if Processor::owner_issuers(a, program_id) is Ok {
        if Processor::add_trusted_issuer_outcome(a, claim_topics, program_id) is Ok {
            (TrustedIssuerView {
                is_initialized: true,
                registry: a[1].key,
                topics: claim_topics,
            }).lemma_decoding_of_stored(a[2].data);
        }
        if Processor::held_issuer(a, program_id) is Ok {
            let issuer = TrustedIssuerView::unpacking(a[2].data).unwrap();
            TrustedIssuerView::lemma_decoded_fits(a[2].data);
            (TrustedIssuerView { is_initialized: false, ..issuer }).lemma_decoding_of_stored(
                a[2].data,
            );
            if Processor::issuer_topics_fit(claim_topics) {
                (TrustedIssuerView { topics: claim_topics, ..issuer }).lemma_decoding_of_stored(
                    a[2].data,
                );
            }
        }
    }
}

} // verus!
