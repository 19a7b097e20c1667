use solana_erc3643::account::AccountInfo;
use solana_erc3643::error::{ProgramError, TokenError};
use solana_erc3643::instruction::TokenInstruction;
use solana_erc3643::policy::{CompliancePolicy, IdentityPolicy};
use solana_erc3643::processor::Processor;
use solana_erc3643::pubkey::Pubkey;
use solana_erc3643::state::{
    Compliance, Identity, IdentityRegistry, Token, TokenAccount, ACCOUNT_FROZEN_FLAG,
};

const PROGRAM: u8 = 200;
const ISSUER: u8 = 1;
const ALICE: u8 = 2;
const BOB: u8 = 3;

fn key(n: u8) -> Pubkey {
    Pubkey::new_from_array([n; 32])
}

/// Verifies the holders whose addresses the registry account lists, one after
/// the other, thirty-two bytes each; the storage account is not looked at.
struct Listed;

impl IdentityPolicy for Listed {
    fn is_verified(
        registry: &[u8],
        _storage: &AccountInfo,
        address: &Pubkey,
    ) -> Result<bool, ProgramError> {
        if registry.len() % 32 != 0 {
            return Err(ProgramError::InvalidAccountData);
        }
        Ok(registry.chunks(32).any(|entry| entry == &address.to_bytes()[..]))
    }
}

/// Lets a transfer pass up to the limit that the compliance account stores in
/// its first eight bytes.
struct Capped;

impl CompliancePolicy for Capped {
    fn check_transfer(
        data: &[u8],
        _from: &Pubkey,
        _to: &Pubkey,
        amount: u64,
    ) -> Result<bool, ProgramError> {
        if data.len() < 8 {
            return Err(ProgramError::InvalidArgument);
        }
        let mut limit = [0u8; 8];
        limit.copy_from_slice(&data[..8]);
        Ok(amount <= u64::from_le_bytes(limit))
    }
}

/// Lets no transfer pass.
struct Closed;

impl CompliancePolicy for Closed {
    fn check_transfer(_: &[u8], _: &Pubkey, _: &Pubkey, _: u64) -> Result<bool, ProgramError> {
        Ok(false)
    }
}

/// Lets every transfer pass and looks at nothing.
struct Open;

impl CompliancePolicy for Open {
    fn check_transfer(_: &[u8], _: &Pubkey, _: &Pubkey, _: u64) -> Result<bool, ProgramError> {
        Ok(true)
    }
}

fn slot(len: usize, bytes: Vec<u8>) -> Vec<u8> {
    let mut data = vec![0u8; len];
    data[..bytes.len()].copy_from_slice(&bytes);
    data
}

fn owned(address: u8, signer: bool, data: Vec<u8>) -> AccountInfo {
    AccountInfo::new(key(address), signer, 0, data, key(PROGRAM))
}

fn token_slot(paused: bool) -> AccountInfo {
    let token = Token {
        is_initialized: true,
        owner: key(ISSUER),
        name: "Test Token".to_string(),
        symbol: "TEST".to_string(),
        decimals: 9,
        supply: 100,
        is_paused: paused,
        identity_registry: key(14),
        compliance: key(15),
        agents: vec![key(30)],
    };
    owned(13, false, slot(Token::LEN, token.encode()))
}

fn holding_slot(address: u8, holder: u8, amount: u64, state: u8) -> AccountInfo {
    let record =
        TokenAccount { is_initialized: true, token: key(13), owner: key(holder), amount, state };
    owned(address, false, slot(TokenAccount::LEN, record.encode()))
}

fn listing(holders: &[u8]) -> AccountInfo {
    let mut data = Vec::new();
    for h in holders {
        data.extend_from_slice(&[*h; 32]);
    }
    owned(14, false, data)
}

fn cap(limit: u64) -> AccountInfo {
    owned(15, false, limit.to_le_bytes().to_vec())
}

/// `[owner, source, destination, token, registry, compliance, storage]`
fn accounts(listed: &[u8], limit: u64) -> Vec<AccountInfo> {
    vec![
        AccountInfo::new(key(ALICE), true, 0, Vec::new(), key(0)),
        holding_slot(11, ALICE, 100, 0),
        holding_slot(12, BOB, 0, 0),
        token_slot(false),
        listing(listed),
        cap(limit),
        owned(20, false, Vec::new()),
    ]
}

fn balance(accounts: &[AccountInfo], i: usize) -> u64 {
    TokenAccount::unpack(&accounts[i].data).unwrap().amount
}

fn custom(e: TokenError) -> Result<(), ProgramError> {
    Err(ProgramError::from(e))
}

#[test]
fn a_transfer_between_verified_holders_within_the_limit_passes() {
    let mut a = accounts(&[ALICE, BOB], 50);
    assert_eq!(Processor::process_transfer_with::<Listed, Capped>(&mut a, 50, &key(PROGRAM)), Ok(()));
    assert_eq!(balance(&a, 1), 50);
    assert_eq!(balance(&a, 2), 50);
}

#[test]
fn a_holder_who_is_not_verified_stops_the_transfer() {
    for listed in [vec![BOB], vec![ALICE], vec![], vec![ISSUER, 77]] {
        let mut a = accounts(&listed, 50);
        let before = a.clone();
        assert_eq!(
            Processor::process_transfer_with::<Listed, Capped>(&mut a, 50, &key(PROGRAM)),
            custom(TokenError::IdentityNotVerified)
        );
        assert_eq!(a, before);
    }
}

#[test]
fn a_transfer_that_the_policy_refuses_is_not_compliant() {
    let mut a = accounts(&[ALICE, BOB], 50);
    let before = a.clone();
    assert_eq!(
        Processor::process_transfer_with::<Listed, Capped>(&mut a, 51, &key(PROGRAM)),
        custom(TokenError::TransferNotCompliant)
    );
    assert_eq!(a, before);
    assert_eq!(
        Processor::process_transfer_with::<Listed, Closed>(&mut a, 0, &key(PROGRAM)),
        custom(TokenError::TransferNotCompliant)
    );
    assert_eq!(a, before);
}

#[test]
fn identity_is_checked_before_compliance_and_compliance_before_the_balance() {
    // not verified and over the limit and over the balance
    let mut a = accounts(&[ALICE], 50);
    assert_eq!(
        Processor::process_transfer_with::<Listed, Capped>(&mut a, 1000, &key(PROGRAM)),
        custom(TokenError::IdentityNotVerified)
    );
    // over the limit and over the balance
    let mut a = accounts(&[ALICE, BOB], 50);
    assert_eq!(
        Processor::process_transfer_with::<Listed, Capped>(&mut a, 1000, &key(PROGRAM)),
        custom(TokenError::TransferNotCompliant)
    );
    // within the limit and over the balance
    let mut a = accounts(&[ALICE, BOB], 5000);
    assert_eq!(
        Processor::process_transfer_with::<Listed, Capped>(&mut a, 1000, &key(PROGRAM)),
        custom(TokenError::InsufficientFunds)
    );
    // a registry that cannot be read decides before the policy is asked
    let mut a = accounts(&[ALICE, BOB], 50);
    a[4].data.push(0);
    a[5].data.clear();
    assert_eq!(
        Processor::process_transfer_with::<Listed, Capped>(&mut a, 1000, &key(PROGRAM)),
        Err(ProgramError::InvalidAccountData)
    );
    // a policy that cannot be read decides once both holders are verified
    let mut a = accounts(&[ALICE, BOB], 50);
    a[5].data.clear();
    assert_eq!(
        Processor::process_transfer_with::<Listed, Capped>(&mut a, 1000, &key(PROGRAM)),
        Err(ProgramError::InvalidArgument)
    );
    let mut a = accounts(&[BOB], 50);
    a[5].data.clear();
    assert_eq!(
        Processor::process_transfer_with::<Listed, Capped>(&mut a, 1000, &key(PROGRAM)),
        custom(TokenError::IdentityNotVerified)
    );
}

#[test]
fn a_frozen_destination_stops_the_transfer_whatever_the_policy_decides() {
    let program = key(PROGRAM);
    let frozen = |listed: &[u8], limit: u64| {
        let mut a = accounts(listed, limit);
        a[2] = holding_slot(12, BOB, 0, ACCOUNT_FROZEN_FLAG);
        a
    };
    let expected = custom(TokenError::AddressFrozen);
    let mut a = frozen(&[ALICE, BOB], 50);
    let before = a.clone();
    assert_eq!(Processor::process_transfer_with::<Listed, Open>(&mut a, 10, &program), expected);
    assert_eq!(Processor::process_transfer_with::<Listed, Closed>(&mut a, 10, &program), expected);
    assert_eq!(Processor::process_transfer_with::<Listed, Capped>(&mut a, 10, &program), expected);
    assert_eq!(Processor::process_transfer_with::<Listed, Capped>(&mut a, 51, &program), expected);
    assert_eq!(a, before);
    let mut a = frozen(&[], 0);
    assert_eq!(Processor::process_transfer_with::<Listed, Closed>(&mut a, 10, &program), expected);
    a[5].data.clear();
    assert_eq!(Processor::process_transfer_with::<Listed, Capped>(&mut a, 10, &program), expected);
    // the built-in policies make no difference either
    assert_eq!(
        Processor::process_transfer_with::<IdentityRegistry, Compliance>(&mut a, 10, &program),
        expected
    );
    assert_eq!(Processor::process_transfer(&mut a, 10, &program), expected);
}

#[test]
fn a_paused_token_stops_the_transfer_whatever_the_policy_decides() {
    let program = key(PROGRAM);
    let mut a = accounts(&[], 0);
    a[3] = token_slot(true);
    a[2] = holding_slot(12, BOB, 0, ACCOUNT_FROZEN_FLAG);
    let expected = custom(TokenError::TokenPaused);
    assert_eq!(Processor::process_transfer_with::<Listed, Closed>(&mut a, 10, &program), expected);
    assert_eq!(Processor::process_transfer_with::<Listed, Open>(&mut a, 10, &program), expected);
    let mut a = accounts(&[ALICE, BOB], 50);
    a[3] = token_slot(true);
    assert_eq!(Processor::process_transfer_with::<Listed, Capped>(&mut a, 10, &program), expected);
}

#[test]
fn a_forced_transfer_passes_the_same_policies() {
    let program = key(PROGRAM);
    let forced = |listed: &[u8], limit: u64| {
        let mut a = accounts(listed, limit);
        a[0] = AccountInfo::new(key(30), true, 0, Vec::new(), key(0));
        a
    };
    let mut a = forced(&[ALICE, BOB], 50);
    assert_eq!(Processor::process_forced_transfer_with::<Listed, Capped>(&mut a, 50, &program), Ok(()));
    assert_eq!(balance(&a, 2), 50);
    let mut a = forced(&[ALICE], 50);
    assert_eq!(
        Processor::process_forced_transfer_with::<Listed, Capped>(&mut a, 50, &program),
        custom(TokenError::IdentityNotVerified)
    );
    let mut a = forced(&[ALICE, BOB], 49);
    let before = a.clone();
    assert_eq!(
        Processor::process_forced_transfer_with::<Listed, Capped>(&mut a, 50, &program),
        custom(TokenError::TransferNotCompliant)
    );
    assert_eq!(a, before);
}

#[test]
fn a_mint_asks_the_identity_policy_about_the_destination() {
    let program = key(PROGRAM);
    let minting = |listed: &[u8]| {
        vec![
            AccountInfo::new(key(30), true, 0, Vec::new(), key(0)),
            holding_slot(12, BOB, 0, 0),
            token_slot(false),
            listing(listed),
            owned(20, false, Vec::new()),
        ]
    };
    let mut a = minting(&[BOB]);
    assert_eq!(Processor::process_mint_with::<Listed>(&mut a, 50, &program), Ok(()));
    assert_eq!(balance(&a, 1), 50);
    assert_eq!(Token::unpack(&a[2].data).unwrap().supply, 150);
    let mut a = minting(&[ALICE]);
    let before = a.clone();
    assert_eq!(
        Processor::process_mint_with::<Listed>(&mut a, 50, &program),
        custom(TokenError::IdentityNotVerified)
    );
    assert_eq!(a, before);
    // frozen is checked before the policy is asked
    a[1] = holding_slot(12, BOB, 0, ACCOUNT_FROZEN_FLAG);
    assert_eq!(
        Processor::process_mint_with::<Listed>(&mut a, 50, &program),
        custom(TokenError::AddressFrozen)
    );
}

#[test]
fn a_payload_is_processed_under_the_policies_that_are_named() {
    let program = key(PROGRAM);
    let payload = TokenInstruction::Transfer { amount: 60 }.encode();
    let mut a = accounts(&[ALICE, BOB], 50);
    assert_eq!(
        Processor::process_with::<Listed, Capped>(&program, &mut a, &payload),
        custom(TokenError::TransferNotCompliant)
    );
    assert_eq!(Processor::process_with::<Listed, Open>(&program, &mut a, &payload), Ok(()));
    assert_eq!(balance(&a, 2), 60);
    assert_eq!(
        Processor::dispatch_with::<Listed, Closed>(
            &program,
            &mut a,
            TokenInstruction::Transfer { amount: 1 }
        ),
        custom(TokenError::TransferNotCompliant)
    );
    assert_eq!(
        Processor::process_with::<Listed, Open>(&program, &mut a, &[1, 2, 3]),
        custom(TokenError::InvalidInstruction)
    );
}

#[test]
fn the_built_in_policies_decide_as_the_records_do() {
    let registry = IdentityRegistry {
        is_initialized: true,
        owner: key(ISSUER),
        identity_storage: key(20),
        trusted_issuers_registry: key(21),
        claim_topics_registry: key(22),
        agents: vec![],
    };
    let data = slot(IdentityRegistry::LEN, registry.encode());
    let identity =
        Identity { is_initialized: true, owner: key(ALICE), identity_hash: [1; 32], country: 1 };
    let storage = owned(20, false, slot(2 * Identity::LEN, identity.encode()));
    let verify = |data: &[u8], storage: &AccountInfo, holder: u8| {
        <IdentityRegistry as IdentityPolicy>::is_verified(data, storage, &key(holder))
    };
    assert_eq!(verify(&data, &storage, ALICE), Ok(true));
    assert_eq!(verify(&data, &storage, BOB), Ok(false));
    assert_eq!(verify(&data, &owned(99, false, storage.data.clone()), ALICE), Ok(false));
    assert_eq!(verify(&[0u8; 256], &storage, ALICE), Err(ProgramError::UninitializedAccount));
    assert_eq!(verify(&[], &storage, ALICE), Err(ProgramError::InvalidAccountData));

    let compliance = Compliance { is_initialized: true, owner: key(ISSUER), rules: vec![key(BOB)] };
    let data = slot(Compliance::LEN, compliance.encode());
    let check = |data: &[u8], from: u8, to: u8| {
        <Compliance as CompliancePolicy>::check_transfer(data, &key(from), &key(to), 5)
    };
    assert_eq!(check(&data, ALICE, ISSUER), Ok(true));
    assert_eq!(check(&data, ALICE, BOB), Ok(false));
    assert_eq!(check(&data, BOB, ALICE), Ok(false));
    assert_eq!(check(&[0u8; 128], ALICE, BOB), Err(ProgramError::UninitializedAccount));
    assert_eq!(check(&[1u8; 5], ALICE, BOB), Err(ProgramError::InvalidAccountData));
}
