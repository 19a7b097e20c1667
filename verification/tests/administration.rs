use solana_erc3643::account::AccountInfo;
use solana_erc3643::error::{ProgramError, TokenError};
use solana_erc3643::instruction::TokenInstruction;
use solana_erc3643::processor::Processor;
use solana_erc3643::pubkey::Pubkey;
use solana_erc3643::state::{
    ClaimTopics, Compliance, Identity, IdentityRegistry, Token, TokenAccount, TrustedIssuer,
    TrustedIssuers, ACCOUNT_FROZEN_FLAG,
};

const PROGRAM: u8 = 200;
const ISSUER: u8 = 1;
const ALICE: u8 = 2;
const BOB: u8 = 3;
const AGENT: u8 = 30;

fn key(n: u8) -> Pubkey {
    Pubkey::new_from_array([n; 32])
}

fn slot(len: usize, bytes: Vec<u8>) -> Vec<u8> {
    let mut data = vec![0u8; len];
    data[..bytes.len()].copy_from_slice(&bytes);
    data
}

fn owned(address: u8, signer: bool, data: Vec<u8>) -> AccountInfo {
    AccountInfo::new(key(address), signer, 0, data, key(PROGRAM))
}

fn wallet(address: u8, signer: bool) -> AccountInfo {
    AccountInfo::new(key(address), signer, 0, Vec::new(), key(0))
}

fn token(paused: bool, agents: &[u8]) -> Token {
    Token {
        is_initialized: true,
        owner: key(ISSUER),
        name: "Test Token".to_string(),
        symbol: "TEST".to_string(),
        decimals: 9,
        supply: 100,
        is_paused: paused,
        identity_registry: key(14),
        compliance: key(15),
        agents: agents.iter().map(|a| key(*a)).collect(),
    }
}

fn token_slot(paused: bool, agents: &[u8]) -> AccountInfo {
    owned(13, false, slot(Token::LEN, token(paused, agents).encode()))
}

fn holding(state: u8) -> TokenAccount {
    TokenAccount { is_initialized: true, token: key(13), owner: key(ALICE), amount: 100, state }
}

fn holding_slot(state: u8) -> AccountInfo {
    owned(11, false, slot(TokenAccount::LEN, holding(state).encode()))
}

fn registry(agents: &[u8]) -> IdentityRegistry {
    IdentityRegistry {
        is_initialized: true,
        owner: key(ISSUER),
        identity_storage: key(20),
        trusted_issuers_registry: key(21),
        claim_topics_registry: key(22),
        agents: agents.iter().map(|a| key(*a)).collect(),
    }
}

fn registry_slot(agents: &[u8]) -> AccountInfo {
    owned(14, false, slot(IdentityRegistry::LEN, registry(agents).encode()))
}

fn compliance(rules: &[u8]) -> Compliance {
    Compliance {
        is_initialized: true,
        owner: key(ISSUER),
        rules: rules.iter().map(|r| key(*r)).collect(),
    }
}

fn compliance_slot(rules: &[u8]) -> AccountInfo {
    owned(15, false, slot(Compliance::LEN, compliance(rules).encode()))
}

fn custom(e: TokenError) -> Result<(), ProgramError> {
    Err(ProgramError::from(e))
}

fn loaded_token(accounts: &[AccountInfo]) -> Token {
    Token::unpack(&accounts[1].data).unwrap()
}

#[test]
fn pausing_and_unpausing_set_the_flag_of_the_token() {
    let program = key(PROGRAM);
    let mut accounts = vec![wallet(ISSUER, true), token_slot(false, &[AGENT])];
    assert_eq!(Processor::process_pause(&mut accounts, &program), Ok(()));
    assert_eq!(loaded_token(&accounts), token(true, &[AGENT]));
    let paused = accounts.clone();
    assert_eq!(Processor::process_pause(&mut accounts, &program), Ok(()));
    assert_eq!(accounts, paused);
    assert_eq!(Processor::process_unpause(&mut accounts, &program), Ok(()));
    assert_eq!(loaded_token(&accounts), token(false, &[AGENT]));
    let running = accounts.clone();
    assert_eq!(Processor::process_unpause(&mut accounts, &program), Ok(()));
    assert_eq!(accounts, running);
}

#[test]
fn a_paused_token_moves_no_balance_until_it_is_unpaused() {
    let program = key(PROGRAM);
    let mut admin = vec![wallet(ISSUER, true), token_slot(false, &[])];
    Processor::process_pause(&mut admin, &program).unwrap();
    let mut burn = vec![wallet(ALICE, true), holding_slot(0), admin[1].clone()];
    assert_eq!(Processor::process_burn(&mut burn, 1, &program), custom(TokenError::TokenPaused));
    Processor::process_unpause(&mut admin, &program).unwrap();
    burn[2] = admin[1].clone();
    assert_eq!(Processor::process_burn(&mut burn, 1, &program), Ok(()));
}

#[test]
fn an_agent_who_is_not_the_owner_cannot_pause() {
    let program = key(PROGRAM);
    let mut accounts = vec![wallet(AGENT, true), token_slot(false, &[AGENT])];
    let before = accounts.clone();
    assert_eq!(Processor::process_pause(&mut accounts, &program), custom(TokenError::Unauthorized));
    assert_eq!(accounts, before);
    assert_eq!(
        Processor::process_unpause(&mut accounts, &program),
        custom(TokenError::Unauthorized)
    );
    accounts[0] = wallet(ALICE, true);
    assert_eq!(Processor::process_pause(&mut accounts, &program), custom(TokenError::Unauthorized));
}

#[test]
fn an_operation_of_the_owner_checks_in_order() {
    let program = key(PROGRAM);
    assert_eq!(
        Processor::process_pause(&mut vec![wallet(ISSUER, true)], &program),
        Err(ProgramError::NotEnoughAccountKeys)
    );
    let mut accounts = vec![wallet(ALICE, false), token_slot(false, &[])];
    accounts[1].owner = key(99);
    assert_eq!(
        Processor::process_pause(&mut accounts, &program),
        custom(TokenError::IncorrectProgramId)
    );
    let mut accounts = vec![wallet(ALICE, false), owned(13, false, vec![0u8; Token::LEN])];
    assert_eq!(
        Processor::process_pause(&mut accounts, &program),
        Err(ProgramError::MissingRequiredSignature)
    );
    accounts[0] = wallet(ALICE, true);
    assert_eq!(
        Processor::process_pause(&mut accounts, &program),
        Err(ProgramError::UninitializedAccount)
    );
    accounts[1] = owned(13, false, vec![0u8; 10]);
    assert_eq!(
        Processor::process_unpause(&mut accounts, &program),
        Err(ProgramError::InvalidAccountData)
    );
}

#[test]
fn freezing_and_unfreezing_set_bit_zero_of_the_flags() {
    let program = key(PROGRAM);
    let mut accounts = vec![wallet(AGENT, true), holding_slot(0xf0), token_slot(false, &[AGENT])];
    let before = accounts.clone();
    assert_eq!(Processor::process_freeze_address(&mut accounts, &program), Ok(()));
    assert_eq!(TokenAccount::unpack(&accounts[1].data), Ok(holding(0xf1)));
    assert_eq!(accounts[0], before[0]);
    assert_eq!(accounts[2], before[2]);
    let frozen = accounts.clone();
    assert_eq!(Processor::process_freeze_address(&mut accounts, &program), Ok(()));
    assert_eq!(accounts, frozen);
    assert_eq!(Processor::process_unfreeze_address(&mut accounts, &program), Ok(()));
    assert_eq!(TokenAccount::unpack(&accounts[1].data), Ok(holding(0xf0)));
    assert_eq!(accounts, before);
    assert_eq!(Processor::process_unfreeze_address(&mut accounts, &program), Ok(()));
    assert_eq!(accounts, before);
    assert_eq!(ACCOUNT_FROZEN_FLAG, 1);
}

#[test]
fn freezing_is_for_agents_only() {
    let program = key(PROGRAM);
    let mut accounts = vec![wallet(ISSUER, true), holding_slot(0), token_slot(false, &[AGENT])];
    let before = accounts.clone();
    assert_eq!(
        Processor::process_freeze_address(&mut accounts, &program),
        custom(TokenError::InvalidAgent)
    );
    assert_eq!(
        Processor::process_unfreeze_address(&mut accounts, &program),
        custom(TokenError::InvalidAgent)
    );
    assert_eq!(accounts, before);
    accounts[0] = wallet(AGENT, false);
    assert_eq!(
        Processor::process_freeze_address(&mut accounts, &program),
        Err(ProgramError::MissingRequiredSignature)
    );
    // an account of another token
    accounts[0] = wallet(AGENT, true);
    accounts[2].key = key(99);
    assert_eq!(
        Processor::process_freeze_address(&mut accounts, &program),
        Err(ProgramError::InvalidArgument)
    );
    accounts.pop();
    assert_eq!(
        Processor::process_unfreeze_address(&mut accounts, &program),
        Err(ProgramError::NotEnoughAccountKeys)
    );
}

#[test]
fn rebinding_the_policy_references_binds_later_operations() {
    let program = key(PROGRAM);
    let mut accounts = vec![wallet(ISSUER, true), token_slot(false, &[AGENT]), wallet(77, false)];
    assert_eq!(Processor::process_set_compliance(&mut accounts, &program), Ok(()));
    let mut expected = token(false, &[AGENT]);
    expected.compliance = key(77);
    assert_eq!(loaded_token(&accounts), expected);
    accounts[2] = wallet(78, false);
    assert_eq!(Processor::process_set_identity_registry(&mut accounts, &program), Ok(()));
    expected.identity_registry = key(78);
    assert_eq!(loaded_token(&accounts), expected);

    // a mint with the former registry is refused, with the new one accepted
    let destination = owned(12, false, slot(TokenAccount::LEN, holding(0).encode()));
    let mut storage = vec![0u8; 2 * Identity::LEN];
    let identity =
        Identity { is_initialized: true, owner: key(ALICE), identity_hash: [0; 32], country: 1 };
    storage[..67].copy_from_slice(&identity.encode());
    let mut mint = vec![
        wallet(AGENT, true),
        destination,
        accounts[1].clone(),
        registry_slot(&[]),
        owned(20, false, storage),
    ];
    assert_eq!(Processor::process_mint(&mut mint, 1, &program), Err(ProgramError::InvalidArgument));
    mint[3].key = key(78);
    assert_eq!(Processor::process_mint(&mut mint, 1, &program), Ok(()));

    accounts[0] = wallet(ALICE, true);
    let before = accounts.clone();
    assert_eq!(
        Processor::process_set_compliance(&mut accounts, &program),
        custom(TokenError::Unauthorized)
    );
    assert_eq!(
        Processor::process_set_identity_registry(&mut accounts, &program),
        custom(TokenError::Unauthorized)
    );
    assert_eq!(accounts, before);
    accounts.pop();
    assert_eq!(
        Processor::process_set_compliance(&mut accounts, &program),
        Err(ProgramError::NotEnoughAccountKeys)
    );
}

#[test]
fn an_agent_is_added_to_and_removed_from_the_roster_of_the_token() {
    let program = key(PROGRAM);
    let mut accounts = vec![wallet(ISSUER, true), token_slot(false, &[]), wallet(AGENT, false)];
    assert!(!loaded_token(&accounts).is_agent(&key(AGENT)));
    assert!(!loaded_token(&accounts).is_agent(&key(ISSUER)));
    assert_eq!(Processor::process_add_agent(&mut accounts, &program), Ok(()));
    assert_eq!(loaded_token(&accounts), token(false, &[AGENT]));
    assert!(loaded_token(&accounts).is_agent(&key(AGENT)));
    assert!(!loaded_token(&accounts).is_agent(&key(ISSUER)));
    // adding twice changes nothing
    let once = accounts.clone();
    assert_eq!(Processor::process_add_agent(&mut accounts, &program), Ok(()));
    assert_eq!(accounts, once);
    accounts[2] = wallet(BOB, false);
    assert_eq!(Processor::process_add_agent(&mut accounts, &program), Ok(()));
    assert_eq!(loaded_token(&accounts), token(false, &[AGENT, BOB]));

    // the agent freezes on this token, and not on another token of the same owner
    let mut freeze = vec![wallet(AGENT, true), holding_slot(0), accounts[1].clone()];
    assert_eq!(Processor::process_freeze_address(&mut freeze, &program), Ok(()));
    let mut other = vec![wallet(AGENT, true), holding_slot(0), token_slot(false, &[])];
    assert_eq!(
        Processor::process_freeze_address(&mut other, &program),
        custom(TokenError::InvalidAgent)
    );

    accounts[2] = wallet(AGENT, false);
    assert_eq!(Processor::process_remove_agent(&mut accounts, &program), Ok(()));
    assert_eq!(loaded_token(&accounts), token(false, &[BOB]));
    freeze[2] = accounts[1].clone();
    assert_eq!(
        Processor::process_freeze_address(&mut freeze, &program),
        custom(TokenError::InvalidAgent)
    );
    let before = accounts.clone();
    assert_eq!(
        Processor::process_remove_agent(&mut accounts, &program),
        custom(TokenError::InvalidAgent)
    );
    assert_eq!(accounts, before);
}

#[test]
fn adding_and_removing_an_agent_check_in_order() {
    let program = key(PROGRAM);
    let fresh = || vec![wallet(ISSUER, true), token_slot(false, &[]), wallet(AGENT, false)];
    let mut accounts = fresh();
    accounts[0] = wallet(AGENT, true);
    assert_eq!(
        Processor::process_add_agent(&mut accounts, &program),
        custom(TokenError::Unauthorized)
    );
    assert_eq!(
        Processor::process_remove_agent(&mut accounts, &program),
        custom(TokenError::Unauthorized)
    );
    let mut accounts = fresh();
    accounts.pop();
    assert_eq!(
        Processor::process_add_agent(&mut accounts, &program),
        Err(ProgramError::NotEnoughAccountKeys)
    );
    // a roster that leaves no room in the slot
    let mut full = token(false, &[]);
    full.agents = (100..111).map(key).collect();
    assert_eq!(full.encode().len(), 119 + 14 + 11 * 32);
    let mut accounts =
        vec![wallet(ISSUER, true), owned(13, false, slot(Token::LEN, full.encode())), wallet(AGENT, false)];
    let before = accounts.clone();
    assert_eq!(
        Processor::process_add_agent(&mut accounts, &program),
        Err(ProgramError::InvalidAccountData)
    );
    assert_eq!(accounts, before);
}

/// `[authority, registry, storage, holder]`, the storage with `slots` free slots
fn identity_accounts(authority: u8, slots: usize) -> Vec<AccountInfo> {
    vec![
        wallet(authority, true),
        registry_slot(&[AGENT]),
        owned(20, false, vec![0u8; slots * Identity::LEN]),
        wallet(ALICE, false),
    ]
}

fn identity(holder: u8, hash: u8, country: u16) -> Identity {
    Identity { is_initialized: true, owner: key(holder), identity_hash: [hash; 32], country }
}

fn stored_identity(accounts: &[AccountInfo], k: usize) -> Result<Identity, ProgramError> {
    Identity::unpack(&accounts[2].data[k * 128..(k + 1) * 128])
}

#[test]
fn an_identity_is_registered_updated_and_deleted() {
    let program = key(PROGRAM);
    let mut accounts = identity_accounts(ISSUER, 3);
    let record = registry(&[AGENT]);
    assert!(!record.identity_exists(&accounts[2], &key(ALICE)));
    assert!(!record.is_verified_address(&accounts[2], &key(ALICE)));
    let before = accounts.clone();
    assert_eq!(Processor::process_register_identity(&mut accounts, [7; 32], 840, &program), Ok(()));
    assert_eq!(stored_identity(&accounts, 0), Ok(identity(ALICE, 7, 840)));
    assert_eq!(accounts[1], before[1]);
    assert_eq!(accounts[3], before[3]);
    assert!(record.identity_exists(&accounts[2], &key(ALICE)));
    assert!(record.is_verified_address(&accounts[2], &key(ALICE)));
    assert!(!record.identity_exists(&accounts[2], &key(BOB)));

    let registered = accounts.clone();
    assert_eq!(
        Processor::process_register_identity(&mut accounts, [8; 32], 276, &program),
        custom(TokenError::IdentityAlreadyExists)
    );
    assert_eq!(accounts, registered);

    // a second holder takes the next slot
    accounts[3] = wallet(BOB, false);
    assert_eq!(Processor::process_register_identity(&mut accounts, [9; 32], 276, &program), Ok(()));
    assert_eq!(stored_identity(&accounts, 0), Ok(identity(ALICE, 7, 840)));
    assert_eq!(stored_identity(&accounts, 1), Ok(identity(BOB, 9, 276)));
    assert!(record.is_verified_address(&accounts[2], &key(BOB)));

    assert_eq!(Processor::process_update_identity(&mut accounts, [5; 32], &program), Ok(()));
    assert_eq!(stored_identity(&accounts, 1), Ok(identity(BOB, 5, 276)));
    assert_eq!(Processor::process_update_country(&mut accounts, 250, &program), Ok(()));
    assert_eq!(stored_identity(&accounts, 1), Ok(identity(BOB, 5, 250)));
    assert_eq!(stored_identity(&accounts, 0), Ok(identity(ALICE, 7, 840)));

    accounts[3] = wallet(ALICE, false);
    assert_eq!(Processor::process_delete_identity(&mut accounts, &program), Ok(()));
    assert_eq!(stored_identity(&accounts, 0), Err(ProgramError::UninitializedAccount));
    assert!(!record.identity_exists(&accounts[2], &key(ALICE)));
    assert!(!record.is_verified_address(&accounts[2], &key(ALICE)));
    assert!(record.is_verified_address(&accounts[2], &key(BOB)));
    let gone = accounts.clone();
    assert_eq!(
        Processor::process_delete_identity(&mut accounts, &program),
        custom(TokenError::IdentityNotFound)
    );
    assert_eq!(
        Processor::process_update_identity(&mut accounts, [1; 32], &program),
        custom(TokenError::IdentityNotFound)
    );
    assert_eq!(
        Processor::process_update_country(&mut accounts, 1, &program),
        custom(TokenError::IdentityNotFound)
    );
    assert_eq!(accounts, gone);
    // the slot is free again, and is the first free slot
    assert_eq!(Processor::process_register_identity(&mut accounts, [2; 32], 1, &program), Ok(()));
    assert_eq!(stored_identity(&accounts, 0), Ok(identity(ALICE, 2, 1)));
}

#[test]
fn a_storage_without_a_free_slot_takes_no_identity() {
    let program = key(PROGRAM);
    let mut accounts = identity_accounts(ISSUER, 1);
    assert_eq!(Processor::process_register_identity(&mut accounts, [7; 32], 840, &program), Ok(()));
    accounts[3] = wallet(BOB, false);
    let before = accounts.clone();
    assert_eq!(
        Processor::process_register_identity(&mut accounts, [7; 32], 840, &program),
        Err(ProgramError::InvalidAccountData)
    );
    assert_eq!(accounts, before);
    let mut accounts = identity_accounts(ISSUER, 0);
    assert_eq!(
        Processor::process_register_identity(&mut accounts, [7; 32], 840, &program),
        Err(ProgramError::InvalidAccountData)
    );
}

#[test]
fn the_identity_storage_must_be_the_one_of_the_registry() {
    let program = key(PROGRAM);
    let mut accounts = identity_accounts(ISSUER, 2);
    accounts[2].key = key(99);
    let before = accounts.clone();
    assert_eq!(
        Processor::process_register_identity(&mut accounts, [7; 32], 840, &program),
        Err(ProgramError::InvalidArgument)
    );
    assert_eq!(
        Processor::process_delete_identity(&mut accounts, &program),
        Err(ProgramError::InvalidArgument)
    );
    assert_eq!(accounts, before);
}

#[test]
fn the_owner_and_the_agents_of_the_registry_manage_identities() {
    let program = key(PROGRAM);
    let record = registry(&[AGENT]);
    assert!(record.is_agent(&key(AGENT)));
    assert!(!record.is_agent(&key(ISSUER)));
    assert!(!record.is_agent(&key(BOB)));
    let mut accounts = identity_accounts(AGENT, 2);
    assert_eq!(Processor::process_register_identity(&mut accounts, [7; 32], 840, &program), Ok(()));
    assert_eq!(Processor::process_update_country(&mut accounts, 1, &program), Ok(()));
    accounts[0] = wallet(ISSUER, true);
    assert_eq!(Processor::process_update_country(&mut accounts, 2, &program), Ok(()));
    accounts[0] = wallet(BOB, true);
    let before = accounts.clone();
    assert_eq!(
        Processor::process_register_identity(&mut accounts, [7; 32], 840, &program),
        custom(TokenError::Unauthorized)
    );
    assert_eq!(
        Processor::process_update_country(&mut accounts, 1, &program),
        custom(TokenError::Unauthorized)
    );
    assert_eq!(
        Processor::process_delete_identity(&mut accounts, &program),
        custom(TokenError::Unauthorized)
    );
    assert_eq!(accounts, before);
}

#[test]
fn identity_operations_check_in_order() {
    let program = key(PROGRAM);
    let mut accounts = identity_accounts(ISSUER, 2);
    accounts.pop();
    assert_eq!(
        Processor::process_register_identity(&mut accounts, [7; 32], 840, &program),
        Err(ProgramError::NotEnoughAccountKeys)
    );
    for i in 1..3 {
        let mut accounts = identity_accounts(ISSUER, 2);
        accounts[0].is_signer = false;
        accounts[i].owner = key(99);
        assert_eq!(
            Processor::process_register_identity(&mut accounts, [7; 32], 840, &program),
            custom(TokenError::IncorrectProgramId)
        );
    }
    let mut accounts = identity_accounts(ISSUER, 2);
    accounts[0].is_signer = false;
    assert_eq!(
        Processor::process_register_identity(&mut accounts, [7; 32], 840, &program),
        Err(ProgramError::MissingRequiredSignature)
    );
    let mut accounts = identity_accounts(ISSUER, 2);
    accounts[1] = owned(14, false, vec![0u8; IdentityRegistry::LEN]);
    assert_eq!(
        Processor::process_register_identity(&mut accounts, [7; 32], 840, &program),
        Err(ProgramError::UninitializedAccount)
    );
}

fn claim_topics(topics: &[u64]) -> ClaimTopics {
    ClaimTopics { is_initialized: true, owner: key(ISSUER), topics: topics.to_vec() }
}

fn claim_topics_accounts(signer: u8, topics: &[u64]) -> Vec<AccountInfo> {
    vec![
        wallet(signer, true),
        owned(22, false, slot(ClaimTopics::LEN, claim_topics(topics).encode())),
    ]
}

#[test]
fn claim_topics_are_added_and_removed() {
    let program = key(PROGRAM);
    let mut accounts = claim_topics_accounts(ISSUER, &[]);
    assert_eq!(Processor::process_add_claim_topic(&mut accounts, 7, &program), Ok(()));
    assert_eq!(ClaimTopics::unpack(&accounts[1].data), Ok(claim_topics(&[7])));
    assert_eq!(Processor::process_add_claim_topic(&mut accounts, 9, &program), Ok(()));
    assert_eq!(ClaimTopics::unpack(&accounts[1].data), Ok(claim_topics(&[7, 9])));
    let twice = accounts.clone();
    assert_eq!(Processor::process_add_claim_topic(&mut accounts, 7, &program), Ok(()));
    assert_eq!(accounts, twice);
    assert_eq!(Processor::process_remove_claim_topic(&mut accounts, 7, &program), Ok(()));
    assert_eq!(ClaimTopics::unpack(&accounts[1].data), Ok(claim_topics(&[9])));
    let before = accounts.clone();
    assert_eq!(
        Processor::process_remove_claim_topic(&mut accounts, 7, &program),
        custom(TokenError::InvalidClaimTopic)
    );
    assert_eq!(accounts, before);
    // a record that leaves no room in its slot
    let full: Vec<u64> = (0..27).collect();
    let mut accounts = claim_topics_accounts(ISSUER, &full);
    let before = accounts.clone();
    assert_eq!(
        Processor::process_add_claim_topic(&mut accounts, 100, &program),
        custom(TokenError::InvalidClaimTopic)
    );
    assert_eq!(accounts, before);
}

#[test]
fn claim_topics_are_for_the_owner_of_the_record() {
    let program = key(PROGRAM);
    let mut accounts = claim_topics_accounts(BOB, &[7]);
    let before = accounts.clone();
    assert_eq!(
        Processor::process_add_claim_topic(&mut accounts, 1, &program),
        custom(TokenError::Unauthorized)
    );
    assert_eq!(
        Processor::process_remove_claim_topic(&mut accounts, 7, &program),
        custom(TokenError::Unauthorized)
    );
    assert_eq!(accounts, before);
    accounts[0] = wallet(ISSUER, false);
    assert_eq!(
        Processor::process_add_claim_topic(&mut accounts, 1, &program),
        Err(ProgramError::MissingRequiredSignature)
    );
    accounts[1].owner = key(99);
    assert_eq!(
        Processor::process_add_claim_topic(&mut accounts, 1, &program),
        custom(TokenError::IncorrectProgramId)
    );
    assert_eq!(
        Processor::process_add_claim_topic(&mut vec![wallet(ISSUER, true)], 1, &program),
        Err(ProgramError::NotEnoughAccountKeys)
    );
}

fn issuer_accounts(signer: u8) -> Vec<AccountInfo> {
    let registry = TrustedIssuers { is_initialized: true, owner: key(ISSUER) };
    vec![
        wallet(signer, true),
        owned(21, false, slot(TrustedIssuers::LEN, registry.encode())),
        owned(50, false, vec![0u8; TrustedIssuer::LEN]),
    ]
}

fn issuer(topics: &[u64]) -> TrustedIssuer {
    TrustedIssuer { is_initialized: true, registry: key(21), topics: topics.to_vec() }
}

#[test]
fn trusted_issuers_are_added_updated_and_removed() {
    let program = key(PROGRAM);
    let mut accounts = issuer_accounts(ISSUER);
    let before = accounts.clone();
    assert_eq!(Processor::process_add_trusted_issuer(&mut accounts, vec![1, 2], &program), Ok(()));
    assert_eq!(TrustedIssuer::unpack(&accounts[2].data), Ok(issuer(&[1, 2])));
    assert_eq!(accounts[1], before[1]);
    let added = accounts.clone();
    assert_eq!(
        Processor::process_add_trusted_issuer(&mut accounts, vec![3], &program),
        custom(TokenError::InvalidIssuer)
    );
    assert_eq!(accounts, added);
    assert_eq!(
        Processor::process_update_issuer_claim_topics(&mut accounts, vec![9], &program),
        Ok(())
    );
    assert_eq!(TrustedIssuer::unpack(&accounts[2].data), Ok(issuer(&[9])));
    assert_eq!(
        Processor::process_update_issuer_claim_topics(&mut accounts, (0..28).collect(), &program),
        custom(TokenError::InvalidClaimTopic)
    );
    assert_eq!(
        Processor::process_update_issuer_claim_topics(&mut accounts, (0..27).collect(), &program),
        Ok(())
    );
    assert_eq!(Processor::process_remove_trusted_issuer(&mut accounts, &program), Ok(()));
    assert_eq!(TrustedIssuer::unpack(&accounts[2].data), Err(ProgramError::UninitializedAccount));
    assert_eq!(
        Processor::process_remove_trusted_issuer(&mut accounts, &program),
        Err(ProgramError::UninitializedAccount)
    );
    assert_eq!(
        Processor::process_update_issuer_claim_topics(&mut accounts, vec![], &program),
        Err(ProgramError::UninitializedAccount)
    );
    assert_eq!(Processor::process_add_trusted_issuer(&mut accounts, vec![], &program), Ok(()));
    assert_eq!(TrustedIssuer::unpack(&accounts[2].data), Ok(issuer(&[])));
}

#[test]
fn trusted_issuers_are_for_the_owner_of_their_registry() {
    let program = key(PROGRAM);
    let mut accounts = issuer_accounts(BOB);
    let before = accounts.clone();
    assert_eq!(
        Processor::process_add_trusted_issuer(&mut accounts, vec![1], &program),
        custom(TokenError::Unauthorized)
    );
    assert_eq!(
        Processor::process_remove_trusted_issuer(&mut accounts, &program),
        custom(TokenError::Unauthorized)
    );
    assert_eq!(
        Processor::process_update_issuer_claim_topics(&mut accounts, vec![1], &program),
        custom(TokenError::Unauthorized)
    );
    assert_eq!(accounts, before);
    // an issuer of another registry is not this registry's to change
    let mut accounts = issuer_accounts(ISSUER);
    let mut foreign = issuer(&[1]);
    foreign.registry = key(99);
    accounts[2].data = slot(TrustedIssuer::LEN, foreign.encode());
    let before = accounts.clone();
    assert_eq!(
        Processor::process_remove_trusted_issuer(&mut accounts, &program),
        custom(TokenError::InvalidIssuer)
    );
    assert_eq!(
        Processor::process_update_issuer_claim_topics(&mut accounts, vec![1], &program),
        custom(TokenError::InvalidIssuer)
    );
    assert_eq!(
        Processor::process_add_trusted_issuer(&mut accounts, vec![1], &program),
        custom(TokenError::InvalidIssuer)
    );
    assert_eq!(accounts, before);
    let mut accounts = issuer_accounts(ISSUER);
    accounts[2] = owned(50, false, vec![0u8; 10]);
    assert_eq!(
        Processor::process_add_trusted_issuer(&mut accounts, vec![1], &program),
        Err(ProgramError::InvalidAccountData)
    );
    accounts[2].owner = key(99);
    assert_eq!(
        Processor::process_add_trusted_issuer(&mut accounts, vec![1], &program),
        custom(TokenError::IncorrectProgramId)
    );
    accounts.pop();
    assert_eq!(
        Processor::process_remove_trusted_issuer(&mut accounts, &program),
        Err(ProgramError::NotEnoughAccountKeys)
    );
}

#[test]
fn compliance_rules_are_added_and_removed_and_decide() {
    let program = key(PROGRAM);
    let mut accounts = vec![wallet(ISSUER, true), compliance_slot(&[]), wallet(BOB, false)];
    assert!(Compliance::unpack(&accounts[1].data).unwrap().check_transfer(&key(ALICE), &key(BOB), 1));
    assert_eq!(Processor::process_add_compliance_rule(&mut accounts, &program), Ok(()));
    let record = Compliance::unpack(&accounts[1].data).unwrap();
    assert_eq!(record, compliance(&[BOB]));
    assert!(!record.check_transfer(&key(ALICE), &key(BOB), 1));
    assert!(!record.check_transfer(&key(BOB), &key(ALICE), 1));
    assert!(record.check_transfer(&key(ALICE), &key(ISSUER), 1));
    let once = accounts.clone();
    assert_eq!(Processor::process_add_compliance_rule(&mut accounts, &program), Ok(()));
    assert_eq!(accounts, once);
    accounts[2] = wallet(77, false);
    assert_eq!(Processor::process_add_compliance_rule(&mut accounts, &program), Ok(()));
    assert_eq!(Compliance::unpack(&accounts[1].data), Ok(compliance(&[BOB, 77])));
    // the slot holds two rules and no third
    accounts[2] = wallet(78, false);
    let full = accounts.clone();
    assert_eq!(
        Processor::process_add_compliance_rule(&mut accounts, &program),
        Err(ProgramError::InvalidAccountData)
    );
    assert_eq!(accounts, full);
    assert_eq!(
        Processor::process_remove_compliance_rule(&mut accounts, &program),
        Err(ProgramError::InvalidArgument)
    );
    accounts[2] = wallet(BOB, false);
    assert_eq!(Processor::process_remove_compliance_rule(&mut accounts, &program), Ok(()));
    let record = Compliance::unpack(&accounts[1].data).unwrap();
    assert_eq!(record, compliance(&[77]));
    assert!(record.check_transfer(&key(ALICE), &key(BOB), 1));
}

#[test]
fn the_rules_of_the_policy_are_for_its_owner() {
    let program = key(PROGRAM);
    let mut accounts = vec![wallet(BOB, true), compliance_slot(&[ALICE]), wallet(60, false)];
    let before = accounts.clone();
    assert_eq!(
        Processor::process_add_compliance_rule(&mut accounts, &program),
        custom(TokenError::Unauthorized)
    );
    assert_eq!(
        Processor::process_remove_compliance_rule(&mut accounts, &program),
        custom(TokenError::Unauthorized)
    );
    assert_eq!(accounts, before);
    accounts[0] = wallet(ISSUER, false);
    assert_eq!(
        Processor::process_add_compliance_rule(&mut accounts, &program),
        Err(ProgramError::MissingRequiredSignature)
    );
    accounts[0] = wallet(ISSUER, true);
    accounts[1] = owned(15, false, vec![0u8; Compliance::LEN]);
    assert_eq!(
        Processor::process_add_compliance_rule(&mut accounts, &program),
        Err(ProgramError::UninitializedAccount)
    );
    accounts[1].owner = key(99);
    assert_eq!(
        Processor::process_remove_compliance_rule(&mut accounts, &program),
        custom(TokenError::IncorrectProgramId)
    );
    accounts.pop();
    assert_eq!(
        Processor::process_add_compliance_rule(&mut accounts, &program),
        Err(ProgramError::NotEnoughAccountKeys)
    );
}

#[test]
fn every_administrative_instruction_reaches_its_operation() {
    let program = key(PROGRAM);
    let run = |accounts: &mut Vec<AccountInfo>, ix: TokenInstruction| {
        Processor::process(&program, accounts, &ix.encode())
    };
    let mut accounts = vec![wallet(ISSUER, true), token_slot(false, &[]), wallet(77, false)];
    assert_eq!(run(&mut accounts, TokenInstruction::Pause), Ok(()));
    assert!(loaded_token(&accounts).is_paused);
    assert_eq!(run(&mut accounts, TokenInstruction::Unpause), Ok(()));
    assert!(!loaded_token(&accounts).is_paused);
    assert_eq!(run(&mut accounts, TokenInstruction::SetCompliance), Ok(()));
    assert_eq!(loaded_token(&accounts).compliance, key(77));
    assert_eq!(run(&mut accounts, TokenInstruction::SetIdentityRegistry), Ok(()));
    assert_eq!(loaded_token(&accounts).identity_registry, key(77));
    assert_eq!(run(&mut accounts, TokenInstruction::AddAgent), Ok(()));
    assert!(loaded_token(&accounts).is_agent(&key(77)));
    assert_eq!(run(&mut accounts, TokenInstruction::RemoveAgent), Ok(()));
    assert!(!loaded_token(&accounts).is_agent(&key(77)));

    let mut accounts = vec![wallet(AGENT, true), holding_slot(0), token_slot(false, &[AGENT])];
    assert_eq!(run(&mut accounts, TokenInstruction::FreezeAddress), Ok(()));
    assert!(TokenAccount::unpack(&accounts[1].data).unwrap().is_frozen());
    assert_eq!(run(&mut accounts, TokenInstruction::UnfreezeAddress), Ok(()));
    assert!(!TokenAccount::unpack(&accounts[1].data).unwrap().is_frozen());

    let mut accounts = identity_accounts(ISSUER, 2);
    assert_eq!(
        run(&mut accounts, TokenInstruction::RegisterIdentity { identity: [7; 32], country: 840 }),
        Ok(())
    );
    assert_eq!(run(&mut accounts, TokenInstruction::UpdateIdentity { identity: [8; 32] }), Ok(()));
    assert_eq!(run(&mut accounts, TokenInstruction::UpdateCountry { country: 276 }), Ok(()));
    assert_eq!(stored_identity(&accounts, 0), Ok(identity(ALICE, 8, 276)));
    assert_eq!(run(&mut accounts, TokenInstruction::DeleteIdentity), Ok(()));
    assert!(stored_identity(&accounts, 0).is_err());

    let mut accounts = claim_topics_accounts(ISSUER, &[]);
    assert_eq!(run(&mut accounts, TokenInstruction::AddClaimTopic { topic: 1 }), Ok(()));
    assert_eq!(ClaimTopics::unpack(&accounts[1].data).unwrap().topics, vec![1]);
    assert_eq!(run(&mut accounts, TokenInstruction::RemoveClaimTopic { topic: 1 }), Ok(()));
    assert!(ClaimTopics::unpack(&accounts[1].data).unwrap().topics.is_empty());

    let mut accounts = issuer_accounts(ISSUER);
    assert_eq!(
        run(&mut accounts, TokenInstruction::AddTrustedIssuer { claim_topics: vec![1] }),
        Ok(())
    );
    assert_eq!(
        run(&mut accounts, TokenInstruction::UpdateIssuerClaimTopics { claim_topics: vec![2] }),
        Ok(())
    );
    assert_eq!(TrustedIssuer::unpack(&accounts[2].data).unwrap().topics, vec![2]);
    assert_eq!(run(&mut accounts, TokenInstruction::RemoveTrustedIssuer), Ok(()));
    assert!(TrustedIssuer::unpack(&accounts[2].data).is_err());

    let mut accounts = vec![wallet(ISSUER, true), compliance_slot(&[]), wallet(60, false)];
    assert_eq!(run(&mut accounts, TokenInstruction::AddComplianceRule), Ok(()));
    assert_eq!(Compliance::unpack(&accounts[1].data).unwrap().rules, vec![key(60)]);
    assert_eq!(run(&mut accounts, TokenInstruction::RemoveComplianceRule), Ok(()));
    assert!(Compliance::unpack(&accounts[1].data).unwrap().rules.is_empty());

    let mut accounts = vec![
        wallet(ISSUER, true),
        holding_slot(0),
        owned(12, false, slot(TokenAccount::LEN, holding(0).encode())),
        token_slot(false, &[]),
    ];
    assert_eq!(run(&mut accounts, TokenInstruction::Recover { amount: 30 }), Ok(()));
    assert_eq!(TokenAccount::unpack(&accounts[1].data).unwrap().amount, 70);
    assert_eq!(TokenAccount::unpack(&accounts[2].data).unwrap().amount, 130);
}
