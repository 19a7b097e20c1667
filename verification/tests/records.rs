use solana_erc3643::error::ProgramError;
use solana_erc3643::pubkey::Pubkey;
use solana_erc3643::account::AccountInfo;
use solana_erc3643::state::{
    Agent, ClaimTopics, Compliance, Identity, IdentityRegistry, Token, TokenAccount,
    TrustedIssuer, TrustedIssuers, ACCOUNT_FROZEN_FLAG,
};

fn key(n: u8) -> Pubkey {
    Pubkey::new_from_array([n; 32])
}

fn sample_token() -> Token {
    Token {
        is_initialized: true,
        owner: key(1),
        name: "Test Token".to_string(),
        symbol: "TEST".to_string(),
        decimals: 9,
        supply: 1_000_000,
        is_paused: false,
        identity_registry: key(2),
        compliance: key(3),
        agents: vec![key(8), key(9)],
    }
}

fn sample_account() -> TokenAccount {
    TokenAccount { is_initialized: true, token: key(4), owner: key(5), amount: 100, state: 0 }
}

#[test]
fn slot_lengths_are_fixed() {
    assert_eq!(Token::LEN, 512);
    assert_eq!(TokenAccount::LEN, 128);
    assert_eq!(Identity::LEN, 128);
    assert_eq!(IdentityRegistry::LEN, 256);
    assert_eq!(Compliance::LEN, 128);
    assert_eq!(Agent::LEN, 64);
    assert_eq!(ClaimTopics::LEN, 256);
    assert_eq!(TrustedIssuers::LEN, 128);
    assert_eq!(TrustedIssuer::LEN, 256);
    assert_eq!(ACCOUNT_FROZEN_FLAG, 1);
}

#[test]
fn a_token_account_is_laid_out_as_borsh_lays_out_its_fields() {
    let record = sample_account();
    let bytes = record.encode();
    assert_eq!(bytes.len(), 74);
    assert_eq!(bytes, borsh::to_vec(&(true, [4u8; 32], [5u8; 32], 100u64, 0u8)).unwrap());
    assert_eq!(TokenAccount::unpack_from_slice(&bytes), Ok(record));
}

#[test]
fn a_token_is_laid_out_as_borsh_lays_out_its_fields() {
    let record = sample_token();
    let bytes = record.encode();
    assert_eq!(bytes.len(), 119 + 10 + 4 + 2 * 32);
    let expected = borsh::to_vec(&(
        true,
        [1u8; 32],
        "Test Token".to_string(),
        "TEST".to_string(),
        9u8,
        1_000_000u64,
        false,
        [2u8; 32],
        [3u8; 32],
        vec![[8u8; 32], [9u8; 32]],
    ))
    .unwrap();
    assert_eq!(bytes, expected);
    assert_eq!(Token::unpack_from_slice(&bytes), Ok(record));
}

#[test]
fn the_other_records_are_laid_out_as_borsh_lays_out_their_fields() {
    let identity =
        Identity { is_initialized: true, owner: key(6), identity_hash: [7; 32], country: 840 };
    assert_eq!(identity.encode(), borsh::to_vec(&(true, [6u8; 32], [7u8; 32], 840u16)).unwrap());
    assert_eq!(identity.encode().len(), 67);
    assert_eq!(Identity::unpack_from_slice(&identity.encode()), Ok(identity));

    let registry = IdentityRegistry {
        is_initialized: true,
        owner: key(1),
        identity_storage: key(2),
        trusted_issuers_registry: key(3),
        claim_topics_registry: key(4),
        agents: vec![key(5)],
    };
    assert_eq!(
        registry.encode(),
        borsh::to_vec(&(true, [1u8; 32], [2u8; 32], [3u8; 32], [4u8; 32], vec![[5u8; 32]]))
            .unwrap()
    );
    assert_eq!(registry.encode().len(), 133 + 32);
    assert_eq!(IdentityRegistry::unpack_from_slice(&registry.encode()), Ok(registry));

    let compliance = Compliance { is_initialized: true, owner: key(8), rules: vec![key(6)] };
    assert_eq!(compliance.encode(), borsh::to_vec(&(true, [8u8; 32], vec![[6u8; 32]])).unwrap());
    assert_eq!(Compliance::unpack_from_slice(&compliance.encode()), Ok(compliance));

    let topics = ClaimTopics { is_initialized: true, owner: key(1), topics: vec![7, 9] };
    assert_eq!(topics.encode(), borsh::to_vec(&(true, [1u8; 32], vec![7u64, 9])).unwrap());
    assert_eq!(ClaimTopics::unpack_from_slice(&topics.encode()), Ok(topics));

    let issuers = TrustedIssuers { is_initialized: true, owner: key(1) };
    assert_eq!(issuers.encode(), borsh::to_vec(&(true, [1u8; 32])).unwrap());
    assert_eq!(TrustedIssuers::unpack_from_slice(&issuers.encode()), Ok(issuers));

    let issuer = TrustedIssuer { is_initialized: true, registry: key(2), topics: vec![] };
    assert_eq!(issuer.encode(), borsh::to_vec(&(true, [2u8; 32], Vec::<u64>::new())).unwrap());
    assert_eq!(TrustedIssuer::unpack_from_slice(&issuer.encode()), Ok(issuer));

    let agent = Agent { is_initialized: false, key: key(9) };
    assert_eq!(agent.encode(), borsh::to_vec(&(false, [9u8; 32])).unwrap());
    assert_eq!(agent.encode().len(), 33);
    assert_eq!(Agent::unpack_from_slice(&agent.encode()), Ok(agent));
}

#[test]
fn a_record_is_stored_at_the_start_of_its_slot_and_loaded_from_there() {
    let record = sample_account();
    let mut slot = vec![0xaau8; TokenAccount::LEN];
    assert_eq!(TokenAccount::pack(record, &mut slot), Ok(()));
    assert_eq!(&slot[..74], &record.encode()[..]);
    assert!(slot[74..].iter().all(|b| *b == 0xaa));
    assert_eq!(TokenAccount::unpack(&slot), Ok(record));
    assert_eq!(TokenAccount::unpack_unchecked(&slot), Ok(record));

    let token = sample_token();
    let mut slot = vec![0u8; Token::LEN];
    assert_eq!(Token::pack(token.clone(), &mut slot), Ok(()));
    assert_eq!(Token::unpack(&slot), Ok(token.clone()));
    let mut renamed = token;
    renamed.supply = 7;
    renamed.is_paused = true;
    renamed.pack_into_slice(&mut slot);
    assert_eq!(Token::unpack(&slot), Ok(renamed));
}

#[test]
fn a_slot_of_another_length_is_refused() {
    let record = sample_account();
    let mut short = vec![0u8; 127];
    assert_eq!(TokenAccount::pack(record, &mut short), Err(ProgramError::InvalidAccountData));
    assert_eq!(short, vec![0u8; 127]);
    let mut long = vec![0u8; 129];
    assert_eq!(TokenAccount::pack(record, &mut long), Err(ProgramError::InvalidAccountData));
    assert_eq!(long, vec![0u8; 129]);

    let mut bytes = record.encode();
    assert_eq!(TokenAccount::unpack(&bytes), Err(ProgramError::InvalidAccountData));
    bytes.resize(TokenAccount::LEN, 0);
    assert_eq!(TokenAccount::unpack(&bytes), Ok(record));
    bytes.push(0);
    assert_eq!(TokenAccount::unpack(&bytes), Err(ProgramError::InvalidAccountData));

    let mut slot = vec![0u8; 511];
    assert_eq!(Token::pack(sample_token(), &mut slot), Err(ProgramError::InvalidAccountData));
    assert_eq!(Token::unpack(&slot), Err(ProgramError::InvalidAccountData));
    assert_eq!(Agent::unpack(&[0u8; 63]), Err(ProgramError::InvalidAccountData));
    assert_eq!(IdentityRegistry::unpack(&[0u8; 128]), Err(ProgramError::InvalidAccountData));
    assert_eq!(ClaimTopics::unpack(&[0u8; 255]), Err(ProgramError::InvalidAccountData));
    assert_eq!(TrustedIssuer::unpack(&[0u8; 257]), Err(ProgramError::InvalidAccountData));
}

#[test]
fn a_record_that_is_not_initialized_is_not_loaded() {
    assert_eq!(TokenAccount::unpack(&[0u8; 128]), Err(ProgramError::UninitializedAccount));
    assert_eq!(Token::unpack(&[0u8; 512]), Err(ProgramError::UninitializedAccount));
    assert_eq!(Identity::unpack(&[0u8; 128]), Err(ProgramError::UninitializedAccount));
    assert_eq!(IdentityRegistry::unpack(&[0u8; 256]), Err(ProgramError::UninitializedAccount));
    assert_eq!(Compliance::unpack(&[0u8; 128]), Err(ProgramError::UninitializedAccount));
    assert_eq!(Agent::unpack(&[0u8; 64]), Err(ProgramError::UninitializedAccount));
    let blank = TokenAccount::unpack_unchecked(&[0u8; 128]).unwrap();
    assert!(!blank.is_initialized());
    assert_eq!(blank.amount, 0);
}

#[test]
fn bytes_that_spell_no_record_are_not_loaded() {
    let mut slot = vec![0u8; TokenAccount::LEN];
    slot[0] = 2;
    assert_eq!(TokenAccount::unpack(&slot), Err(ProgramError::InvalidAccountData));
    assert_eq!(TokenAccount::unpack_unchecked(&slot), Err(ProgramError::InvalidAccountData));
    assert_eq!(TokenAccount::unpack_from_slice(&[1u8; 73]), Err(ProgramError::InvalidAccountData));

    let mut slot = vec![0u8; Token::LEN];
    Token::pack(sample_token(), &mut slot).unwrap();
    let mut bad_name = slot.clone();
    bad_name[37] = 0xff;
    assert_eq!(Token::unpack(&bad_name), Err(ProgramError::InvalidAccountData));
    let mut long_name = slot.clone();
    long_name[33] = 0xff;
    long_name[34] = 0xff;
    assert_eq!(Token::unpack(&long_name), Err(ProgramError::InvalidAccountData));
    let mut bad_flag = slot.clone();
    bad_flag[33 + 14 + 8 + 1 + 8] = 7;
    let mut long_roster = slot.clone();
    long_roster[33 + 14 + 8 + 1 + 8 + 1 + 64] = 0xff;
    assert_eq!(Token::unpack(&long_roster), Err(ProgramError::InvalidAccountData));
    assert_eq!(Token::unpack(&bad_flag), Err(ProgramError::InvalidAccountData));
}

#[test]
fn the_longest_token_that_fits_fills_its_slot() {
    let mut token = sample_token();
    token.name = "n".repeat(200);
    token.symbol = "s".repeat(129);
    let bytes = token.encode();
    assert_eq!(bytes.len(), Token::LEN);
    let mut slot = vec![0u8; Token::LEN];
    assert_eq!(Token::pack(token.clone(), &mut slot), Ok(()));
    assert_eq!(slot, bytes);
    assert_eq!(Token::unpack(&slot), Ok(token));
}

#[test]
fn the_roster_of_a_token_decides_who_is_its_agent() {
    let token = sample_token();
    assert!(token.is_agent(&key(8)));
    assert!(token.is_agent(&key(9)));
    // the owner is not on the roster
    assert!(!token.is_agent(&key(1)));
    assert!(!token.is_agent(&key(2)));
    let mut bare = sample_token();
    bare.agents.clear();
    assert!(!bare.is_agent(&key(8)));
    assert!(!bare.is_agent(&key(1)));
    bare.agents.push(key(1));
    assert!(bare.is_agent(&key(1)));
    assert!(token.is_initialized());
}

fn storage(holders: &[u8], address: u8) -> AccountInfo {
    let mut data = vec![0u8; 3 * Identity::LEN + 5];
    for (k, h) in holders.iter().enumerate() {
        let identity =
            Identity { is_initialized: true, owner: key(*h), identity_hash: [0; 32], country: 1 };
        data[k * 128..k * 128 + 67].copy_from_slice(&identity.encode());
    }
    AccountInfo::new(key(address), false, 0, data, key(200))
}

#[test]
fn the_registry_verifies_the_holders_whose_identity_its_storage_holds() {
    let registry = IdentityRegistry {
        is_initialized: true,
        owner: key(1),
        identity_storage: key(2),
        trusted_issuers_registry: key(3),
        claim_topics_registry: key(4),
        agents: vec![key(5)],
    };
    let held = storage(&[10, 11], 2);
    for holder in [10, 11] {
        assert!(registry.identity_exists(&held, &key(holder)));
        assert!(registry.is_verified_address(&held, &key(holder)));
    }
    for stranger in [1, 5, 12, 0] {
        assert!(!registry.identity_exists(&held, &key(stranger)));
        assert!(!registry.is_verified_address(&held, &key(stranger)));
    }
    // a storage that is not the registry's holds nothing for it
    let foreign = storage(&[10, 11], 9);
    assert!(!registry.identity_exists(&foreign, &key(10)));
    assert!(!registry.is_verified_address(&foreign, &key(10)));
    // nor does an empty storage, nor one too short for a slot
    assert!(!registry.is_verified_address(&storage(&[], 2), &key(10)));
    let short = AccountInfo::new(key(2), false, 0, vec![1u8; 100], key(200));
    assert!(!registry.identity_exists(&short, &key(10)));
    // an identity that is not initialized is none
    let mut cleared = storage(&[10, 11], 2);
    cleared.data[0] = 0;
    assert!(!registry.is_verified_address(&cleared, &key(10)));
    assert!(registry.is_verified_address(&cleared, &key(11)));
    assert!(registry.is_agent(&key(5)));
    assert!(!registry.is_agent(&key(1)));
    assert!(registry.is_initialized());
}

#[test]
fn the_policy_lets_a_transfer_pass_unless_a_rule_bars_a_party() {
    let open = Compliance { is_initialized: true, owner: key(1), rules: vec![] };
    assert!(open.check_transfer(&key(2), &key(3), 0));
    assert!(open.check_transfer(&key(2), &key(2), u64::MAX));
    let ruled = Compliance { is_initialized: true, owner: key(1), rules: vec![key(7), key(3)] };
    assert!(ruled.check_transfer(&key(2), &key(4), 5));
    assert!(!ruled.check_transfer(&key(3), &key(4), 5));
    assert!(!ruled.check_transfer(&key(4), &key(3), 5));
    assert!(!ruled.check_transfer(&key(7), &key(3), 5));
    assert!(!ruled.check_transfer(&key(2), &key(7), 0));
    assert!(ruled.is_initialized());
}

#[test]
fn bit_zero_of_the_flags_marks_an_account_frozen() {
    let mut account = sample_account();
    assert!(!account.is_frozen());
    account.state = 1;
    assert!(account.is_frozen());
    account.state = 0xfe;
    assert!(!account.is_frozen());
    account.state = 0xff;
    assert!(account.is_frozen());
}

#[test]
fn addresses_compare_by_their_bytes() {
    assert_eq!(key(1), key(1));
    assert_ne!(key(1), key(2));
    let mut bytes = [1u8; 32];
    bytes[31] = 2;
    assert_ne!(Pubkey::new_from_array(bytes), key(1));
    assert_eq!(Pubkey::new_from_array(bytes).to_bytes(), bytes);
}
