use solana_erc3643::error::{ProgramError, TokenError};

fn all() -> Vec<TokenError> {
    vec![
        TokenError::InvalidInstruction,
        TokenError::NotRentExempt,
        TokenError::IncorrectProgramId,
        TokenError::InvalidOwner,
        TokenError::IdentityNotVerified,
        TokenError::AddressFrozen,
        TokenError::TransferNotCompliant,
        TokenError::Unauthorized,
        TokenError::InvalidIdentity,
        TokenError::IdentityAlreadyExists,
        TokenError::IdentityNotFound,
        TokenError::InsufficientFunds,
        TokenError::InvalidAgent,
        TokenError::TokenPaused,
        TokenError::TransferExceedsLimit,
        TokenError::InvalidClaimTopic,
        TokenError::InvalidIssuer,
    ]
}

#[test]
fn codes_follow_the_order_of_declaration() {
    let errors = all();
    assert_eq!(errors.len(), 17);
    for (i, e) in errors.iter().enumerate() {
        assert_eq!(e.code(), i as u32);
    }
    assert_eq!(TokenError::InsufficientFunds.code(), 11);
    assert_eq!(TokenError::TokenPaused.code(), 13);
}

#[test]
fn from_code_finds_every_variant_again() {
    for e in all() {
        assert_eq!(TokenError::from_code(e.code()), Some(e));
    }
    assert_eq!(TokenError::from_code(17), None);
    assert_eq!(TokenError::from_code(u32::MAX), None);
}

#[test]
fn messages_describe_the_errors() {
    assert_eq!(TokenError::InvalidInstruction.to_string(), "Invalid instruction");
    assert_eq!(TokenError::NotRentExempt.to_string(), "Not rent exempt");
    assert_eq!(TokenError::IncorrectProgramId.to_string(), "Expected a different program owner");
    assert_eq!(TokenError::InvalidOwner.to_string(), "Invalid account owner");
    assert_eq!(TokenError::IdentityNotVerified.to_string(), "Identity not verified");
    assert_eq!(TokenError::AddressFrozen.to_string(), "Address is frozen");
    assert_eq!(TokenError::TransferNotCompliant.to_string(), "Transfer not compliant");
    assert_eq!(TokenError::Unauthorized.to_string(), "Account is not authorized for operation");
    assert_eq!(TokenError::InvalidIdentity.to_string(), "Invalid identity");
    assert_eq!(TokenError::IdentityAlreadyExists.to_string(), "Identity already exists");
    assert_eq!(TokenError::IdentityNotFound.to_string(), "Identity not found");
    assert_eq!(TokenError::InsufficientFunds.to_string(), "Insufficient funds");
    assert_eq!(TokenError::InvalidAgent.to_string(), "Invalid agent");
    assert_eq!(TokenError::TokenPaused.to_string(), "Token is paused");
    assert_eq!(TokenError::TransferExceedsLimit.to_string(), "Transfer exceeds limit");
    assert_eq!(TokenError::InvalidClaimTopic.to_string(), "Invalid claim topic");
    assert_eq!(TokenError::InvalidIssuer.to_string(), "Invalid issuer");
    for e in all() {
        assert_eq!(e.message(), e.to_string());
    }
}

#[test]
fn a_token_error_travels_as_a_custom_program_error() {
    assert_eq!(ProgramError::from(TokenError::InvalidInstruction), ProgramError::Custom(0));
    assert_eq!(ProgramError::from(TokenError::InvalidIssuer), ProgramError::Custom(16));
    for e in all() {
        let wrapped = ProgramError::from(e);
        assert_eq!(wrapped, ProgramError::Custom(e.code()));
        assert_eq!(wrapped.token_error(), Some(e));
    }
}

#[test]
fn a_runtime_error_carries_no_token_error() {
    assert_eq!(ProgramError::MissingRequiredSignature.token_error(), None);
    assert_eq!(ProgramError::NotEnoughAccountKeys.token_error(), None);
    assert_eq!(ProgramError::InvalidAccountData.token_error(), None);
    assert_eq!(ProgramError::UninitializedAccount.token_error(), None);
    assert_eq!(ProgramError::InvalidArgument.token_error(), None);
    assert_eq!(ProgramError::Custom(99).token_error(), None);
}

#[test]
fn the_numbers_agree_with_the_runtime_custom_error() {
    let ours = ProgramError::from(TokenError::AddressFrozen);
    let theirs = solana_program::program_error::ProgramError::Custom(5);
    match ours {
        ProgramError::Custom(code) => {
            assert_eq!(solana_program::program_error::ProgramError::Custom(code), theirs)
        }
        _ => panic!("a token error must travel as a custom error"),
    }
}
