//! The closed set of failures that the ledger reports.

use vstd::prelude::*;

verus! {

/// Errors that the token program returns.
#[derive(Clone, Copy, Debug, PartialEq, Eq, Structural)]
pub enum TokenError {
    /// Invalid instruction
    InvalidInstruction,
    /// Not rent exempt
    NotRentExempt,
    /// Expected a different program owner
    IncorrectProgramId,
    /// Invalid account owner
    InvalidOwner,
    /// Identity not verified
    IdentityNotVerified,
    /// Address is frozen
    AddressFrozen,
    /// Transfer not compliant
    TransferNotCompliant,
    /// Account is not authorized for operation
    Unauthorized,
    /// Invalid identity
    InvalidIdentity,
    /// Identity already exists
    IdentityAlreadyExists,
    /// Identity not found
    IdentityNotFound,
    /// Insufficient funds
    InsufficientFunds,
    /// Invalid agent
    InvalidAgent,
    /// Token is paused
    TokenPaused,
    /// Transfer exceeds limit
    TransferExceedsLimit,
    /// Invalid claim topic
    InvalidClaimTopic,
    /// Invalid issuer
    InvalidIssuer,
}

impl TokenError {
    /// The number under which the error travels inside a program error:
    /// the variant's position in the declaration, from zero.
    pub open spec fn spec_code(self) -> u32 {
        match self {
            TokenError::InvalidInstruction => 0,
            TokenError::NotRentExempt => 1,
            TokenError::IncorrectProgramId => 2,
            TokenError::InvalidOwner => 3,
            TokenError::IdentityNotVerified => 4,
            TokenError::AddressFrozen => 5,
            TokenError::TransferNotCompliant => 6,
            TokenError::Unauthorized => 7,
            TokenError::InvalidIdentity => 8,
            TokenError::IdentityAlreadyExists => 9,
            TokenError::IdentityNotFound => 10,
            TokenError::InsufficientFunds => 11,
            TokenError::InvalidAgent => 12,
            TokenError::TokenPaused => 13,
            TokenError::TransferExceedsLimit => 14,
            TokenError::InvalidClaimTopic => 15,
            TokenError::InvalidIssuer => 16,
        }
    }

    /// The variant that travels under a number, if there is one.
    pub open spec fn spec_from_code(code: u32) -> Option<TokenError> {
        if code == 0 {
            Some(TokenError::InvalidInstruction)
        } else if code == 1 {
            Some(TokenError::NotRentExempt)
        } else if code == 2 {
            Some(TokenError::IncorrectProgramId)
        } else if code == 3 {
            Some(TokenError::InvalidOwner)
        } else if code == 4 {
            Some(TokenError::IdentityNotVerified)
        } else if code == 5 {
            Some(TokenError::AddressFrozen)
        } else if code == 6 {
            Some(TokenError::TransferNotCompliant)
        } else if code == 7 {
            Some(TokenError::Unauthorized)
        } else if code == 8 {
            Some(TokenError::InvalidIdentity)
        } else if code == 9 {
            Some(TokenError::IdentityAlreadyExists)
        } else if code == 10 {
            Some(TokenError::IdentityNotFound)
        } else if code == 11 {
            Some(TokenError::InsufficientFunds)
        } else if code == 12 {
            Some(TokenError::InvalidAgent)
        } else if code == 13 {
            Some(TokenError::TokenPaused)
        } else if code == 14 {
            Some(TokenError::TransferExceedsLimit)
        } else if code == 15 {
            Some(TokenError::InvalidClaimTopic)
        } else if code == 16 {
            Some(TokenError::InvalidIssuer)
        } else {
            None
        }
    }

    /// The text that describes the error.
    pub open spec fn spec_message(self) -> Seq<char> {
        match self {
            TokenError::InvalidInstruction => "Invalid instruction"@,
            TokenError::NotRentExempt => "Not rent exempt"@,
            TokenError::IncorrectProgramId => "Expected a different program owner"@,
            TokenError::InvalidOwner => "Invalid account owner"@,
            TokenError::IdentityNotVerified => "Identity not verified"@,
            TokenError::AddressFrozen => "Address is frozen"@,
            TokenError::TransferNotCompliant => "Transfer not compliant"@,
            TokenError::Unauthorized => "Account is not authorized for operation"@,
            TokenError::InvalidIdentity => "Invalid identity"@,
            TokenError::IdentityAlreadyExists => "Identity already exists"@,
            TokenError::IdentityNotFound => "Identity not found"@,
            TokenError::InsufficientFunds => "Insufficient funds"@,
            TokenError::InvalidAgent => "Invalid agent"@,
            TokenError::TokenPaused => "Token is paused"@,
            TokenError::TransferExceedsLimit => "Transfer exceeds limit"@,
            TokenError::InvalidClaimTopic => "Invalid claim topic"@,
            TokenError::InvalidIssuer => "Invalid issuer"@,
        }
    }

    /// The error's number.
    pub fn code(&self) -> (c: u32)
        ensures
            c == self.spec_code(),
            c < 17,
    {
        match self {
            TokenError::InvalidInstruction => 0,
            TokenError::NotRentExempt => 1,
            TokenError::IncorrectProgramId => 2,
            TokenError::InvalidOwner => 3,
            TokenError::IdentityNotVerified => 4,
            TokenError::AddressFrozen => 5,
            TokenError::TransferNotCompliant => 6,
            TokenError::Unauthorized => 7,
            TokenError::InvalidIdentity => 8,
            TokenError::IdentityAlreadyExists => 9,
            TokenError::IdentityNotFound => 10,
            TokenError::InsufficientFunds => 11,
            TokenError::InvalidAgent => 12,
            TokenError::TokenPaused => 13,
            TokenError::TransferExceedsLimit => 14,
            TokenError::InvalidClaimTopic => 15,
            TokenError::InvalidIssuer => 16,
        }
    }

    /// The error that a number stands for; `None` for a number that no
    /// variant has.
    pub fn from_code(code: u32) -> (e: Option<TokenError>)
        ensures
            e == TokenError::spec_from_code(code),
            e is Some <==> code < 17,
            e matches Some(v) ==> v.spec_code() == code,
    {
        match code {
            0 => Some(TokenError::InvalidInstruction),
            1 => Some(TokenError::NotRentExempt),
            2 => Some(TokenError::IncorrectProgramId),
            3 => Some(TokenError::InvalidOwner),
            4 => Some(TokenError::IdentityNotVerified),
            5 => Some(TokenError::AddressFrozen),
            6 => Some(TokenError::TransferNotCompliant),
            7 => Some(TokenError::Unauthorized),
            8 => Some(TokenError::InvalidIdentity),
            9 => Some(TokenError::IdentityAlreadyExists),
            10 => Some(TokenError::IdentityNotFound),
            11 => Some(TokenError::InsufficientFunds),
            12 => Some(TokenError::InvalidAgent),
            13 => Some(TokenError::TokenPaused),
            14 => Some(TokenError::TransferExceedsLimit),
            15 => Some(TokenError::InvalidClaimTopic),
            16 => Some(TokenError::InvalidIssuer),
            _ => None,
        }
    }

    /// The text that describes the error.
    pub fn message(&self) -> (text: &'static str)
        ensures
            text@ == self.spec_message(),
    {
        match self {
            TokenError::InvalidInstruction => "Invalid instruction",
            TokenError::NotRentExempt => "Not rent exempt",
            TokenError::IncorrectProgramId => "Expected a different program owner",
            TokenError::InvalidOwner => "Invalid account owner",
            TokenError::IdentityNotVerified => "Identity not verified",
            TokenError::AddressFrozen => "Address is frozen",
            TokenError::TransferNotCompliant => "Transfer not compliant",
            TokenError::Unauthorized => "Account is not authorized for operation",
            TokenError::InvalidIdentity => "Invalid identity",
            TokenError::IdentityAlreadyExists => "Identity already exists",
            TokenError::IdentityNotFound => "Identity not found",
            TokenError::InsufficientFunds => "Insufficient funds",
            TokenError::InvalidAgent => "Invalid agent",
            TokenError::TokenPaused => "Token is paused",
            TokenError::TransferExceedsLimit => "Transfer exceeds limit",
            TokenError::InvalidClaimTopic => "Invalid claim topic",
            TokenError::InvalidIssuer => "Invalid issuer",
        }
    }

    /// The text that describes the error, as an owned string.
    pub fn to_string(&self) -> (text: String)
        ensures
            text@ == self.spec_message(),
    {
        self.message().to_owned()
    }

    /// Every variant is found again under its own number.
    pub proof fn lemma_code_round_trip(e: TokenError)
        ensures
            TokenError::spec_from_code(e.spec_code()) == Some(e),
    {
    }

    /// Two variants with one number are one variant.
    pub proof fn lemma_code_injective(a: TokenError, b: TokenError)
        requires
            a.spec_code() == b.spec_code(),
        ensures
            a == b,
    {
    }
}

/// The reasons for which processing an instruction ends without effect.
///
/// A failure of the token program itself travels as `Custom`, under the
/// number of its [`TokenError`]; the other variants are conditions of the
/// surrounding runtime.
#[derive(Clone, Copy, Debug, PartialEq, Eq, Structural)]
pub enum ProgramError {
    /// A failure of the token program, by its number.
    Custom(u32),
    /// An argument handed to the program is not usable.
    InvalidArgument,
    /// An account's data does not hold the record that is expected there.
    InvalidAccountData,
    /// An account that has to sign has not signed.
    MissingRequiredSignature,
    /// An account holds a record that has not been initialized.
    UninitializedAccount,
    /// The instruction came with fewer accounts than it names.
    NotEnoughAccountKeys,
}

impl ProgramError {
    /// The program error that carries the given token error.
    pub open spec fn of(e: TokenError) -> ProgramError {
        ProgramError::Custom(e.spec_code())
    }

    /// The token error that this program error carries, if it carries one.
    pub open spec fn spec_token_error(self) -> Option<TokenError> {
        match self {
            ProgramError::Custom(code) => TokenError::spec_from_code(code),
            _ => None,
        }
    }

    /// The token error that this program error carries, if it carries one.
    pub fn token_error(&self) -> (e: Option<TokenError>)
        ensures
            e == self.spec_token_error(),
    {
        match self {
            ProgramError::Custom(code) => TokenError::from_code(*code),
            _ => None,
        }
    }

    /// A token error wrapped into a program error comes out again unchanged.
    pub proof fn lemma_of_round_trip(e: TokenError)
        ensures
            ProgramError::of(e).spec_token_error() == Some(e),
    {
    }
}

impl From<TokenError> for ProgramError {
    fn from(e: TokenError) -> (err: ProgramError) {
        ProgramError::Custom(e.code())
    }
}

impl vstd::std_specs::convert::FromSpecImpl<TokenError> for ProgramError {
    open spec fn obeys_from_spec() -> bool {
        true
    }

    open spec fn from_spec(e: TokenError) -> ProgramError {
        ProgramError::of(e)
    }
}

} // verus!
