//! The instructions that the program accepts, their wire format, and the
//! functions that build them for a client.
//!
//! An instruction travels as one tag byte, which is the position of its
//! variant, followed by the variant's fields in order. A payload is an
//! instruction only if all of its bytes are used.

use crate::codec::{
    dec_key, dec_string, dec_u16, dec_u64, dec_u64_list, dec_u8, enc_string, enc_u16, enc_u64,
    enc_u64_list, enc_u8, is_prefix, lemma_enc_lengths, lemma_string_in_prefix,
    lemma_string_round_trip, lemma_u16_round_trip, lemma_u64_list_in_prefix,
    lemma_u64_list_round_trip, lemma_u64_round_trip, lemma_u8_round_trip, read_bytes32,
    read_string, read_u16, read_u64, read_u64_list, read_u8, write_bytes32, write_string,
    write_u16, write_u64, write_u64_list, write_u8,
};
use crate::error::{ProgramError, TokenError};
use crate::pubkey::Pubkey;
use vstd::prelude::*;
use vstd::utf8::*;

verus! {

/// Instructions supported by the token program.
#[derive(Clone, Debug, PartialEq)]
pub enum TokenInstruction {
    /// Initialize a new token.
    ///
    /// Accounts expected:
    /// 0. `[writable]` The token account to initialize
    /// 1. `[]` The rent record
    /// 2. `[signer]` The token's owner
    /// 3. `[]` The identity registry
    /// 4. `[]` The compliance policy
    InitializeToken {
        /// Name of the token
        name: String,
        /// Symbol of the token
        symbol: String,
        /// Number of decimals in a token amount
        decimals: u8,
    },
    /// Transfer tokens, subject to identity and compliance checks.
    ///
    /// Accounts expected:
    /// 0. `[signer]` The owner of the source
    /// 1. `[writable]` The source token account
    /// 2. `[writable]` The destination token account
    /// 3. `[]` The token
    /// 4. `[]` The identity registry
    /// 5. `[]` The compliance policy
    /// 6. `[]` The identity storage
    Transfer {
        /// Amount to transfer
        amount: u64,
    },
    /// Transfer tokens on the order of an agent.
    ///
    /// Accounts expected:
    /// 0. `[signer]` The agent
    /// 1. `[writable]` The source token account
    /// 2. `[writable]` The destination token account
    /// 3. `[]` The token
    /// 4. `[]` The identity registry
    /// 5. `[]` The compliance policy
    /// 6. `[]` The identity storage
    ForcedTransfer {
        /// Amount to transfer
        amount: u64,
    },
    /// Mint new tokens, on the order of an agent.
    ///
    /// Accounts expected:
    /// 0. `[signer]` The agent
    /// 1. `[writable]` The destination token account
    /// 2. `[writable]` The token
    /// 3. `[]` The identity registry
    /// 4. `[]` The identity storage
    Mint {
        /// Amount to mint
        amount: u64,
    },
    /// Burn tokens.
    ///
    /// Accounts expected:
    /// 0. `[signer]` The owner of the source
    /// 1. `[writable]` The source token account
    /// 2. `[writable]` The token
    Burn {
        /// Amount to burn
        amount: u64,
    },
    /// Recover tokens from a lost holder's account, on the order of the token's owner.
    ///
    /// Accounts expected:
    /// 0. `[signer]` The token's owner
    /// 1. `[writable]` The lost token account
    /// 2. `[writable]` The recovery destination
    /// 3. `[writable]` The token
    Recover {
        /// Amount to recover
        amount: u64,
    },
    /// Freeze a token account, on the order of an agent.
    ///
    /// Accounts expected:
    /// 0. `[signer]` The agent
    /// 1. `[writable]` The target token account
    /// 2. `[writable]` The token
    FreezeAddress,
    /// Unfreeze a token account, on the order of an agent.
    ///
    /// Accounts expected:
    /// 0. `[signer]` The agent
    /// 1. `[writable]` The target token account
    /// 2. `[writable]` The token
    UnfreezeAddress,
    /// Rebind the token's compliance policy, on the order of the token's owner.
    ///
    /// Accounts expected:
    /// 0. `[signer]` The token's owner
    /// 1. `[writable]` The token
    /// 2. `[]` The new compliance account
    SetCompliance,
    /// Rebind the token's identity registry, on the order of the token's owner.
    ///
    /// Accounts expected:
    /// 0. `[signer]` The token's owner
    /// 1. `[writable]` The token
    /// 2. `[]` The new identity registry
    SetIdentityRegistry,
    /// Add an agent, on the order of the token's owner.
    ///
    /// Accounts expected:
    /// 0. `[signer]` The token's owner
    /// 1. `[writable]` The token
    /// 2. `[]` The agent
    AddAgent,
    /// Remove an agent, on the order of the token's owner.
    ///
    /// Accounts expected:
    /// 0. `[signer]` The token's owner
    /// 1. `[writable]` The token
    /// 2. `[]` The agent
    RemoveAgent,
    /// Pause the token, on the order of the token's owner.
    ///
    /// Accounts expected:
    /// 0. `[signer]` The token's owner
    /// 1. `[writable]` The token
    Pause,
    /// Unpause the token, on the order of the token's owner.
    ///
    /// Accounts expected:
    /// 0. `[signer]` The token's owner
    /// 1. `[writable]` The token
    Unpause,
    /// Register a holder's identity.
    ///
    /// Accounts expected:
    /// 0. `[signer]` The registry's owner or agent
    /// 1. `[writable]` The identity registry
    /// 2. `[writable]` The identity storage
    /// 3. `[]` The holder
    RegisterIdentity {
        /// Identity fingerprint
        identity: [u8; 32],
        /// Country code
        country: u16,
    },
    /// Update a holder's identity fingerprint.
    ///
    /// Accounts expected:
    /// 0. `[signer]` The registry's owner or agent
    /// 1. `[writable]` The identity registry
    /// 2. `[writable]` The identity storage
    /// 3. `[]` The holder
    UpdateIdentity {
        /// New identity fingerprint
        identity: [u8; 32],
    },
    /// Update a holder's country code.
    ///
    /// Accounts expected:
    /// 0. `[signer]` The registry's owner or agent
    /// 1. `[writable]` The identity registry
    /// 2. `[writable]` The identity storage
    /// 3. `[]` The holder
    UpdateCountry {
        /// New country code
        country: u16,
    },
    /// Delete a holder's identity.
    ///
    /// Accounts expected:
    /// 0. `[signer]` The registry's owner or agent
    /// 1. `[writable]` The identity registry
    /// 2. `[writable]` The identity storage
    /// 3. `[]` The holder
    DeleteIdentity,
    /// Add a required claim topic.
    ///
    /// Accounts expected:
    /// 0. `[signer]` The owner of the claim topics
    /// 1. `[writable]` The claim topics account
    AddClaimTopic {
        /// Claim topic to add
        topic: u64,
    },
    /// Remove a required claim topic.
    ///
    /// Accounts expected:
    /// 0. `[signer]` The owner of the claim topics
    /// 1. `[writable]` The claim topics account
    RemoveClaimTopic {
        /// Claim topic to remove
        topic: u64,
    },
    /// Add a trusted issuer.
    ///
    /// Accounts expected:
    /// 0. `[signer]` The owner of the trusted issuers registry
    /// 1. `[]` The trusted issuers registry
    /// 2. `[writable]` The issuer's account
    AddTrustedIssuer {
        /// Claim topics that the issuer may attest
        claim_topics: Vec<u64>,
    },
    /// Remove a trusted issuer.
    ///
    /// Accounts expected:
    /// 0. `[signer]` The owner of the trusted issuers registry
    /// 1. `[]` The trusted issuers registry
    /// 2. `[writable]` The issuer's account
    RemoveTrustedIssuer,
    /// Update the claim topics of a trusted issuer.
    ///
    /// Accounts expected:
    /// 0. `[signer]` The owner of the trusted issuers registry
    /// 1. `[]` The trusted issuers registry
    /// 2. `[writable]` The issuer's account
    UpdateIssuerClaimTopics {
        /// New claim topics of the issuer
        claim_topics: Vec<u64>,
    },
    /// Add a compliance rule.
    ///
    /// Accounts expected:
    /// 0. `[signer]` The compliance owner
    /// 1. `[writable]` The compliance account
    /// 2. `[]` The rule
    AddComplianceRule,
    /// Remove a compliance rule.
    ///
    /// Accounts expected:
    /// 0. `[signer]` The compliance owner
    /// 1. `[writable]` The compliance account
    /// 2. `[]` The rule
    RemoveComplianceRule,
}

/// What an instruction holds, as plain values.
pub enum TokenInstructionView {
    InitializeToken { name: Seq<char>, symbol: Seq<char>, decimals: u8 },
    Transfer { amount: u64 },
    ForcedTransfer { amount: u64 },
    Mint { amount: u64 },
    Burn { amount: u64 },
    Recover { amount: u64 },
    FreezeAddress,
    UnfreezeAddress,
    SetCompliance,
    SetIdentityRegistry,
    AddAgent,
    RemoveAgent,
    Pause,
    Unpause,
    RegisterIdentity { identity: Seq<u8>, country: u16 },
    UpdateIdentity { identity: Seq<u8> },
    UpdateCountry { country: u16 },
    DeleteIdentity,
    AddClaimTopic { topic: u64 },
    RemoveClaimTopic { topic: u64 },
    AddTrustedIssuer { claim_topics: Seq<u64> },
    RemoveTrustedIssuer,
    UpdateIssuerClaimTopics { claim_topics: Seq<u64> },
    AddComplianceRule,
    RemoveComplianceRule,
}

impl View for TokenInstruction {
    type V = TokenInstructionView;

    open spec fn view(&self) -> TokenInstructionView {
        match self {
            TokenInstruction::InitializeToken { name, symbol, decimals } => {
                TokenInstructionView::InitializeToken {
                    name: name@,
                    symbol: symbol@,
                    decimals: *decimals,
                }
            },
            TokenInstruction::Transfer { amount } => TokenInstructionView::Transfer {
                amount: *amount,
            },
            TokenInstruction::ForcedTransfer { amount } => TokenInstructionView::ForcedTransfer {
                amount: *amount,
            },
            TokenInstruction::Mint { amount } => TokenInstructionView::Mint {
                amount: *amount,
            },
            TokenInstruction::Burn { amount } => TokenInstructionView::Burn {
                amount: *amount,
            },
            TokenInstruction::Recover { amount } => TokenInstructionView::Recover {
                amount: *amount,
            },
            TokenInstruction::FreezeAddress => TokenInstructionView::FreezeAddress,
            TokenInstruction::UnfreezeAddress => TokenInstructionView::UnfreezeAddress,
            TokenInstruction::SetCompliance => TokenInstructionView::SetCompliance,
            TokenInstruction::SetIdentityRegistry => TokenInstructionView::SetIdentityRegistry,
            TokenInstruction::AddAgent => TokenInstructionView::AddAgent,
            TokenInstruction::RemoveAgent => TokenInstructionView::RemoveAgent,
            TokenInstruction::Pause => TokenInstructionView::Pause,
            TokenInstruction::Unpause => TokenInstructionView::Unpause,
            TokenInstruction::RegisterIdentity { identity, country } => {
                TokenInstructionView::RegisterIdentity {
                    identity: identity@,
                    country: *country,
                }
            },
            TokenInstruction::UpdateIdentity { identity } => TokenInstructionView::UpdateIdentity {
                identity: identity@,
            },
            TokenInstruction::UpdateCountry { country } => TokenInstructionView::UpdateCountry {
                country: *country,
            },
            TokenInstruction::DeleteIdentity => TokenInstructionView::DeleteIdentity,
            TokenInstruction::AddClaimTopic { topic } => TokenInstructionView::AddClaimTopic {
                topic: *topic,
            },
            TokenInstruction::RemoveClaimTopic { topic } => TokenInstructionView::RemoveClaimTopic {
                topic: *topic,
            },
            TokenInstruction::AddTrustedIssuer { claim_topics } => {
                TokenInstructionView::AddTrustedIssuer {
                    claim_topics: claim_topics@,
                }
            },
            TokenInstruction::RemoveTrustedIssuer => TokenInstructionView::RemoveTrustedIssuer,
            TokenInstruction::UpdateIssuerClaimTopics { claim_topics } => {
                TokenInstructionView::UpdateIssuerClaimTopics {
                    claim_topics: claim_topics@,
                }
            },
            TokenInstruction::AddComplianceRule => TokenInstructionView::AddComplianceRule,
            TokenInstruction::RemoveComplianceRule => TokenInstructionView::RemoveComplianceRule,
        }
    }
}

impl TokenInstructionView {
    /// The tag byte: the position of the variant.
    pub open spec fn tag(self) -> u8 {
        match self {
            TokenInstructionView::InitializeToken { .. } => 0,
            TokenInstructionView::Transfer { .. } => 1,
            TokenInstructionView::ForcedTransfer { .. } => 2,
            TokenInstructionView::Mint { .. } => 3,
            TokenInstructionView::Burn { .. } => 4,
            TokenInstructionView::Recover { .. } => 5,
            TokenInstructionView::FreezeAddress => 6,
            TokenInstructionView::UnfreezeAddress => 7,
            TokenInstructionView::SetCompliance => 8,
            TokenInstructionView::SetIdentityRegistry => 9,
            TokenInstructionView::AddAgent => 10,
            TokenInstructionView::RemoveAgent => 11,
            TokenInstructionView::Pause => 12,
            TokenInstructionView::Unpause => 13,
            TokenInstructionView::RegisterIdentity { .. } => 14,
            TokenInstructionView::UpdateIdentity { .. } => 15,
            TokenInstructionView::UpdateCountry { .. } => 16,
            TokenInstructionView::DeleteIdentity => 17,
            TokenInstructionView::AddClaimTopic { .. } => 18,
            TokenInstructionView::RemoveClaimTopic { .. } => 19,
            TokenInstructionView::AddTrustedIssuer { .. } => 20,
            TokenInstructionView::RemoveTrustedIssuer => 21,
            TokenInstructionView::UpdateIssuerClaimTopics { .. } => 22,
            TokenInstructionView::AddComplianceRule => 23,
            TokenInstructionView::RemoveComplianceRule => 24,
        }
    }

    /// The instruction can be written: a fingerprint has thirty-two bytes,
    /// and the byte count of each string and the item count of each list
    /// fit in 32 bits.
    pub open spec fn well_formed(self) -> bool {
        match self {
            TokenInstructionView::InitializeToken { name, symbol, .. } => {
                encode_utf8(name).len() <= u32::MAX && encode_utf8(symbol).len() <= u32::MAX
            },
            TokenInstructionView::RegisterIdentity { identity, .. } => identity.len() == 32,
            TokenInstructionView::UpdateIdentity { identity } => identity.len() == 32,
            TokenInstructionView::AddTrustedIssuer { claim_topics } => {
                claim_topics.len() <= u32::MAX
            },
            TokenInstructionView::UpdateIssuerClaimTopics { claim_topics } => {
                claim_topics.len() <= u32::MAX
            },
            _ => true,
        }
    }

    /// The bytes of the instruction: the tag, then the fields.
    pub open spec fn encoding(self) -> Seq<u8> {
        match self {
            TokenInstructionView::InitializeToken { name, symbol, decimals } => {
                seq![0u8] + enc_string(name) + enc_string(symbol) + enc_u8(decimals)
            },
            TokenInstructionView::Transfer { amount } => seq![1u8] + enc_u64(amount),
            TokenInstructionView::ForcedTransfer { amount } => seq![2u8] + enc_u64(amount),
            TokenInstructionView::Mint { amount } => seq![3u8] + enc_u64(amount),
            TokenInstructionView::Burn { amount } => seq![4u8] + enc_u64(amount),
            TokenInstructionView::Recover { amount } => seq![5u8] + enc_u64(amount),
            TokenInstructionView::RegisterIdentity { identity, country } => {
                seq![14u8] + identity + enc_u16(country)
            },
            TokenInstructionView::UpdateIdentity { identity } => seq![15u8] + identity,
            TokenInstructionView::UpdateCountry { country } => seq![16u8] + enc_u16(country),
            TokenInstructionView::AddClaimTopic { topic } => seq![18u8] + enc_u64(topic),
            TokenInstructionView::RemoveClaimTopic { topic } => seq![19u8] + enc_u64(topic),
            TokenInstructionView::AddTrustedIssuer { claim_topics } => {
                seq![20u8] + enc_u64_list(claim_topics)
            },
            TokenInstructionView::UpdateIssuerClaimTopics { claim_topics } => {
                seq![22u8] + enc_u64_list(claim_topics)
            },
            _ => seq![self.tag()],
        }
    }

    /// The instruction that the payload `b` spells; `None` where the tag is
    /// unknown, a field is cut short or malformed, or bytes are left over.
    pub open spec fn decoding(b: Seq<u8>) -> Option<TokenInstructionView> {
        match dec_u8(b, 0) {
            None => None,
            Some(tag) => if tag == 0 {
                match dec_string(b, 1) {
                    Some((name, at)) => match dec_string(b, at) {
                        Some((symbol, to)) => match dec_u8(b, to) {
                            Some(decimals) => if b.len() == to + 1 {
                                Some(
                                    TokenInstructionView::InitializeToken {
                                        name,
                                        symbol,
                                        decimals,
                                    },
                                )
                            } else {
                                None
                            },
                            None => None,
                        },
                        None => None,
                    },
                    None => None,
                }
            } else if tag == 1 {
                match dec_u64(b, 1) {
                    Some(amount) => if b.len() == 9 {
                        Some(TokenInstructionView::Transfer { amount })
                    } else {
                        None
                    },
                    None => None,
                }
            } else if tag == 2 {
                match dec_u64(b, 1) {
                    Some(amount) => if b.len() == 9 {
                        Some(TokenInstructionView::ForcedTransfer { amount })
                    } else {
                        None
                    },
                    None => None,
                }
            } else if tag == 3 {
                match dec_u64(b, 1) {
                    Some(amount) => if b.len() == 9 {
                        Some(TokenInstructionView::Mint { amount })
                    } else {
                        None
                    },
                    None => None,
                }
            } else if tag == 4 {
                match dec_u64(b, 1) {
                    Some(amount) => if b.len() == 9 {
                        Some(TokenInstructionView::Burn { amount })
                    } else {
                        None
                    },
                    None => None,
                }
            } else if tag == 5 {
                match dec_u64(b, 1) {
                    Some(amount) => if b.len() == 9 {
                        Some(TokenInstructionView::Recover { amount })
                    } else {
                        None
                    },
                    None => None,
                }
            } else if tag == 6 {
                if b.len() == 1 {
                    Some(TokenInstructionView::FreezeAddress)
                } else {
                    None
                }
            } else if tag == 7 {
                if b.len() == 1 {
                    Some(TokenInstructionView::UnfreezeAddress)
                } else {
                    None
                }
            } else if tag == 8 {
                if b.len() == 1 {
                    Some(TokenInstructionView::SetCompliance)
                } else {
                    None
                }
            } else if tag == 9 {
                if b.len() == 1 {
                    Some(TokenInstructionView::SetIdentityRegistry)
                } else {
                    None
                }
            } else if tag == 10 {
                if b.len() == 1 {
                    Some(TokenInstructionView::AddAgent)
                } else {
                    None
                }
            } else if tag == 11 {
                if b.len() == 1 {
                    Some(TokenInstructionView::RemoveAgent)
                } else {
                    None
                }
            } else if tag == 12 {
                if b.len() == 1 {
                    Some(TokenInstructionView::Pause)
                } else {
                    None
                }
            } else if tag == 13 {
                if b.len() == 1 {
                    Some(TokenInstructionView::Unpause)
                } else {
                    None
                }
            } else if tag == 14 {
                match (dec_key(b, 1), dec_u16(b, 33)) {
                    (Some(identity), Some(country)) => if b.len() == 35 {
                        Some(TokenInstructionView::RegisterIdentity { identity, country })
                    } else {
                        None
                    },
                    _ => None,
                }
            } else if tag == 15 {
                match dec_key(b, 1) {
                    Some(identity) => if b.len() == 33 {
                        Some(TokenInstructionView::UpdateIdentity { identity })
                    } else {
                        None
                    },
                    None => None,
                }
            } else if tag == 16 {
                match dec_u16(b, 1) {
                    Some(country) => if b.len() == 3 {
                        Some(TokenInstructionView::UpdateCountry { country })
                    } else {
                        None
                    },
                    None => None,
                }
            } else if tag == 17 {
                if b.len() == 1 {
                    Some(TokenInstructionView::DeleteIdentity)
                } else {
                    None
                }
            } else if tag == 18 {
                match dec_u64(b, 1) {
                    Some(topic) => if b.len() == 9 {
                        Some(TokenInstructionView::AddClaimTopic { topic })
                    } else {
                        None
                    },
                    None => None,
                }
            } else if tag == 19 {
                match dec_u64(b, 1) {
                    Some(topic) => if b.len() == 9 {
                        Some(TokenInstructionView::RemoveClaimTopic { topic })
                    } else {
                        None
                    },
                    None => None,
                }
            } else if tag == 20 {
                match dec_u64_list(b, 1) {
                    Some((claim_topics, end)) => if b.len() == end {
                        Some(TokenInstructionView::AddTrustedIssuer { claim_topics })
                    } else {
                        None
                    },
                    None => None,
                }
            } else if tag == 21 {
                if b.len() == 1 {
                    Some(TokenInstructionView::RemoveTrustedIssuer)
                } else {
                    None
                }
            } else if tag == 22 {
                match dec_u64_list(b, 1) {
                    Some((claim_topics, end)) => if b.len() == end {
                        Some(TokenInstructionView::UpdateIssuerClaimTopics { claim_topics })
                    } else {
                        None
                    },
                    None => None,
                }
            } else if tag == 23 {
                if b.len() == 1 {
                    Some(TokenInstructionView::AddComplianceRule)
                } else {
                    None
                }
            } else if tag == 24 {
                if b.len() == 1 {
                    Some(TokenInstructionView::RemoveComplianceRule)
                } else {
                    None
                }
            } else {
                None
            },
        }
    }

    /// An instruction that was written is the instruction that is read.
    pub proof fn lemma_decoding_of_encoding(self)
        requires
            self.well_formed(),
        ensures
            TokenInstructionView::decoding(self.encoding()) == Some(self),
    {
        lemma_enc_lengths();
        let b = self.encoding();
        assert(b[0] == self.tag());
        match self {
            TokenInstructionView::InitializeToken { name, symbol, decimals } => {
                let at = 1 + enc_string(name).len() as int;
                let to = at + enc_string(symbol).len() as int;
                assert(b.subrange(1, at) =~= enc_string(name));
                lemma_string_round_trip(b, 1, name);
                assert(b.subrange(at, to) =~= enc_string(symbol));
                lemma_string_round_trip(b, at, symbol);
                assert(b.subrange(to, to + 1) =~= enc_u8(decimals));
                lemma_u8_round_trip(b, to, decimals);
            },
            TokenInstructionView::Transfer { amount } => {
                assert(b.subrange(1, 9) =~= enc_u64(amount));
                lemma_u64_round_trip(b, 1, amount);
            },
            TokenInstructionView::ForcedTransfer { amount } => {
                assert(b.subrange(1, 9) =~= enc_u64(amount));
                lemma_u64_round_trip(b, 1, amount);
            },
            TokenInstructionView::Mint { amount } => {
                assert(b.subrange(1, 9) =~= enc_u64(amount));
                lemma_u64_round_trip(b, 1, amount);
            },
            TokenInstructionView::Burn { amount } => {
                assert(b.subrange(1, 9) =~= enc_u64(amount));
                lemma_u64_round_trip(b, 1, amount);
            },
            TokenInstructionView::Recover { amount } => {
                assert(b.subrange(1, 9) =~= enc_u64(amount));
                lemma_u64_round_trip(b, 1, amount);
            },
            TokenInstructionView::RegisterIdentity { identity, country } => {
                assert(b.subrange(1, 33) =~= identity);
                assert(b.subrange(33, 35) =~= enc_u16(country));
                lemma_u16_round_trip(b, 33, country);
            },
            TokenInstructionView::UpdateIdentity { identity } => {
                assert(b.subrange(1, 33) =~= identity);
            },
            TokenInstructionView::UpdateCountry { country } => {
                assert(b.subrange(1, 3) =~= enc_u16(country));
                lemma_u16_round_trip(b, 1, country);
            },
            TokenInstructionView::AddClaimTopic { topic } => {
                assert(b.subrange(1, 9) =~= enc_u64(topic));
                lemma_u64_round_trip(b, 1, topic);
            },
            TokenInstructionView::RemoveClaimTopic { topic } => {
                assert(b.subrange(1, 9) =~= enc_u64(topic));
                lemma_u64_round_trip(b, 1, topic);
            },
            TokenInstructionView::AddTrustedIssuer { claim_topics } => {
                let end = 1 + enc_u64_list(claim_topics).len() as int;
                assert(b.subrange(1, end) =~= enc_u64_list(claim_topics));
                lemma_u64_list_round_trip(b, 1, claim_topics);
            },
            TokenInstructionView::UpdateIssuerClaimTopics { claim_topics } => {
                let end = 1 + enc_u64_list(claim_topics).len() as int;
                assert(b.subrange(1, end) =~= enc_u64_list(claim_topics));
                lemma_u64_list_round_trip(b, 1, claim_topics);
            },
            _ => {},
        }
    }

    /// A payload without a tag, or with a tag that no variant has, spells no
    /// instruction.
    pub proof fn lemma_unknown_tag_is_rejected(b: Seq<u8>)
        requires
            b.len() == 0 || b[0] >= 25,
        ensures
            TokenInstructionView::decoding(b) is None,
    {
    }

    /// A payload that was cut short spells no instruction: no proper start
    /// of an instruction's bytes is an instruction.
    pub proof fn lemma_truncated_is_rejected(self, n: int)
        requires
            self.well_formed(),
            0 <= n < self.encoding().len(),
        ensures
            TokenInstructionView::decoding(self.encoding().subrange(0, n)) is None,
    {
        lemma_enc_lengths();
        let b = self.encoding();
        let p = b.subrange(0, n);
        assert(is_prefix(p, b));
        if n > 0 {
            assert(p[0] == b[0]);
            assert(b[0] == self.tag());
            match self {
                TokenInstructionView::InitializeToken { name, symbol, decimals } => {
                    let at = 1 + enc_string(name).len() as int;
                    let to = at + enc_string(symbol).len() as int;
                    assert(b.subrange(1, at) =~= enc_string(name));
                    lemma_string_round_trip(b, 1, name);
                    assert(b.subrange(at, to) =~= enc_string(symbol));
                    lemma_string_round_trip(b, at, symbol);
                    if dec_string(p, 1) is Some {
                        lemma_string_in_prefix(p, b, 1);
                        if dec_string(p, at) is Some {
                            lemma_string_in_prefix(p, b, at);
                        }
                    }
                },
                TokenInstructionView::AddTrustedIssuer { claim_topics } => {
                    let end = 1 + enc_u64_list(claim_topics).len() as int;
                    assert(b.subrange(1, end) =~= enc_u64_list(claim_topics));
                    lemma_u64_list_round_trip(b, 1, claim_topics);
                    if dec_u64_list(p, 1) is Some {
                        lemma_u64_list_in_prefix(p, b, 1);
                    }
                },
                TokenInstructionView::UpdateIssuerClaimTopics { claim_topics } => {
                    let end = 1 + enc_u64_list(claim_topics).len() as int;
                    assert(b.subrange(1, end) =~= enc_u64_list(claim_topics));
                    lemma_u64_list_round_trip(b, 1, claim_topics);
                    if dec_u64_list(p, 1) is Some {
                        lemma_u64_list_in_prefix(p, b, 1);
                    }
                },
                _ => {},
            }
        }
    }
}

impl TokenInstruction {
    /// Reads an instruction from a payload, all of whose bytes must be used.
    ///
    /// Fails with `InvalidInstruction` where the tag is unknown, a field is
    /// cut short or malformed, or bytes are left over.
    pub fn try_from_slice(input: &[u8]) -> (r: Result<TokenInstruction, ProgramError>)
        ensures
            match r {
                Ok(ix) => TokenInstructionView::decoding(input@) == Some(ix@),
                Err(e) => TokenInstructionView::decoding(input@) is None && e == ProgramError::of(
                    TokenError::InvalidInstruction,
                ),
            },
    {
        match TokenInstruction::parse(input) {
            Some(ix) => Ok(ix),
            None => Err(ProgramError::from(TokenError::InvalidInstruction)),
        }
    }

    /// Reads an instruction from a payload; `None` where the payload spells
    /// none.
    pub fn parse(input: &[u8]) -> (r: Option<TokenInstruction>)
        ensures
            match r {
                Some(ix) => TokenInstructionView::decoding(input@) == Some(ix@),
                None => TokenInstructionView::decoding(input@) is None,
            },
    {
        let tag = match read_u8(input, 0) {
            Some(t) => t,
            None => {
                return None;
            },
        };
        let len = input.len();
        match tag {
            0 => {
                let (name, at) = match read_string(input, 1) {
                    Some(v) => v,
                    None => {
                        return None;
                    },
                };
                let (symbol, to) = match read_string(input, at) {
                    Some(v) => v,
                    None => {
                        return None;
                    },
                };
                let decimals = match read_u8(input, to) {
                    Some(v) => v,
                    None => {
                        return None;
                    },
                };
                if len - to != 1 {
                    return None;
                }
                Some(TokenInstruction::InitializeToken { name, symbol, decimals })
            },
            1 => {
                let amount = match read_u64(input, 1) {
                    Some(v) => v,
                    None => {
                        return None;
                    },
                };
                if len != 9 {
                    return None;
                }
                Some(TokenInstruction::Transfer { amount })
            },
            2 => {
                let amount = match read_u64(input, 1) {
                    Some(v) => v,
                    None => {
                        return None;
                    },
                };
                if len != 9 {
                    return None;
                }
                Some(TokenInstruction::ForcedTransfer { amount })
            },
            3 => {
                let amount = match read_u64(input, 1) {
                    Some(v) => v,
                    None => {
                        return None;
                    },
                };
                if len != 9 {
                    return None;
                }
                Some(TokenInstruction::Mint { amount })
            },
            4 => {
                let amount = match read_u64(input, 1) {
                    Some(v) => v,
                    None => {
                        return None;
                    },
                };
                if len != 9 {
                    return None;
                }
                Some(TokenInstruction::Burn { amount })
            },
            5 => {
                let amount = match read_u64(input, 1) {
                    Some(v) => v,
                    None => {
                        return None;
                    },
                };
                if len != 9 {
                    return None;
                }
                Some(TokenInstruction::Recover { amount })
            },
            6 => if len == 1 {
                Some(TokenInstruction::FreezeAddress)
            } else {
                None
            },
            7 => if len == 1 {
                Some(TokenInstruction::UnfreezeAddress)
            } else {
                None
            },
            8 => if len == 1 {
                Some(TokenInstruction::SetCompliance)
            } else {
                None
            },
            9 => if len == 1 {
                Some(TokenInstruction::SetIdentityRegistry)
            } else {
                None
            },
            10 => if len == 1 {
                Some(TokenInstruction::AddAgent)
            } else {
                None
            },
            11 => if len == 1 {
                Some(TokenInstruction::RemoveAgent)
            } else {
                None
            },
            12 => if len == 1 {
                Some(TokenInstruction::Pause)
            } else {
                None
            },
            13 => if len == 1 {
                Some(TokenInstruction::Unpause)
            } else {
                None
            },
            14 => {
                let identity = match read_bytes32(input, 1) {
                    Some(v) => v,
                    None => {
                        return None;
                    },
                };
                let country = match read_u16(input, 33) {
                    Some(v) => v,
                    None => {
                        return None;
                    },
                };
                if len != 35 {
                    return None;
                }
                Some(TokenInstruction::RegisterIdentity { identity, country })
            },
            15 => {
                let identity = match read_bytes32(input, 1) {
                    Some(v) => v,
                    None => {
                        return None;
                    },
                };
                if len != 33 {
                    return None;
                }
                Some(TokenInstruction::UpdateIdentity { identity })
            },
            16 => {
                let country = match read_u16(input, 1) {
                    Some(v) => v,
                    None => {
                        return None;
                    },
                };
                if len != 3 {
                    return None;
                }
                Some(TokenInstruction::UpdateCountry { country })
            },
            17 => if len == 1 {
                Some(TokenInstruction::DeleteIdentity)
            } else {
                None
            },
            18 => {
                let topic = match read_u64(input, 1) {
                    Some(v) => v,
                    None => {
                        return None;
                    },
                };
                if len != 9 {
                    return None;
                }
                Some(TokenInstruction::AddClaimTopic { topic })
            },
            19 => {
                let topic = match read_u64(input, 1) {
                    Some(v) => v,
                    None => {
                        return None;
                    },
                };
                if len != 9 {
                    return None;
                }
                Some(TokenInstruction::RemoveClaimTopic { topic })
            },
            20 => {
                let (claim_topics, end) = match read_u64_list(input, 1) {
                    Some(v) => v,
                    None => {
                        return None;
                    },
                };
                if len != end {
                    return None;
                }
                Some(TokenInstruction::AddTrustedIssuer { claim_topics })
            },
            21 => if len == 1 {
                Some(TokenInstruction::RemoveTrustedIssuer)
            } else {
                None
            },
            22 => {
                let (claim_topics, end) = match read_u64_list(input, 1) {
                    Some(v) => v,
                    None => {
                        return None;
                    },
                };
                if len != end {
                    return None;
                }
                Some(TokenInstruction::UpdateIssuerClaimTopics { claim_topics })
            },
            23 => if len == 1 {
                Some(TokenInstruction::AddComplianceRule)
            } else {
                None
            },
            24 => if len == 1 {
                Some(TokenInstruction::RemoveComplianceRule)
            } else {
                None
            },
            _ => None,
        }
    }

    /// Whether the instruction can be written: the byte count of each string
    /// and the item count of each list fit in 32 bits.
    pub fn is_well_formed(&self) -> (b: bool)
        ensures
            b == self@.well_formed(),
    {
        match self {
            TokenInstruction::InitializeToken { name, symbol, .. } => {
                name.as_str().as_bytes().len() <= 0xffff_ffff && symbol.as_str().as_bytes().len()
                    <= 0xffff_ffff
            },
            TokenInstruction::AddTrustedIssuer { claim_topics } => claim_topics.len()
                <= 0xffff_ffff,
            TokenInstruction::UpdateIssuerClaimTopics { claim_topics } => claim_topics.len()
                <= 0xffff_ffff,
            _ => true,
        }
    }

    /// The bytes of the instruction.
    pub fn encode(&self) -> (out: Vec<u8>)
        requires
            self@.well_formed(),
        ensures
            out@ == self@.encoding(),
    {
        let mut out: Vec<u8> = Vec::new();
        match self {
            TokenInstruction::InitializeToken { name, symbol, decimals } => {
                out.push(0);
                write_string(&mut out, name);
                write_string(&mut out, symbol);
                write_u8(&mut out, *decimals);
            },
            TokenInstruction::Transfer { amount } => {
                out.push(1);
                write_u64(&mut out, *amount);
            },
            TokenInstruction::ForcedTransfer { amount } => {
                out.push(2);
                write_u64(&mut out, *amount);
            },
            TokenInstruction::Mint { amount } => {
                out.push(3);
                write_u64(&mut out, *amount);
            },
            TokenInstruction::Burn { amount } => {
                out.push(4);
                write_u64(&mut out, *amount);
            },
            TokenInstruction::Recover { amount } => {
                out.push(5);
                write_u64(&mut out, *amount);
            },
            TokenInstruction::FreezeAddress => {
                out.push(6);
            },
            TokenInstruction::UnfreezeAddress => {
                out.push(7);
            },
            TokenInstruction::SetCompliance => {
                out.push(8);
            },
            TokenInstruction::SetIdentityRegistry => {
                out.push(9);
            },
            TokenInstruction::AddAgent => {
                out.push(10);
            },
            TokenInstruction::RemoveAgent => {
                out.push(11);
            },
            TokenInstruction::Pause => {
                out.push(12);
            },
            TokenInstruction::Unpause => {
                out.push(13);
            },
            TokenInstruction::RegisterIdentity { identity, country } => {
                out.push(14);
                write_bytes32(&mut out, identity);
                write_u16(&mut out, *country);
            },
            TokenInstruction::UpdateIdentity { identity } => {
                out.push(15);
                write_bytes32(&mut out, identity);
            },
            TokenInstruction::UpdateCountry { country } => {
                out.push(16);
                write_u16(&mut out, *country);
            },
            TokenInstruction::DeleteIdentity => {
                out.push(17);
            },
            TokenInstruction::AddClaimTopic { topic } => {
                out.push(18);
                write_u64(&mut out, *topic);
            },
            TokenInstruction::RemoveClaimTopic { topic } => {
                out.push(19);
                write_u64(&mut out, *topic);
            },
            TokenInstruction::AddTrustedIssuer { claim_topics } => {
                out.push(20);
                write_u64_list(&mut out, claim_topics);
            },
            TokenInstruction::RemoveTrustedIssuer => {
                out.push(21);
            },
            TokenInstruction::UpdateIssuerClaimTopics { claim_topics } => {
                out.push(22);
                write_u64_list(&mut out, claim_topics);
            },
            TokenInstruction::AddComplianceRule => {
                out.push(23);
            },
            TokenInstruction::RemoveComplianceRule => {
                out.push(24);
            },
        }
        proof {
            assert(out@ =~= self@.encoding());
        }
        out
    }

    /// The bytes of the instruction; fails with `InvalidInstruction` where a
    /// string or a list is too long to be written.
    pub fn try_to_vec(&self) -> (r: Result<Vec<u8>, ProgramError>)
        ensures
            match r {
                Ok(out) => self@.well_formed() && out@ == self@.encoding(),
                Err(e) => !self@.well_formed() && e == ProgramError::of(
                    TokenError::InvalidInstruction,
                ),
            },
    {
        if !self.is_well_formed() {
            return Err(ProgramError::from(TokenError::InvalidInstruction));
        }
        Ok(self.encode())
    }
}

/// The address of the runtime's rent record.
pub fn rent_sysvar_id() -> (key: Pubkey)
    ensures
        key@ == RENT_SYSVAR_ID@,
{
    Pubkey::new_from_array(RENT_SYSVAR_ID)
}

/// The bytes of the address of the runtime's rent record.
pub const RENT_SYSVAR_ID: [u8; 32] = [
    6, 167, 213, 23, 25, 44, 92, 81, 33, 140, 201, 76, 61, 74, 241, 127, 88, 218, 238, 8, 155, 161,
    253, 68, 227, 219, 217, 138, 0, 0, 0, 0,
];

/// How an instruction refers to one of its accounts.
#[derive(Clone, Copy, Debug, PartialEq)]
pub struct AccountMeta {
    /// The account's address.
    pub pubkey: Pubkey,
    /// Whether the account has to sign.
    pub is_signer: bool,
    /// Whether the instruction may write to the account.
    pub is_writable: bool,
}

/// What an account reference holds, as plain values.
pub struct AccountMetaView {
    pub pubkey: Seq<u8>,
    pub is_signer: bool,
    pub is_writable: bool,
}

impl View for AccountMeta {
    type V = AccountMetaView;

    open spec fn view(&self) -> AccountMetaView {
        AccountMetaView {
            pubkey: self.pubkey@,
            is_signer: self.is_signer,
            is_writable: self.is_writable,
        }
    }
}

impl AccountMetaView {
    /// A reference to an account that the instruction may write to.
    pub open spec fn writable(pubkey: Seq<u8>, is_signer: bool) -> AccountMetaView {
        AccountMetaView { pubkey, is_signer, is_writable: true }
    }

    /// A reference to an account that the instruction only reads.
    pub open spec fn readonly(pubkey: Seq<u8>, is_signer: bool) -> AccountMetaView {
        AccountMetaView { pubkey, is_signer, is_writable: false }
    }
}

impl AccountMeta {
    /// A reference to an account that the instruction may write to.
    pub fn new(pubkey: Pubkey, is_signer: bool) -> (meta: AccountMeta)
        ensures
            meta@ == AccountMetaView::writable(pubkey@, is_signer),
    {
        AccountMeta { pubkey, is_signer, is_writable: true }
    }

    /// A reference to an account that the instruction only reads.
    pub fn new_readonly(pubkey: Pubkey, is_signer: bool) -> (meta: AccountMeta)
        ensures
            meta@ == AccountMetaView::readonly(pubkey@, is_signer),
    {
        AccountMeta { pubkey, is_signer, is_writable: false }
    }
}

/// An instruction as a client sends it: the program it is for, the accounts
/// it refers to, and its payload.
#[derive(Clone, Debug, PartialEq)]
pub struct Instruction {
    /// The program that is to run the instruction.
    pub program_id: Pubkey,
    /// The accounts that the instruction refers to, in the order in which
    /// the operation expects them.
    pub accounts: Vec<AccountMeta>,
    /// The payload.
    pub data: Vec<u8>,
}

/// What an instruction holds as a client sends it, as plain values.
pub struct InstructionView {
    pub program_id: Seq<u8>,
    pub accounts: Seq<AccountMetaView>,
    pub data: Seq<u8>,
}

impl View for Instruction {
    type V = InstructionView;

    open spec fn view(&self) -> InstructionView {
        InstructionView {
            program_id: self.program_id@,
            accounts: self.accounts@.map_values(|m: AccountMeta| m@),
            data: self.data@,
        }
    }
}

/// Creates an `InitializeToken` instruction. The name and the symbol must be
/// short enough to be written: at most `u32::MAX` bytes each.
pub fn initialize_token(
    program_id: &Pubkey,
    token_account: &Pubkey,
    owner: &Pubkey,
    identity_registry: &Pubkey,
    compliance: &Pubkey,
    name: String,
    symbol: String,
    decimals: u8,
) -> (ix: Instruction)
    requires
        encode_utf8(name@).len() <= u32::MAX,
        encode_utf8(symbol@).len() <= u32::MAX,
    ensures
        ix@ == (InstructionView {
            program_id: program_id@,
            accounts: seq![
                AccountMetaView::writable(token_account@, false),
                AccountMetaView::readonly(RENT_SYSVAR_ID@, false),
                AccountMetaView::readonly(owner@, true),
                AccountMetaView::readonly(identity_registry@, false),
                AccountMetaView::readonly(compliance@, false),
            ],
            data: (TokenInstructionView::InitializeToken {
                name: name@,
                symbol: symbol@,
                decimals,
            }).encoding(),
        }),
{
    let mut accounts: Vec<AccountMeta> = Vec::new();
    accounts.push(AccountMeta::new(*token_account, false));
    accounts.push(AccountMeta::new_readonly(rent_sysvar_id(), false));
    accounts.push(AccountMeta::new_readonly(*owner, true));
    accounts.push(AccountMeta::new_readonly(*identity_registry, false));
    accounts.push(AccountMeta::new_readonly(*compliance, false));
    let data = (TokenInstruction::InitializeToken { name, symbol, decimals }).encode();
    let ix = Instruction { program_id: *program_id, accounts, data };
    proof {
        assert(ix@.accounts =~= seq![
            AccountMetaView::writable(token_account@, false),
            AccountMetaView::readonly(RENT_SYSVAR_ID@, false),
            AccountMetaView::readonly(owner@, true),
            AccountMetaView::readonly(identity_registry@, false),
            AccountMetaView::readonly(compliance@, false),
        ]);
    }
    ix
}

/// Creates a `Transfer` instruction.
pub fn transfer(
    program_id: &Pubkey,
    owner: &Pubkey,
    source: &Pubkey,
    destination: &Pubkey,
    token: &Pubkey,
    identity_registry: &Pubkey,
    compliance: &Pubkey,
    identity_storage: &Pubkey,
    amount: u64,
) -> (ix: Instruction)
    ensures
        ix@ == (InstructionView {
            program_id: program_id@,
            accounts: seq![
                AccountMetaView::readonly(owner@, true),
                AccountMetaView::writable(source@, false),
                AccountMetaView::writable(destination@, false),
                AccountMetaView::readonly(token@, false),
                AccountMetaView::readonly(identity_registry@, false),
                AccountMetaView::readonly(compliance@, false),
                AccountMetaView::readonly(identity_storage@, false),
            ],
            data: (TokenInstructionView::Transfer { amount }).encoding(),
        }),
{
    let mut accounts: Vec<AccountMeta> = Vec::new();
    accounts.push(AccountMeta::new_readonly(*owner, true));
    accounts.push(AccountMeta::new(*source, false));
    accounts.push(AccountMeta::new(*destination, false));
    accounts.push(AccountMeta::new_readonly(*token, false));
    accounts.push(AccountMeta::new_readonly(*identity_registry, false));
    accounts.push(AccountMeta::new_readonly(*compliance, false));
    accounts.push(AccountMeta::new_readonly(*identity_storage, false));
    let data = (TokenInstruction::Transfer { amount }).encode();
    let ix = Instruction { program_id: *program_id, accounts, data };
    proof {
        assert(ix@.accounts =~= seq![
            AccountMetaView::readonly(owner@, true),
            AccountMetaView::writable(source@, false),
            AccountMetaView::writable(destination@, false),
            AccountMetaView::readonly(token@, false),
            AccountMetaView::readonly(identity_registry@, false),
            AccountMetaView::readonly(compliance@, false),
            AccountMetaView::readonly(identity_storage@, false),
        ]);
    }
    ix
}

/// Creates a `ForcedTransfer` instruction.
pub fn forced_transfer(
    program_id: &Pubkey,
    agent: &Pubkey,
    source: &Pubkey,
    destination: &Pubkey,
    token: &Pubkey,
    identity_registry: &Pubkey,
    compliance: &Pubkey,
    identity_storage: &Pubkey,
    amount: u64,
) -> (ix: Instruction)
    ensures
        ix@ == (InstructionView {
            program_id: program_id@,
            accounts: seq![
                AccountMetaView::readonly(agent@, true),
                AccountMetaView::writable(source@, false),
                AccountMetaView::writable(destination@, false),
                AccountMetaView::readonly(token@, false),
                AccountMetaView::readonly(identity_registry@, false),
                AccountMetaView::readonly(compliance@, false),
                AccountMetaView::readonly(identity_storage@, false),
            ],
            data: (TokenInstructionView::ForcedTransfer { amount }).encoding(),
        }),
{
    let mut accounts: Vec<AccountMeta> = Vec::new();
    accounts.push(AccountMeta::new_readonly(*agent, true));
    accounts.push(AccountMeta::new(*source, false));
    accounts.push(AccountMeta::new(*destination, false));
    accounts.push(AccountMeta::new_readonly(*token, false));
    accounts.push(AccountMeta::new_readonly(*identity_registry, false));
    accounts.push(AccountMeta::new_readonly(*compliance, false));
    accounts.push(AccountMeta::new_readonly(*identity_storage, false));
    let data = (TokenInstruction::ForcedTransfer { amount }).encode();
    let ix = Instruction { program_id: *program_id, accounts, data };
    proof {
        assert(ix@.accounts =~= seq![
            AccountMetaView::readonly(agent@, true),
            AccountMetaView::writable(source@, false),
            AccountMetaView::writable(destination@, false),
            AccountMetaView::readonly(token@, false),
            AccountMetaView::readonly(identity_registry@, false),
            AccountMetaView::readonly(compliance@, false),
            AccountMetaView::readonly(identity_storage@, false),
        ]);
    }
    ix
}

/// Creates a `Mint` instruction.
pub fn mint(
    program_id: &Pubkey,
    agent: &Pubkey,
    destination: &Pubkey,
    token: &Pubkey,
    identity_registry: &Pubkey,
    identity_storage: &Pubkey,
    amount: u64,
) -> (ix: Instruction)
    ensures
        ix@ == (InstructionView {
            program_id: program_id@,
            accounts: seq![
                AccountMetaView::readonly(agent@, true),
                AccountMetaView::writable(destination@, false),
                AccountMetaView::writable(token@, false),
                AccountMetaView::readonly(identity_registry@, false),
                AccountMetaView::readonly(identity_storage@, false),
            ],
            data: (TokenInstructionView::Mint { amount }).encoding(),
        }),
{
    let mut accounts: Vec<AccountMeta> = Vec::new();
    accounts.push(AccountMeta::new_readonly(*agent, true));
    accounts.push(AccountMeta::new(*destination, false));
    accounts.push(AccountMeta::new(*token, false));
    accounts.push(AccountMeta::new_readonly(*identity_registry, false));
    accounts.push(AccountMeta::new_readonly(*identity_storage, false));
    let data = (TokenInstruction::Mint { amount }).encode();
    let ix = Instruction { program_id: *program_id, accounts, data };
    proof {
        assert(ix@.accounts =~= seq![
            AccountMetaView::readonly(agent@, true),
            AccountMetaView::writable(destination@, false),
            AccountMetaView::writable(token@, false),
            AccountMetaView::readonly(identity_registry@, false),
            AccountMetaView::readonly(identity_storage@, false),
        ]);
    }
    ix
}

/// Creates a `Burn` instruction.
pub fn burn(
    program_id: &Pubkey,
    owner: &Pubkey,
    source: &Pubkey,
    token: &Pubkey,
    amount: u64,
) -> (ix: Instruction)
    ensures
        ix@ == (InstructionView {
            program_id: program_id@,
            accounts: seq![
                AccountMetaView::readonly(owner@, true),
                AccountMetaView::writable(source@, false),
                AccountMetaView::writable(token@, false),
            ],
            data: (TokenInstructionView::Burn { amount }).encoding(),
        }),
{
    let mut accounts: Vec<AccountMeta> = Vec::new();
    accounts.push(AccountMeta::new_readonly(*owner, true));
    accounts.push(AccountMeta::new(*source, false));
    accounts.push(AccountMeta::new(*token, false));
    let data = (TokenInstruction::Burn { amount }).encode();
    let ix = Instruction { program_id: *program_id, accounts, data };
    proof {
        assert(ix@.accounts =~= seq![
            AccountMetaView::readonly(owner@, true),
            AccountMetaView::writable(source@, false),
            AccountMetaView::writable(token@, false),
        ]);
    }
    ix
}

} // verus!
