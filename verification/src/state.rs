//! The records that the ledger keeps, and their layout in an account's data.
//!
//! Each record has a fixed slot length. The record's bytes stand at the start
//! of the slot; the bytes behind them are not read and are left as they are
//! when the record is written. The sets that the ledger decides on are part
//! of the records: a token holds its agent roster, a compliance record its
//! rules, an identity registry its agents, and an identity storage account
//! one identity in each of its slots.

use crate::account::{AccountInfo, AccountView};
use crate::codec::{
    dec_bool, dec_key, dec_key_list, dec_string, dec_u16, dec_u32, dec_u64, dec_u64_list, dec_u8,
    enc_bool, enc_key_list, enc_string, enc_u16, enc_u32, enc_u64, enc_u64_list, enc_u8,
    holds_key, keys_view, keys_well_formed, lemma_bool_round_trip, lemma_dec_key_list_well_formed,
    lemma_dec_u64_list_len, lemma_enc_key_items_len, lemma_enc_lengths, lemma_enc_u64_items_len,
    lemma_key_list_round_trip, lemma_string_round_trip, lemma_u16_round_trip,
    lemma_u64_list_round_trip, lemma_u64_round_trip, lemma_u8_round_trip, overlay, read_bool,
    read_bytes32, read_key, read_key_list, read_string, read_u16, read_u64, read_u64_list,
    read_u8, write_bool, write_bytes32, write_key, write_key_list, write_prefix, write_string,
    write_u16, write_u64, write_u64_list, write_u8,
};
use crate::error::ProgramError;
use crate::pubkey::Pubkey;
use vstd::bytes::*;
use vstd::prelude::*;
use vstd::slice::*;
use vstd::utf8::*;

verus! {

/// The bit of a token account's `state` that marks the account frozen.
pub const ACCOUNT_FROZEN_FLAG: u8 = 1;

/// A token: the asset as a whole, with its supply and its policy references.
#[derive(Clone, Debug, PartialEq)]
pub struct Token {
    /// Whether the record has been set up.
    pub is_initialized: bool,
    /// The owner of the token.
    pub owner: Pubkey,
    /// The token's name.
    pub name: String,
    /// The token's symbol.
    pub symbol: String,
    /// The number of decimals in an amount.
    pub decimals: u8,
    /// The number of tokens in existence.
    pub supply: u64,
    /// Whether every balance-moving operation is suspended.
    pub is_paused: bool,
    /// The identity registry that the token consults.
    pub identity_registry: Pubkey,
    /// The compliance policy that the token consults.
    pub compliance: Pubkey,
    /// The agent roster: the addresses that may mint, freeze and force
    /// transfers.
    pub agents: Vec<Pubkey>,
}

/// What a token record holds, as plain values.
pub struct TokenView {
    pub is_initialized: bool,
    pub owner: Seq<u8>,
    pub name: Seq<char>,
    pub symbol: Seq<char>,
    pub decimals: u8,
    pub supply: u64,
    pub is_paused: bool,
    pub identity_registry: Seq<u8>,
    pub compliance: Seq<u8>,
    pub agents: Seq<Seq<u8>>,
}

impl View for Token {
    type V = TokenView;

    open spec fn view(&self) -> TokenView {
        TokenView {
            is_initialized: self.is_initialized,
            owner: self.owner@,
            name: self.name@,
            symbol: self.symbol@,
            decimals: self.decimals,
            supply: self.supply,
            is_paused: self.is_paused,
            identity_registry: self.identity_registry@,
            compliance: self.compliance@,
            agents: keys_view(self.agents@),
        }
    }
}

impl TokenView {
    /// Each address in the record has thirty-two bytes, and the byte count
    /// of each string and the length of the roster fit in 32 bits.
    pub open spec fn well_formed(self) -> bool {
        &&& self.owner.len() == 32
        &&& self.identity_registry.len() == 32
        &&& self.compliance.len() == 32
        &&& encode_utf8(self.name).len() <= u32::MAX
        &&& encode_utf8(self.symbol).len() <= u32::MAX
        &&& keys_well_formed(self.agents)
        &&& self.agents.len() <= u32::MAX
    }

    /// The number of bytes of the record: 119 for the fixed fields and the
    /// three lengths, the UTF-8 bytes of the two strings, and 32 for each
    /// agent.
    pub open spec fn encoded_len(self) -> nat {
        119 + encode_utf8(self.name).len() + encode_utf8(self.symbol).len() + 32
            * self.agents.len()
    }

    /// The record fits in a token's slot.
    pub open spec fn fits_slot(self) -> bool {
        self.well_formed() && self.encoded_len() <= Token::LEN
    }

    /// The bytes of the record: its fields one after the other.
    pub open spec fn encoding(self) -> Seq<u8> {
        enc_bool(self.is_initialized) + self.owner + enc_string(self.name) + enc_string(
            self.symbol,
        ) + enc_u8(self.decimals) + enc_u64(self.supply) + enc_bool(self.is_paused)
            + self.identity_registry + self.compliance + enc_key_list(self.agents)
    }

    /// The record that stands at the start of `b`; what follows it in `b` is
    /// not looked at.
    pub open spec fn decoding(b: Seq<u8>) -> Option<TokenView> {
        match (dec_bool(b, 0), dec_key(b, 1), dec_string(b, 33)) {
            (Some(is_initialized), Some(owner), Some((name, at))) => match dec_string(b, at) {
                Some((symbol, to)) => match (
                    dec_u8(b, to),
                    dec_u64(b, to + 1),
                    dec_bool(b, to + 9),
                    dec_key(b, to + 10),
                    dec_key(b, to + 42),
                    dec_key_list(b, to + 74),
                ) {
                    (
                        Some(decimals),
                        Some(supply),
                        Some(is_paused),
                        Some(identity_registry),
                        Some(compliance),
                        Some((agents, _)),
                    ) => Some(
                        TokenView {
                            is_initialized,
                            owner,
                            name,
                            symbol,
                            decimals,
                            supply,
                            is_paused,
                            identity_registry,
                            compliance,
                            agents,
                        },
                    ),
                    _ => None,
                },
                None => None,
            },
            _ => None,
        }
    }

    /// What loading the record from a slot of `b` gives: the slot has the
    /// record's fixed length, the record can be read, and it is initialized.
    pub open spec fn unpacking(b: Seq<u8>) -> Result<TokenView, ProgramError> {
        if b.len() != Token::LEN {
            Err(ProgramError::InvalidAccountData)
        } else {
            match TokenView::decoding(b) {
                None => Err(ProgramError::InvalidAccountData),
                Some(v) => if v.is_initialized {
                    Ok(v)
                } else {
                    Err(ProgramError::UninitializedAccount)
                },
            }
        }
    }

    /// Whether `key` may act as agent of the token: the roster holds it. The
    /// token's owner is an agent only where the roster holds the owner.
    pub open spec fn is_agent(self, key: Seq<u8>) -> bool {
        self.agents.contains(key)
    }

    /// The encoding has as many bytes as `encoded_len` says.
    pub proof fn lemma_encoding_len(self)
        requires
            self.well_formed(),
        ensures
            self.encoding().len() == self.encoded_len(),
    {
        lemma_enc_lengths();
        lemma_enc_key_items_len(self.agents);
    }

    /// A record that was stored at the start of a buffer is the record that
    /// is read there.
    #[verifier::rlimit(80)]
    pub proof fn lemma_decoding_of_stored(self, base: Seq<u8>)
        requires
            self.well_formed(),
            base.len() >= self.encoded_len(),
        ensures
            TokenView::decoding(overlay(base, self.encoding())) == Some(self),
            overlay(base, self.encoding()).len() == base.len(),
    {
        lemma_enc_lengths();
        self.lemma_encoding_len();
        let b = overlay(base, self.encoding());
        let n = encode_utf8(self.name).len() as int;
        let m = encode_utf8(self.symbol).len() as int;
        let at = 37 + n;
        let to = at + 4 + m;
        assert(b.subrange(0, 1) =~= enc_bool(self.is_initialized));
        lemma_bool_round_trip(b, 0, self.is_initialized);
        assert(b.subrange(1, 33) =~= self.owner);
        assert(b.subrange(33, at) =~= enc_string(self.name));
        lemma_string_round_trip(b, 33, self.name);
        assert(b.subrange(at, to) =~= enc_string(self.symbol));
        lemma_string_round_trip(b, at, self.symbol);
        assert(b.subrange(to, to + 1) =~= enc_u8(self.decimals));
        lemma_u8_round_trip(b, to, self.decimals);
        assert(b.subrange(to + 1, to + 9) =~= enc_u64(self.supply));
        lemma_u64_round_trip(b, to + 1, self.supply);
        assert(b.subrange(to + 9, to + 10) =~= enc_bool(self.is_paused));
        lemma_bool_round_trip(b, to + 9, self.is_paused);
        assert(b.subrange(to + 10, to + 42) =~= self.identity_registry);
        assert(b.subrange(to + 42, to + 74) =~= self.compliance);
        assert(b.subrange(to + 74, self.encoded_len() as int) =~= enc_key_list(self.agents));
        lemma_key_list_round_trip(b, to + 74, self.agents);
    }

    /// A record that was read from a buffer is well formed, and as long as
    /// its encoding is, the buffer is.
    pub proof fn lemma_decoded_fits(b: Seq<u8>)
        requires
            TokenView::decoding(b) is Some,
        ensures
            TokenView::decoding(b).unwrap().well_formed(),
            TokenView::decoding(b).unwrap().encoded_len() <= b.len(),
    {
        let n = dec_u32(b, 33).unwrap() as int;
        let at = 37 + n;
        let m = dec_u32(b, at).unwrap() as int;
        let to = at + 4 + m;
        decode_utf8_encode_utf8(b.subrange(37, 37 + n));
        decode_utf8_encode_utf8(b.subrange(at + 4, at + 4 + m));
        lemma_dec_key_list_well_formed(b, to + 74);
    }
}

impl Token {
    /// The length of the slot that holds a token.
    pub const LEN: usize = 512;

    /// Whether the record has been set up.
    pub fn is_initialized(&self) -> (b: bool)
        ensures
            b == self.is_initialized,
    {
        self.is_initialized
    }

    /// Whether `key` may act as agent of the token.
    pub fn is_agent(&self, key: &Pubkey) -> (b: bool)
        ensures
            b == self@.is_agent(key@),
    {
        holds_key(&self.agents, key)
    }

    /// The bytes of the record.
    pub fn encode(&self) -> (out: Vec<u8>)
        requires
            encode_utf8(self@.name).len() <= u32::MAX,
            encode_utf8(self@.symbol).len() <= u32::MAX,
            self@.agents.len() <= u32::MAX,
        ensures
            out@ == self@.encoding(),
            out@.len() == self@.encoded_len(),
            self@.well_formed(),
    {
        let mut out: Vec<u8> = Vec::new();
        write_bool(&mut out, self.is_initialized);
        write_key(&mut out, &self.owner);
        write_string(&mut out, &self.name);
        write_string(&mut out, &self.symbol);
        write_u8(&mut out, self.decimals);
        write_u64(&mut out, self.supply);
        write_bool(&mut out, self.is_paused);
        write_key(&mut out, &self.identity_registry);
        write_key(&mut out, &self.compliance);
        write_key_list(&mut out, &self.agents);
        proof {
            lemma_enc_lengths();
            assert(keys_well_formed(self@.agents)) by {
                assert forall|i: int| 0 <= i < self@.agents.len() implies (
                #[trigger] self@.agents[i]).len() == 32 by {
                    assert(self@.agents[i] == self.agents@[i]@);
                }
            }
            assert(out@ =~= self@.encoding());
            self@.lemma_encoding_len();
        }
        out
    }

    /// Reads the record that stands at the start of `src`.
    pub fn unpack_from_slice(src: &[u8]) -> (r: Result<Token, ProgramError>)
        ensures
            match r {
                Ok(v) => TokenView::decoding(src@) == Some(v@),
                Err(e) => {
                    TokenView::decoding(src@) is None && e == ProgramError::InvalidAccountData
                },
            },
    {
        let is_initialized = match read_bool(src, 0) {
            Some(v) => v,
            None => {
                return Err(ProgramError::InvalidAccountData);
            },
        };
        let owner = match read_key(src, 1) {
            Some(v) => v,
            None => {
                return Err(ProgramError::InvalidAccountData);
            },
        };
        let (name, at) = match read_string(src, 33) {
            Some(v) => v,
            None => {
                return Err(ProgramError::InvalidAccountData);
            },
        };
        let (symbol, to) = match read_string(src, at) {
            Some(v) => v,
            None => {
                return Err(ProgramError::InvalidAccountData);
            },
        };
        if src.len() - to < 74 {
            return Err(ProgramError::InvalidAccountData);
        }
        let decimals = match read_u8(src, to) {
            Some(v) => v,
            None => {
                return Err(ProgramError::InvalidAccountData);
            },
        };
        let supply = match read_u64(src, to + 1) {
            Some(v) => v,
            None => {
                return Err(ProgramError::InvalidAccountData);
            },
        };
        let is_paused = match read_bool(src, to + 9) {
            Some(v) => v,
            None => {
                return Err(ProgramError::InvalidAccountData);
            },
        };
        let identity_registry = match read_key(src, to + 10) {
            Some(v) => v,
            None => {
                return Err(ProgramError::InvalidAccountData);
            },
        };
        let compliance = match read_key(src, to + 42) {
            Some(v) => v,
            None => {
                return Err(ProgramError::InvalidAccountData);
            },
        };
        let (agents, _) = match read_key_list(src, to + 74) {
            Some(v) => v,
            None => {
                return Err(ProgramError::InvalidAccountData);
            },
        };
        Ok(
            Token {
                is_initialized,
                owner,
                name,
                symbol,
                decimals,
                supply,
                is_paused,
                identity_registry,
                compliance,
                agents,
            },
        )
    }

    /// Writes the record over the start of `dst`; the bytes behind it stay.
    pub fn pack_into_slice(&self, dst: &mut Vec<u8>)
        requires
            encode_utf8(self@.name).len() <= u32::MAX,
            encode_utf8(self@.symbol).len() <= u32::MAX,
            self@.agents.len() <= u32::MAX,
            self@.encoded_len() <= old(dst)@.len(),
        ensures
            final(dst)@ == overlay(old(dst)@, self@.encoding()),
            final(dst)@.len() == old(dst)@.len(),
    {
        let bytes = self.encode();
        write_prefix(dst, &bytes);
    }

    /// Reads the record from a slot: the slot must have the record's fixed
    /// length. Whether the record is initialized is not asked.
    pub fn unpack_unchecked(input: &[u8]) -> (r: Result<Token, ProgramError>)
        ensures
            match r {
                Ok(v) => input@.len() == Token::LEN && TokenView::decoding(input@) == Some(v@),
                Err(e) => e == ProgramError::InvalidAccountData && (input@.len() != Token::LEN
                    || TokenView::decoding(input@) is None),
            },
    {
        if input.len() != Token::LEN {
            return Err(ProgramError::InvalidAccountData);
        }
        Token::unpack_from_slice(input)
    }

    /// Loads the record from a slot: the slot must have the record's fixed
    /// length and hold an initialized record.
    pub fn unpack(input: &[u8]) -> (r: Result<Token, ProgramError>)
        ensures
            match r {
                Ok(v) => TokenView::unpacking(input@) == Ok::<TokenView, ProgramError>(v@),
                Err(e) => TokenView::unpacking(input@) == Err::<TokenView, ProgramError>(e),
            },
    {
        let value = match Token::unpack_unchecked(input) {
            Ok(v) => v,
            Err(e) => {
                return Err(e);
            },
        };
        if value.is_initialized() {
            Ok(value)
        } else {
            Err(ProgramError::UninitializedAccount)
        }
    }

    /// Stores the record in a slot: fails, and leaves the slot as it was,
    /// unless the slot has the record's fixed length. A record that is longer
    /// than the slot must not be handed in.
    pub fn pack(src: Token, dst: &mut Vec<u8>) -> (r: Result<(), ProgramError>)
        requires
            src@.fits_slot(),
        ensures
            old(dst)@.len() == Token::LEN ==> r is Ok && final(dst)@ == overlay(
                old(dst)@,
                src@.encoding(),
            ),
            old(dst)@.len() != Token::LEN ==> r == Err::<(), ProgramError>(
                ProgramError::InvalidAccountData,
            ) && final(dst)@ == old(dst)@,
            final(dst)@.len() == old(dst)@.len(),
    {
        if dst.len() != Token::LEN {
            return Err(ProgramError::InvalidAccountData);
        }
        src.pack_into_slice(dst);
        Ok(())
    }
}

/// A holder's balance of one token.
#[derive(Clone, Copy, Debug, PartialEq)]
pub struct TokenAccount {
    /// Whether the record has been set up.
    pub is_initialized: bool,
    /// The token that this account holds.
    pub token: Pubkey,
    /// The holder who owns this account.
    pub owner: Pubkey,
    /// The number of tokens held.
    pub amount: u64,
    /// Flags on the account; bit 0 marks it frozen.
    pub state: u8,
}

/// What a token account holds, as plain values.
pub struct TokenAccountView {
    pub is_initialized: bool,
    pub token: Seq<u8>,
    pub owner: Seq<u8>,
    pub amount: u64,
    pub state: u8,
}

impl View for TokenAccount {
    type V = TokenAccountView;

    open spec fn view(&self) -> TokenAccountView {
        TokenAccountView {
            is_initialized: self.is_initialized,
            token: self.token@,
            owner: self.owner@,
            amount: self.amount,
            state: self.state,
        }
    }
}

impl TokenAccountView {
    /// Each address in the record has thirty-two bytes.
    pub open spec fn well_formed(self) -> bool {
        &&& self.token.len() == 32
        &&& self.owner.len() == 32
    }

    /// The number of bytes of the record.
    pub open spec fn encoded_len(self) -> nat {
        74
    }

    /// The bytes of the record: its fields one after the other.
    pub open spec fn encoding(self) -> Seq<u8> {
        enc_bool(self.is_initialized)
            + self.token
            + self.owner
            + enc_u64(self.amount)
            + enc_u8(self.state)
    }

    /// The record that stands at the start of `b`; what follows it in `b` is
    /// not looked at.
    pub open spec fn decoding(b: Seq<u8>) -> Option<TokenAccountView> {
        match (dec_bool(b, 0), dec_key(b, 1), dec_key(b, 33), dec_u64(b, 65), dec_u8(b, 73)) {
            (Some(is_initialized), Some(token), Some(owner), Some(amount), Some(state)) => {
                Some(TokenAccountView { is_initialized, token, owner, amount, state })
            },
            _ => None,
        }
    }

    /// What loading the record from a slot of `b` gives: the slot has the
    /// record's fixed length, the record can be read, and it is initialized.
    pub open spec fn unpacking(b: Seq<u8>) -> Result<TokenAccountView, ProgramError> {
        if b.len() != TokenAccount::LEN {
            Err(ProgramError::InvalidAccountData)
        } else {
            match TokenAccountView::decoding(b) {
                None => Err(ProgramError::InvalidAccountData),
                Some(v) => if v.is_initialized {
                    Ok(v)
                } else {
                    Err(ProgramError::UninitializedAccount)
                },
            }
        }
    }

    /// The encoding has as many bytes as `encoded_len` says.
    pub proof fn lemma_encoding_len(self)
        requires
            self.well_formed(),
        ensures
            self.encoding().len() == self.encoded_len(),
    {
        lemma_enc_lengths();
    }

    /// A record that was stored at the start of a buffer is the record that
    /// is read there.
    pub proof fn lemma_decoding_of_stored(self, base: Seq<u8>)
        requires
            self.well_formed(),
            base.len() >= self.encoded_len(),
        ensures
            TokenAccountView::decoding(overlay(base, self.encoding())) == Some(self),
            overlay(base, self.encoding()).len() == base.len(),
    {
        self.lemma_encoding_len();
        lemma_enc_lengths();
        let b = overlay(base, self.encoding());
        assert(b.subrange(0, 1) =~= enc_bool(self.is_initialized));
        lemma_bool_round_trip(b, 0, self.is_initialized);
        assert(b.subrange(1, 33) =~= self.token);
        assert(b.subrange(33, 65) =~= self.owner);
        assert(b.subrange(65, 73) =~= enc_u64(self.amount));
        lemma_u64_round_trip(b, 65, self.amount);
        assert(b.subrange(73, 74) =~= enc_u8(self.state));
        lemma_u8_round_trip(b, 73, self.state);
    }

    /// A record that was read from a buffer is well formed, and as long as
    /// its encoding is, the buffer is.
    pub proof fn lemma_decoded_fits(b: Seq<u8>)
        requires
            TokenAccountView::decoding(b) is Some,
        ensures
            TokenAccountView::decoding(b).unwrap().well_formed(),
            TokenAccountView::decoding(b).unwrap().encoded_len() <= b.len(),
    {
    }
}

impl TokenAccount {
    /// The length of the slot that holds a token account.
    pub const LEN: usize = 128;

    /// Whether the record has been set up.
    pub fn is_initialized(&self) -> (b: bool)
        ensures
            b == self.is_initialized,
    {
        self.is_initialized
    }

    /// The bytes of the record.
    pub fn encode(&self) -> (out: Vec<u8>)
        ensures
            out@ == self@.encoding(),
            out@.len() == self@.encoded_len(),
            self@.well_formed(),
    {
        let mut out: Vec<u8> = Vec::new();
        write_bool(&mut out, self.is_initialized);
        write_key(&mut out, &self.token);
        write_key(&mut out, &self.owner);
        write_u64(&mut out, self.amount);
        write_u8(&mut out, self.state);
        proof {
            lemma_enc_lengths();
            assert(out@ =~= self@.encoding());
            self@.lemma_encoding_len();
        }
        out
    }

    /// Reads the record that stands at the start of `src`.
    pub fn unpack_from_slice(src: &[u8]) -> (r: Result<TokenAccount, ProgramError>)
        ensures
            match r {
                Ok(v) => TokenAccountView::decoding(src@) == Some(v@),
                Err(e) => {
                    TokenAccountView::decoding(src@) is None
                        && e == ProgramError::InvalidAccountData
                },
            },
    {
        let is_initialized = match read_bool(src, 0) {
            Some(v) => v,
            None => {
                return Err(ProgramError::InvalidAccountData);
            },
        };
        let token = match read_key(src, 1) {
            Some(v) => v,
            None => {
                return Err(ProgramError::InvalidAccountData);
            },
        };
        let owner = match read_key(src, 33) {
            Some(v) => v,
            None => {
                return Err(ProgramError::InvalidAccountData);
            },
        };
        let amount = match read_u64(src, 65) {
            Some(v) => v,
            None => {
                return Err(ProgramError::InvalidAccountData);
            },
        };
        let state = match read_u8(src, 73) {
            Some(v) => v,
            None => {
                return Err(ProgramError::InvalidAccountData);
            },
        };
        Ok(TokenAccount { is_initialized, token, owner, amount, state })
    }

    /// Writes the record over the start of `dst`; the bytes behind it stay.
    pub fn pack_into_slice(&self, dst: &mut Vec<u8>)
        requires
            old(dst)@.len() >= 74,
        ensures
            final(dst)@ == overlay(old(dst)@, self@.encoding()),
            final(dst)@.len() == old(dst)@.len(),
    {
        let bytes = self.encode();
        write_prefix(dst, &bytes);
    }

    /// Reads the record from a slot: the slot must have the record's fixed
    /// length. Whether the record is initialized is not asked.
    pub fn unpack_unchecked(input: &[u8]) -> (r: Result<TokenAccount, ProgramError>)
        ensures
            match r {
                Ok(v) => {
                    input@.len() == TokenAccount::LEN
                        && TokenAccountView::decoding(input@) == Some(v@)
                },
                Err(e) => e == ProgramError::InvalidAccountData && (input@.len() != TokenAccount::LEN
                    || TokenAccountView::decoding(input@) is None),
            },
    {
        if input.len() != TokenAccount::LEN {
            return Err(ProgramError::InvalidAccountData);
        }
        TokenAccount::unpack_from_slice(input)
    }

    /// Loads the record from a slot: the slot must have the record's fixed
    /// length and hold an initialized record.
    pub fn unpack(input: &[u8]) -> (r: Result<TokenAccount, ProgramError>)
        ensures
            match r {
                Ok(v) => {
                    TokenAccountView::unpacking(input@) == Ok::<TokenAccountView, ProgramError>(v@)
                },
                Err(e) => {
                    TokenAccountView::unpacking(input@) == Err::<TokenAccountView, ProgramError>(e)
                },
            },
    {
        let value = match TokenAccount::unpack_unchecked(input) {
            Ok(v) => v,
            Err(e) => {
                return Err(e);
            },
        };
        if value.is_initialized() {
            Ok(value)
        } else {
            Err(ProgramError::UninitializedAccount)
        }
    }

    /// Stores the record in a slot: fails, and leaves the slot as it was,
    /// unless the slot has the record's fixed length.
    pub fn pack(src: TokenAccount, dst: &mut Vec<u8>) -> (r: Result<(), ProgramError>)
        ensures
            old(dst)@.len() == TokenAccount::LEN ==> r is Ok && final(dst)@ == overlay(
                old(dst)@,
                src@.encoding(),
            ),
            old(dst)@.len() != TokenAccount::LEN ==> r == Err::<(), ProgramError>(
                ProgramError::InvalidAccountData,
            ) && final(dst)@ == old(dst)@,
            final(dst)@.len() == old(dst)@.len(),
    {
        if dst.len() != TokenAccount::LEN {
            return Err(ProgramError::InvalidAccountData);
        }
        src.pack_into_slice(dst);
        Ok(())
    }
}

/// The verified identity of one holder. An identity storage account holds
/// one identity in each of its slots.
#[derive(Clone, Copy, Debug, PartialEq)]
pub struct Identity {
    /// Whether the record has been set up.
    pub is_initialized: bool,
    /// The holder whom the identity describes.
    pub owner: Pubkey,
    /// The fingerprint of the identity that was verified off the ledger.
    pub identity_hash: [u8; 32],
    /// The code of the holder's jurisdiction.
    pub country: u16,
}

/// What an identity holds, as plain values.
pub struct IdentityView {
    pub is_initialized: bool,
    pub owner: Seq<u8>,
    pub identity_hash: Seq<u8>,
    pub country: u16,
}

impl View for Identity {
    type V = IdentityView;

    open spec fn view(&self) -> IdentityView {
        IdentityView {
            is_initialized: self.is_initialized,
            owner: self.owner@,
            identity_hash: self.identity_hash@,
            country: self.country,
        }
    }
}

impl IdentityView {
    /// Each address in the record has thirty-two bytes.
    pub open spec fn well_formed(self) -> bool {
        &&& self.owner.len() == 32
        &&& self.identity_hash.len() == 32
    }

    /// The number of bytes of the record.
    pub open spec fn encoded_len(self) -> nat {
        67
    }

    /// The bytes of the record: its fields one after the other.
    pub open spec fn encoding(self) -> Seq<u8> {
        enc_bool(self.is_initialized)
            + self.owner
            + self.identity_hash
            + enc_u16(self.country)
    }

    /// The record that stands at the start of `b`; what follows it in `b` is
    /// not looked at.
    pub open spec fn decoding(b: Seq<u8>) -> Option<IdentityView> {
        match (dec_bool(b, 0), dec_key(b, 1), dec_key(b, 33), dec_u16(b, 65)) {
            (Some(is_initialized), Some(owner), Some(identity_hash), Some(country)) => {
                Some(IdentityView { is_initialized, owner, identity_hash, country })
            },
            _ => None,
        }
    }

    /// What loading the record from a slot of `b` gives: the slot has the
    /// record's fixed length, the record can be read, and it is initialized.
    pub open spec fn unpacking(b: Seq<u8>) -> Result<IdentityView, ProgramError> {
        if b.len() != Identity::LEN {
            Err(ProgramError::InvalidAccountData)
        } else {
            match IdentityView::decoding(b) {
                None => Err(ProgramError::InvalidAccountData),
                Some(v) => if v.is_initialized {
                    Ok(v)
                } else {
                    Err(ProgramError::UninitializedAccount)
                },
            }
        }
    }

    /// The encoding has as many bytes as `encoded_len` says.
    pub proof fn lemma_encoding_len(self)
        requires
            self.well_formed(),
        ensures
            self.encoding().len() == self.encoded_len(),
    {
        lemma_enc_lengths();
    }

    /// A record that was stored at the start of a buffer is the record that
    /// is read there.
    pub proof fn lemma_decoding_of_stored(self, base: Seq<u8>)
        requires
            self.well_formed(),
            base.len() >= self.encoded_len(),
        ensures
            IdentityView::decoding(overlay(base, self.encoding())) == Some(self),
            overlay(base, self.encoding()).len() == base.len(),
    {
        self.lemma_encoding_len();
        lemma_enc_lengths();
        let b = overlay(base, self.encoding());
        assert(b.subrange(0, 1) =~= enc_bool(self.is_initialized));
        lemma_bool_round_trip(b, 0, self.is_initialized);
        assert(b.subrange(1, 33) =~= self.owner);
        assert(b.subrange(33, 65) =~= self.identity_hash);
        assert(b.subrange(65, 67) =~= enc_u16(self.country));
        lemma_u16_round_trip(b, 65, self.country);
    }

    /// A record that was read from a buffer is well formed, and as long as
    /// its encoding is, the buffer is.
    pub proof fn lemma_decoded_fits(b: Seq<u8>)
        requires
            IdentityView::decoding(b) is Some,
        ensures
            IdentityView::decoding(b).unwrap().well_formed(),
            IdentityView::decoding(b).unwrap().encoded_len() <= b.len(),
    {
    }
}

impl Identity {
    /// The length of the slot that holds an identity.
    pub const LEN: usize = 128;

    /// Whether the record has been set up.
    pub fn is_initialized(&self) -> (b: bool)
        ensures
            b == self.is_initialized,
    {
        self.is_initialized
    }

    /// The bytes of the record.
    pub fn encode(&self) -> (out: Vec<u8>)
        ensures
            out@ == self@.encoding(),
            out@.len() == self@.encoded_len(),
            self@.well_formed(),
    {
        let mut out: Vec<u8> = Vec::new();
        write_bool(&mut out, self.is_initialized);
        write_key(&mut out, &self.owner);
        write_bytes32(&mut out, &self.identity_hash);
        write_u16(&mut out, self.country);
        proof {
            lemma_enc_lengths();
            assert(out@ =~= self@.encoding());
            self@.lemma_encoding_len();
        }
        out
    }

    /// Reads the record that stands at the start of `src`.
    pub fn unpack_from_slice(src: &[u8]) -> (r: Result<Identity, ProgramError>)
        ensures
            match r {
                Ok(v) => IdentityView::decoding(src@) == Some(v@),
                Err(e) => {
                    IdentityView::decoding(src@) is None && e == ProgramError::InvalidAccountData
                },
            },
    {
        let is_initialized = match read_bool(src, 0) {
            Some(v) => v,
            None => {
                return Err(ProgramError::InvalidAccountData);
            },
        };
        let owner = match read_key(src, 1) {
            Some(v) => v,
            None => {
                return Err(ProgramError::InvalidAccountData);
            },
        };
        let identity_hash = match read_bytes32(src, 33) {
            Some(v) => v,
            None => {
                return Err(ProgramError::InvalidAccountData);
            },
        };
        let country = match read_u16(src, 65) {
            Some(v) => v,
            None => {
                return Err(ProgramError::InvalidAccountData);
            },
        };
        Ok(Identity { is_initialized, owner, identity_hash, country })
    }

    /// Writes the record over the start of `dst`; the bytes behind it stay.
    pub fn pack_into_slice(&self, dst: &mut Vec<u8>)
        requires
            old(dst)@.len() >= 67,
        ensures
            final(dst)@ == overlay(old(dst)@, self@.encoding()),
            final(dst)@.len() == old(dst)@.len(),
    {
        let bytes = self.encode();
        write_prefix(dst, &bytes);
    }

    /// Reads the record from a slot: the slot must have the record's fixed
    /// length. Whether the record is initialized is not asked.
    pub fn unpack_unchecked(input: &[u8]) -> (r: Result<Identity, ProgramError>)
        ensures
            match r {
                Ok(v) => {
                    input@.len() == Identity::LEN && IdentityView::decoding(input@) == Some(v@)
                },
                Err(e) => e == ProgramError::InvalidAccountData && (input@.len() != Identity::LEN
                    || IdentityView::decoding(input@) is None),
            },
    {
        if input.len() != Identity::LEN {
            return Err(ProgramError::InvalidAccountData);
        }
        Identity::unpack_from_slice(input)
    }

    /// Loads the record from a slot: the slot must have the record's fixed
    /// length and hold an initialized record.
    pub fn unpack(input: &[u8]) -> (r: Result<Identity, ProgramError>)
        ensures
            match r {
                Ok(v) => IdentityView::unpacking(input@) == Ok::<IdentityView, ProgramError>(v@),
                Err(e) => IdentityView::unpacking(input@) == Err::<IdentityView, ProgramError>(e),
            },
    {
        let value = match Identity::unpack_unchecked(input) {
            Ok(v) => v,
            Err(e) => {
                return Err(e);
            },
        };
        if value.is_initialized() {
            Ok(value)
        } else {
            Err(ProgramError::UninitializedAccount)
        }
    }

    /// Stores the record in a slot: fails, and leaves the slot as it was,
    /// unless the slot has the record's fixed length.
    pub fn pack(src: Identity, dst: &mut Vec<u8>) -> (r: Result<(), ProgramError>)
        ensures
            old(dst)@.len() == Identity::LEN ==> r is Ok && final(dst)@ == overlay(
                old(dst)@,
                src@.encoding(),
            ),
            old(dst)@.len() != Identity::LEN ==> r == Err::<(), ProgramError>(
                ProgramError::InvalidAccountData,
            ) && final(dst)@ == old(dst)@,
            final(dst)@.len() == old(dst)@.len(),
    {
        if dst.len() != Identity::LEN {
            return Err(ProgramError::InvalidAccountData);
        }
        src.pack_into_slice(dst);
        Ok(())
    }
}

/// The registry that decides which holders count as verified.
#[derive(Clone, Debug, PartialEq)]
pub struct IdentityRegistry {
    /// Whether the record has been set up.
    pub is_initialized: bool,
    /// The owner of the registry.
    pub owner: Pubkey,
    /// The account that stores the identities.
    pub identity_storage: Pubkey,
    /// The account that lists the trusted issuers.
    pub trusted_issuers_registry: Pubkey,
    /// The account that lists the required claim topics.
    pub claim_topics_registry: Pubkey,
    /// The registry's agents: the addresses that may manage identities beside
    /// the owner.
    pub agents: Vec<Pubkey>,
}

/// What an identity registry holds, as plain values.
pub struct IdentityRegistryView {
    pub is_initialized: bool,
    pub owner: Seq<u8>,
    pub identity_storage: Seq<u8>,
    pub trusted_issuers_registry: Seq<u8>,
    pub claim_topics_registry: Seq<u8>,
    pub agents: Seq<Seq<u8>>,
}

impl View for IdentityRegistry {
    type V = IdentityRegistryView;

    open spec fn view(&self) -> IdentityRegistryView {
        IdentityRegistryView {
            is_initialized: self.is_initialized,
            owner: self.owner@,
            identity_storage: self.identity_storage@,
            trusted_issuers_registry: self.trusted_issuers_registry@,
            claim_topics_registry: self.claim_topics_registry@,
            agents: keys_view(self.agents@),
        }
    }
}

impl IdentityRegistryView {
    /// Each address in the record has thirty-two bytes, and the list is short enough for its
    /// length to be written.
    pub open spec fn well_formed(self) -> bool {
        &&& self.owner.len() == 32
        &&& self.identity_storage.len() == 32
        &&& self.trusted_issuers_registry.len() == 32
        &&& self.claim_topics_registry.len() == 32
        &&& keys_well_formed(self.agents)
        &&& self.agents.len() <= u32::MAX
    }

    /// The number of bytes of the record: 133 for the fixed fields and the
    /// list's length, and 32 for each item.
    pub open spec fn encoded_len(self) -> nat {
        133 + 32 * self.agents.len()
    }

    /// The record fits in its slot.
    pub open spec fn fits_slot(self) -> bool {
        self.well_formed() && self.encoded_len() <= IdentityRegistry::LEN
    }

    /// The bytes of the record: its fields one after the other.
    pub open spec fn encoding(self) -> Seq<u8> {
        enc_bool(self.is_initialized)
            + self.owner
            + self.identity_storage
            + self.trusted_issuers_registry
            + self.claim_topics_registry
            + enc_key_list(self.agents)
    }

    /// The record that stands at the start of `b`; what follows it in `b` is
    /// not looked at.
    pub open spec fn decoding(b: Seq<u8>) -> Option<IdentityRegistryView> {
        match (dec_bool(b, 0), dec_key(b, 1), dec_key(b, 33), dec_key(b, 65), dec_key(b, 97)) {
            (Some(is_initialized), Some(owner), Some(identity_storage), Some(trusted_issuers_registry), Some(claim_topics_registry)) => match dec_key_list(b, 129) {
                Some((agents, _)) => {
                    Some(
                        IdentityRegistryView { is_initialized, owner, identity_storage, trusted_issuers_registry, claim_topics_registry, agents },
                    )
                },
                None => None,
            },
            _ => None,
        }
    }

    /// What loading the record from a slot of `b` gives: the slot has the
    /// record's fixed length, the record can be read, and it is initialized.
    pub open spec fn unpacking(b: Seq<u8>) -> Result<IdentityRegistryView, ProgramError> {
        if b.len() != IdentityRegistry::LEN {
            Err(ProgramError::InvalidAccountData)
        } else {
            match IdentityRegistryView::decoding(b) {
                None => Err(ProgramError::InvalidAccountData),
                Some(v) => if v.is_initialized {
                    Ok(v)
                } else {
                    Err(ProgramError::UninitializedAccount)
                },
            }
        }
    }

    /// The encoding has as many bytes as `encoded_len` says.
    pub proof fn lemma_encoding_len(self)
        requires
            self.well_formed(),
        ensures
            self.encoding().len() == self.encoded_len(),
    {
        lemma_enc_lengths();
        lemma_enc_key_items_len(self.agents);
    }

    /// A record that was stored at the start of a buffer is the record that
    /// is read there.
    pub proof fn lemma_decoding_of_stored(self, base: Seq<u8>)
        requires
            self.well_formed(),
            base.len() >= self.encoded_len(),
        ensures
            IdentityRegistryView::decoding(overlay(base, self.encoding())) == Some(self),
            overlay(base, self.encoding()).len() == base.len(),
    {
        self.lemma_encoding_len();
        lemma_enc_lengths();
        let b = overlay(base, self.encoding());
        assert(b.subrange(0, 1) =~= enc_bool(self.is_initialized));
        lemma_bool_round_trip(b, 0, self.is_initialized);
        assert(b.subrange(1, 33) =~= self.owner);
        assert(b.subrange(33, 65) =~= self.identity_storage);
        assert(b.subrange(65, 97) =~= self.trusted_issuers_registry);
        assert(b.subrange(97, 129) =~= self.claim_topics_registry);
        assert(b.subrange(129, self.encoded_len() as int) =~= enc_key_list(self.agents));
        lemma_key_list_round_trip(b, 129, self.agents);
    }

    /// A record that was read from a buffer is well formed, and as long as
    /// its encoding is, the buffer is.
    pub proof fn lemma_decoded_fits(b: Seq<u8>)
        requires
            IdentityRegistryView::decoding(b) is Some,
        ensures
            IdentityRegistryView::decoding(b).unwrap().well_formed(),
            IdentityRegistryView::decoding(b).unwrap().encoded_len() <= b.len(),
    {
        lemma_dec_key_list_well_formed(b, 129);
    }
}

impl IdentityRegistry {
    /// The length of the slot that holds an identity registry.
    pub const LEN: usize = 256;

    /// Whether the record has been set up.
    pub fn is_initialized(&self) -> (b: bool)
        ensures
            b == self.is_initialized,
    {
        self.is_initialized
    }

    /// The bytes of the record.
    pub fn encode(&self) -> (out: Vec<u8>)
        requires
            self@.agents.len() <= u32::MAX,
        ensures
            out@ == self@.encoding(),
            out@.len() == self@.encoded_len(),
            self@.well_formed(),
    {
        let mut out: Vec<u8> = Vec::new();
        write_bool(&mut out, self.is_initialized);
        write_key(&mut out, &self.owner);
        write_key(&mut out, &self.identity_storage);
        write_key(&mut out, &self.trusted_issuers_registry);
        write_key(&mut out, &self.claim_topics_registry);
        write_key_list(&mut out, &self.agents);
        proof {
            lemma_enc_lengths();
            assert(keys_well_formed(self@.agents)) by {
                assert forall|i: int| 0 <= i < self@.agents.len() implies (#[trigger] self@.agents[i]).len()
                    == 32 by {
                    assert(self@.agents[i] == self.agents@[i]@);
                }
            }
            assert(out@ =~= self@.encoding());
            self@.lemma_encoding_len();
        }
        out
    }

    /// Reads the record that stands at the start of `src`.
    pub fn unpack_from_slice(src: &[u8]) -> (r: Result<IdentityRegistry, ProgramError>)
        ensures
            match r {
                Ok(v) => IdentityRegistryView::decoding(src@) == Some(v@),
                Err(e) => {
                    IdentityRegistryView::decoding(src@) is None
                        && e == ProgramError::InvalidAccountData
                },
            },
    {
        let is_initialized = match read_bool(src, 0) {
            Some(v) => v,
            None => {
                return Err(ProgramError::InvalidAccountData);
            },
        };
        let owner = match read_key(src, 1) {
            Some(v) => v,
            None => {
                return Err(ProgramError::InvalidAccountData);
            },
        };
        let identity_storage = match read_key(src, 33) {
            Some(v) => v,
            None => {
                return Err(ProgramError::InvalidAccountData);
            },
        };
        let trusted_issuers_registry = match read_key(src, 65) {
            Some(v) => v,
            None => {
                return Err(ProgramError::InvalidAccountData);
            },
        };
        let claim_topics_registry = match read_key(src, 97) {
            Some(v) => v,
            None => {
                return Err(ProgramError::InvalidAccountData);
            },
        };
        let (agents, _) = match read_key_list(src, 129) {
            Some(v) => v,
            None => {
                return Err(ProgramError::InvalidAccountData);
            },
        };
        Ok(IdentityRegistry { is_initialized, owner, identity_storage, trusted_issuers_registry, claim_topics_registry, agents })
    }

    /// Writes the record over the start of `dst`; the bytes behind it stay.
    pub fn pack_into_slice(&self, dst: &mut Vec<u8>)
        requires
            self@.agents.len() <= u32::MAX,
            self@.encoded_len() <= old(dst)@.len(),
        ensures
            final(dst)@ == overlay(old(dst)@, self@.encoding()),
            final(dst)@.len() == old(dst)@.len(),
    {
        let bytes = self.encode();
        write_prefix(dst, &bytes);
    }

    /// Reads the record from a slot: the slot must have the record's fixed
    /// length. Whether the record is initialized is not asked.
    pub fn unpack_unchecked(input: &[u8]) -> (r: Result<IdentityRegistry, ProgramError>)
        ensures
            match r {
                Ok(v) => {
                    input@.len() == IdentityRegistry::LEN
                        && IdentityRegistryView::decoding(input@) == Some(v@)
                },
                Err(e) => e == ProgramError::InvalidAccountData && (input@.len() != IdentityRegistry::LEN
                    || IdentityRegistryView::decoding(input@) is None),
            },
    {
        if input.len() != IdentityRegistry::LEN {
            return Err(ProgramError::InvalidAccountData);
        }
        IdentityRegistry::unpack_from_slice(input)
    }

    /// Loads the record from a slot: the slot must have the record's fixed
    /// length and hold an initialized record.
    pub fn unpack(input: &[u8]) -> (r: Result<IdentityRegistry, ProgramError>)
        ensures
            match r {
                Ok(v) => {
                    IdentityRegistryView::unpacking(
                        input@) == Ok::<IdentityRegistryView, ProgramError>(v@,
                    )
                },
                Err(e) => {
                    IdentityRegistryView::unpacking(
                        input@) == Err::<IdentityRegistryView, ProgramError>(e,
                    )
                },
            },
    {
        let value = match IdentityRegistry::unpack_unchecked(input) {
            Ok(v) => v,
            Err(e) => {
                return Err(e);
            },
        };
        if value.is_initialized() {
            Ok(value)
        } else {
            Err(ProgramError::UninitializedAccount)
        }
    }

    /// Stores the record in a slot: fails, and leaves the slot as it was,
    /// unless the slot has the record's fixed length. A record that is longer
    /// than the slot must not be handed in.
    pub fn pack(src: IdentityRegistry, dst: &mut Vec<u8>) -> (r: Result<(), ProgramError>)
        requires
            src@.fits_slot(),
        ensures
            old(dst)@.len() == IdentityRegistry::LEN ==> r is Ok && final(dst)@ == overlay(
                old(dst)@,
                src@.encoding(),
            ),
            old(dst)@.len() != IdentityRegistry::LEN ==> r == Err::<(), ProgramError>(
                ProgramError::InvalidAccountData,
            ) && final(dst)@ == old(dst)@,
            final(dst)@.len() == old(dst)@.len(),
    {
        if dst.len() != IdentityRegistry::LEN {
            return Err(ProgramError::InvalidAccountData);
        }
        src.pack_into_slice(dst);
        Ok(())
    }
}

/// The compliance policy of a token: its owner and its rules. A rule is
/// named by the address of its rule account, and bars the holder at that
/// address from sending and from receiving.
#[derive(Clone, Debug, PartialEq)]
pub struct Compliance {
    /// Whether the record has been set up.
    pub is_initialized: bool,
    /// The owner of the policy.
    pub owner: Pubkey,
    /// The rules, each by the address of its rule account.
    pub rules: Vec<Pubkey>,
}

/// What a compliance record holds, as plain values.
pub struct ComplianceView {
    pub is_initialized: bool,
    pub owner: Seq<u8>,
    pub rules: Seq<Seq<u8>>,
}

impl View for Compliance {
    type V = ComplianceView;

    open spec fn view(&self) -> ComplianceView {
        ComplianceView {
            is_initialized: self.is_initialized,
            owner: self.owner@,
            rules: keys_view(self.rules@),
        }
    }
}

impl ComplianceView {
    /// Each address in the record has thirty-two bytes, and the list is short enough for its
    /// length to be written.
    pub open spec fn well_formed(self) -> bool {
        &&& self.owner.len() == 32
        &&& keys_well_formed(self.rules)
        &&& self.rules.len() <= u32::MAX
    }

    /// The number of bytes of the record: 37 for the fixed fields and the
    /// list's length, and 32 for each item.
    pub open spec fn encoded_len(self) -> nat {
        37 + 32 * self.rules.len()
    }

    /// The record fits in its slot.
    pub open spec fn fits_slot(self) -> bool {
        self.well_formed() && self.encoded_len() <= Compliance::LEN
    }

    /// The bytes of the record: its fields one after the other.
    pub open spec fn encoding(self) -> Seq<u8> {
        enc_bool(self.is_initialized)
            + self.owner
            + enc_key_list(self.rules)
    }

    /// The record that stands at the start of `b`; what follows it in `b` is
    /// not looked at.
    pub open spec fn decoding(b: Seq<u8>) -> Option<ComplianceView> {
        match (dec_bool(b, 0), dec_key(b, 1)) {
            (Some(is_initialized), Some(owner)) => match dec_key_list(b, 33) {
                Some((rules, _)) => Some(ComplianceView { is_initialized, owner, rules }),
                None => None,
            },
            _ => None,
        }
    }

    /// What loading the record from a slot of `b` gives: the slot has the
    /// record's fixed length, the record can be read, and it is initialized.
    pub open spec fn unpacking(b: Seq<u8>) -> Result<ComplianceView, ProgramError> {
        if b.len() != Compliance::LEN {
            Err(ProgramError::InvalidAccountData)
        } else {
            match ComplianceView::decoding(b) {
                None => Err(ProgramError::InvalidAccountData),
                Some(v) => if v.is_initialized {
                    Ok(v)
                } else {
                    Err(ProgramError::UninitializedAccount)
                },
            }
        }
    }

    /// The encoding has as many bytes as `encoded_len` says.
    pub proof fn lemma_encoding_len(self)
        requires
            self.well_formed(),
        ensures
            self.encoding().len() == self.encoded_len(),
    {
        lemma_enc_lengths();
        lemma_enc_key_items_len(self.rules);
    }

    /// A record that was stored at the start of a buffer is the record that
    /// is read there.
    pub proof fn lemma_decoding_of_stored(self, base: Seq<u8>)
        requires
            self.well_formed(),
            base.len() >= self.encoded_len(),
        ensures
            ComplianceView::decoding(overlay(base, self.encoding())) == Some(self),
            overlay(base, self.encoding()).len() == base.len(),
    {
        self.lemma_encoding_len();
        lemma_enc_lengths();
        let b = overlay(base, self.encoding());
        assert(b.subrange(0, 1) =~= enc_bool(self.is_initialized));
        lemma_bool_round_trip(b, 0, self.is_initialized);
        assert(b.subrange(1, 33) =~= self.owner);
        assert(b.subrange(33, self.encoded_len() as int) =~= enc_key_list(self.rules));
        lemma_key_list_round_trip(b, 33, self.rules);
    }

    /// A record that was read from a buffer is well formed, and as long as
    /// its encoding is, the buffer is.
    pub proof fn lemma_decoded_fits(b: Seq<u8>)
        requires
            ComplianceView::decoding(b) is Some,
        ensures
            ComplianceView::decoding(b).unwrap().well_formed(),
            ComplianceView::decoding(b).unwrap().encoded_len() <= b.len(),
    {
        lemma_dec_key_list_well_formed(b, 33);
    }
}

impl Compliance {
    /// The length of the slot that holds a compliance record.
    pub const LEN: usize = 128;

    /// Whether the record has been set up.
    pub fn is_initialized(&self) -> (b: bool)
        ensures
            b == self.is_initialized,
    {
        self.is_initialized
    }

    /// The bytes of the record.
    pub fn encode(&self) -> (out: Vec<u8>)
        requires
            self@.rules.len() <= u32::MAX,
        ensures
            out@ == self@.encoding(),
            out@.len() == self@.encoded_len(),
            self@.well_formed(),
    {
        let mut out: Vec<u8> = Vec::new();
        write_bool(&mut out, self.is_initialized);
        write_key(&mut out, &self.owner);
        write_key_list(&mut out, &self.rules);
        proof {
            lemma_enc_lengths();
            assert(keys_well_formed(self@.rules)) by {
                assert forall|i: int| 0 <= i < self@.rules.len() implies (#[trigger] self@.rules[i]).len()
                    == 32 by {
                    assert(self@.rules[i] == self.rules@[i]@);
                }
            }
            assert(out@ =~= self@.encoding());
            self@.lemma_encoding_len();
        }
        out
    }

    /// Reads the record that stands at the start of `src`.
    pub fn unpack_from_slice(src: &[u8]) -> (r: Result<Compliance, ProgramError>)
        ensures
            match r {
                Ok(v) => ComplianceView::decoding(src@) == Some(v@),
                Err(e) => {
                    ComplianceView::decoding(src@) is None && e == ProgramError::InvalidAccountData
                },
            },
    {
        let is_initialized = match read_bool(src, 0) {
            Some(v) => v,
            None => {
                return Err(ProgramError::InvalidAccountData);
            },
        };
        let owner = match read_key(src, 1) {
            Some(v) => v,
            None => {
                return Err(ProgramError::InvalidAccountData);
            },
        };
        let (rules, _) = match read_key_list(src, 33) {
            Some(v) => v,
            None => {
                return Err(ProgramError::InvalidAccountData);
            },
        };
        Ok(Compliance { is_initialized, owner, rules })
    }

    /// Writes the record over the start of `dst`; the bytes behind it stay.
    pub fn pack_into_slice(&self, dst: &mut Vec<u8>)
        requires
            self@.rules.len() <= u32::MAX,
            self@.encoded_len() <= old(dst)@.len(),
        ensures
            final(dst)@ == overlay(old(dst)@, self@.encoding()),
            final(dst)@.len() == old(dst)@.len(),
    {
        let bytes = self.encode();
        write_prefix(dst, &bytes);
    }

    /// Reads the record from a slot: the slot must have the record's fixed
    /// length. Whether the record is initialized is not asked.
    pub fn unpack_unchecked(input: &[u8]) -> (r: Result<Compliance, ProgramError>)
        ensures
            match r {
                Ok(v) => {
                    input@.len() == Compliance::LEN && ComplianceView::decoding(input@) == Some(v@)
                },
                Err(e) => e == ProgramError::InvalidAccountData && (input@.len() != Compliance::LEN
                    || ComplianceView::decoding(input@) is None),
            },
    {
        if input.len() != Compliance::LEN {
            return Err(ProgramError::InvalidAccountData);
        }
        Compliance::unpack_from_slice(input)
    }

    /// Loads the record from a slot: the slot must have the record's fixed
    /// length and hold an initialized record.
    pub fn unpack(input: &[u8]) -> (r: Result<Compliance, ProgramError>)
        ensures
            match r {
                Ok(v) => {
                    ComplianceView::unpacking(input@) == Ok::<ComplianceView, ProgramError>(v@)
                },
                Err(e) => {
                    ComplianceView::unpacking(input@) == Err::<ComplianceView, ProgramError>(e)
                },
            },
    {
        let value = match Compliance::unpack_unchecked(input) {
            Ok(v) => v,
            Err(e) => {
                return Err(e);
            },
        };
        if value.is_initialized() {
            Ok(value)
        } else {
            Err(ProgramError::UninitializedAccount)
        }
    }

    /// Stores the record in a slot: fails, and leaves the slot as it was,
    /// unless the slot has the record's fixed length. A record that is longer
    /// than the slot must not be handed in.
    pub fn pack(src: Compliance, dst: &mut Vec<u8>) -> (r: Result<(), ProgramError>)
        requires
            src@.fits_slot(),
        ensures
            old(dst)@.len() == Compliance::LEN ==> r is Ok && final(dst)@ == overlay(
                old(dst)@,
                src@.encoding(),
            ),
            old(dst)@.len() != Compliance::LEN ==> r == Err::<(), ProgramError>(
                ProgramError::InvalidAccountData,
            ) && final(dst)@ == old(dst)@,
            final(dst)@.len() == old(dst)@.len(),
    {
        if dst.len() != Compliance::LEN {
            return Err(ProgramError::InvalidAccountData);
        }
        src.pack_into_slice(dst);
        Ok(())
    }
}

/// An entry of an agent roster as it is kept on its own: the agent's
/// address.
#[derive(Clone, Copy, Debug, PartialEq)]
pub struct Agent {
    /// Whether the record has been set up.
    pub is_initialized: bool,
    /// The agent's address.
    pub key: Pubkey,
}

/// What an agent record holds, as plain values.
pub struct AgentView {
    pub is_initialized: bool,
    pub key: Seq<u8>,
}

impl View for Agent {
    type V = AgentView;

    open spec fn view(&self) -> AgentView {
        AgentView {
            is_initialized: self.is_initialized,
            key: self.key@,
        }
    }
}

impl AgentView {
    /// Each address in the record has thirty-two bytes.
    pub open spec fn well_formed(self) -> bool {
        &&& self.key.len() == 32
    }

    /// The number of bytes of the record.
    pub open spec fn encoded_len(self) -> nat {
        33
    }

    /// The bytes of the record: its fields one after the other.
    pub open spec fn encoding(self) -> Seq<u8> {
        enc_bool(self.is_initialized)
            + self.key
    }

    /// The record that stands at the start of `b`; what follows it in `b` is
    /// not looked at.
    pub open spec fn decoding(b: Seq<u8>) -> Option<AgentView> {
        match (dec_bool(b, 0), dec_key(b, 1)) {
            (Some(is_initialized), Some(key)) => Some(AgentView { is_initialized, key }),
            _ => None,
        }
    }

    /// What loading the record from a slot of `b` gives: the slot has the
    /// record's fixed length, the record can be read, and it is initialized.
    pub open spec fn unpacking(b: Seq<u8>) -> Result<AgentView, ProgramError> {
        if b.len() != Agent::LEN {
            Err(ProgramError::InvalidAccountData)
        } else {
            match AgentView::decoding(b) {
                None => Err(ProgramError::InvalidAccountData),
                Some(v) => if v.is_initialized {
                    Ok(v)
                } else {
                    Err(ProgramError::UninitializedAccount)
                },
            }
        }
    }

    /// The encoding has as many bytes as `encoded_len` says.
    pub proof fn lemma_encoding_len(self)
        requires
            self.well_formed(),
        ensures
            self.encoding().len() == self.encoded_len(),
    {
        lemma_enc_lengths();
    }

    /// A record that was stored at the start of a buffer is the record that
    /// is read there.
    pub proof fn lemma_decoding_of_stored(self, base: Seq<u8>)
        requires
            self.well_formed(),
            base.len() >= self.encoded_len(),
        ensures
            AgentView::decoding(overlay(base, self.encoding())) == Some(self),
            overlay(base, self.encoding()).len() == base.len(),
    {
        self.lemma_encoding_len();
        lemma_enc_lengths();
        let b = overlay(base, self.encoding());
        assert(b.subrange(0, 1) =~= enc_bool(self.is_initialized));
        lemma_bool_round_trip(b, 0, self.is_initialized);
        assert(b.subrange(1, 33) =~= self.key);
    }

    /// A record that was read from a buffer is well formed, and as long as
    /// its encoding is, the buffer is.
    pub proof fn lemma_decoded_fits(b: Seq<u8>)
        requires
            AgentView::decoding(b) is Some,
        ensures
            AgentView::decoding(b).unwrap().well_formed(),
            AgentView::decoding(b).unwrap().encoded_len() <= b.len(),
    {
    }
}

impl Agent {
    /// The length of the slot that holds an agent record.
    pub const LEN: usize = 64;

    /// Whether the record has been set up.
    pub fn is_initialized(&self) -> (b: bool)
        ensures
            b == self.is_initialized,
    {
        self.is_initialized
    }

    /// The bytes of the record.
    pub fn encode(&self) -> (out: Vec<u8>)
        ensures
            out@ == self@.encoding(),
            out@.len() == self@.encoded_len(),
            self@.well_formed(),
    {
        let mut out: Vec<u8> = Vec::new();
        write_bool(&mut out, self.is_initialized);
        write_key(&mut out, &self.key);
        proof {
            lemma_enc_lengths();
            assert(out@ =~= self@.encoding());
            self@.lemma_encoding_len();
        }
        out
    }

    /// Reads the record that stands at the start of `src`.
    pub fn unpack_from_slice(src: &[u8]) -> (r: Result<Agent, ProgramError>)
        ensures
            match r {
                Ok(v) => AgentView::decoding(src@) == Some(v@),
                Err(e) => {
                    AgentView::decoding(src@) is None && e == ProgramError::InvalidAccountData
                },
            },
    {
        let is_initialized = match read_bool(src, 0) {
            Some(v) => v,
            None => {
                return Err(ProgramError::InvalidAccountData);
            },
        };
        let key = match read_key(src, 1) {
            Some(v) => v,
            None => {
                return Err(ProgramError::InvalidAccountData);
            },
        };
        Ok(Agent { is_initialized, key })
    }

    /// Writes the record over the start of `dst`; the bytes behind it stay.
    pub fn pack_into_slice(&self, dst: &mut Vec<u8>)
        requires
            old(dst)@.len() >= 33,
        ensures
            final(dst)@ == overlay(old(dst)@, self@.encoding()),
            final(dst)@.len() == old(dst)@.len(),
    {
        let bytes = self.encode();
        write_prefix(dst, &bytes);
    }

    /// Reads the record from a slot: the slot must have the record's fixed
    /// length. Whether the record is initialized is not asked.
    pub fn unpack_unchecked(input: &[u8]) -> (r: Result<Agent, ProgramError>)
        ensures
            match r {
                Ok(v) => input@.len() == Agent::LEN && AgentView::decoding(input@) == Some(v@),
                Err(e) => e == ProgramError::InvalidAccountData && (input@.len() != Agent::LEN
                    || AgentView::decoding(input@) is None),
            },
    {
        if input.len() != Agent::LEN {
            return Err(ProgramError::InvalidAccountData);
        }
        Agent::unpack_from_slice(input)
    }

    /// Loads the record from a slot: the slot must have the record's fixed
    /// length and hold an initialized record.
    pub fn unpack(input: &[u8]) -> (r: Result<Agent, ProgramError>)
        ensures
            match r {
                Ok(v) => AgentView::unpacking(input@) == Ok::<AgentView, ProgramError>(v@),
                Err(e) => AgentView::unpacking(input@) == Err::<AgentView, ProgramError>(e),
            },
    {
        let value = match Agent::unpack_unchecked(input) {
            Ok(v) => v,
            Err(e) => {
                return Err(e);
            },
        };
        if value.is_initialized() {
            Ok(value)
        } else {
            Err(ProgramError::UninitializedAccount)
        }
    }

    /// Stores the record in a slot: fails, and leaves the slot as it was,
    /// unless the slot has the record's fixed length.
    pub fn pack(src: Agent, dst: &mut Vec<u8>) -> (r: Result<(), ProgramError>)
        ensures
            old(dst)@.len() == Agent::LEN ==> r is Ok && final(dst)@ == overlay(
                old(dst)@,
                src@.encoding(),
            ),
            old(dst)@.len() != Agent::LEN ==> r == Err::<(), ProgramError>(
                ProgramError::InvalidAccountData,
            ) && final(dst)@ == old(dst)@,
            final(dst)@.len() == old(dst)@.len(),
    {
        if dst.len() != Agent::LEN {
            return Err(ProgramError::InvalidAccountData);
        }
        src.pack_into_slice(dst);
        Ok(())
    }
}

/// The claim topics that a registry requires of an identity.
#[derive(Clone, Debug, PartialEq)]
pub struct ClaimTopics {
    /// Whether the record has been set up.
    pub is_initialized: bool,
    /// The owner of the record.
    pub owner: Pubkey,
    /// The required topics.
    pub topics: Vec<u64>,
}

/// What a claim topics record holds, as plain values.
pub struct ClaimTopicsView {
    pub is_initialized: bool,
    pub owner: Seq<u8>,
    pub topics: Seq<u64>,
}

impl View for ClaimTopics {
    type V = ClaimTopicsView;

    open spec fn view(&self) -> ClaimTopicsView {
        ClaimTopicsView {
            is_initialized: self.is_initialized,
            owner: self.owner@,
            topics: self.topics@,
        }
    }
}

impl ClaimTopicsView {
    /// Each address in the record has thirty-two bytes, and the list is short enough for its
    /// length to be written.
    pub open spec fn well_formed(self) -> bool {
        &&& self.owner.len() == 32
        &&& self.topics.len() <= u32::MAX
    }

    /// The number of bytes of the record: 37 for the fixed fields and the
    /// list's length, and 8 for each item.
    pub open spec fn encoded_len(self) -> nat {
        37 + 8 * self.topics.len()
    }

    /// The record fits in its slot.
    pub open spec fn fits_slot(self) -> bool {
        self.well_formed() && self.encoded_len() <= ClaimTopics::LEN
    }

    /// The bytes of the record: its fields one after the other.
    pub open spec fn encoding(self) -> Seq<u8> {
        enc_bool(self.is_initialized)
            + self.owner
            + enc_u64_list(self.topics)
    }

    /// The record that stands at the start of `b`; what follows it in `b` is
    /// not looked at.
    pub open spec fn decoding(b: Seq<u8>) -> Option<ClaimTopicsView> {
        match (dec_bool(b, 0), dec_key(b, 1)) {
            (Some(is_initialized), Some(owner)) => match dec_u64_list(b, 33) {
                Some((topics, _)) => Some(ClaimTopicsView { is_initialized, owner, topics }),
                None => None,
            },
            _ => None,
        }
    }

    /// What loading the record from a slot of `b` gives: the slot has the
    /// record's fixed length, the record can be read, and it is initialized.
    pub open spec fn unpacking(b: Seq<u8>) -> Result<ClaimTopicsView, ProgramError> {
        if b.len() != ClaimTopics::LEN {
            Err(ProgramError::InvalidAccountData)
        } else {
            match ClaimTopicsView::decoding(b) {
                None => Err(ProgramError::InvalidAccountData),
                Some(v) => if v.is_initialized {
                    Ok(v)
                } else {
                    Err(ProgramError::UninitializedAccount)
                },
            }
        }
    }

    /// The encoding has as many bytes as `encoded_len` says.
    pub proof fn lemma_encoding_len(self)
        requires
            self.well_formed(),
        ensures
            self.encoding().len() == self.encoded_len(),
    {
        lemma_enc_lengths();
        lemma_enc_u64_items_len(self.topics);
    }

    /// A record that was stored at the start of a buffer is the record that
    /// is read there.
    pub proof fn lemma_decoding_of_stored(self, base: Seq<u8>)
        requires
            self.well_formed(),
            base.len() >= self.encoded_len(),
        ensures
            ClaimTopicsView::decoding(overlay(base, self.encoding())) == Some(self),
            overlay(base, self.encoding()).len() == base.len(),
    {
        self.lemma_encoding_len();
        lemma_enc_lengths();
        let b = overlay(base, self.encoding());
        assert(b.subrange(0, 1) =~= enc_bool(self.is_initialized));
        lemma_bool_round_trip(b, 0, self.is_initialized);
        assert(b.subrange(1, 33) =~= self.owner);
        assert(b.subrange(33, self.encoded_len() as int) =~= enc_u64_list(self.topics));
        lemma_u64_list_round_trip(b, 33, self.topics);
    }

    /// A record that was read from a buffer is well formed, and as long as
    /// its encoding is, the buffer is.
    pub proof fn lemma_decoded_fits(b: Seq<u8>)
        requires
            ClaimTopicsView::decoding(b) is Some,
        ensures
            ClaimTopicsView::decoding(b).unwrap().well_formed(),
            ClaimTopicsView::decoding(b).unwrap().encoded_len() <= b.len(),
    {
        lemma_dec_u64_list_len(b, 33);
    }
}

impl ClaimTopics {
    /// The length of the slot that holds a claim topics record.
    pub const LEN: usize = 256;

    /// Whether the record has been set up.
    pub fn is_initialized(&self) -> (b: bool)
        ensures
            b == self.is_initialized,
    {
        self.is_initialized
    }

    /// The bytes of the record.
    pub fn encode(&self) -> (out: Vec<u8>)
        requires
            self@.topics.len() <= u32::MAX,
        ensures
            out@ == self@.encoding(),
            out@.len() == self@.encoded_len(),
            self@.well_formed(),
    {
        let mut out: Vec<u8> = Vec::new();
        write_bool(&mut out, self.is_initialized);
        write_key(&mut out, &self.owner);
        write_u64_list(&mut out, &self.topics);
        proof {
            lemma_enc_lengths();
            assert(out@ =~= self@.encoding());
            self@.lemma_encoding_len();
        }
        out
    }

    /// Reads the record that stands at the start of `src`.
    pub fn unpack_from_slice(src: &[u8]) -> (r: Result<ClaimTopics, ProgramError>)
        ensures
            match r {
                Ok(v) => ClaimTopicsView::decoding(src@) == Some(v@),
                Err(e) => {
                    ClaimTopicsView::decoding(src@) is None && e == ProgramError::InvalidAccountData
                },
            },
    {
        let is_initialized = match read_bool(src, 0) {
            Some(v) => v,
            None => {
                return Err(ProgramError::InvalidAccountData);
            },
        };
        let owner = match read_key(src, 1) {
            Some(v) => v,
            None => {
                return Err(ProgramError::InvalidAccountData);
            },
        };
        let (topics, _) = match read_u64_list(src, 33) {
            Some(v) => v,
            None => {
                return Err(ProgramError::InvalidAccountData);
            },
        };
        Ok(ClaimTopics { is_initialized, owner, topics })
    }

    /// Writes the record over the start of `dst`; the bytes behind it stay.
    pub fn pack_into_slice(&self, dst: &mut Vec<u8>)
        requires
            self@.topics.len() <= u32::MAX,
            self@.encoded_len() <= old(dst)@.len(),
        ensures
            final(dst)@ == overlay(old(dst)@, self@.encoding()),
            final(dst)@.len() == old(dst)@.len(),
    {
        let bytes = self.encode();
        write_prefix(dst, &bytes);
    }

    /// Reads the record from a slot: the slot must have the record's fixed
    /// length. Whether the record is initialized is not asked.
    pub fn unpack_unchecked(input: &[u8]) -> (r: Result<ClaimTopics, ProgramError>)
        ensures
            match r {
                Ok(v) => {
                    input@.len() == ClaimTopics::LEN
                        && ClaimTopicsView::decoding(input@) == Some(v@)
                },
                Err(e) => e == ProgramError::InvalidAccountData && (input@.len() != ClaimTopics::LEN
                    || ClaimTopicsView::decoding(input@) is None),
            },
    {
        if input.len() != ClaimTopics::LEN {
            return Err(ProgramError::InvalidAccountData);
        }
        ClaimTopics::unpack_from_slice(input)
    }

    /// Loads the record from a slot: the slot must have the record's fixed
    /// length and hold an initialized record.
    pub fn unpack(input: &[u8]) -> (r: Result<ClaimTopics, ProgramError>)
        ensures
            match r {
                Ok(v) => {
                    ClaimTopicsView::unpacking(input@) == Ok::<ClaimTopicsView, ProgramError>(v@)
                },
                Err(e) => {
                    ClaimTopicsView::unpacking(input@) == Err::<ClaimTopicsView, ProgramError>(e)
                },
            },
    {
        let value = match ClaimTopics::unpack_unchecked(input) {
            Ok(v) => v,
            Err(e) => {
                return Err(e);
            },
        };
        if value.is_initialized() {
            Ok(value)
        } else {
            Err(ProgramError::UninitializedAccount)
        }
    }

    /// Stores the record in a slot: fails, and leaves the slot as it was,
    /// unless the slot has the record's fixed length. A record that is longer
    /// than the slot must not be handed in.
    pub fn pack(src: ClaimTopics, dst: &mut Vec<u8>) -> (r: Result<(), ProgramError>)
        requires
            src@.fits_slot(),
        ensures
            old(dst)@.len() == ClaimTopics::LEN ==> r is Ok && final(dst)@ == overlay(
                old(dst)@,
                src@.encoding(),
            ),
            old(dst)@.len() != ClaimTopics::LEN ==> r == Err::<(), ProgramError>(
                ProgramError::InvalidAccountData,
            ) && final(dst)@ == old(dst)@,
            final(dst)@.len() == old(dst)@.len(),
    {
        if dst.len() != ClaimTopics::LEN {
            return Err(ProgramError::InvalidAccountData);
        }
        src.pack_into_slice(dst);
        Ok(())
    }
}

/// The registry of trusted issuers: who may add and remove issuers.
#[derive(Clone, Copy, Debug, PartialEq)]
pub struct TrustedIssuers {
    /// Whether the record has been set up.
    pub is_initialized: bool,
    /// The owner of the registry.
    pub owner: Pubkey,
}

/// What a trusted issuers registry holds, as plain values.
pub struct TrustedIssuersView {
    pub is_initialized: bool,
    pub owner: Seq<u8>,
}

impl View for TrustedIssuers {
    type V = TrustedIssuersView;

    open spec fn view(&self) -> TrustedIssuersView {
        TrustedIssuersView {
            is_initialized: self.is_initialized,
            owner: self.owner@,
        }
    }
}

impl TrustedIssuersView {
    /// Each address in the record has thirty-two bytes.
    pub open spec fn well_formed(self) -> bool {
        &&& self.owner.len() == 32
    }

    /// The number of bytes of the record.
    pub open spec fn encoded_len(self) -> nat {
        33
    }

    /// The bytes of the record: its fields one after the other.
    pub open spec fn encoding(self) -> Seq<u8> {
        enc_bool(self.is_initialized)
            + self.owner
    }

    /// The record that stands at the start of `b`; what follows it in `b` is
    /// not looked at.
    pub open spec fn decoding(b: Seq<u8>) -> Option<TrustedIssuersView> {
        match (dec_bool(b, 0), dec_key(b, 1)) {
            (Some(is_initialized), Some(owner)) => {
                Some(TrustedIssuersView { is_initialized, owner })
            },
            _ => None,
        }
    }

    /// What loading the record from a slot of `b` gives: the slot has the
    /// record's fixed length, the record can be read, and it is initialized.
    pub open spec fn unpacking(b: Seq<u8>) -> Result<TrustedIssuersView, ProgramError> {
        if b.len() != TrustedIssuers::LEN {
            Err(ProgramError::InvalidAccountData)
        } else {
            match TrustedIssuersView::decoding(b) {
                None => Err(ProgramError::InvalidAccountData),
                Some(v) => if v.is_initialized {
                    Ok(v)
                } else {
                    Err(ProgramError::UninitializedAccount)
                },
            }
        }
    }

    /// The encoding has as many bytes as `encoded_len` says.
    pub proof fn lemma_encoding_len(self)
        requires
            self.well_formed(),
        ensures
            self.encoding().len() == self.encoded_len(),
    {
        lemma_enc_lengths();
    }

    /// A record that was stored at the start of a buffer is the record that
    /// is read there.
    pub proof fn lemma_decoding_of_stored(self, base: Seq<u8>)
        requires
            self.well_formed(),
            base.len() >= self.encoded_len(),
        ensures
            TrustedIssuersView::decoding(overlay(base, self.encoding())) == Some(self),
            overlay(base, self.encoding()).len() == base.len(),
    {
        self.lemma_encoding_len();
        lemma_enc_lengths();
        let b = overlay(base, self.encoding());
        assert(b.subrange(0, 1) =~= enc_bool(self.is_initialized));
        lemma_bool_round_trip(b, 0, self.is_initialized);
        assert(b.subrange(1, 33) =~= self.owner);
    }

    /// A record that was read from a buffer is well formed, and as long as
    /// its encoding is, the buffer is.
    pub proof fn lemma_decoded_fits(b: Seq<u8>)
        requires
            TrustedIssuersView::decoding(b) is Some,
        ensures
            TrustedIssuersView::decoding(b).unwrap().well_formed(),
            TrustedIssuersView::decoding(b).unwrap().encoded_len() <= b.len(),
    {
    }
}

impl TrustedIssuers {
    /// The length of the slot that holds a trusted issuers registry.
    pub const LEN: usize = 128;

    /// Whether the record has been set up.
    pub fn is_initialized(&self) -> (b: bool)
        ensures
            b == self.is_initialized,
    {
        self.is_initialized
    }

    /// The bytes of the record.
    pub fn encode(&self) -> (out: Vec<u8>)
        ensures
            out@ == self@.encoding(),
            out@.len() == self@.encoded_len(),
            self@.well_formed(),
    {
        let mut out: Vec<u8> = Vec::new();
        write_bool(&mut out, self.is_initialized);
        write_key(&mut out, &self.owner);
        proof {
            lemma_enc_lengths();
            assert(out@ =~= self@.encoding());
            self@.lemma_encoding_len();
        }
        out
    }

    /// Reads the record that stands at the start of `src`.
    pub fn unpack_from_slice(src: &[u8]) -> (r: Result<TrustedIssuers, ProgramError>)
        ensures
            match r {
                Ok(v) => TrustedIssuersView::decoding(src@) == Some(v@),
                Err(e) => {
                    TrustedIssuersView::decoding(src@) is None
                        && e == ProgramError::InvalidAccountData
                },
            },
    {
        let is_initialized = match read_bool(src, 0) {
            Some(v) => v,
            None => {
                return Err(ProgramError::InvalidAccountData);
            },
        };
        let owner = match read_key(src, 1) {
            Some(v) => v,
            None => {
                return Err(ProgramError::InvalidAccountData);
            },
        };
        Ok(TrustedIssuers { is_initialized, owner })
    }

    /// Writes the record over the start of `dst`; the bytes behind it stay.
    pub fn pack_into_slice(&self, dst: &mut Vec<u8>)
        requires
            old(dst)@.len() >= 33,
        ensures
            final(dst)@ == overlay(old(dst)@, self@.encoding()),
            final(dst)@.len() == old(dst)@.len(),
    {
        let bytes = self.encode();
        write_prefix(dst, &bytes);
    }

    /// Reads the record from a slot: the slot must have the record's fixed
    /// length. Whether the record is initialized is not asked.
    pub fn unpack_unchecked(input: &[u8]) -> (r: Result<TrustedIssuers, ProgramError>)
        ensures
            match r {
                Ok(v) => {
                    input@.len() == TrustedIssuers::LEN
                        && TrustedIssuersView::decoding(input@) == Some(v@)
                },
                Err(e) => e == ProgramError::InvalidAccountData && (input@.len() != TrustedIssuers::LEN
                    || TrustedIssuersView::decoding(input@) is None),
            },
    {
        if input.len() != TrustedIssuers::LEN {
            return Err(ProgramError::InvalidAccountData);
        }
        TrustedIssuers::unpack_from_slice(input)
    }

    /// Loads the record from a slot: the slot must have the record's fixed
    /// length and hold an initialized record.
    pub fn unpack(input: &[u8]) -> (r: Result<TrustedIssuers, ProgramError>)
        ensures
            match r {
                Ok(v) => {
                    TrustedIssuersView::unpacking(
                        input@) == Ok::<TrustedIssuersView, ProgramError>(v@,
                    )
                },
                Err(e) => {
                    TrustedIssuersView::unpacking(
                        input@) == Err::<TrustedIssuersView, ProgramError>(e,
                    )
                },
            },
    {
        let value = match TrustedIssuers::unpack_unchecked(input) {
            Ok(v) => v,
            Err(e) => {
                return Err(e);
            },
        };
        if value.is_initialized() {
            Ok(value)
        } else {
            Err(ProgramError::UninitializedAccount)
        }
    }

    /// Stores the record in a slot: fails, and leaves the slot as it was,
    /// unless the slot has the record's fixed length.
    pub fn pack(src: TrustedIssuers, dst: &mut Vec<u8>) -> (r: Result<(), ProgramError>)
        ensures
            old(dst)@.len() == TrustedIssuers::LEN ==> r is Ok && final(dst)@ == overlay(
                old(dst)@,
                src@.encoding(),
            ),
            old(dst)@.len() != TrustedIssuers::LEN ==> r == Err::<(), ProgramError>(
                ProgramError::InvalidAccountData,
            ) && final(dst)@ == old(dst)@,
            final(dst)@.len() == old(dst)@.len(),
    {
        if dst.len() != TrustedIssuers::LEN {
            return Err(ProgramError::InvalidAccountData);
        }
        src.pack_into_slice(dst);
        Ok(())
    }
}

/// One trusted issuer, kept in the issuer's account: the registry that
/// trusts it, and the claim topics that it may attest.
#[derive(Clone, Debug, PartialEq)]
pub struct TrustedIssuer {
    /// Whether the record has been set up.
    pub is_initialized: bool,
    /// The trusted issuers registry that holds this issuer.
    pub registry: Pubkey,
    /// The claim topics that the issuer may attest.
    pub topics: Vec<u64>,
}

/// What a trusted issuer record holds, as plain values.
pub struct TrustedIssuerView {
    pub is_initialized: bool,
    pub registry: Seq<u8>,
    pub topics: Seq<u64>,
}

impl View for TrustedIssuer {
    type V = TrustedIssuerView;

    open spec fn view(&self) -> TrustedIssuerView {
        TrustedIssuerView {
            is_initialized: self.is_initialized,
            registry: self.registry@,
            topics: self.topics@,
        }
    }
}

impl TrustedIssuerView {
    /// Each address in the record has thirty-two bytes, and the list is short enough for its
    /// length to be written.
    pub open spec fn well_formed(self) -> bool {
        &&& self.registry.len() == 32
        &&& self.topics.len() <= u32::MAX
    }

    /// The number of bytes of the record: 37 for the fixed fields and the
    /// list's length, and 8 for each item.
    pub open spec fn encoded_len(self) -> nat {
        37 + 8 * self.topics.len()
    }

    /// The record fits in its slot.
    pub open spec fn fits_slot(self) -> bool {
        self.well_formed() && self.encoded_len() <= TrustedIssuer::LEN
    }

    /// The bytes of the record: its fields one after the other.
    pub open spec fn encoding(self) -> Seq<u8> {
        enc_bool(self.is_initialized)
            + self.registry
            + enc_u64_list(self.topics)
    }

    /// The record that stands at the start of `b`; what follows it in `b` is
    /// not looked at.
    pub open spec fn decoding(b: Seq<u8>) -> Option<TrustedIssuerView> {
        match (dec_bool(b, 0), dec_key(b, 1)) {
            (Some(is_initialized), Some(registry)) => match dec_u64_list(b, 33) {
                Some((topics, _)) => Some(TrustedIssuerView { is_initialized, registry, topics }),
                None => None,
            },
            _ => None,
        }
    }

    /// What loading the record from a slot of `b` gives: the slot has the
    /// record's fixed length, the record can be read, and it is initialized.
    pub open spec fn unpacking(b: Seq<u8>) -> Result<TrustedIssuerView, ProgramError> {
        if b.len() != TrustedIssuer::LEN {
            Err(ProgramError::InvalidAccountData)
        } else {
            match TrustedIssuerView::decoding(b) {
                None => Err(ProgramError::InvalidAccountData),
                Some(v) => if v.is_initialized {
                    Ok(v)
                } else {
                    Err(ProgramError::UninitializedAccount)
                },
            }
        }
    }

    /// The encoding has as many bytes as `encoded_len` says.
    pub proof fn lemma_encoding_len(self)
        requires
            self.well_formed(),
        ensures
            self.encoding().len() == self.encoded_len(),
    {
        lemma_enc_lengths();
        lemma_enc_u64_items_len(self.topics);
    }

    /// A record that was stored at the start of a buffer is the record that
    /// is read there.
    pub proof fn lemma_decoding_of_stored(self, base: Seq<u8>)
        requires
            self.well_formed(),
            base.len() >= self.encoded_len(),
        ensures
            TrustedIssuerView::decoding(overlay(base, self.encoding())) == Some(self),
            overlay(base, self.encoding()).len() == base.len(),
    {
        self.lemma_encoding_len();
        lemma_enc_lengths();
        let b = overlay(base, self.encoding());
        assert(b.subrange(0, 1) =~= enc_bool(self.is_initialized));
        lemma_bool_round_trip(b, 0, self.is_initialized);
        assert(b.subrange(1, 33) =~= self.registry);
        assert(b.subrange(33, self.encoded_len() as int) =~= enc_u64_list(self.topics));
        lemma_u64_list_round_trip(b, 33, self.topics);
    }

    /// A record that was read from a buffer is well formed, and as long as
    /// its encoding is, the buffer is.
    pub proof fn lemma_decoded_fits(b: Seq<u8>)
        requires
            TrustedIssuerView::decoding(b) is Some,
        ensures
            TrustedIssuerView::decoding(b).unwrap().well_formed(),
            TrustedIssuerView::decoding(b).unwrap().encoded_len() <= b.len(),
    {
        lemma_dec_u64_list_len(b, 33);
    }
}

impl TrustedIssuer {
    /// The length of the slot that holds a trusted issuer record.
    pub const LEN: usize = 256;

    /// Whether the record has been set up.
    pub fn is_initialized(&self) -> (b: bool)
        ensures
            b == self.is_initialized,
    {
        self.is_initialized
    }

    /// The bytes of the record.
    pub fn encode(&self) -> (out: Vec<u8>)
        requires
            self@.topics.len() <= u32::MAX,
        ensures
            out@ == self@.encoding(),
            out@.len() == self@.encoded_len(),
            self@.well_formed(),
    {
        let mut out: Vec<u8> = Vec::new();
        write_bool(&mut out, self.is_initialized);
        write_key(&mut out, &self.registry);
        write_u64_list(&mut out, &self.topics);
        proof {
            lemma_enc_lengths();
            assert(out@ =~= self@.encoding());
            self@.lemma_encoding_len();
        }
        out
    }

    /// Reads the record that stands at the start of `src`.
    pub fn unpack_from_slice(src: &[u8]) -> (r: Result<TrustedIssuer, ProgramError>)
        ensures
            match r {
                Ok(v) => TrustedIssuerView::decoding(src@) == Some(v@),
                Err(e) => {
                    TrustedIssuerView::decoding(src@) is None
                        && e == ProgramError::InvalidAccountData
                },
            },
    {
        let is_initialized = match read_bool(src, 0) {
            Some(v) => v,
            None => {
                return Err(ProgramError::InvalidAccountData);
            },
        };
        let registry = match read_key(src, 1) {
            Some(v) => v,
            None => {
                return Err(ProgramError::InvalidAccountData);
            },
        };
        let (topics, _) = match read_u64_list(src, 33) {
            Some(v) => v,
            None => {
                return Err(ProgramError::InvalidAccountData);
            },
        };
        Ok(TrustedIssuer { is_initialized, registry, topics })
    }

    /// Writes the record over the start of `dst`; the bytes behind it stay.
    pub fn pack_into_slice(&self, dst: &mut Vec<u8>)
        requires
            self@.topics.len() <= u32::MAX,
            self@.encoded_len() <= old(dst)@.len(),
        ensures
            final(dst)@ == overlay(old(dst)@, self@.encoding()),
            final(dst)@.len() == old(dst)@.len(),
    {
        let bytes = self.encode();
        write_prefix(dst, &bytes);
    }

    /// Reads the record from a slot: the slot must have the record's fixed
    /// length. Whether the record is initialized is not asked.
    pub fn unpack_unchecked(input: &[u8]) -> (r: Result<TrustedIssuer, ProgramError>)
        ensures
            match r {
                Ok(v) => {
                    input@.len() == TrustedIssuer::LEN
                        && TrustedIssuerView::decoding(input@) == Some(v@)
                },
                Err(e) => e == ProgramError::InvalidAccountData && (input@.len() != TrustedIssuer::LEN
                    || TrustedIssuerView::decoding(input@) is None),
            },
    {
        if input.len() != TrustedIssuer::LEN {
            return Err(ProgramError::InvalidAccountData);
        }
        TrustedIssuer::unpack_from_slice(input)
    }

    /// Loads the record from a slot: the slot must have the record's fixed
    /// length and hold an initialized record.
    pub fn unpack(input: &[u8]) -> (r: Result<TrustedIssuer, ProgramError>)
        ensures
            match r {
                Ok(v) => {
                    TrustedIssuerView::unpacking(
                        input@) == Ok::<TrustedIssuerView, ProgramError>(v@,
                    )
                },
                Err(e) => {
                    TrustedIssuerView::unpacking(
                        input@) == Err::<TrustedIssuerView, ProgramError>(e,
                    )
                },
            },
    {
        let value = match TrustedIssuer::unpack_unchecked(input) {
            Ok(v) => v,
            Err(e) => {
                return Err(e);
            },
        };
        if value.is_initialized() {
            Ok(value)
        } else {
            Err(ProgramError::UninitializedAccount)
        }
    }

    /// Stores the record in a slot: fails, and leaves the slot as it was,
    /// unless the slot has the record's fixed length. A record that is longer
    /// than the slot must not be handed in.
    pub fn pack(src: TrustedIssuer, dst: &mut Vec<u8>) -> (r: Result<(), ProgramError>)
        requires
            src@.fits_slot(),
        ensures
            old(dst)@.len() == TrustedIssuer::LEN ==> r is Ok && final(dst)@ == overlay(
                old(dst)@,
                src@.encoding(),
            ),
            old(dst)@.len() != TrustedIssuer::LEN ==> r == Err::<(), ProgramError>(
                ProgramError::InvalidAccountData,
            ) && final(dst)@ == old(dst)@,
            final(dst)@.len() == old(dst)@.len(),
    {
        if dst.len() != TrustedIssuer::LEN {
            return Err(ProgramError::InvalidAccountData);
        }
        src.pack_into_slice(dst);
        Ok(())
    }
}

impl TokenAccountView {
    /// Whether the account is frozen: bit 0 of its flags is set.
    pub open spec fn is_frozen(self) -> bool {
        self.state & ACCOUNT_FROZEN_FLAG != 0
    }
}

impl TokenAccount {
    /// Whether the account is frozen.
    pub fn is_frozen(&self) -> (b: bool)
        ensures
            b == self@.is_frozen(),
    {
        (self.state & ACCOUNT_FROZEN_FLAG) != 0
    }
}

/// The number of identity slots in a storage account: as many as fit whole.
pub open spec fn identity_slots(storage: Seq<u8>) -> int {
    storage.len() as int / 128
}

/// The bytes of slot `k` of an identity storage account.
pub open spec fn identity_slot(storage: Seq<u8>, k: int) -> Seq<u8> {
    storage.subrange(k * 128, k * 128 + 128)
}

/// Slot `k` holds an initialized identity.
pub open spec fn slot_taken(storage: Seq<u8>, k: int) -> bool {
    IdentityView::decoding(identity_slot(storage, k)) matches Some(v) && v.is_initialized
}

/// Slot `k` holds the initialized identity of `address`.
pub open spec fn slot_holds(storage: Seq<u8>, k: int, address: Seq<u8>) -> bool {
    IdentityView::decoding(identity_slot(storage, k)) matches Some(v) && v.is_initialized
        && v.owner == address
}

/// The first slot from `from` on that holds the initialized identity of
/// `address`.
pub open spec fn find_identity(storage: Seq<u8>, address: Seq<u8>, from: int) -> Option<int>
    decreases identity_slots(storage) - from,
{
    if from < 0 || from >= identity_slots(storage) {
        None
    } else if slot_holds(storage, from, address) {
        Some(from)
    } else {
        find_identity(storage, address, from + 1)
    }
}

/// The first slot from `from` on that holds no initialized identity.
pub open spec fn find_free_slot(storage: Seq<u8>, from: int) -> Option<int>
    decreases identity_slots(storage) - from,
{
    if from < 0 || from >= identity_slots(storage) {
        None
    } else if !slot_taken(storage, from) {
        Some(from)
    } else {
        find_free_slot(storage, from + 1)
    }
}

/// The storage account holds an initialized identity of `address`.
pub open spec fn holds_identity(storage: Seq<u8>, address: Seq<u8>) -> bool {
    find_identity(storage, address, 0) is Some
}

/// A slot that was found lies within the storage account.
pub proof fn lemma_found_slot_in_range(storage: Seq<u8>, address: Seq<u8>, from: int)
    requires
        0 <= from,
    ensures
        find_identity(storage, address, from) matches Some(k) ==> from <= k < identity_slots(
            storage,
        ) && slot_holds(storage, k, address),
        find_free_slot(storage, from) matches Some(k) ==> from <= k < identity_slots(storage)
            && !slot_taken(storage, k),
    decreases identity_slots(storage) - from,
{
    if from < identity_slots(storage) {
        lemma_found_slot_in_range(storage, address, from + 1);
    }
}

/// The slot of an identity storage account that holds the initialized
/// identity of `address`, if one does: the first such slot.
pub fn identity_slot_of(storage: &[u8], address: &Pubkey) -> (r: Option<usize>)
    ensures
        match r {
            Some(k) => find_identity(storage@, address@, 0) == Some(k as int) && k * 128 + 128
                <= storage@.len(),
            None => find_identity(storage@, address@, 0) is None,
        },
{
    let slots = storage.len() / 128;
    let mut k: usize = 0;
    while k < slots
        invariant
            k <= slots,
            slots == identity_slots(storage@),
            storage@.len() <= usize::MAX,
            find_identity(storage@, address@, 0) == find_identity(storage@, address@, k as int),
        decreases slots - k,
    {
        let slot = slice_subrange(storage, k * 128, k * 128 + 128);
        match Identity::unpack_from_slice(slot) {
            Ok(present) => {
                if present.is_initialized && present.owner.equals(address) {
                    return Some(k);
                }
            },
            Err(_) => {},
        }
        k = k + 1;
    }
    None
}

/// The first slot of an identity storage account that holds no initialized
/// identity, if there is one.
pub fn free_identity_slot(storage: &[u8]) -> (r: Option<usize>)
    ensures
        match r {
            Some(k) => find_free_slot(storage@, 0) == Some(k as int) && k * 128 + 128
                <= storage@.len(),
            None => find_free_slot(storage@, 0) is None,
        },
{
    let slots = storage.len() / 128;
    let mut k: usize = 0;
    while k < slots
        invariant
            k <= slots,
            slots == identity_slots(storage@),
            storage@.len() <= usize::MAX,
            find_free_slot(storage@, 0) == find_free_slot(storage@, k as int),
        decreases slots - k,
    {
        let slot = slice_subrange(storage, k * 128, k * 128 + 128);
        match Identity::unpack_from_slice(slot) {
            Ok(present) => {
                if !present.is_initialized {
                    return Some(k);
                }
            },
            Err(_) => {
                return Some(k);
            },
        }
        k = k + 1;
    }
    None
}

impl IdentityRegistryView {
    /// Whether the registry's index holds an identity for `address`: the
    /// account `storage` is the registry's identity storage, and one of its
    /// slots holds an initialized identity of `address`.
    pub open spec fn identity_exists(self, storage: AccountView, address: Seq<u8>) -> bool {
        storage.key == self.identity_storage && holds_identity(storage.data, address)
    }

    /// Whether the registry counts `address` as verified: it does where its
    /// identity storage holds an initialized identity of `address`. What a
    /// deployment requires of claims and issuers beyond that takes the place
    /// of this predicate.
    pub open spec fn is_verified_address(self, storage: AccountView, address: Seq<u8>) -> bool {
        self.identity_exists(storage, address)
    }

    /// Whether `key` may act as agent of the registry: the registry's roster
    /// holds it.
    pub open spec fn is_agent(self, key: Seq<u8>) -> bool {
        self.agents.contains(key)
    }
}

impl IdentityRegistry {
    /// Whether the registry counts `address` as verified, given the account
    /// that is handed in as its identity storage.
    pub fn is_verified_address(&self, storage: &AccountInfo, address: &Pubkey) -> (b: bool)
        ensures
            b == self@.is_verified_address(storage@, address@),
    {
        self.identity_exists(storage, address)
    }

    /// Whether the registry's index holds an identity for `address`, given
    /// the account that is handed in as its identity storage.
    pub fn identity_exists(&self, storage: &AccountInfo, address: &Pubkey) -> (b: bool)
        ensures
            b == self@.identity_exists(storage@, address@),
    {
        if !storage.key.equals(&self.identity_storage) {
            return false;
        }
        identity_slot_of(storage.data.as_slice(), address).is_some()
    }

    /// Whether `key` may act as agent of the registry.
    pub fn is_agent(&self, key: &Pubkey) -> (b: bool)
        ensures
            b == self@.is_agent(key@),
    {
        holds_key(&self.agents, key)
    }
}

impl ComplianceView {
    /// Whether the policy lets `amount` move from `from` to `to`: every rule
    /// must approve, and a rule approves unless it bars the sender or the
    /// receiver.
    pub open spec fn check_transfer(self, from: Seq<u8>, to: Seq<u8>, amount: u64) -> bool {
        forall|i: int|
            0 <= i < self.rules.len() ==> Self::rule_approves(#[trigger] self.rules[i], from, to)
    }

    /// Whether the rule named by `rule` approves a transfer from `from` to
    /// `to`: it bars the holder at its own address.
    pub open spec fn rule_approves(rule: Seq<u8>, from: Seq<u8>, to: Seq<u8>) -> bool {
        rule != from && rule != to
    }
}

impl Compliance {
    /// Whether the policy lets `amount` move from `from` to `to`.
    pub fn check_transfer(&self, from: &Pubkey, to: &Pubkey, amount: u64) -> (b: bool)
        ensures
            b == self@.check_transfer(from@, to@, amount),
    {
        let mut i: usize = 0;
        while i < self.rules.len()
            invariant
                i <= self.rules@.len(),
                forall|j: int|
                    0 <= j < i ==> ComplianceView::rule_approves(
                        #[trigger] keys_view(self.rules@)[j],
                        from@,
                        to@,
                    ),
            decreases self.rules@.len() - i,
        {
            if self.rules[i].equals(from) || self.rules[i].equals(to) {
                assert(self@.rules[i as int] == keys_view(self.rules@)[i as int]);
                assert(!ComplianceView::rule_approves(self@.rules[i as int], from@, to@));
                return false;
            }
            i = i + 1;
        }
        true
    }
}

} // verus!
