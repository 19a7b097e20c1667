//! Rent exemption: whether an account's balance covers the storage deposit
//! that the runtime asks for its data. The runtime's rent record and its
//! arithmetic decide; the ledger only asks.

use crate::codec::dec_u64;
use crate::instruction::RENT_SYSVAR_ID;
use crate::pubkey::Pubkey;
use solana_program::sysvar::Sysvar;
use vstd::prelude::*;

verus! {

/// The number of bytes that the runtime counts for an account on top of its
/// data.
pub const ACCOUNT_STORAGE_OVERHEAD: u64 = 128;

/// What the runtime's rent record says of an account with the given balance
/// and data length: `None` where the account at `rent_key` with the data
/// `rent_data` is not the rent record, else whether the balance is exempt.
pub uninterp spec fn rent_exemption(
    rent_key: Seq<u8>,
    rent_data: Seq<u8>,
    lamports: u64,
    data_len: usize,
) -> Option<bool>;

/// The rent record's rate, which stands in the first eight bytes of its
/// data, can be multiplied with the account's size in 64 bits.
pub open spec fn rent_evaluable(rent_data: Seq<u8>, data_len: usize) -> bool {
    &&& ACCOUNT_STORAGE_OVERHEAD + data_len <= u64::MAX
    &&& dec_u64(rent_data, 0) matches Some(rate) ==> (ACCOUNT_STORAGE_OVERHEAD + data_len) * rate
        <= u64::MAX
}

/// The number of bytes of the rent record: its rate, its exemption
/// threshold and its burn percentage.
pub const RENT_RECORD_LEN: usize = 17;

/// What the ledger takes the rent record to say: nothing where the account
/// does not have the rent record's address, where its data is too short for
/// a rent record, or where the record cannot be evaluated in 64 bits; else
/// what the runtime's rent record says.
pub open spec fn exemption(
    rent_key: Seq<u8>,
    rent_data: Seq<u8>,
    lamports: u64,
    data_len: usize,
) -> Option<bool> {
    if rent_key != RENT_SYSVAR_ID@ || rent_data.len() < RENT_RECORD_LEN || !rent_evaluable(
        rent_data,
        data_len,
    ) {
        None
    } else {
        rent_exemption(rent_key, rent_data, lamports, data_len)
    }
}

/// `Rent::from_account_info` and `Rent::is_exempt` of solana_program: reads
/// the rent record from an account with the given address and data, and asks
/// it whether `lamports` are exempt for `data_len` bytes. The result is a
/// function of the four arguments; the contract gives it a name and claims
/// nothing else of it. The product that `is_exempt` forms must fit in 64
/// bits.
#[verifier::external_body]
fn rent_is_exempt(rent_key: &Pubkey, rent_data: &Vec<u8>, lamports: u64, data_len: usize) -> (r:
    Option<bool>)
    requires
        rent_evaluable(rent_data@, data_len),
    ensures
        r == rent_exemption(rent_key@, rent_data@, lamports, data_len),
{
    let key = solana_program::pubkey::Pubkey::new_from_array(rent_key.bytes);
    let mut balance: u64 = 0;
    let mut data = rent_data.clone();
    let info = solana_program::account_info::AccountInfo::new(
        &key, false, false, &mut balance, &mut data, &key, false, 0,
    );
    match solana_program::rent::Rent::from_account_info(&info) {
        Ok(rent) => Some(rent.is_exempt(lamports, data_len)),
        Err(_) => None,
    }
}

/// Asks the rent record in the account with address `rent_key` and data
/// `rent_data` whether `lamports` are exempt for `data_len` bytes.
///
/// Gives `None` where the account does not have the rent record's address,
/// where its data is too short for a rent record, and where the record's
/// rate is too large to be evaluated for `data_len` bytes.
pub fn check_rent(rent_key: &Pubkey, rent_data: &Vec<u8>, lamports: u64, data_len: usize) -> (r:
    Option<bool>)
    ensures
        r == exemption(rent_key@, rent_data@, lamports, data_len),
{
    let expected = Pubkey::new_from_array(RENT_SYSVAR_ID);
    if !rent_key.equals(&expected) || rent_data.len() < RENT_RECORD_LEN {
        return None;
    }
    let size = match ACCOUNT_STORAGE_OVERHEAD.checked_add(data_len as u64) {
        Some(v) => v,
        None => {
            return None;
        },
    };
    match crate::codec::read_u64(rent_data.as_slice(), 0) {
        Some(rate) => {
            if size.checked_mul(rate).is_none() {
                return None;
            }
        },
        None => {},
    }
    rent_is_exempt(rent_key, rent_data, lamports, data_len)
}

} // verus!
