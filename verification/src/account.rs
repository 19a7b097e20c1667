//! The accounts that an instruction is handed: for each, who it is, who owns
//! it, whether it signed, and the bytes it stores.

use crate::pubkey::Pubkey;
use vstd::prelude::*;

verus! {

/// One account as an instruction sees it.
#[derive(Clone, Debug, PartialEq)]
pub struct AccountInfo {
    /// The account's address.
    pub key: Pubkey,
    /// Whether the account signed the transaction.
    pub is_signer: bool,
    /// The account's balance of the native coin.
    pub lamports: u64,
    /// The bytes that the account stores.
    pub data: Vec<u8>,
    /// The program that owns the account.
    pub owner: Pubkey,
}

/// What an account holds, as plain values.
pub struct AccountView {
    pub key: Seq<u8>,
    pub is_signer: bool,
    pub lamports: u64,
    pub data: Seq<u8>,
    pub owner: Seq<u8>,
}

impl View for AccountInfo {
    type V = AccountView;

    open spec fn view(&self) -> AccountView {
        AccountView {
            key: self.key@,
            is_signer: self.is_signer,
            lamports: self.lamports,
            data: self.data@,
            owner: self.owner@,
        }
    }
}

impl AccountView {
    /// The same account with other bytes stored in it.
    pub open spec fn with_data(self, data: Seq<u8>) -> AccountView {
        AccountView { data, ..self }
    }
}

/// The accounts of a list, each as plain values.
pub open spec fn views(accounts: Seq<AccountInfo>) -> Seq<AccountView> {
    accounts.map_values(|a: AccountInfo| a@)
}

/// Two lists hold the same accounts, which at most store other bytes of the
/// same length: no account has come or gone, and none has changed its
/// address, its owner, its balance of the native coin, whether it signed, or
/// the length of what it stores.
pub open spec fn same_shape(a: Seq<AccountView>, b: Seq<AccountView>) -> bool {
    &&& b.len() == a.len()
    &&& forall|i: int|
        0 <= i < a.len() ==> (#[trigger] b[i]) == a[i].with_data(b[i].data) && b[i].data.len()
            == a[i].data.len()
}

impl AccountInfo {
    /// An account with the given contents.
    pub fn new(key: Pubkey, is_signer: bool, lamports: u64, data: Vec<u8>, owner: Pubkey) -> (a:
        AccountInfo)
        ensures
            a@ == (AccountView { key: key@, is_signer, lamports, data: data@, owner: owner@ }),
    {
        AccountInfo { key, is_signer, lamports, data, owner }
    }

    /// The account's balance of the native coin.
    pub fn lamports(&self) -> (n: u64)
        ensures
            n == self@.lamports,
    {
        self.lamports
    }

    /// The number of bytes that the account stores.
    pub fn data_len(&self) -> (n: usize)
        ensures
            n == self@.data.len(),
    {
        self.data.len()
    }

    /// Whether the program `program_id` owns the account.
    pub fn is_owned_by(&self, program_id: &Pubkey) -> (b: bool)
        ensures
            b == (self@.owner == program_id@),
    {
        self.owner.equals(program_id)
    }
}

/// Replaces the bytes that account `i` of the list stores; everything else
/// in the list stays.
pub fn store_data(accounts: &mut Vec<AccountInfo>, i: usize, data: Vec<u8>)
    requires
        i < old(accounts)@.len(),
    ensures
        views(final(accounts)@) == views(old(accounts)@).update(
            i as int,
            views(old(accounts)@)[i as int].with_data(data@),
        ),
        final(accounts)@.len() == old(accounts)@.len(),
        data@.len() == views(old(accounts)@)[i as int].data.len() ==> same_shape(
            views(old(accounts)@),
            views(final(accounts)@),
        ),
{
    let current = &accounts[i];
    let next = AccountInfo {
        key: current.key,
        is_signer: current.is_signer,
        lamports: current.lamports,
        data,
        owner: current.owner,
    };
    accounts.set(i, next);
    proof {
        assert(views(accounts@) =~= views(old(accounts)@).update(
            i as int,
            views(old(accounts)@)[i as int].with_data(data@),
        ));
    }
}

} // verus!
