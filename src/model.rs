use vstd::prelude::*;

use crate::credential::{bcrypt_accepts, MIN_SECRET_LEN};
use crate::error::LedgerError;
use crate::ledger::INITIAL_BALANCE;

verus! {

/// What an account is, seen mathematically.
pub struct AccountModel {
    pub id: Seq<char>,
    pub credential_hash: Seq<char>,
    pub balance: u64,
}

/// No two accounts share an id.
pub open spec fn ids_unique(s: Seq<AccountModel>) -> bool {
    forall|i: int, j: int| 0 <= i < s.len() && 0 <= j < s.len() && i != j ==> s[i].id != s[j].id
}

/// The secret unlocks the account.
pub open spec fn accepts(secret: Seq<char>, a: AccountModel) -> bool {
    bcrypt_accepts(secret, a.credential_hash)
}

/// Account `i` is the first, in ledger order, that the secret unlocks.
pub open spec fn is_first_accepting(s: Seq<AccountModel>, secret: Seq<char>, i: int) -> bool {
    &&& 0 <= i < s.len()
    &&& accepts(secret, s[i])
    &&& forall|j: int| 0 <= j < i ==> !accepts(secret, s[j])
}

/// The account that a secret resolves to: none for the empty secret, else the
/// first account that the secret unlocks.
pub open spec fn lookup(s: Seq<AccountModel>, secret: Seq<char>) -> Option<int> {
    if secret.len() == 0 {
        None
    } else if exists|i: int| is_first_accepting(s, secret, i) {
        Some(choose|i: int| is_first_accepting(s, secret, i))
    } else {
        None
    }
}

/// Some account carries the id.
pub open spec fn has_id(s: Seq<AccountModel>, id: Seq<char>) -> bool {
    exists|i: int| 0 <= i < s.len() && s[i].id == id
}

/// The position of the account with the id (meaningful where `has_id` holds).
pub open spec fn index_of_id(s: Seq<AccountModel>, id: Seq<char>) -> int {
    choose|i: int| 0 <= i < s.len() && s[i].id == id
}

/// The account with its balance replaced.
pub open spec fn with_balance(a: AccountModel, balance: u64) -> AccountModel {
    AccountModel { balance, ..a }
}

/// The balance that a secret reads.
pub open spec fn balance_of(s: Seq<AccountModel>, secret: Seq<char>) -> Result<u64, LedgerError> {
    if secret.len() == 0 {
        Err(LedgerError::InvalidCredential)
    } else {
        match lookup(s, secret) {
            Some(i) => Ok(s[i].balance),
            None => Err(LedgerError::AccountNotFound),
        }
    }
}

/// The id and balance that a secret reads.
pub open spec fn info_of(s: Seq<AccountModel>, secret: Seq<char>) -> Result<(Seq<char>, u64), LedgerError> {
    if secret.len() == 0 {
        Err(LedgerError::InvalidCredential)
    } else {
        match lookup(s, secret) {
            Some(i) => Ok((s[i].id, s[i].balance)),
            None => Err(LedgerError::AccountNotFound),
        }
    }
}

/// A transfer of `amount` from the account that `secret` unlocks to the
/// account `dest`: the ledger afterwards and the payer's new balance, or why
/// it is refused. The checks come in this order: the amount, the payer, the
/// destination, the payer's funds, the payee's room.
pub open spec fn transfer_of(
    s: Seq<AccountModel>,
    secret: Seq<char>,
    amount: int,
    dest: Seq<char>,
) -> Result<(Seq<AccountModel>, u64), LedgerError> {
    if amount <= 0 {
        Err(LedgerError::InvalidAmount)
    } else {
        match lookup(s, secret) {
            None => Err(LedgerError::SourceNotFound),
            Some(si) => {
                if !has_id(s, dest) {
                    Err(LedgerError::DestinationNotFound)
                } else {
                    let di = index_of_id(s, dest);
                    if s[si].balance < amount {
                        Err(LedgerError::InsufficientBalance)
                    } else if s[si].id == dest {
                        Ok((s, s[si].balance))
                    } else if s[di].balance + amount > u64::MAX {
                        Err(LedgerError::BalanceOverflow)
                    } else {
                        let paid = (s[si].balance - amount) as u64;
                        let received = (s[di].balance + amount) as u64;
                        Ok((s.update(si, with_balance(s[si], paid)).update(di, with_balance(s[di], received)), paid))
                    }
                }
            }
        }
    }
}

/// Removing the account that `secret` unlocks: the ledger afterwards and the
/// removed id.
pub open spec fn deletion_of(s: Seq<AccountModel>, secret: Seq<char>) -> Result<(Seq<AccountModel>, Seq<char>), LedgerError> {
    match lookup(s, secret) {
        Some(i) => Ok((s.remove(i), s[i].id)),
        None => Err(LedgerError::AccountNotFound),
    }
}

/// Why creating an account with this secret and id is refused, if it is.
pub open spec fn creation_error(s: Seq<AccountModel>, secret: Seq<char>, id: Seq<char>) -> Option<LedgerError> {
    if secret.len() < MIN_SECRET_LEN {
        Some(LedgerError::InvalidCredential)
    } else if has_id(s, id) {
        Some(LedgerError::DuplicateId)
    } else {
        None
    }
}

/// `after` is `before` with one account appended: the id `id`, a hash that
/// accepts `secret`, and a balance of `INITIAL_BALANCE`.
pub open spec fn is_creation(before: Seq<AccountModel>, after: Seq<AccountModel>, secret: Seq<char>, id: Seq<char>) -> bool {
    &&& after.len() == before.len() + 1
    &&& after.drop_last() == before
    &&& after.last().id == id
    &&& after.last().balance == INITIAL_BALANCE
    &&& accepts(secret, after.last())
}

/// Why replacing the secret `old` by `new` is refused, if it is.
pub open spec fn rotation_error(s: Seq<AccountModel>, old: Seq<char>, new: Seq<char>) -> Option<LedgerError> {
    if new.len() < MIN_SECRET_LEN {
        Some(LedgerError::InvalidCredential)
    } else if lookup(s, old) is None {
        Some(LedgerError::AccountNotFound)
    } else {
        None
    }
}

/// `after` is `before` with the hash of the account that `old` unlocks
/// replaced by one that accepts `new`; nothing else changes.
pub open spec fn is_rotation(before: Seq<AccountModel>, after: Seq<AccountModel>, old: Seq<char>, new: Seq<char>) -> bool {
    &&& lookup(before, old) is Some
    &&& after.len() == before.len()
    &&& {
        let i = lookup(before, old)->0;
        &&& forall|j: int| 0 <= j < before.len() && j != i ==> after[j] == before[j]
        &&& after[i].id == before[i].id
        &&& after[i].balance == before[i].balance
        &&& accepts(new, after[i])
    }
}

} // verus!
