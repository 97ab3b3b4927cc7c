use vstd::prelude::*;

use crate::credential::{credential_matches, hash_credential, secret_is_valid};
use crate::error::LedgerError;
use crate::snapshot::{
    accounts_of, candid_decoding, candid_encoding, decode_rows, decoded_ledger, encode_rows, lemma_accounts_of_rows_of, row_view, rows_of,
    rows_view, snapshot_bytes, Row, RowModel,
};
use crate::model::{
    accepts, balance_of, creation_error, deletion_of, has_id, ids_unique, index_of_id, info_of,
    is_creation, is_first_accepting, is_rotation, lookup, rotation_error, transfer_of, AccountModel,
};

verus! {

/// The balance every new account starts with.
pub const INITIAL_BALANCE: u64 = 100;

/// One registered account. Only a hash of its secret is kept.
pub struct Account {
    pub id: String,
    pub credential_hash: String,
    pub balance: u64,
}

impl View for Account {
    type V = AccountModel;

    open spec fn view(&self) -> AccountModel {
        AccountModel { id: self.id@, credential_hash: self.credential_hash@, balance: self.balance }
    }
}

/// All accounts, keyed by their unique id; the order is the order of creation.
/// They are held in a vector whose ids are kept unique, so that every lookup,
/// by id or by secret, is a scan whose result is proved.
pub struct Ledger {
    accounts: Vec<Account>,
}

impl View for Ledger {
    type V = Seq<AccountModel>;

    closed spec fn view(&self) -> Seq<AccountModel> {
        self.accounts@.map_values(|a: Account| a@)
    }
}

impl Ledger {
    /// The ledger's invariant: ids are unique.
    pub open spec fn wf(&self) -> bool {
        ids_unique(self@)
    }

    /// An empty ledger.
    pub fn new() -> (r: Ledger)
        ensures
            r@ == Seq::<AccountModel>::empty(),
            r.wf(),
    {
        Ledger { accounts: Vec::new() }
    }

    /// The number of accounts.
    pub fn len(&self) -> (r: usize)
        ensures
            r == self@.len(),
    {
        self.accounts.len()
    }

    /// The position of the first account that `secret` unlocks; none for the
    /// empty secret, which is refused without a scan.
    fn position_of_credential(&self, secret: &str) -> (r: Option<usize>)
        ensures
            r matches Some(i) ==> lookup(self@, secret@) == Some(i as int),
            r is None ==> lookup(self@, secret@) is None,
    {
        if secret.is_empty() {
            return None;
        }
        let mut i: usize = 0;
        while i < self.accounts.len()
            invariant
                0 <= i <= self@.len(),
                secret@.len() > 0,
                forall|j: int| 0 <= j < i ==> !accepts(secret@, #[trigger] self@[j]),
            decreases self@.len() - i,
        {
            if credential_matches(secret, self.accounts[i].credential_hash.as_str()) {
                proof {
                    assert(is_first_accepting(self@, secret@, i as int));
                    let k = choose|k: int| is_first_accepting(self@, secret@, k);
                    assert(k == i) by {
                        if k < i {
                            assert(!accepts(secret@, self@[k]));
                        }
                    }
                }
                return Some(i);
            }
            i += 1;
        }
        None
    }

    /// The position of the account with this id.
    fn position_of_id(&self, id: &String) -> (r: Option<usize>)
        requires
            self.wf(),
        ensures
            r matches Some(i) ==> has_id(self@, id@) && index_of_id(self@, id@) == i
                && self@[i as int].id == id@,
            r is None ==> !has_id(self@, id@),
    {
        let mut i: usize = 0;
        while i < self.accounts.len()
            invariant
                0 <= i <= self@.len(),
                self.wf(),
                forall|j: int| 0 <= j < i ==> #[trigger] self@[j].id != id@,
            decreases self@.len() - i,
        {
            if self.accounts[i].id == *id {
                proof {
                    assert(self@[i as int].id == id@);
                    assert(has_id(self@, id@));
                    let k = index_of_id(self@, id@);
                    assert(self@[k].id == id@);
                    assert(k == i) by {
                        if k != i {
                            assert(self@[k].id != self@[i as int].id);
                        }
                    }
                }
                return Some(i);
            }
            i += 1;
        }
        None
    }

    /// Whether an account carries this id.
    pub fn account_exists(&self, id: &String) -> (r: bool)
        requires
            self.wf(),
        ensures
            r == has_id(self@, id@),
    {
        self.position_of_id(id).is_some()
    }
    /// Moves `amount` from the account that `secret` unlocks to the account
    /// with id `dest_id`, and returns the payer's new balance. A refused
    /// transfer changes nothing.
    pub fn transfer(&mut self, secret: &str, amount: i64, dest_id: &String) -> (r: Result<u64, LedgerError>)
        requires
            old(self).wf(),
        ensures
            final(self).wf(),
            match r {
                Ok(b) => transfer_of(old(self)@, secret@, amount as int, dest_id@) == Ok::<_, LedgerError>((final(self)@, b)),
                Err(e) => transfer_of(old(self)@, secret@, amount as int, dest_id@) == Err::<(Seq<AccountModel>, u64), _>(e)
                    && final(self)@ == old(self)@,
            },
    {
        if amount <= 0 {
            return Err(LedgerError::InvalidAmount);
        }
        let si = match self.position_of_credential(secret) {
            Some(i) => i,
            None => return Err(LedgerError::SourceNotFound),
        };
        let di = match self.position_of_id(dest_id) {
            Some(i) => i,
            None => return Err(LedgerError::DestinationNotFound),
        };
        let units = amount as u64;
        let paying = self.accounts[si].balance;
        if paying < units {
            return Err(LedgerError::InsufficientBalance);
        }
        if si == di {
            return Ok(paying);
        }
        let receiving = self.accounts[di].balance;
        if receiving > u64::MAX - units {
            return Err(LedgerError::BalanceOverflow);
        }
        let ghost before = self@;
        self.accounts[si].balance = paying - units;
        self.accounts[di].balance = receiving + units;
        proof {
            let paid = (paying - units) as u64;
            let received = (receiving + units) as u64;
            assert(self@ =~= before.update(si as int, crate::model::with_balance(before[si as int], paid))
                .update(di as int, crate::model::with_balance(before[di as int], received)));
            assert forall|a: int, b: int| 0 <= a < self@.len() && 0 <= b < self@.len() && a != b
                implies self@[a].id != self@[b].id by {
                assert(before[a].id != before[b].id);
            }
        }
        Ok(paying - units)
    }
    /// Removes the account that `secret` unlocks and returns its id. Its
    /// balance goes with it.
    pub fn delete_account(&mut self, secret: &str) -> (r: Result<String, LedgerError>)
        requires
            old(self).wf(),
        ensures
            final(self).wf(),
            match r {
                Ok(id) => deletion_of(old(self)@, secret@) == Ok::<_, LedgerError>((final(self)@, id@)),
                Err(e) => deletion_of(old(self)@, secret@) == Err::<(Seq<AccountModel>, Seq<char>), _>(e)
                    && final(self)@ == old(self)@,
            },
    {
        match self.position_of_credential(secret) {
            Some(i) => {
                let ghost before = self@;
                let gone = self.accounts.remove(i);
                proof {
                    assert(self@ =~= before.remove(i as int));
                    assert forall|a: int, b: int| 0 <= a < self@.len() && 0 <= b < self@.len() && a != b
                        implies self@[a].id != self@[b].id by {
                        let a0 = if a < i { a } else { a + 1 };
                        let b0 = if b < i { b } else { b + 1 };
                        assert(before[a0].id != before[b0].id);
                    }
                }
                Ok(gone.id)
            },
            None => Err(LedgerError::AccountNotFound),
        }
    }

    /// Registers a new account with id `id`, guarded by `secret`, holding
    /// `INITIAL_BALANCE`, and returns its id. The id comes from the caller:
    /// one that is already taken is refused.
    pub fn create_account(&mut self, secret: &str, id: String) -> (r: Result<String, LedgerError>)
        requires
            old(self).wf(),
        ensures
            final(self).wf(),
            creation_error(old(self)@, secret@, id@) matches Some(e) ==> r == Err::<String, _>(e)
                && final(self)@ == old(self)@,
            creation_error(old(self)@, secret@, id@) is None ==> match r {
                Ok(new_id) => new_id@ == id@ && is_creation(old(self)@, final(self)@, secret@, id@),
                Err(e) => e == LedgerError::HashFailure && final(self)@ == old(self)@,
            },
    {
        if !secret_is_valid(secret) {
            return Err(LedgerError::InvalidCredential);
        }
        if self.position_of_id(&id).is_some() {
            return Err(LedgerError::DuplicateId);
        }
        let credential_hash = match hash_credential(secret) {
            Some(h) => h,
            None => return Err(LedgerError::HashFailure),
        };
        let ghost before = self@;
        let new_id = id.clone();
        self.accounts.push(Account { id, credential_hash, balance: INITIAL_BALANCE });
        proof {
            assert(self@.drop_last() =~= before);
            assert forall|a: int, b: int| 0 <= a < self@.len() && 0 <= b < self@.len() && a != b
                implies self@[a].id != self@[b].id by {
                if a < before.len() && b < before.len() {
                    assert(before[a].id != before[b].id);
                } else if a < before.len() {
                    assert(before[a].id != new_id@);
                } else {
                    assert(before[b].id != new_id@);
                }
            }
        }
        Ok(new_id)
    }

    /// Replaces the hash of the account that `old_secret` unlocks by a hash
    /// of `new_secret`.
    pub fn rotate_credential(&mut self, old_secret: &str, new_secret: &str) -> (r: Result<(), LedgerError>)
        requires
            old(self).wf(),
        ensures
            final(self).wf(),
            rotation_error(old(self)@, old_secret@, new_secret@) matches Some(e) ==> r == Err::<(), _>(e)
                && final(self)@ == old(self)@,
            rotation_error(old(self)@, old_secret@, new_secret@) is None ==> match r {
                Ok(_) => is_rotation(old(self)@, final(self)@, old_secret@, new_secret@),
                Err(e) => e == LedgerError::HashFailure && final(self)@ == old(self)@,
            },
    {
        if !secret_is_valid(new_secret) {
            return Err(LedgerError::InvalidCredential);
        }
        let i = match self.position_of_credential(old_secret) {
            Some(i) => i,
            None => return Err(LedgerError::AccountNotFound),
        };
        let credential_hash = match hash_credential(new_secret) {
            Some(h) => h,
            None => return Err(LedgerError::HashFailure),
        };
        let ghost before = self@;
        self.accounts[i].credential_hash = credential_hash;
        proof {
            assert forall|a: int, b: int| 0 <= a < self@.len() && 0 <= b < self@.len() && a != b
                implies self@[a].id != self@[b].id by {
                assert(before[a].id != before[b].id);
            }
        }
        Ok(())
    }

    /// The account that `secret` unlocks: the first in ledger order.
    pub fn lookup_by_credential(&self, secret: &str) -> (r: Result<&Account, LedgerError>)
        ensures
            match r {
                Ok(a) => lookup(self@, secret@) matches Some(i) && a@ == self@[i],
                Err(e) => lookup(self@, secret@) is None && e == LedgerError::AccountNotFound,
            },
    {
        match self.position_of_credential(secret) {
            Some(i) => Ok(&self.accounts[i]),
            None => Err(LedgerError::AccountNotFound),
        }
    }

    /// The balance of the account that `secret` unlocks.
    pub fn get_balance(&self, secret: &str) -> (r: Result<u64, LedgerError>)
        ensures
            r == balance_of(self@, secret@),
    {
        if secret.is_empty() {
            return Err(LedgerError::InvalidCredential);
        }
        match self.position_of_credential(secret) {
            Some(i) => Ok(self.accounts[i].balance),
            None => Err(LedgerError::AccountNotFound),
        }
    }

    /// The id and balance of the account that `secret` unlocks.
    pub fn account_info(&self, secret: &str) -> (r: Result<(String, u64), LedgerError>)
        ensures
            match r {
                Ok((id, b)) => info_of(self@, secret@) == Ok::<_, LedgerError>((id@, b)),
                Err(e) => info_of(self@, secret@) == Err::<(Seq<char>, u64), _>(e),
            },
    {
        if secret.is_empty() {
            return Err(LedgerError::InvalidCredential);
        }
        match self.position_of_credential(secret) {
            Some(i) => Ok((self.accounts[i].id.clone(), self.accounts[i].balance)),
            None => Err(LedgerError::AccountNotFound),
        }
    }

    /// The ledger as bytes for storage: its accounts, in order, as Candid
    /// rows. Only the hashes of secrets are stored.
    pub fn save(&self) -> (r: Result<Vec<u8>, LedgerError>)
        ensures
            r matches Ok(b) && b@ == snapshot_bytes(self@),
    {
        let mut rows: Vec<Row> = Vec::new();
        let mut i: usize = 0;
        while i < self.accounts.len()
            invariant
                0 <= i <= self@.len(),
                rows@.len() == i,
                rows_view(rows@) == rows_of(self@).take(i as int),
            decreases self@.len() - i,
        {
            let a = &self.accounts[i];
            rows.push((a.id.clone(), a.credential_hash.clone(), a.balance));
            proof {
                assert(self@[i as int] == self.accounts@[i as int]@);
                assert(rows_view(rows@)[i as int] == row_view(rows@[i as int]));
                assert(rows_view(rows@)[i as int] == rows_of(self@)[i as int]);
                assert(rows_view(rows@) =~= rows_of(self@).take(i + 1));
            }
            i += 1;
        }
        proof {
            assert(rows_of(self@).take(self@.len() as int) =~= rows_of(self@));
        }
        match encode_rows(&rows) {
            Some(b) => Ok(b),
            None => Err(LedgerError::PersistenceFailure),
        }
    }

    /// The ledger that stored bytes hold, if they decode to accounts with
    /// unique ids. Bytes that `save` made of a ledger give that ledger back.
    pub fn decode_snapshot(bytes: &[u8]) -> (r: Option<Ledger>)
        ensures
            match r {
                Some(l) => l.wf() && decoded_ledger(bytes@) == Some(l@),
                None => decoded_ledger(bytes@) is None,
            },
            forall|s: Seq<AccountModel>| ids_unique(s) && bytes@ == #[trigger] snapshot_bytes(s)
                ==> (r matches Some(l) && l@ == s),
    {
        let rows = match decode_rows(bytes) {
            Some(rows) => rows,
            None => return None,
        };
        let ghost target = accounts_of(rows_view(rows@));
        let mut ledger = Ledger::new();
        let mut i: usize = 0;
        while i < rows.len()
            invariant
                0 <= i <= rows@.len(),
                target == accounts_of(rows_view(rows@)),
                candid_decoding(bytes@) == Some(rows_view(rows@)),
                forall|v: Seq<RowModel>| #[trigger] candid_encoding(v) == bytes@ ==> rows_view(rows@) == v,
                ledger.wf(),
                ledger@ == target.take(i as int),
            decreases rows@.len() - i,
        {
            let row = &rows[i];
            if ledger.position_of_id(&row.0).is_some() {
                proof {
                    let k = index_of_id(ledger@, row.0@);
                    assert(target[k].id == target[i as int].id);
                    assert(!ids_unique(target));
                    assert forall|s: Seq<AccountModel>| ids_unique(s) && bytes@ == #[trigger] snapshot_bytes(s)
                        implies false by {
                        lemma_accounts_of_rows_of(s);
                    }
                }
                return None;
            }
            let ghost before = ledger@;
            ledger.accounts.push(Account { id: row.0.clone(), credential_hash: row.1.clone(), balance: row.2 });
            proof {
                assert(before.len() == i);
                assert(ledger.accounts@.len() == i + 1);
                assert(rows_view(rows@).len() == rows@.len());
                assert(rows_view(rows@)[i as int] == row_view(rows@[i as int]));
                assert(target.len() == rows@.len());
                assert(target[i as int] == ledger.accounts@[i as int]@);
                assert(ledger@[i as int] == ledger.accounts@[i as int]@);
                assert(ledger@ =~= target.take(i + 1));
                assert forall|a: int, b: int| 0 <= a < ledger@.len() && 0 <= b < ledger@.len() && a != b
                    implies ledger@[a].id != ledger@[b].id by {
                    if a < before.len() && b < before.len() {
                        assert(before[a].id != before[b].id);
                    } else if a < before.len() {
                        assert(before[a].id != row.0@);
                    } else {
                        assert(before[b].id != row.0@);
                    }
                }
            }
            i += 1;
        }
        proof {
            assert(target.take(rows@.len() as int) =~= target);
            assert forall|s: Seq<AccountModel>| ids_unique(s) && bytes@ == #[trigger] snapshot_bytes(s)
                implies ledger@ == s by {
                lemma_accounts_of_rows_of(s);
            }
        }
        Some(ledger)
    }

    /// The ledger in storage: an empty one where nothing is stored or what is
    /// stored does not decode.
    pub fn load(snapshot: Option<&[u8]>) -> (r: Ledger)
        ensures
            r.wf(),
            r@ == match snapshot {
                Some(b) => match decoded_ledger(b@) {
                    Some(s) => s,
                    None => Seq::<AccountModel>::empty(),
                },
                None => Seq::<AccountModel>::empty(),
            },
            forall|s: Seq<AccountModel>| ids_unique(s) && (snapshot matches Some(b) && b@ == #[trigger] snapshot_bytes(s))
                ==> r@ == s,
    {
        match snapshot {
            Some(b) => match Ledger::decode_snapshot(b) {
                Some(l) => l,
                None => Ledger::new(),
            },
            None => Ledger::new(),
        }
    }
}

} // verus!
