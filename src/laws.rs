use vstd::prelude::*;

use crate::credential::MIN_SECRET_LEN;
use crate::error::LedgerError;
use crate::ledger::INITIAL_BALANCE;
use crate::model::{
    accepts, balance_of, creation_error, deletion_of, has_id, ids_unique, index_of_id, is_creation,
    is_first_accepting, is_rotation, lookup, rotation_error, transfer_of, AccountModel,
};

verus! {

/// A created account carries an id that no account had before, starts with
/// `INITIAL_BALANCE`, and the ids stay unique.
pub proof fn creation_adds_fresh_account(
    before: Seq<AccountModel>,
    after: Seq<AccountModel>,
    secret: Seq<char>,
    id: Seq<char>,
)
    requires
        ids_unique(before),
        creation_error(before, secret, id) is None,
        is_creation(before, after, secret, id),
    ensures
        secret.len() >= MIN_SECRET_LEN,
        !has_id(before, id),
        has_id(after, id),
        after[index_of_id(after, id)].balance == INITIAL_BALANCE,
        accepts(secret, after[index_of_id(after, id)]),
        after.len() == before.len() + 1,
        forall|x: Seq<char>| has_id(before, x) ==> #[trigger] has_id(after, x),
        ids_unique(after),
{
    let n = before.len() as int;
    assert(after[n] == after.last());
    assert(has_id(after, id));
    let k = index_of_id(after, id);
    if k != n {
        assert(after[k] == before[k]);
        assert(has_id(before, id));
    }
    assert forall|x: Seq<char>| has_id(before, x) implies #[trigger] has_id(after, x) by {
        let j = choose|j: int| 0 <= j < before.len() && before[j].id == x;
        assert(after[j] == before[j]);
    }
    assert forall|a: int, b: int| 0 <= a < after.len() && 0 <= b < after.len() && a != b
        implies after[a].id != after[b].id by {
        if a < n && b < n {
            assert(after[a] == before[a] && after[b] == before[b]);
        } else if a < n {
            assert(after[a] == before[a]);
        } else {
            assert(after[b] == before[b]);
        }
    }
}

/// Two accounts created one after the other, with the same secret or not,
/// carry distinct ids, and both stay in the ledger.
pub proof fn successive_creations_keep_both(
    l0: Seq<AccountModel>,
    l1: Seq<AccountModel>,
    l2: Seq<AccountModel>,
    first_secret: Seq<char>,
    first_id: Seq<char>,
    second_secret: Seq<char>,
    second_id: Seq<char>,
)
    requires
        ids_unique(l0),
        creation_error(l0, first_secret, first_id) is None,
        is_creation(l0, l1, first_secret, first_id),
        creation_error(l1, second_secret, second_id) is None,
        is_creation(l1, l2, second_secret, second_id),
    ensures
        first_id != second_id,
        has_id(l2, first_id),
        has_id(l2, second_id),
        l2.len() == l0.len() + 2,
        ids_unique(l2),
{
    creation_adds_fresh_account(l0, l1, first_secret, first_id);
    creation_adds_fresh_account(l1, l2, second_secret, second_id);
}

/// A secret shorter than `MIN_SECRET_LEN` characters never creates an account.
pub proof fn short_secret_is_refused(s: Seq<AccountModel>, secret: Seq<char>, id: Seq<char>)
    requires
        secret.len() < MIN_SECRET_LEN,
    ensures
        creation_error(s, secret, id) == Some(LedgerError::InvalidCredential),
{
}

/// A transfer between two distinct accounts, of an amount that the payer
/// holds and that the payee's balance can take, succeeds: it takes the amount
/// from the payer, gives it to the payee, keeps their sum, returns the
/// payer's new balance, and leaves every other account as it was.
pub proof fn transfer_conserves_balance(
    s: Seq<AccountModel>,
    secret: Seq<char>,
    amount: int,
    dest: Seq<char>,
)
    requires
        ids_unique(s),
        lookup(s, secret) matches Some(a) && s[a].id != dest && amount <= s[a].balance,
        0 < amount,
        has_id(s, dest),
        s[index_of_id(s, dest)].balance + amount <= u64::MAX,
    ensures
        transfer_of(s, secret, amount, dest) is Ok,
        ({
            let (after, paid) = transfer_of(s, secret, amount, dest)->Ok_0;
            let a = lookup(s, secret)->0;
            let b = index_of_id(s, dest);
            &&& a != b
            &&& after.len() == s.len()
            &&& after[a].balance == s[a].balance - amount
            &&& after[b].balance == s[b].balance + amount
            &&& after[a].balance + after[b].balance == s[a].balance + s[b].balance
            &&& paid == after[a].balance
            &&& forall|j: int| 0 <= j < s.len() && j != a && j != b ==> after[j] == s[j]
        }),
{
    let a = lookup(s, secret)->0;
    let b = index_of_id(s, dest);
    assert(s[b].id == dest);
    assert(is_first_accepting(s, secret, a));
}

/// A transfer of zero or less is refused as an invalid amount, whatever else
/// holds.
pub proof fn transfer_of_nonpositive_amount_is_refused(
    s: Seq<AccountModel>,
    secret: Seq<char>,
    amount: int,
    dest: Seq<char>,
)
    requires
        amount <= 0,
    ensures
        transfer_of(s, secret, amount, dest) == Err::<(Seq<AccountModel>, u64), _>(LedgerError::InvalidAmount),
{
}

/// A payer that holds less than the amount is refused for insufficient
/// balance.
pub proof fn transfer_beyond_balance_is_refused(
    s: Seq<AccountModel>,
    secret: Seq<char>,
    amount: int,
    dest: Seq<char>,
)
    requires
        amount > 0,
        lookup(s, secret) matches Some(a) && s[a].balance < amount,
        has_id(s, dest),
    ensures
        transfer_of(s, secret, amount, dest) == Err::<(Seq<AccountModel>, u64), _>(
            LedgerError::InsufficientBalance,
        ),
{
}

/// A transfer to an id that no account carries is refused, once the amount
/// and the payer are good.
pub proof fn transfer_to_missing_account_is_refused(
    s: Seq<AccountModel>,
    secret: Seq<char>,
    amount: int,
    dest: Seq<char>,
)
    requires
        amount > 0,
        lookup(s, secret) is Some,
        !has_id(s, dest),
    ensures
        transfer_of(s, secret, amount, dest) == Err::<(Seq<AccountModel>, u64), _>(
            LedgerError::DestinationNotFound,
        ),
{
}

/// Once an account is deleted its id is gone, and its secret, which unlocked
/// no other account, now reads no balance.
pub proof fn deleted_account_is_gone(
    s: Seq<AccountModel>,
    secret: Seq<char>,
    after: Seq<AccountModel>,
    id: Seq<char>,
)
    requires
        ids_unique(s),
        deletion_of(s, secret) == Ok::<_, LedgerError>((after, id)),
        forall|j: int| 0 <= j < s.len() && #[trigger] accepts(secret, s[j]) ==> s[j].id == id,
    ensures
        !has_id(after, id),
        balance_of(after, secret) == Err::<u64, _>(LedgerError::AccountNotFound),
{
    let i = lookup(s, secret)->0;
    assert(is_first_accepting(s, secret, i));
    assert(after == s.remove(i));
    if has_id(after, id) {
        let k = choose|k: int| 0 <= k < after.len() && after[k].id == id;
        let k0 = if k < i { k } else { k + 1 };
        assert(s[k0].id == s[i].id);
    }
    assert forall|j: int| 0 <= j < after.len() implies !accepts(secret, #[trigger] after[j]) by {
        let j0 = if j < i { j } else { j + 1 };
        assert(after[j] == s[j0]);
        if accepts(secret, s[j0]) {
            assert(s[j0].id == s[i].id);
        }
    }
}

/// Once a secret is replaced, the old secret reads no balance and the new
/// one reads the unchanged balance, where neither secret unlocks another
/// account and the new hash does not accept the old secret.
pub proof fn rotated_secret_takes_over(
    before: Seq<AccountModel>,
    after: Seq<AccountModel>,
    old_secret: Seq<char>,
    new_secret: Seq<char>,
    i: int,
)
    requires
        rotation_error(before, old_secret, new_secret) is None,
        is_rotation(before, after, old_secret, new_secret),
        lookup(before, old_secret) == Some(i),
        !accepts(old_secret, after[i]),
        forall|j: int| 0 <= j < before.len() && j != i ==> !accepts(old_secret, #[trigger] before[j])
            && !accepts(new_secret, before[j]),
    ensures
        balance_of(after, old_secret) == Err::<u64, _>(LedgerError::AccountNotFound),
        balance_of(after, new_secret) == Ok::<_, LedgerError>(before[i].balance),
{
    assert(is_first_accepting(before, old_secret, i));
    assert forall|j: int| 0 <= j < after.len() implies !accepts(old_secret, #[trigger] after[j]) by {
        if j != i {
            assert(after[j] == before[j]);
        }
    }
    assert(is_first_accepting(after, new_secret, i)) by {
        assert forall|j: int| 0 <= j < i implies !accepts(new_secret, #[trigger] after[j]) by {
            assert(after[j] == before[j]);
        }
    }
    let k = choose|k: int| is_first_accepting(after, new_secret, k);
    if k != i {
        if k < i {
            assert(!accepts(new_secret, after[k]));
        } else {
            assert(!accepts(new_secret, after[i]));
        }
    }
}

} // verus!
