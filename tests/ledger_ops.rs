use account_ledger::{Ledger, LedgerError, INITIAL_BALANCE};

fn ledger_with(accounts: &[(&str, &str)]) -> Ledger {
    let mut ledger = Ledger::new();
    for (secret, id) in accounts {
        assert_eq!(ledger.create_account(secret, id.to_string()), Ok(id.to_string()));
    }
    ledger
}

#[test]
fn create_account_starts_with_initial_balance() {
    let ledger = ledger_with(&[("password1", "acct_a")]);
    assert_eq!(ledger.len(), 1);
    assert!(ledger.account_exists(&"acct_a".to_string()));
    assert_eq!(ledger.get_balance("password1"), Ok(100));
    assert_eq!(INITIAL_BALANCE, 100);
}

#[test]
fn create_account_gives_distinct_ids() {
    let ledger = ledger_with(&[("password1", "acct_a"), ("password2", "acct_b")]);
    assert_eq!(ledger.len(), 2);
    assert!(ledger.account_exists(&"acct_a".to_string()));
    assert!(ledger.account_exists(&"acct_b".to_string()));
    assert!(!ledger.account_exists(&"acct_c".to_string()));
}

#[test]
fn create_account_refuses_taken_id() {
    let mut ledger = ledger_with(&[("password1", "acct_a")]);
    assert_eq!(ledger.create_account("password2", "acct_a".to_string()), Err(LedgerError::DuplicateId));
    assert_eq!(ledger.len(), 1);
    assert_eq!(ledger.get_balance("password2"), Err(LedgerError::AccountNotFound));
}

#[test]
fn create_account_refuses_short_secret() {
    let mut ledger = Ledger::new();
    assert_eq!(ledger.create_account("short", "acct_a".to_string()), Err(LedgerError::InvalidCredential));
    assert_eq!(ledger.len(), 0);
    assert!(!ledger.account_exists(&"acct_a".to_string()));
}

#[test]
fn create_account_accepts_exactly_eight_characters() {
    let mut ledger = Ledger::new();
    assert_eq!(ledger.create_account("1234567", "acct_a".to_string()), Err(LedgerError::InvalidCredential));
    assert_eq!(ledger.create_account("12345678", "acct_a".to_string()), Ok("acct_a".to_string()));
}

#[test]
fn secret_length_counts_characters() {
    assert!(!account_ledger::secret_is_valid("ééééééé"));
    assert!(account_ledger::secret_is_valid("éééééééé"));
    assert!(!account_ledger::secret_is_valid(""));
}

#[test]
fn stored_hash_is_not_the_secret() {
    let ledger = ledger_with(&[("password1", "acct_a")]);
    let account = ledger.lookup_by_credential("password1").unwrap();
    assert_eq!(account.id, "acct_a");
    assert_ne!(account.credential_hash, "password1");
    assert!(account.credential_hash.starts_with("$2"));
    assert_eq!(account.credential_hash.len(), 60);
}

#[test]
fn lookup_by_credential_rejects_wrong_and_empty_secret() {
    let ledger = ledger_with(&[("password1", "acct_a")]);
    assert!(matches!(ledger.lookup_by_credential("password9"), Err(LedgerError::AccountNotFound)));
    assert!(matches!(ledger.lookup_by_credential(""), Err(LedgerError::AccountNotFound)));
}

#[test]
fn get_balance_errors() {
    let ledger = ledger_with(&[("password1", "acct_a")]);
    assert_eq!(ledger.get_balance(""), Err(LedgerError::InvalidCredential));
    assert_eq!(ledger.get_balance("password2"), Err(LedgerError::AccountNotFound));
}

#[test]
fn account_info_reports_id_and_balance() {
    let ledger = ledger_with(&[("password1", "acct_a"), ("password2", "acct_b")]);
    assert_eq!(ledger.account_info("password2"), Ok(("acct_b".to_string(), 100)));
    assert_eq!(ledger.account_info(""), Err(LedgerError::InvalidCredential));
    assert_eq!(ledger.account_info("password3"), Err(LedgerError::AccountNotFound));
}

#[test]
fn transfer_conserves_the_sum() {
    let mut ledger = ledger_with(&[("password1", "acct_a"), ("password2", "acct_b")]);
    assert_eq!(ledger.transfer("password1", 40, &"acct_b".to_string()), Ok(60));
    assert_eq!(ledger.get_balance("password1"), Ok(60));
    assert_eq!(ledger.get_balance("password2"), Ok(140));
    assert_eq!(ledger.get_balance("password1").unwrap() + ledger.get_balance("password2").unwrap(), 200);
}

#[test]
fn transfer_of_whole_balance() {
    let mut ledger = ledger_with(&[("password1", "acct_a"), ("password2", "acct_b")]);
    assert_eq!(ledger.transfer("password1", 100, &"acct_b".to_string()), Ok(0));
    assert_eq!(ledger.get_balance("password2"), Ok(200));
}

#[test]
fn transfer_refuses_nonpositive_amount() {
    let mut ledger = ledger_with(&[("password1", "acct_a"), ("password2", "acct_b")]);
    assert_eq!(ledger.transfer("password1", 0, &"acct_b".to_string()), Err(LedgerError::InvalidAmount));
    assert_eq!(ledger.transfer("password1", -5, &"acct_b".to_string()), Err(LedgerError::InvalidAmount));
    assert_eq!(ledger.transfer("nobody_here", 0, &"missing".to_string()), Err(LedgerError::InvalidAmount));
    assert_eq!(ledger.get_balance("password1"), Ok(100));
    assert_eq!(ledger.get_balance("password2"), Ok(100));
}

#[test]
fn transfer_refuses_insufficient_balance() {
    let mut ledger = ledger_with(&[("password1", "acct_a"), ("password2", "acct_b")]);
    assert_eq!(ledger.transfer("password1", 101, &"acct_b".to_string()), Err(LedgerError::InsufficientBalance));
    assert_eq!(ledger.get_balance("password1"), Ok(100));
    assert_eq!(ledger.get_balance("password2"), Ok(100));
}

#[test]
fn transfer_refuses_missing_destination() {
    let mut ledger = ledger_with(&[("password1", "acct_a")]);
    assert_eq!(ledger.transfer("password1", 10, &"missing".to_string()), Err(LedgerError::DestinationNotFound));
    assert_eq!(ledger.get_balance("password1"), Ok(100));
}

#[test]
fn transfer_reports_missing_source_first() {
    let mut ledger = ledger_with(&[("password1", "acct_a")]);
    assert_eq!(ledger.transfer("password9", 10, &"acct_a".to_string()), Err(LedgerError::SourceNotFound));
    assert_eq!(ledger.transfer("password9", 10, &"missing".to_string()), Err(LedgerError::SourceNotFound));
    assert_eq!(ledger.transfer("", 10, &"acct_a".to_string()), Err(LedgerError::SourceNotFound));
    assert_eq!(ledger.get_balance("password1"), Ok(100));
}

#[test]
fn self_transfer_keeps_balance() {
    let mut ledger = ledger_with(&[("password1", "acct_a")]);
    assert_eq!(ledger.transfer("password1", 30, &"acct_a".to_string()), Ok(100));
    assert_eq!(ledger.get_balance("password1"), Ok(100));
    assert_eq!(ledger.transfer("password1", 101, &"acct_a".to_string()), Err(LedgerError::InsufficientBalance));
    assert_eq!(ledger.get_balance("password1"), Ok(100));
}

#[test]
fn delete_account_removes_it() {
    let mut ledger = ledger_with(&[("password1", "acct_a"), ("password2", "acct_b")]);
    assert_eq!(ledger.delete_account("password1"), Ok("acct_a".to_string()));
    assert!(!ledger.account_exists(&"acct_a".to_string()));
    assert_eq!(ledger.get_balance("password1"), Err(LedgerError::AccountNotFound));
    assert_eq!(ledger.get_balance("password2"), Ok(100));
    assert_eq!(ledger.len(), 1);
}

#[test]
fn delete_account_discards_funds() {
    let mut ledger = ledger_with(&[("password1", "acct_a"), ("password2", "acct_b")]);
    assert_eq!(ledger.transfer("password1", 50, &"acct_b".to_string()), Ok(50));
    assert_eq!(ledger.delete_account("password2"), Ok("acct_b".to_string()));
    assert_eq!(ledger.get_balance("password1"), Ok(50));
    assert_eq!(ledger.len(), 1);
}

#[test]
fn delete_account_refuses_unknown_secret() {
    let mut ledger = ledger_with(&[("password1", "acct_a")]);
    assert_eq!(ledger.delete_account("password2"), Err(LedgerError::AccountNotFound));
    assert_eq!(ledger.delete_account(""), Err(LedgerError::AccountNotFound));
    assert_eq!(ledger.len(), 1);
}

#[test]
fn rotate_credential_moves_access() {
    let mut ledger = ledger_with(&[("password1", "acct_a"), ("password2", "acct_b")]);
    assert_eq!(ledger.transfer("password1", 25, &"acct_b".to_string()), Ok(75));
    assert_eq!(ledger.rotate_credential("password1", "newsecret1"), Ok(()));
    assert_eq!(ledger.get_balance("password1"), Err(LedgerError::AccountNotFound));
    assert_eq!(ledger.get_balance("newsecret1"), Ok(75));
    assert_eq!(ledger.account_info("newsecret1"), Ok(("acct_a".to_string(), 75)));
    assert_eq!(ledger.get_balance("password2"), Ok(125));
}

#[test]
fn rotate_credential_errors() {
    let mut ledger = ledger_with(&[("password1", "acct_a")]);
    assert_eq!(ledger.rotate_credential("password1", "short"), Err(LedgerError::InvalidCredential));
    assert_eq!(ledger.rotate_credential("password9", "newsecret1"), Err(LedgerError::AccountNotFound));
    assert_eq!(ledger.rotate_credential("password9", "short"), Err(LedgerError::InvalidCredential));
    assert_eq!(ledger.get_balance("password1"), Ok(100));
}

#[test]
fn two_accounts_transfer_scenario() {
    let mut ledger = ledger_with(&[("password1", "acct_a"), ("password2", "acct_b")]);
    assert_eq!(ledger.transfer("password1", 30, &"acct_b".to_string()), Ok(70));
    assert_eq!(ledger.get_balance("password1"), Ok(70));
    assert_eq!(ledger.get_balance("password2"), Ok(130));
    assert_eq!(ledger.transfer("password1", 1000, &"acct_b".to_string()), Err(LedgerError::InsufficientBalance));
    assert_eq!(ledger.get_balance("password1"), Ok(70));
    assert_eq!(ledger.get_balance("password2"), Ok(130));
}
