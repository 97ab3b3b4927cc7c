//! An account ledger: accounts guarded by a hashed secret, balance transfers
//! between them, and a byte snapshot of the whole ledger.

mod credential;
mod error;
mod laws;
mod ledger;
mod model;
mod snapshot;

pub use credential::{bcrypt_accepts, secret_is_valid, MIN_SECRET_LEN};
pub use error::LedgerError;
pub use laws::{
    creation_adds_fresh_account, deleted_account_is_gone, rotated_secret_takes_over,
    short_secret_is_refused, successive_creations_keep_both, transfer_beyond_balance_is_refused, transfer_conserves_balance,
    transfer_of_nonpositive_amount_is_refused, transfer_to_missing_account_is_refused,
};
pub use ledger::{Account, Ledger, INITIAL_BALANCE};
pub use model::{
    accepts, balance_of, creation_error, deletion_of, has_id, ids_unique, index_of_id, info_of,
    is_creation, is_first_accepting, is_rotation, lookup, rotation_error, transfer_of, with_balance,
    AccountModel,
};
pub use snapshot::{
    accounts_of, candid_decoding, candid_encoding, decoded_ledger, lemma_accounts_of_rows_of, row_view,
    rows_of, rows_view, snapshot_bytes, Row, RowModel,
};
