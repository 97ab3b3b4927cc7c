use vstd::prelude::*;

use crate::model::{ids_unique, AccountModel};

verus! {

/// One account as stored: id, credential hash, balance.
pub type Row = (String, String, u64);

/// A stored account, seen mathematically.
pub type RowModel = (Seq<char>, Seq<char>, u64);

/// The bytes that `candid::encode_one` makes of a list of rows.
pub uninterp spec fn candid_encoding(rows: Seq<RowModel>) -> Seq<u8>;

/// What `candid::decode_one` makes of bytes, read as a list of rows: `None`
/// where it reports an error.
pub uninterp spec fn candid_decoding(bytes: Seq<u8>) -> Option<Seq<RowModel>>;

pub open spec fn row_view(r: Row) -> RowModel {
    (r.0@, r.1@, r.2)
}

pub open spec fn rows_view(rows: Seq<Row>) -> Seq<RowModel> {
    rows.map_values(|r: Row| row_view(r))
}

/// The rows that stand for a ledger.
pub open spec fn rows_of(s: Seq<AccountModel>) -> Seq<RowModel> {
    s.map_values(|a: AccountModel| (a.id, a.credential_hash, a.balance))
}

/// The accounts that rows stand for.
pub open spec fn accounts_of(rows: Seq<RowModel>) -> Seq<AccountModel> {
    rows.map_values(|r: RowModel| AccountModel { id: r.0, credential_hash: r.1, balance: r.2 })
}

/// The bytes a ledger is stored as.
pub open spec fn snapshot_bytes(s: Seq<AccountModel>) -> Seq<u8> {
    candid_encoding(rows_of(s))
}

/// The ledger that stored bytes hold: none where they do not decode, or
/// where two of their accounts share an id.
pub open spec fn decoded_ledger(bytes: Seq<u8>) -> Option<Seq<AccountModel>> {
    match candid_decoding(bytes) {
        Some(rows) => if ids_unique(accounts_of(rows)) {
            Some(accounts_of(rows))
        } else {
            None
        },
        None => None,
    }
}

/// Reading rows back gives the accounts they were made from.
pub proof fn lemma_accounts_of_rows_of(s: Seq<AccountModel>)
    ensures
        accounts_of(rows_of(s)) == s,
{
    assert(accounts_of(rows_of(s)) =~= s);
}

/// Relies on `candid::encode_one`: the Candid encoding of the rows, as a
/// vector of `record { text; text; nat64 }`. Candid's serializer fails only on
/// empty, recursive or unresolved types, none of which occur here, so the
/// encoding is always produced.
#[verifier::external_body]
pub(crate) fn encode_rows(rows: &Vec<Row>) -> (r: Option<Vec<u8>>)
    ensures
        r is Some,
        r matches Some(b) ==> b@ == candid_encoding(rows_view(rows@)),
{
    candid::encode_one(rows).ok()
}

/// Relies on `candid::decode_one` (with its default configuration, which sets
/// no quota): the rows that the bytes encode, or `None` where decoding
/// reports an error. Bytes that `candid::encode_one` made of rows decode to
/// those rows.
#[verifier::external_body]
pub(crate) fn decode_rows(bytes: &[u8]) -> (r: Option<Vec<Row>>)
    ensures
        r matches Some(rows) ==> candid_decoding(bytes@) == Some(rows_view(rows@)),
        r is None ==> candid_decoding(bytes@) is None,
        r matches Some(rows) ==> forall|v: Seq<RowModel>| #[trigger] candid_encoding(v) == bytes@ ==> rows_view(rows@) == v,
        r is None ==> forall|v: Seq<RowModel>| #[trigger] candid_encoding(v) != bytes@,
{
    candid::decode_one(bytes).ok()
}

} // verus!
