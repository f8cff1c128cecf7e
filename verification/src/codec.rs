//! The byte encoding of a store: JSON text, an array with one array of three
//! strings (site, username, password) for each record, in the store's order.

use vstd::prelude::*;
use crate::entry::{Entry, EntryView};
use crate::error::VaultError;
use crate::store::{valid_records, RecordStore};

verus! {

/// The JSON text that serde_json writes for rows of strings.
pub uninterp spec fn json_text(rows: Seq<Seq<Seq<char>>>) -> Seq<u8>;

/// The rows of strings that serde_json reads from a text, or nothing where it
/// rejects the text.
pub uninterp spec fn json_rows(text: Seq<u8>) -> Option<Seq<Seq<Seq<char>>>>;

/// The contents of optional rows.
pub open spec fn rows_view(rows: Option<Vec<Vec<String>>>) -> Option<Seq<Seq<Seq<char>>>> {
    match rows {
        Some(r) => Some(r.deep_view()),
        None => None,
    }
}

/// Calls `serde_json::to_vec` on rows of strings. The contract gives the
/// result its name and claims two things of it: the text is not empty, and
/// reading it back gives the same rows. That the call succeeds on such rows is
/// taken from its documentation.
#[verifier::external_body]
fn json_write(rows: &Vec<Vec<String>>) -> (text: Vec<u8>)
    ensures
        text@ == json_text(rows.deep_view()),
        text@.len() > 0,
        json_rows(text@) == Some(rows.deep_view()),
{
    serde_json::to_vec(rows).expect("Failed to serialize data")
}

/// Calls `serde_json::from_slice` for rows of strings. The contract gives the
/// result its name and claims nothing else of it.
#[verifier::external_body]
fn json_read(text: &[u8]) -> (rows: Option<Vec<Vec<String>>>)
    ensures
        rows_view(rows) == json_rows(text@),
{
    serde_json::from_slice::<Vec<Vec<String>>>(text).ok()
}

/// The row that stands for a record.
pub open spec fn row_of(entry: EntryView) -> Seq<Seq<char>> {
    seq![entry.site, entry.username, entry.password]
}

/// The rows that stand for records.
pub open spec fn rows_of(records: Seq<EntryView>) -> Seq<Seq<Seq<char>>> {
    Seq::new(records.len(), |i: int| row_of(records[i]))
}

/// The record that a row of three strings stands for.
pub open spec fn entry_of(row: Seq<Seq<char>>) -> EntryView {
    EntryView { site: row[0], username: row[1], password: row[2] }
}

/// The records that rows stand for.
pub open spec fn entries_of(rows: Seq<Seq<Seq<char>>>) -> Seq<EntryView> {
    Seq::new(rows.len(), |i: int| entry_of(rows[i]))
}

/// Every row has exactly three strings.
pub open spec fn three_wide(rows: Seq<Seq<Seq<char>>>) -> bool {
    forall|i: int| 0 <= i < rows.len() ==> (#[trigger] rows[i]).len() == 3
}

/// The store that rows stand for. Rows are accepted exactly when each has
/// three strings and the records they give are valid.
pub open spec fn records_of_rows(rows: Seq<Seq<Seq<char>>>) -> Result<Seq<EntryView>, VaultError> {
    if three_wide(rows) && valid_records(entries_of(rows)) {
        Ok(entries_of(rows))
    } else {
        Err(VaultError::DecodeError)
    }
}

/// What decoding a text gives.
pub open spec fn decoded(text: Seq<u8>) -> Result<Seq<EntryView>, VaultError> {
    match json_rows(text) {
        Some(rows) => records_of_rows(rows),
        None => Err(VaultError::DecodeError),
    }
}

/// `text` is the encoding of `records`: the JSON text of their rows, which is
/// not empty and reads back as those rows.
pub open spec fn is_encoding_of(text: Seq<u8>, records: Seq<EntryView>) -> bool {
    &&& text == json_text(rows_of(records))
    &&& text.len() > 0
    &&& json_rows(text) == Some(rows_of(records))
}

/// The rows of valid records stand for exactly those records.
pub proof fn lemma_rows_round_trip(records: Seq<EntryView>)
    requires
        valid_records(records),
    ensures
        records_of_rows(rows_of(records)) == Ok::<Seq<EntryView>, VaultError>(records),
{
    let rows = rows_of(records);
    assert(entries_of(rows) =~= records);
}

/// Decoding the encoding of a store gives the store back: the same records
/// in the same order.
pub proof fn lemma_decode_inverts_encode(text: Seq<u8>, records: Seq<EntryView>)
    requires
        valid_records(records),
        is_encoding_of(text, records),
    ensures
        decoded(text) == Ok::<Seq<EntryView>, VaultError>(records),
{
    lemma_rows_round_trip(records);
}

/// The rows that stand for entries.
pub fn rows_from_entries(entries: &Vec<Entry>) -> (rows: Vec<Vec<String>>)
    ensures
        rows.deep_view() == rows_of(entries.deep_view()),
{
    let ghost records = entries.deep_view();
    let mut rows: Vec<Vec<String>> = Vec::new();
    let mut i: usize = 0;
    while i < entries.len()
        invariant
            0 <= i <= entries.len(),
            records == entries.deep_view(),
            rows@.len() == i,
            forall|k: int| 0 <= k < i ==> (#[trigger] rows@[k]).deep_view() == row_of(records[k]),
        decreases entries.len() - i,
    {
        let entry = &entries[i];
        let mut row: Vec<String> = Vec::new();
        row.push(entry.site.clone());
        row.push(entry.username.clone());
        row.push(entry.password.clone());
        assert(row.deep_view() =~= row_of(records[i as int]));
        rows.push(row);
        i += 1;
    }
    assert(rows.deep_view() =~= rows_of(records));
    rows
}

/// The store that rows stand for.
pub fn store_from_rows(rows: &Vec<Vec<String>>) -> (made: Result<RecordStore, VaultError>)
    ensures
        match made {
            Ok(store) => records_of_rows(rows.deep_view()) == Ok::<Seq<EntryView>, VaultError>(
                store@,
            ),
            Err(e) => records_of_rows(rows.deep_view()) == Err::<Seq<EntryView>, VaultError>(e),
        },
{
    let ghost all = rows.deep_view();
    let mut entries: Vec<Entry> = Vec::new();
    let mut i: usize = 0;
    while i < rows.len()
        invariant
            0 <= i <= rows.len(),
            all == rows.deep_view(),
            entries@.len() == i,
            forall|k: int| 0 <= k < i ==> (#[trigger] all[k]).len() == 3,
            forall|k: int| 0 <= k < i ==> (#[trigger] entries@[k])@ == entry_of(all[k]),
        decreases rows.len() - i,
    {
        let row = &rows[i];
        if row.len() != 3 {
            assert(all[i as int].len() != 3);
            return Err(VaultError::DecodeError);
        }
        assert(all[i as int] == row.deep_view());
        entries.push(
            Entry { site: row[0].clone(), username: row[1].clone(), password: row[2].clone() },
        );
        i += 1;
    }
    assert(entries.deep_view() =~= entries_of(all));
    match RecordStore::from_entries(entries) {
        Ok(store) => Ok(store),
        Err(_) => Err(VaultError::DecodeError),
    }
}

/// Encodes a store. The text is never empty, also for a store without
/// records, and decodes to the same records in the same order.
pub fn encode(store: &RecordStore) -> (text: Vec<u8>)
    ensures
        is_encoding_of(text@, store@),
        decoded(text@) == Ok::<Seq<EntryView>, VaultError>(store@),
{
    let rows = rows_from_entries(store.list());
    let text = json_write(&rows);
    proof {
        lemma_decode_inverts_encode(text@, store@);
    }
    text
}

/// Decodes a text into a store.
pub fn decode(text: &[u8]) -> (made: Result<RecordStore, VaultError>)
    ensures
        match made {
            Ok(store) => decoded(text@) == Ok::<Seq<EntryView>, VaultError>(store@),
            Err(e) => decoded(text@) == Err::<Seq<EntryView>, VaultError>(e),
        },
{
    match json_read(text) {
        Some(rows) => store_from_rows(&rows),
        None => Err(VaultError::DecodeError),
    }
}

} // verus!
