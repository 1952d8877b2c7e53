//! Moving a SQLite workspace into MySQL: timestamps, the card rows with
//! their bodies and digests, and the stored file objects.
use vstd::prelude::*;
use crate::digest::{content_sha256, file_object_id, lower_hex, sha256_of, text_digest};
use crate::text::{decimal, lemma_parse_decimal_roundtrip, owned, parse_i64, parsed_i64};

verus! {

/// A SQLite timestamp read as seconds: its decimal value, 0 when it is not
/// a number in the range of `i64`.
pub open spec fn timestamp_of(value: Seq<char>) -> i64 {
    match parsed_i64(value) {
        Some(v) => v,
        None => 0,
    }
}

/// Reads a stored timestamp as seconds since the epoch.
pub fn unix_to_mysql(value: &str) -> (r: i64)
    ensures
        r == timestamp_of(value@),
{
    match parse_i64(value) {
        Some(v) => v,
        None => 0,
    }
}

/// A stamp written as decimal seconds reads back as those seconds.
pub proof fn lemma_timestamp_roundtrip(n: nat)
    requires
        n <= i64::MAX,
    ensures
        timestamp_of(decimal(n)) == n,
{
    lemma_parse_decimal_roundtrip(n);
}

/// A card row of the SQLite store.
pub struct SqliteCardRow {
    pub id: String,
    pub title: String,
    pub summary: String,
    pub card_type: String,
    pub tags: String,
    pub source: String,
    pub source_path: Option<String>,
    pub visibility: String,
    pub status: String,
    pub favorite: i64,
    pub created_at: String,
    pub updated_at: String,
    pub deleted_at: Option<String>,
}

/// The MySQL record of a migrated card, with its body and digest.
pub struct MigratedCard {
    pub row: SqliteCardRow,
    pub favorite: bool,
    pub created: i64,
    pub updated: i64,
    pub deleted: Option<i64>,
    pub content: String,
    pub content_hash: String,
}

/// Converts a SQLite card row and its body: the favourite flag is set for
/// any non-zero value, timestamps read as seconds (an absent deletion
/// stays absent), and the body gets its digest.
pub fn migrate_card_row(row: SqliteCardRow, content: String) -> (r: MigratedCard)
    ensures
        r.row == row,
        r.favorite == (row.favorite != 0),
        r.created == timestamp_of(row.created_at@),
        r.updated == timestamp_of(row.updated_at@),
        r.deleted == match row.deleted_at {
            Some(d) => Some(timestamp_of(d@)),
            None => None,
        },
        r.content@ == content@,
        r.content_hash@ == text_digest(content@),
{
    let favorite = row.favorite != 0;
    let created = unix_to_mysql(row.created_at.as_str());
    let updated = unix_to_mysql(row.updated_at.as_str());
    let deleted = match &row.deleted_at {
        Some(d) => Some(unix_to_mysql(d.as_str())),
        None => None,
    };
    let content_hash = content_sha256(content.as_str());
    MigratedCard { row, favorite, created, updated, deleted, content, content_hash }
}

/// The folders whose files become file objects, with the kind they get.
pub fn file_object_folders() -> (r: Vec<(String, String)>)
    ensures
        crate::query::pair_texts(r@) == seq![("originals"@, "original"@), ("backups"@, "backup"@)],
{
    let mut r: Vec<(String, String)> = Vec::new();
    r.push((owned("originals"), owned("original")));
    r.push((owned("backups"), owned("backup")));
    assert(crate::query::pair_texts(r@) =~= seq![
        ("originals"@, "original"@),
        ("backups"@, "backup"@),
    ]);
    r
}

/// A stored file object: its identifier (kind and digest), file name
/// (`file` when the path has none) and digest.
pub struct FileObject {
    pub id: String,
    pub name: String,
    pub hash: String,
}

/// Describes a file of kind `kind` with the given name and bytes.
pub fn file_object(kind: &str, file_name: Option<String>, bytes: &[u8]) -> (r: FileObject)
    ensures
        r.id@ == kind@ + "-"@ + lower_hex(sha256_of(bytes@)),
        r.name@ == match file_name {
            Some(f) => f@,
            None => "file"@,
        },
        r.hash@ == lower_hex(sha256_of(bytes@)),
{
    let name = match file_name {
        Some(f) => f,
        None => owned("file"),
    };
    FileObject {
        id: file_object_id(kind, bytes),
        name,
        hash: crate::digest::sha256(bytes),
    }
}

} // verus!
