//! The export storage of local runs: it stores nothing and answers a mock
//! download address for every export.
use vstd::prelude::*;
use vstd::string::StringExecFns;
use crate::errors::DomainError;
use crate::sources::{new_ulid, random_uuid, utc_stamp};
use crate::text::joined;

verus! {

/// The start of every mock export address.
pub open spec fn mock_export_prefix() -> Seq<char> {
    "https://metri-mock-exports.s3.amazonaws.com/exports/mock_file_"@
}

/// A mock export address: the prefix, a random UUID, and `.csv`.
pub open spec fn is_mock_export_url(url: Seq<char>) -> bool {
    let p = mock_export_prefix();
    &&& url.len() == p.len() + 36 + 4
    &&& url.take(p.len() as int) == p
    &&& url.skip(p.len() + 36int) == ".csv"@
}

/// Export storage that keeps nothing.
#[derive(Debug)]
pub struct StubExportStorage {}

impl StubExportStorage {
    /// The stub storage.
    pub fn new() -> (r: StubExportStorage) {
        StubExportStorage {  }
    }

    /// Answers a fresh mock address for an export of the tenant's query
    /// result, whatever its columns and rows.
    pub fn generate_presigned_url(&self, tenant_id: &str, query_key: &str) -> (r: Result<String, DomainError>)
        ensures
            r matches Ok(url) && is_mock_export_url(url@),
    {
        let u = random_uuid();
        let mut url = joined("https://metri-mock-exports.s3.amazonaws.com/exports/mock_file_", u.as_str());
        url.append(".csv");
        proof {
            reveal_strlit(".csv");
            let p = mock_export_prefix();
            assert(url@.take(p.len() as int) =~= p);
            assert(url@.skip(p.len() + 36int) =~= ".csv"@);
        }
        Ok(url)
    }
}

/// Where an export is stored: `exports/<tenant>/<query>/<stamp>_<id>.csv`.
pub open spec fn export_key_spec(tenant_id: Seq<char>, query_key: Seq<char>, stamp: Seq<char>, id: Seq<char>) -> Seq<char> {
    "exports/"@ + tenant_id + "/"@ + query_key + "/"@ + stamp + "_"@ + id + ".csv"@
}

/// The object key of an export of `query_key` for `tenant_id`, stamped
/// with `stamp` and identified by `id`.
pub fn export_key(tenant_id: &str, query_key: &str, stamp: &str, id: &str) -> (r: String)
    ensures
        r@ == export_key_spec(tenant_id@, query_key@, stamp@, id@),
{
    let mut key = joined("exports/", tenant_id);
    key.append("/");
    key.append(query_key);
    key.append("/");
    key.append(stamp);
    key.append("_");
    key.append(id);
    key.append(".csv");
    key
}

/// The object key of a new export: stamped with the current UTC time and
/// identified by a fresh ULID; nothing when the clock cannot be read as a
/// date after 1970.
pub fn new_export_key(tenant_id: &str, query_key: &str) -> (r: Option<String>)
    ensures
        r matches Some(k) ==> exists|stamp: Seq<char>, id: Seq<char>|
            id.len() == 26 && k@ == export_key_spec(tenant_id@, query_key@, stamp, id),
{
    match utc_stamp() {
        Some(stamp) => {
            let id = new_ulid();
            Some(export_key(tenant_id, query_key, stamp.as_str(), id.as_str()))
        },
        None => None,
    }
}

} // verus!
