//! Small pieces of the configuration surface that are policy rather than
//! plumbing: the query issued per table, the default table list, and the
//! trimming of a credential read from a file.

use vstd::prelude::*;
use vstd::string::{StrSliceExecFns, StringExecFns};

verus! {

/// The query issued for one source table: the four columns the pipeline
/// reads, from the named table.
pub fn select_query(table: &str) -> (q: String)
    ensures
        q@ == "SELECT ID, post_date, post_content, post_title from "@ + table@,
{
    let q = String::from_str("SELECT ID, post_date, post_content, post_title from ");
    q.concat(table)
}

/// The two source tables migrated by default: the primary posts table and
/// the secondary news-posts table, in that order.
pub fn default_tables() -> (r: Vec<String>)
    ensures
        r@.len() == 2,
        r@[0]@ == "wp_posts"@,
        r@[1]@ == "wpnews_posts"@,
{
    let mut r: Vec<String> = Vec::new();
    r.push(String::from_str("wp_posts"));
    r.push(String::from_str("wpnews_posts"));
    r
}

/// How the destination store is to be opened for the batch: the knobs the
/// loader requires of a write-heavy bulk load.
pub struct StoreTuning {
    /// Create the store if none exists at the path.
    pub create_if_missing: bool,
    /// Create missing top-level structures inside the store.
    pub create_missing_column_families: bool,
    /// Background parallelism for the bulk load.
    pub parallelism: i32,
    /// Block-cache size, in megabytes, tuned for point lookups over range
    /// scans.
    pub point_lookup_cache_mb: u64,
    /// Batch durability syncs by this many bytes rather than per write.
    pub bytes_per_sync: u64,
    /// Compress stored values.
    pub compress_values: bool,
}

/// The tuning the loader requires: auto-creation on open, point-lookup
/// bias, compressed values, and durability syncing batched by a one
/// mebibyte threshold.
pub fn bulk_load_tuning() -> (t: StoreTuning)
    ensures
        t.create_if_missing,
        t.create_missing_column_families,
        t.parallelism == 4,
        t.point_lookup_cache_mb == 1024,
        t.bytes_per_sync == 1048576,
        t.compress_values,
{
    StoreTuning {
        create_if_missing: true,
        create_missing_column_families: true,
        parallelism: 4,
        point_lookup_cache_mb: 1024,
        bytes_per_sync: 1048576,
        compress_values: true,
    }
}

/// Strip one trailing newline from a credential, leaving anything else as
/// it stands.
pub fn strip_trailing_newline(p: String) -> (r: String)
    ensures
        p@.len() > 0 && p@.last() == '\n' ==> r@ == p@.drop_last(),
        !(p@.len() > 0 && p@.last() == '\n') ==> r@ == p@,
{
    let n: usize = p.as_str().unicode_len();
    if n > 0 && p.as_str().get_char(n - 1) == '\n' {
        let trimmed = p.as_str().substring_char(0, n - 1);
        let r = String::from_str(trimmed);
        proof {
            assert(r@ =~= p@.drop_last());
        }
        r
    } else {
        p
    }
}

} // verus!
