//! The read-path cache of query results: the key of a tenant's generation
//! counter, the figures written with an entry, and when a stored entry may
//! still be served.
//!
//! Writes bump the tenant's generation; an entry remembers the generation
//! in force when it was written, and an entry of an older generation is not
//! served. Entries written before generations were tracked, or of tenants
//! without a counter yet, are governed by their logical expiry alone: an
//! entry whose expiry is behind the clock is a miss, whether or not the
//! store has removed it yet.
use vstd::prelude::*;
use crate::text::joined;

verus! {

/// Seconds between an entry's logical expiry and its physical removal.
pub const PHYSICAL_TTL_GRACE_SECS: i64 = 3600;

/// The key of a tenant's generation counter.
pub open spec fn generation_key_spec(tenant_id: Seq<char>) -> Seq<char> {
    "GEN#QC#"@ + tenant_id
}

/// The key of a tenant's generation counter: `GEN#QC#<tenant>`.
pub fn generation_key(tenant_id: &str) -> (r: String)
    ensures
        r@ == generation_key_spec(tenant_id@),
{
    joined("GEN#QC#", tenant_id)
}

/// A stored entry may be served unless both its generation and the tenant's
/// current one are known and differ.
pub open spec fn is_current(entry_generation: Option<u64>, current_generation: Option<u64>) -> bool {
    match (entry_generation, current_generation) {
        (Some(e), Some(c)) => e == c,
        _ => true,
    }
}

/// Whether a stored entry of generation `entry_generation` may be served
/// while the tenant's generation is `current_generation`.
pub fn entry_is_current(entry_generation: Option<u64>, current_generation: Option<u64>) -> (r: bool)
    ensures
        r == is_current(entry_generation, current_generation),
{
    match (entry_generation, current_generation) {
        (Some(e), Some(c)) => e == c,
        _ => true,
    }
}

/// Whether a read serves the entry it found: never once its logical
/// expiry `expires_at` is behind the clock `now` (both in seconds); else,
/// without generation tracking, always, and with it, when the entry is
/// current.
pub open spec fn served_on_read(
    tracking: bool,
    entry_generation: Option<u64>,
    current_generation: Option<u64>,
    expires_at: i64,
    now: i64,
) -> bool {
    now <= expires_at && (!tracking || is_current(entry_generation, current_generation))
}

/// Whether a read at time `now` serves a stored entry that expires at
/// `expires_at` and was written under generation `entry_generation`, the
/// tenant's generation being `current_generation` and generations being
/// tracked or not.
pub fn serve_on_read(
    tracking: bool,
    entry_generation: Option<u64>,
    current_generation: Option<u64>,
    expires_at: i64,
    now: i64,
) -> (r: bool)
    ensures
        r == served_on_read(tracking, entry_generation, current_generation, expires_at, now),
{
    now <= expires_at && (!tracking || entry_is_current(entry_generation, current_generation))
}

/// An entry is a miss once its logical expiry is behind the clock, whatever
/// its generation.
pub proof fn lemma_expired_entry_is_miss(
    tracking: bool,
    entry_generation: Option<u64>,
    current_generation: Option<u64>,
    expires_at: i64,
    now: i64,
)
    requires
        expires_at < now,
    ensures
        !served_on_read(tracking, entry_generation, current_generation, expires_at, now),
{
}

/// The figures written with an entry.
#[derive(Debug)]
pub struct CacheWrite {
    /// Logical expiry, in seconds.
    pub expires_at: i64,
    /// When the store may remove the item, in seconds.
    pub physical_ttl: i64,
    /// When the entry was written, in milliseconds.
    pub written_at_ms: i64,
    /// The tenant's generation when the entry was written, if tracked.
    pub generation: Option<u64>,
}

/// The figures of an entry written at `now` for `ttl_secs` seconds.
pub fn plan_put(now: i64, ttl_secs: u64, generation: Option<u64>) -> (r: CacheWrite)
    requires
        -10_000_000_000_000 <= now <= 10_000_000_000_000,
        ttl_secs <= 9_000_000_000_000_000_000,
    ensures
        r.expires_at == now + ttl_secs,
        r.physical_ttl == now + ttl_secs + PHYSICAL_TTL_GRACE_SECS,
        r.written_at_ms == now * 1000,
        r.generation == generation,
{
    let expires_at = now + ttl_secs as i64;
    CacheWrite {
        expires_at,
        physical_ttl: expires_at + PHYSICAL_TTL_GRACE_SECS,
        written_at_ms: now * 1000,
        generation,
    }
}

/// A write that bumps the tenant's generation hides every entry written
/// before it: an entry of the old generation is no longer current.
pub proof fn lemma_bump_hides_older_entries(written_under: u64, bumped_to: u64)
    requires
        bumped_to != written_under,
    ensures
        !is_current(Some(written_under), Some(bumped_to)),
        is_current(Some(bumped_to), Some(bumped_to)),
{
}

} // verus!
