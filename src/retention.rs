//! Retention: which entries a cleanup removes, and what it reports.

use vstd::prelude::*;
use crate::storage::{Entry, StorageError, entry_key};

verus! {

pub const SECONDS_PER_DAY: u64 = 86400;

/// Stamped before the cutoff; an entry without a readable timestamp never is.
pub open spec fn is_expired(e: Entry, cutoff: int) -> bool {
    match entry_key(e) {
        Some(t) => t < cutoff,
        None => false,
    }
}

pub open spec fn expired_entries(s: Seq<Entry>, cutoff: int) -> Seq<Entry> {
    s.filter(|e: Entry| is_expired(e, cutoff))
}

pub open spec fn total_length(s: Seq<Entry>) -> int
    decreases s.len(),
{
    if s.len() == 0 {
        0
    } else {
        total_length(s.drop_last()) + s.last().metadata.content_length
    }
}

pub open spec fn paths_of(s: Seq<Entry>) -> Seq<Seq<char>> {
    s.map_values(|e: Entry| e.path@)
}

pub open spec fn string_views(v: Seq<String>) -> Seq<Seq<char>> {
    v.map_values(|s: String| s@)
}

/// What a cleanup over `s` reports and removes: the number of expired
/// entries, their total size, and the paths it deletes (none on a dry run).
pub open spec fn cleanup_outcome(s: Seq<Entry>, cutoff: int, dry_run: bool) -> (int, int, Seq<Seq<char>>) {
    let expired = expired_entries(s, cutoff);
    (
        expired.len() as int,
        total_length(expired),
        if dry_run { Seq::empty() } else { paths_of(expired) },
    )
}

/// The outcome of a cleanup decision, before any deletion is made.
pub struct CleanupPlan {
    pub deleted_count: usize,
    pub deleted_bytes: u64,
    /// Paths to delete, in listing order.
    pub to_delete: Vec<String>,
}

pub open spec fn plan_view(p: CleanupPlan) -> (int, int, Seq<Seq<char>>) {
    (p.deleted_count as int, p.deleted_bytes as int, string_views(p.to_delete@))
}

/// `now - retention_days` days, in Unix seconds.
pub fn retention_cutoff(now: i64, retention_days: u64) -> (r: Result<i64, StorageError>)
    ensures
        match r {
            Ok(c) => c as int == now - retention_days * 86400,
            Err(e) => e == StorageError::CutoffOutOfRange && now - retention_days * 86400 < i64::MIN,
        },
{
    assert(retention_days as int * 86400 <= 18446744073709551615int * 86400) by (nonlinear_arith)
        requires
            retention_days <= u64::MAX,
    ;
    let span: i128 = retention_days as i128 * (SECONDS_PER_DAY as i128);
    let c: i128 = now as i128 - span;
    if c < i64::MIN as i128 {
        Err(StorageError::CutoffOutOfRange)
    } else {
        Ok(c as i64)
    }
}

proof fn lemma_total_length_append(a: Seq<Entry>, b: Seq<Entry>)
    ensures
        total_length(a + b) == total_length(a) + total_length(b),
    decreases b.len(),
{
    if b.len() > 0 {
        assert((a + b).drop_last() =~= a + b.drop_last());
        lemma_total_length_append(a, b.drop_last());
    } else {
        assert(a + b =~= a);
    }
}

proof fn lemma_total_length_nonneg(s: Seq<Entry>)
    ensures
        total_length(s) >= 0,
    decreases s.len(),
{
    if s.len() > 0 {
        lemma_total_length_nonneg(s.drop_last());
    }
}

/// Decides a cleanup over a listing: every entry stamped before `cutoff` is
/// counted and, unless `dry_run`, scheduled for deletion. Entries without a
/// readable timestamp are left alone. Fails only when the total size of the
/// expired entries does not fit in 64 bits.
pub fn plan_cleanup(entries: &Vec<Entry>, cutoff: i64, dry_run: bool) -> (r: Result<CleanupPlan, StorageError>)
    ensures
        r matches Err(_) <==> total_length(expired_entries(entries@, cutoff as int)) > u64::MAX,
        r matches Err(e) ==> e == StorageError::SizeOverflow,
        r matches Ok(p) ==> plan_view(p) == cleanup_outcome(entries@, cutoff as int, dry_run),
{
    let ghost s = entries@;
    let ghost c = cutoff as int;
    let mut count: usize = 0;
    let mut bytes: u64 = 0;
    let mut to_delete: Vec<String> = Vec::new();
    let mut i: usize = 0;
    proof {
        assert(s.subrange(0, 0) =~= Seq::<Entry>::empty());
        assert(expired_entries(Seq::<Entry>::empty(), c) =~= Seq::<Entry>::empty());
        assert(string_views(to_delete@) =~= Seq::<Seq<char>>::empty());
        assert(paths_of(Seq::<Entry>::empty()) =~= Seq::<Seq<char>>::empty());
    }
    while i < entries.len()
        invariant
            s == entries@,
            c == cutoff as int,
            i <= s.len(),
            count as int == expired_entries(s.subrange(0, i as int), c).len(),
            bytes as int == total_length(expired_entries(s.subrange(0, i as int), c)),
            string_views(to_delete@) == (if dry_run {
                Seq::<Seq<char>>::empty()
            } else {
                paths_of(expired_entries(s.subrange(0, i as int), c))
            }),
        decreases s.len() - i,
    {
        let e = &entries[i];
        let ghost pre = s.subrange(0, i as int);
        proof {
            assert(s.subrange(0, i + 1) =~= pre.push(s[i as int]));
            pre.lemma_filter_push(s[i as int], |e: Entry| is_expired(e, c));
            expired_entries(pre, c).lemma_filter_len(|e: Entry| is_expired(e, c));
        }
        let expired = match extract_key(e) {
            Some(t) => t < cutoff,
            None => false,
        };
        if expired {
            let ghost ex = expired_entries(pre, c);
            assert(ex.push(s[i as int]).drop_last() =~= ex);
            let next = bytes.checked_add(e.metadata.content_length);
            match next {
                None => {
                    proof {
                        let rest = s.subrange(i + 1, s.len() as int);
                        assert(s =~= s.subrange(0, i + 1) + rest);
                        Seq::filter_distributes_over_add(
                            s.subrange(0, i + 1),
                            rest,
                            |e: Entry| is_expired(e, c),
                        );
                        lemma_total_length_append(ex.push(s[i as int]), expired_entries(rest, c));
                        lemma_total_length_nonneg(expired_entries(rest, c));
                    }
                    return Err(StorageError::SizeOverflow);
                },
                Some(b) => {
                    bytes = b;
                },
            }
            count = count + 1;
            if !dry_run {
                let p = e.path.clone();
                let ghost before = to_delete@;
                to_delete.push(p);
                proof {
                    assert(string_views(before.push(p)) =~= string_views(before).push(p@));
                    assert(paths_of(ex.push(s[i as int])) =~= paths_of(ex).push(s[i as int].path@));
                    assert(string_views(to_delete@) =~= paths_of(ex.push(s[i as int])));
                }
            }
        }
        i = i + 1;
    }
    proof {
        assert(s.subrange(0, s.len() as int) =~= s);
    }
    Ok(CleanupPlan { deleted_count: count, deleted_bytes: bytes, to_delete })
}

fn extract_key(e: &Entry) -> (r: Option<i64>)
    ensures
        crate::timestamp::opt_int(r) == entry_key(*e),
{
    crate::timestamp::extract_timestamp_from_filename(e.metadata.name.as_str())
}

/// A dry run reports the same count and total size as a real run over the
/// same listing, and deletes nothing.
pub proof fn lemma_dry_run_reports_like_real_run(s: Seq<Entry>, cutoff: int)
    ensures
        cleanup_outcome(s, cutoff, true).0 == cleanup_outcome(s, cutoff, false).0,
        cleanup_outcome(s, cutoff, true).1 == cleanup_outcome(s, cutoff, false).1,
        cleanup_outcome(s, cutoff, true).2.len() == 0,
{
}

/// A cleanup never deletes an entry whose name carries no readable timestamp,
/// whatever the cutoff.
pub proof fn lemma_unstamped_never_expired(s: Seq<Entry>, cutoff: int, e: Entry)
    requires
        entry_key(e) is None,
    ensures
        !expired_entries(s, cutoff).contains(e),
{
    if expired_entries(s, cutoff).contains(e) {
        s.lemma_filter_contains_rev(|x: Entry| is_expired(x, cutoff), e);
    }
}

} // verus!
