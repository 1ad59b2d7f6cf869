//! Storage-side model: backend configuration, listed entries, and the rules
//! that filter, order and pick entries by the timestamp in their names.

use vstd::prelude::*;
use vstd::multiset::Multiset;
use vstd::seq_lib::{to_multiset_build, to_multiset_insert};
use crate::timestamp::{extract_timestamp_from_filename, filename_timestamp, opt_int};

verus! {

broadcast use {vstd::multiset::group_multiset_axioms, vstd::seq_lib::group_to_multiset_ensures};

/// Credentials that a backend may be configured with.
#[derive(Debug, Clone)]
pub enum StorageCredentials {
    Anonymous,
    Basic { username: String, password: String },
    AccessKey { access_key: String, secret_key: String },
    PrivateKey { username: String, key_path: String, passphrase: Option<String> },
}

/// The kinds of backend a provider can be built on.
#[derive(Debug, Clone, Copy, PartialEq, Eq, Structural)]
pub enum StorageType {
    FileSystem,
    S3,
}

#[derive(Debug, Clone)]
pub struct LocalStorageConfig {
    pub id: String,
    pub name: String,
    pub location: String,
}

#[derive(Debug, Clone)]
pub struct S3StorageConfig {
    pub id: String,
    pub name: String,
    pub region: String,
    pub endpoint: Option<String>,
    pub bucket: String,
    pub access_key: String,
    pub secret_key: String,
    pub location: String,
}

/// Exactly one backend, fixed for the lifetime of a provider.
#[derive(Debug, Clone)]
pub enum StorageConfig {
    Local(LocalStorageConfig),
    S3(S3StorageConfig),
}

impl StorageConfig {
    pub fn storage_type(&self) -> (r: StorageType)
        ensures
            r == (match self {
                StorageConfig::Local(_) => StorageType::FileSystem,
                StorageConfig::S3(_) => StorageType::S3,
            }),
    {
        match self {
            StorageConfig::Local(_) => StorageType::FileSystem,
            StorageConfig::S3(_) => StorageType::S3,
        }
    }
}

/// Options of a listing; an absent field takes its default.
#[derive(Debug, Clone)]
pub struct ListOptions {
    pub latest_only: Option<bool>,
    pub limit: Option<usize>,
}

pub const DEFAULT_LIST_LIMIT: usize = 1000;

pub open spec fn spec_latest_only(o: ListOptions) -> bool {
    match o.latest_only {
        Some(b) => b,
        None => false,
    }
}

impl ListOptions {
    /// The most entries a listing asks the backend for.
    pub fn effective_limit(&self) -> (r: usize)
        ensures
            r == (match self.limit {
                Some(l) => l,
                None => DEFAULT_LIST_LIMIT,
            }),
    {
        match self.limit {
            Some(l) => l,
            None => DEFAULT_LIST_LIMIT,
        }
    }

    /// Whether only the newest entry is wanted.
    pub fn effective_latest_only(&self) -> (r: bool)
        ensures
            r == spec_latest_only(*self),
    {
        match self.latest_only {
            Some(b) => b,
            None => false,
        }
    }
}

#[derive(Debug, Clone)]
pub struct EntryMetadata {
    pub name: String,
    pub is_file: bool,
    pub content_length: u64,
    /// Unix seconds, when the backend reports it.
    pub last_modified: Option<i64>,
}

/// One listed object.
#[derive(Debug, Clone)]
pub struct Entry {
    pub path: String,
    pub metadata: EntryMetadata,
}

#[derive(Debug, Clone, Copy, PartialEq, Eq, Structural)]
pub enum StorageError {
    /// A listing restricted to the newest entry found no file entry.
    NoEntryFound,
    /// The retention cutoff lies before the earliest representable instant.
    CutoffOutOfRange,
    /// The total size of the expired entries does not fit in 64 bits.
    SizeOverflow,
}

/// The instant in an entry's name; `None` ranks below every instant.
pub open spec fn entry_key(e: Entry) -> Option<int> {
    filename_timestamp(e.metadata.name@)
}

/// `a` is strictly newer than `b`, a missing timestamp being the oldest of all.
pub open spec fn key_after(a: Option<int>, b: Option<int>) -> bool {
    match (a, b) {
        (Some(x), Some(y)) => x > y,
        (Some(_), None) => true,
        (None, _) => false,
    }
}

pub open spec fn file_entries(s: Seq<Entry>) -> Seq<Entry> {
    s.filter(|e: Entry| e.metadata.is_file)
}

/// Newest first: no entry is newer than one before it.
pub open spec fn newest_first(s: Seq<Entry>) -> bool {
    forall|i: int, j: int|
        0 <= i < j < s.len() ==> !key_after(entry_key(#[trigger] s[j]), entry_key(#[trigger] s[i]))
}

/// `out` holds exactly the file entries of `s`, newest first.
pub open spec fn is_listing_of(out: Seq<Entry>, s: Seq<Entry>) -> bool {
    &&& out.to_multiset() == file_entries(s).to_multiset()
    &&& newest_first(out)
}

/// `e` is a file entry of `s` and no file entry of `s` is newer.
pub open spec fn is_latest_of(e: Entry, s: Seq<Entry>) -> bool {
    &&& file_entries(s).contains(e)
    &&& forall|k: int|
        0 <= k < file_entries(s).len() ==> !key_after(
            entry_key(#[trigger] file_entries(s)[k]),
            entry_key(e),
        )
}

/// `s` with `x` placed before the first entry that is not newer than `x`.
pub open spec fn insert_by_stamp(x: Entry, s: Seq<Entry>) -> Seq<Entry>
    decreases s.len(),
{
    if s.len() == 0 {
        seq![x]
    } else if key_after(entry_key(s[0]), entry_key(x)) {
        seq![s[0]] + insert_by_stamp(x, s.drop_first())
    } else {
        seq![x] + s
    }
}

/// The file entries of `s`, newest first; entries that are equally new keep
/// the order in which they were listed.
pub open spec fn listing(s: Seq<Entry>) -> Seq<Entry>
    decreases s.len(),
{
    if s.len() == 0 {
        Seq::empty()
    } else if s[0].metadata.is_file {
        insert_by_stamp(s[0], listing(s.drop_first()))
    } else {
        listing(s.drop_first())
    }
}

proof fn lemma_insert_at_first_not_newer(x: Entry, s: Seq<Entry>, p: int)
    requires
        0 <= p <= s.len(),
        forall|q: int| 0 <= q < p ==> key_after(entry_key(#[trigger] s[q]), entry_key(x)),
        p < s.len() ==> !key_after(entry_key(s[p]), entry_key(x)),
    ensures
        s.insert(p, x) == insert_by_stamp(x, s),
    decreases p,
{
    if p == 0 {
        assert(s.insert(0, x) =~= seq![x] + s);
    } else {
        let t = s.drop_first();
        assert forall|q: int| 0 <= q < p - 1 implies key_after(entry_key(#[trigger] t[q]), entry_key(x)) by {
            assert(t[q] == s[q + 1]);
        }
        lemma_insert_at_first_not_newer(x, t, p - 1);
        assert(s.insert(p, x) =~= seq![s[0]] + t.insert(p - 1, x));
    }
}

fn is_newer(a: Option<i64>, b: Option<i64>) -> (r: bool)
    ensures
        r == key_after(opt_int(a), opt_int(b)),
{
    match (a, b) {
        (Some(x), Some(y)) => x > y,
        (Some(_), None) => true,
        (None, _) => false,
    }
}

/// Keeps the file entries and orders them by the timestamp in their names,
/// newest first; entries without a readable timestamp come last.
pub fn order_entries(entries: Vec<Entry>) -> (r: Vec<Entry>)
    ensures
        is_listing_of(r@, entries@),
        r@ == listing(entries@),
{
    let ghost all = entries@;
    let mut rest = entries;
    let mut out: Vec<Entry> = Vec::new();
    let mut keys: Vec<Option<i64>> = Vec::new();
    proof {
        assert(rest@.subrange(0, rest@.len() as int) =~= all);
        assert(all.subrange(rest@.len() as int, all.len() as int) =~= Seq::<Entry>::empty());
        assert(listing(Seq::<Entry>::empty()) == Seq::<Entry>::empty());
        assert(rest@ + Seq::<Entry>::empty() =~= rest@);
        assert(out@.to_multiset() =~= Multiset::<Entry>::empty());
    }
    while rest.len() > 0
        invariant
            all == rest@ + all.subrange(rest@.len() as int, all.len() as int),
            out@.to_multiset().add(file_entries(rest@).to_multiset()) == file_entries(
                all,
            ).to_multiset(),
            newest_first(out@),
            keys@.len() == out@.len(),
            forall|k: int| 0 <= k < keys@.len() ==> opt_int(#[trigger] keys@[k]) == entry_key(out@[k]),
            out@ == listing(all.subrange(rest@.len() as int, all.len() as int)),
        decreases rest.len(),
    {
        let ghost before = rest@;
        let e = rest.pop().unwrap();
        proof {
            assert(before == rest@.push(e));
            rest@.lemma_filter_push(e, |e: Entry| e.metadata.is_file);
            to_multiset_build(file_entries(rest@), e);
            assert(all == rest@ + all.subrange(rest@.len() as int, all.len() as int));
            let suffix = all.subrange(rest@.len() as int, all.len() as int);
            assert(suffix[0] == e);
            assert(suffix.drop_first() =~= all.subrange(rest@.len() as int + 1, all.len() as int));
        }
        if e.metadata.is_file {
            let k = extract_timestamp_from_filename(e.metadata.name.as_str());
            let mut p: usize = 0;
            while p < out.len() && is_newer(keys[p], k)
                invariant
                    p <= out@.len(),
                    keys@.len() == out@.len(),
                    forall|q: int| 0 <= q < keys@.len() ==> opt_int(#[trigger] keys@[q]) == entry_key(out@[q]),
                    forall|q: int| 0 <= q < p ==> key_after(entry_key(#[trigger] out@[q]), opt_int(k)),
                decreases out.len() - p,
            {
                p = p + 1;
            }
            let ghost old_out = out@;
            let ghost old_keys = keys@;
            proof {
                assert forall|q: int| p <= q < old_out.len() implies !key_after(
                    entry_key(#[trigger] old_out[q]),
                    opt_int(k),
                ) by {
                    assert(!key_after(opt_int(keys@[p as int]), opt_int(k)));
                    if q > p {
                        assert(!key_after(entry_key(old_out[q]), entry_key(old_out[p as int])));
                    }
                }
            }
            out.insert(p, e);
            keys.insert(p, k);
            proof {
                lemma_insert_at_first_not_newer(e, old_out, p as int);
                to_multiset_insert(old_out, p as int, e);
                let s = out@;
                assert forall|i: int, j: int| 0 <= i < j < s.len() implies !key_after(
                    entry_key(#[trigger] s[j]),
                    entry_key(#[trigger] s[i]),
                ) by {
                    if j < p {
                    } else if j == p {
                    } else if i < p {
                        assert(s[j] == old_out[j - 1]);
                        assert(!key_after(entry_key(old_out[j - 1]), entry_key(old_out[i])));
                    } else if i == p {
                        assert(s[j] == old_out[j - 1]);
                    } else {
                        assert(s[j] == old_out[j - 1]);
                        assert(s[i] == old_out[i - 1]);
                    }
                }
                assert forall|q: int| 0 <= q < keys@.len() implies opt_int(#[trigger] keys@[q])
                    == entry_key(out@[q]) by {
                    if q < p {
                    } else if q == p {
                    } else {
                        assert(keys@[q] == old_keys[q - 1]);
                    }
                }
            }
        }
    }
    proof {
        assert(rest@ =~= Seq::<Entry>::empty());
        assert(file_entries(rest@) =~= Seq::<Entry>::empty());
        assert(file_entries(rest@).to_multiset() =~= Multiset::<Entry>::empty());
        assert(out@.to_multiset().add(Multiset::<Entry>::empty()) =~= out@.to_multiset());
        assert(all =~= all.subrange(0, all.len() as int));
    }
    out
}

/// The first entry of a newest-first listing is a latest entry.
pub proof fn lemma_head_is_latest(out: Seq<Entry>, s: Seq<Entry>)
    requires
        is_listing_of(out, s),
        out.len() > 0,
    ensures
        is_latest_of(out[0], s),
{
    assert(out.contains(out[0]));
    assert(file_entries(s).to_multiset().count(out[0]) > 0);
    assert forall|k: int| 0 <= k < file_entries(s).len() implies !key_after(
        entry_key(#[trigger] file_entries(s)[k]),
        entry_key(out[0]),
    ) by {
        let e = file_entries(s)[k];
        assert(file_entries(s).contains(e));
        assert(out.to_multiset().count(e) > 0);
        assert(out.contains(e));
        let j = choose|j: int| 0 <= j < out.len() && out[j] == e;
        if j > 0 {
            assert(!key_after(entry_key(out[j]), entry_key(out[0])));
        }
    }
}

/// Some file entry of `s` carries a readable timestamp.
pub open spec fn has_stamped_file(s: Seq<Entry>) -> bool {
    exists|k: int| 0 <= k < file_entries(s).len() && (#[trigger] entry_key(file_entries(s)[k])) is Some
}

/// The entry that a latest-only listing returns: the head of the listing,
/// provided it carries a readable timestamp.
pub open spec fn selected_latest(s: Seq<Entry>) -> Option<Entry> {
    if listing(s).len() > 0 && entry_key(listing(s)[0]) is Some {
        Some(listing(s)[0])
    } else {
        None
    }
}

/// Filters and orders a raw listing as `options` ask. With `latest_only` the
/// result is the single newest file entry, or `NoEntryFound` when no file
/// entry carries a readable timestamp.
pub fn select_entries(entries: Vec<Entry>, options: &ListOptions) -> (r: Result<
    Vec<Entry>,
    StorageError,
>)
    ensures
        !spec_latest_only(*options) ==> (r matches Ok(v) && v@ == listing(entries@) && is_listing_of(
            v@,
            entries@,
        )),
        spec_latest_only(*options) ==> (r matches Err(_) <==> !has_stamped_file(entries@)),
        spec_latest_only(*options) ==> (r matches Err(err) ==> err == StorageError::NoEntryFound),
        spec_latest_only(*options) ==> (r matches Ok(v) ==> selected_latest(entries@) == Some(v@[0])
            && v@.len() == 1 && is_latest_of(v@[0], entries@) && entry_key(v@[0]) is Some),
{
    let ghost all = entries@;
    let mut ordered = order_entries(entries);
    if options.effective_latest_only() {
        if ordered.len() == 0 {
            proof {
                assert(file_entries(all).to_multiset().len() == 0);
            }
            Err(StorageError::NoEntryFound)
        } else {
            proof {
                lemma_head_is_latest(ordered@, all);
            }
            let key = extract_timestamp_from_filename(ordered[0].metadata.name.as_str());
            if key.is_none() {
                proof {
                    assert forall|k: int| 0 <= k < file_entries(all).len() implies (#[trigger] entry_key(
                        file_entries(all)[k],
                    )) is None by {
                        assert(!key_after(entry_key(file_entries(all)[k]), entry_key(ordered@[0])));
                    }
                }
                return Err(StorageError::NoEntryFound);
            }
            proof {
                let k = choose|k: int| 0 <= k < file_entries(all).len() && file_entries(all)[k] == ordered@[0];
                assert(entry_key(file_entries(all)[k]) is Some);
            }
            let head = ordered.remove(0);
            let mut v: Vec<Entry> = Vec::new();
            v.push(head);
            Ok(v)
        }
    } else {
        Ok(ordered)
    }
}

/// An entry whose name carries no readable timestamp is never the one that a
/// latest-only listing returns.
pub proof fn lemma_unstamped_never_latest(s: Seq<Entry>)
    ensures
        selected_latest(s) matches Some(e) ==> entry_key(e) is Some,
{
}

/// The size to report for a listed object. A local backend's listing is not
/// trusted for sizes: the size on disk counts, and 0 when it cannot be read.
/// A remote backend's listing is trusted.
pub fn resolve_content_length(config: &StorageConfig, listed: u64, on_disk: Option<u64>) -> (r: u64)
    ensures
        r == (match config {
            StorageConfig::Local(_) => match on_disk {
                Some(n) => n,
                None => 0,
            },
            StorageConfig::S3(_) => listed,
        }),
{
    match config {
        StorageConfig::Local(_) => match on_disk {
            Some(n) => n,
            None => 0,
        },
        StorageConfig::S3(_) => listed,
    }
}

pub const STREAM_CHUNK_LIMIT: u64 = 512;

/// Chunk size of a ranged read over an object of `file_size` bytes.
pub fn stream_chunk_size(file_size: u64) -> (r: u64)
    ensures
        r == (if file_size > STREAM_CHUNK_LIMIT { STREAM_CHUNK_LIMIT } else { file_size }),
{
    if file_size > STREAM_CHUNK_LIMIT {
        STREAM_CHUNK_LIMIT
    } else {
        file_size
    }
}

} // verus!
