use vstd::prelude::*;

use crate::hashing::slices_equal;
use crate::manifest::ManifestEntry;

verus! {

/// The hashes of a run of manifest entries, in manifest order.
pub open spec fn hashes_of(entries: Seq<ManifestEntry>) -> Seq<Seq<u8>> {
    entries.map_values(|e: ManifestEntry| e.hash@)
}

/// The paths of a run of manifest entries, in manifest order.
pub open spec fn paths_of(entries: Seq<ManifestEntry>) -> Seq<Seq<char>> {
    entries.map_values(|e: ManifestEntry| e.path@)
}

/// Entry `i` is the first manifest line carrying its hash.
pub open spec fn first_occurrence(hs: Seq<Seq<u8>>, i: int) -> bool {
    forall|j: int| 0 <= j < i ==> hs[j] != hs[i]
}

/// The deduplicated download schedule over the first `n` entries: one
/// `(manifest index, hash)` pair per distinct hash, at its first occurrence,
/// in manifest order. The index is what the binary download protocol
/// addresses.
pub open spec fn unique_upto(hs: Seq<Seq<u8>>, n: int) -> Seq<(int, Seq<u8>)>
    decreases n,
{
    if n <= 0 {
        Seq::empty()
    } else {
        let rest = unique_upto(hs, n - 1);
        if first_occurrence(hs, n - 1) {
            rest.push((n - 1, hs[n - 1]))
        } else {
            rest
        }
    }
}

/// How many scheduled downloads carry the hash `h`.
pub open spec fn count_hash(u: Seq<(int, Seq<u8>)>, h: Seq<u8>) -> int
    decreases u.len(),
{
    if u.len() == 0 {
        0
    } else {
        count_hash(u.drop_last(), h) + if u.last().1 == h {
            1int
        } else {
            0int
        }
    }
}

/// One scheduled blob download: the manifest index the server addresses it
/// by, and the content hash the downloaded bytes must carry.
#[derive(Debug)]
pub struct UniqueBlob {
    pub index: u32,
    pub hash: Vec<u8>,
}

impl UniqueBlob {
    pub open spec fn model(&self) -> (int, Seq<u8>) {
        (self.index as int, self.hash@)
    }
}

/// Deduplicates manifest entries by hash: one download per distinct hash, at
/// its first occurrence, in manifest order.
pub fn dedup_entries(entries: &Vec<ManifestEntry>) -> (r: Vec<UniqueBlob>)
    requires
        entries@.len() < 0x8000_0000,
    ensures
        r@.map_values(|u: UniqueBlob| u.model()) == unique_upto(
            hashes_of(entries@),
            entries@.len() as int,
        ),
{
    let ghost hs = hashes_of(entries@);
    let n = entries.len();
    let mut out: Vec<UniqueBlob> = Vec::new();
    let mut i: usize = 0;
    while i < n
        invariant
            0 <= i <= n,
            n == entries@.len() < 0x8000_0000,
            hs == hashes_of(entries@),
            out@.map_values(|u: UniqueBlob| u.model()) =~= unique_upto(hs, i as int),
        decreases n - i,
    {
        let ghost prev = out@;
        let mut seen = false;
        let mut j: usize = 0;
        while j < i
            invariant
                0 <= j <= i < n,
                n == entries@.len(),
                hs == hashes_of(entries@),
                seen <==> exists|t: int| 0 <= t < j && hs[t] == hs[i as int],
            decreases i - j,
        {
            assert(hs[j as int] == entries@[j as int].hash@);
            assert(hs[i as int] == entries@[i as int].hash@);
            if slices_equal(entries[j].hash.as_slice(), entries[i].hash.as_slice()) {
                seen = true;
            }
            j += 1;
        }
        if !seen {
            assert(first_occurrence(hs, i as int));
            out.push(UniqueBlob { index: i as u32, hash: entries[i].hash.clone() });
            proof {
                assert(out@.map_values(|u: UniqueBlob| u.model()) =~= prev.map_values(
                    |u: UniqueBlob| u.model(),
                ).push((i as int, hs[i as int])));
            }
        } else {
            assert(!first_occurrence(hs, i as int));
        }
        i += 1;
    }
    out
}

proof fn lemma_count_unique(hs: Seq<Seq<u8>>, h: Seq<u8>, n: int)
    requires
        0 <= n <= hs.len(),
    ensures
        count_hash(unique_upto(hs, n), h) == if exists|t: int| 0 <= t < n && hs[t] == h {
            1int
        } else {
            0int
        },
    decreases n,
{
    if n > 0 {
        lemma_count_unique(hs, h, n - 1);
        let rest = unique_upto(hs, n - 1);
        if first_occurrence(hs, n - 1) {
            assert(unique_upto(hs, n).drop_last() == rest);
            if hs[n - 1] == h {
                assert(!(exists|t: int| 0 <= t < n - 1 && hs[t] == h));
            }
        }
    }
}

/// Deduplication schedules exactly one download for a shared hash: however
/// many manifest entries carry the same hash, the download schedule holds it
/// once.
pub proof fn lemma_one_download_per_hash(hs: Seq<Seq<u8>>, i: int)
    requires
        0 <= i < hs.len(),
    ensures
        count_hash(unique_upto(hs, hs.len() as int), hs[i]) == 1,
{
    lemma_count_unique(hs, hs[i], hs.len() as int);
}

/// The indices of scheduled blobs (prefix of length `n`) that the cache does
/// not yet hold; only these are downloaded.
pub open spec fn missing_upto(u: Seq<(int, Seq<u8>)>, present: Seq<bool>, n: int) -> Seq<int>
    decreases n,
{
    if n <= 0 {
        Seq::empty()
    } else {
        let rest = missing_upto(u, present, n - 1);
        if !present[n - 1] {
            rest.push(u[n - 1].0)
        } else {
            rest
        }
    }
}

/// Keeps the manifest indices of the scheduled blobs that are not already in
/// the cache; `present[k]` says whether the cache holds the bytes of
/// `unique[k]`.
pub fn missing_indices(unique: &Vec<UniqueBlob>, present: &Vec<bool>) -> (r: Vec<u32>)
    requires
        unique@.len() == present@.len(),
    ensures
        r@.map_values(|x: u32| x as int) == missing_upto(
            unique@.map_values(|u: UniqueBlob| u.model()),
            present@,
            unique@.len() as int,
        ),
{
    let ghost um = unique@.map_values(|u: UniqueBlob| u.model());
    let n = unique.len();
    let mut out: Vec<u32> = Vec::new();
    let mut k: usize = 0;
    while k < n
        invariant
            0 <= k <= n,
            n == unique@.len() == present@.len(),
            um == unique@.map_values(|u: UniqueBlob| u.model()),
            out@.map_values(|x: u32| x as int) =~= missing_upto(um, present@, k as int),
        decreases n - k,
    {
        let ghost prev = out@;
        if !present[k] {
            out.push(unique[k].index);
            proof {
                assert(out@.map_values(|x: u32| x as int) =~= prev.map_values(
                    |x: u32| x as int,
                ).push(um[k as int].0));
            }
        }
        k += 1;
    }
    out
}

/// The group of zip entries written from one cached blob: every manifest
/// entry (among the first `m`) whose hash is `h`, in manifest order.
pub open spec fn group_upto(hs: Seq<Seq<u8>>, ps: Seq<Seq<char>>, h: Seq<u8>, m: int) -> Seq<
    (Seq<char>, Seq<u8>),
>
    decreases m,
{
    if m <= 0 {
        Seq::empty()
    } else {
        let rest = group_upto(hs, ps, h, m - 1);
        if hs[m - 1] == h {
            rest.push((ps[m - 1], hs[m - 1]))
        } else {
            rest
        }
    }
}

/// The overlay-zip write plan over the first `n` entries: distinct hashes in
/// manifest order; under each hash, one zip entry per manifest path that
/// shares it.
pub open spec fn plan_upto(hs: Seq<Seq<u8>>, ps: Seq<Seq<char>>, n: int) -> Seq<
    (Seq<char>, Seq<u8>),
>
    decreases n,
{
    if n <= 0 {
        Seq::empty()
    } else {
        let rest = plan_upto(hs, ps, n - 1);
        if first_occurrence(hs, n - 1) {
            rest + group_upto(hs, ps, hs[n - 1], hs.len() as int)
        } else {
            rest
        }
    }
}

/// One zip entry to assemble: the path to write and the hash of the cached
/// blob whose bytes fill it.
#[derive(Debug)]
pub struct ZipPlanItem {
    pub path: String,
    pub hash: Vec<u8>,
}

impl ZipPlanItem {
    pub open spec fn model(&self) -> (Seq<char>, Seq<u8>) {
        (self.path@, self.hash@)
    }
}

/// Lays out the overlay zip: each cached blob is opened once (distinct hashes
/// in manifest order) and written to every path that shares it.
pub fn build_zip_plan(entries: &Vec<ManifestEntry>) -> (r: Vec<ZipPlanItem>)
    ensures
        r@.map_values(|z: ZipPlanItem| z.model()) == plan_upto(
            hashes_of(entries@),
            paths_of(entries@),
            entries@.len() as int,
        ),
{
    let ghost hs = hashes_of(entries@);
    let ghost ps = paths_of(entries@);
    let n = entries.len();
    let mut out: Vec<ZipPlanItem> = Vec::new();
    let mut i: usize = 0;
    while i < n
        invariant
            0 <= i <= n,
            n == entries@.len(),
            hs == hashes_of(entries@),
            ps == paths_of(entries@),
            out@.map_values(|z: ZipPlanItem| z.model()) =~= plan_upto(hs, ps, i as int),
        decreases n - i,
    {
        let mut seen = false;
        let mut j: usize = 0;
        while j < i
            invariant
                0 <= j <= i < n,
                n == entries@.len(),
                hs == hashes_of(entries@),
                seen <==> exists|t: int| 0 <= t < j && hs[t] == hs[i as int],
            decreases i - j,
        {
            assert(hs[j as int] == entries@[j as int].hash@);
            assert(hs[i as int] == entries@[i as int].hash@);
            if slices_equal(entries[j].hash.as_slice(), entries[i].hash.as_slice()) {
                seen = true;
            }
            j += 1;
        }
        if !seen {
            assert(first_occurrence(hs, i as int));
            let mut m: usize = 0;
            while m < n
                invariant
                    0 <= m <= n,
                    0 <= i < n,
                    n == entries@.len(),
                    hs == hashes_of(entries@),
                    ps == paths_of(entries@),
                    first_occurrence(hs, i as int),
                    out@.map_values(|z: ZipPlanItem| z.model()) =~= plan_upto(hs, ps, i as int)
                        + group_upto(hs, ps, hs[i as int], m as int),
                decreases n - m,
            {
                let ghost prev = out@;
                if slices_equal(entries[m].hash.as_slice(), entries[i].hash.as_slice()) {
                    out.push(
                        ZipPlanItem {
                            path: entries[m].path.clone(),
                            hash: entries[m].hash.clone(),
                        },
                    );
                    proof {
                        assert(out@.map_values(|z: ZipPlanItem| z.model()) =~= prev.map_values(
                            |z: ZipPlanItem| z.model(),
                        ).push((ps[m as int], hs[m as int])));
                    }
                }
                m += 1;
            }
        } else {
            assert(!first_occurrence(hs, i as int));
        }
        i += 1;
    }
    out
}

proof fn lemma_first_occurrence_exists(hs: Seq<Seq<u8>>, j: int)
    requires
        0 <= j < hs.len(),
    ensures
        exists|f: int|
            0 <= f <= j && hs[f] == hs[j] && #[trigger] first_occurrence(hs, f),
    decreases j,
{
    if first_occurrence(hs, j) {
        assert(0 <= j <= j && hs[j] == hs[j] && first_occurrence(hs, j));
    } else {
        let w = choose|w: int| 0 <= w < j && hs[w] == hs[j];
        lemma_first_occurrence_exists(hs, w);
        let f = choose|f: int|
            0 <= f <= w && hs[f] == hs[w] && #[trigger] first_occurrence(hs, f);
        assert(0 <= f <= j && hs[f] == hs[j] && first_occurrence(hs, f));
    }
}

proof fn lemma_group_contains(hs: Seq<Seq<u8>>, ps: Seq<Seq<char>>, j: int, m: int)
    requires
        0 <= j < m <= hs.len(),
    ensures
        group_upto(hs, ps, hs[j], m).contains((ps[j], hs[j])),
    decreases m,
{
    if m - 1 == j {
        assert(group_upto(hs, ps, hs[j], m).last() == (ps[j], hs[j]));
    } else {
        lemma_group_contains(hs, ps, j, m - 1);
        let rest = group_upto(hs, ps, hs[j], m - 1);
        let w = choose|w: int| 0 <= w < rest.len() && rest[w] == (ps[j], hs[j]);
        assert(group_upto(hs, ps, hs[j], m)[w] == (ps[j], hs[j]));
    }
}

proof fn lemma_plan_contains_group(
    hs: Seq<Seq<u8>>,
    ps: Seq<Seq<char>>,
    f: int,
    n: int,
    x: (Seq<char>, Seq<u8>),
)
    requires
        0 <= f < n <= hs.len(),
        first_occurrence(hs, f),
        group_upto(hs, ps, hs[f], hs.len() as int).contains(x),
    ensures
        plan_upto(hs, ps, n).contains(x),
    decreases n,
{
    if f == n - 1 {
        let g = group_upto(hs, ps, hs[f], hs.len() as int);
        let w = choose|w: int| 0 <= w < g.len() && g[w] == x;
        assert(plan_upto(hs, ps, n)[plan_upto(hs, ps, n - 1).len() + w] == x);
    } else {
        lemma_plan_contains_group(hs, ps, f, n - 1, x);
        let rest = plan_upto(hs, ps, n - 1);
        let w = choose|w: int| 0 <= w < rest.len() && rest[w] == x;
        if first_occurrence(hs, n - 1) {
            assert(plan_upto(hs, ps, n)[w] == x);
        }
    }
}

/// Deduplication loses no file: the assembled zip plan holds an entry for
/// every manifest path, filled from the blob of that path's own hash.
pub proof fn lemma_plan_covers_every_path(hs: Seq<Seq<u8>>, ps: Seq<Seq<char>>, j: int)
    requires
        0 <= j < hs.len(),
        ps.len() == hs.len(),
    ensures
        plan_upto(hs, ps, hs.len() as int).contains((ps[j], hs[j])),
{
    lemma_first_occurrence_exists(hs, j);
    let f = choose|f: int|
        0 <= f <= j && hs[f] == hs[j] && #[trigger] first_occurrence(hs, f);
    lemma_group_contains(hs, ps, j, hs.len() as int);
    lemma_plan_contains_group(hs, ps, f, hs.len() as int, (ps[j], hs[j]));
}

} // verus!
