use vstd::prelude::*;

use crate::errors::AcquireError;
use crate::hashing::blake2b256;
use crate::hashing::blake2b256_of;
use crate::hashing::slices_equal;
use crate::hexstr::hex_encode;
use crate::hexstr::hex_of;

verus! {

/// Whether the store holds a blob under the hash `h`.
pub open spec fn store_contains(s: Seq<(Seq<u8>, Seq<u8>)>, h: Seq<u8>) -> bool {
    exists|i: int| 0 <= i < s.len() && s[i].0 == h
}

/// How many blobs the store holds under the hash `h`.
pub open spec fn count_slot(s: Seq<(Seq<u8>, Seq<u8>)>, h: Seq<u8>) -> int
    decreases s.len(),
{
    if s.len() == 0 {
        0
    } else {
        count_slot(s.drop_last(), h) + if s.last().0 == h {
            1int
        } else {
            0int
        }
    }
}

/// The atomic create-and-rename step: the first writer of a hash publishes
/// its bytes; a later writer of the same hash discards its copy silently.
pub open spec fn spec_commit(s: Seq<(Seq<u8>, Seq<u8>)>, h: Seq<u8>, d: Seq<u8>) -> Seq<
    (Seq<u8>, Seq<u8>),
> {
    if store_contains(s, h) {
        s
    } else {
        s.push((h, d))
    }
}

/// One whole blob ingestion: hash the bytes; on a mismatch nothing is
/// published (`false`), else commit as the rename does.
pub open spec fn spec_ingest(s: Seq<(Seq<u8>, Seq<u8>)>, h: Seq<u8>, d: Seq<u8>) -> (
    Seq<(Seq<u8>, Seq<u8>)>,
    bool,
) {
    if blake2b256_of(d) == h {
        (spec_commit(s, h, d), true)
    } else {
        (s, false)
    }
}

/// The content-addressed blob store: immutable byte payloads keyed by their
/// BLAKE2b-256 hash. `temps` counts temporary files not yet renamed into
/// place or removed; outside a call it is zero.
pub struct BlobStore {
    entries: Vec<(Vec<u8>, Vec<u8>)>,
    temps: usize,
}

impl BlobStore {
    /// The mathematical content of the store.
    pub closed spec fn model(&self) -> Seq<(Seq<u8>, Seq<u8>)> {
        self.entries@.map_values(|e: (Vec<u8>, Vec<u8>)| (e.0@, e.1@))
    }

    pub closed spec fn temp_files(&self) -> int {
        self.temps as int
    }

    /// Every blob sits under its own digest, and no hash is stored twice.
    pub closed spec fn wf(&self) -> bool {
        &&& forall|i: int|
            0 <= i < self.model().len() ==> blake2b256_of((#[trigger] self.model()[i]).1)
                == self.model()[i].0
        &&& forall|i: int, j: int|
            0 <= i < j < self.model().len() ==> (#[trigger] self.model()[i]).0 != (
            #[trigger] self.model()[j]).0
    }

    /// An empty store with no leftover temporaries.
    pub fn new() -> (r: BlobStore)
        ensures
            r.model() == Seq::<(Seq<u8>, Seq<u8>)>::empty(),
            r.temp_files() == 0,
            r.wf(),
    {
        let r = BlobStore { entries: Vec::new(), temps: 0 };
        proof {
            assert(r.model() =~= Seq::<(Seq<u8>, Seq<u8>)>::empty());
        }
        r
    }

    /// How many blobs the store holds.
    pub fn len(&self) -> (r: usize)
        ensures
            r == self.model().len(),
    {
        self.entries.len()
    }

    /// How many temporary files are live right now; between calls it is zero.
    pub fn temp_count(&self) -> (r: usize)
        ensures
            r == self.temp_files(),
    {
        self.temps
    }

    /// Whether a blob with hash `h` is already cached.
    pub fn contains(&self, h: &[u8]) -> (r: bool)
        ensures
            r == store_contains(self.model(), h@),
    {
        let n = self.entries.len();
        let mut i: usize = 0;
        while i < n
            invariant
                0 <= i <= n,
                n == self.entries@.len(),
                forall|j: int| 0 <= j < i ==> (#[trigger] self.model()[j]).0 != h@,
            decreases n - i,
        {
            assert(self.model()[i as int].0 == self.entries@[i as int].0@);
            if slices_equal(self.entries[i].0.as_slice(), h) {
                return true;
            }
            i += 1;
        }
        false
    }

    /// The cached bytes under hash `h`, when present.
    pub fn blob_bytes(&self, h: &[u8]) -> (r: Option<&Vec<u8>>)
        ensures
            r is Some <==> store_contains(self.model(), h@),
            r is Some ==> store_contains(self.model(), h@) && self.model().contains(
                (h@, r->0@),
            ),
    {
        let n = self.entries.len();
        let mut i: usize = 0;
        while i < n
            invariant
                0 <= i <= n,
                n == self.entries@.len(),
                forall|j: int| 0 <= j < i ==> (#[trigger] self.model()[j]).0 != h@,
            decreases n - i,
        {
            assert(self.model()[i as int] == (self.entries@[i as int].0@, self.entries@[
                i as int].1@));
            if slices_equal(self.entries[i].0.as_slice(), h) {
                return Some(&self.entries[i].1);
            }
            i += 1;
        }
        None
    }

    /// Takes one downloaded blob through the temporary file and the atomic
    /// rename. The bytes are verified against the expected hash first: on a
    /// mismatch the temporary is removed, the integrity error surfaces, and
    /// the store is untouched. On a match, the first writer publishes the
    /// blob; when a concurrent run already filled the slot, this writer's
    /// copy is discarded silently. Either way no temporary file survives.
    pub fn ingest(&mut self, h: &[u8], data: Vec<u8>) -> (r: Result<(), AcquireError>)
        requires
            old(self).wf(),
        ensures
            final(self).wf(),
            final(self).model() == spec_ingest(old(self).model(), h@, data@).0,
            final(self).temp_files() == old(self).temp_files(),
            r is Ok <==> blake2b256_of(data@) == h@,
            r is Err ==> r->Err_0 is Integrity && final(self).model() == old(self).model(),
    {
        let ghost s0 = self.model();
        let t0 = self.temps;
        self.temps = if t0 < usize::MAX {
            t0 + 1
        } else {
            t0
        };
        let digest = blake2b256(data.as_slice());
        if !slices_equal(digest.as_slice(), h) {
            let expected = hex_encode(h);
            let actual = hex_encode(digest.as_slice());
            self.temps = t0;
            assert(self.model() == s0);
            return Err(AcquireError::Integrity { expected, actual });
        }
        if !self.contains(h) {
            let mut key: Vec<u8> = Vec::new();
            let mut i: usize = 0;
            while i < h.len()
                invariant
                    0 <= i <= h@.len(),
                    key@ == h@.subrange(0, i as int),
                decreases h@.len() - i,
            {
                key.push(h[i]);
                assert(h@.subrange(0, i + 1 as int) =~= h@.subrange(0, i as int).push(
                    h@[i as int],
                ));
                i += 1;
            }
            assert(key@ =~= h@);
            let ghost pre = self.model();
            self.entries.push((key, data));
            proof {
                assert(self.model() =~= pre.push((h@, spec_ingest(s0, h@, data@).0.last().1)));
                assert(self.model() =~= s0.push((h@, data@)));
            }
        }
        self.temps = t0;
        Ok(())
    }
}

proof fn lemma_count_absent(s: Seq<(Seq<u8>, Seq<u8>)>, h: Seq<u8>)
    requires
        !store_contains(s, h),
    ensures
        count_slot(s, h) == 0,
    decreases s.len(),
{
    if s.len() > 0 {
        assert(!store_contains(s.drop_last(), h)) by {
            if store_contains(s.drop_last(), h) {
                let i = choose|i: int| 0 <= i < s.drop_last().len() && s.drop_last()[i].0 == h;
                assert(s[i].0 == h);
            }
        }
        lemma_count_absent(s.drop_last(), h);
    }
}

/// Two workers racing to populate the same cache slot: whichever commit lands
/// first publishes its (hash-valid) bytes, the second is discarded, and the
/// slot ends up holding exactly one blob.
pub proof fn lemma_cache_slot_race(
    s: Seq<(Seq<u8>, Seq<u8>)>,
    h: Seq<u8>,
    d1: Seq<u8>,
    d2: Seq<u8>,
)
    requires
        blake2b256_of(d1) == h,
        blake2b256_of(d2) == h,
        !store_contains(s, h),
    ensures
        spec_ingest(spec_ingest(s, h, d1).0, h, d2).0 == s.push((h, d1)),
        count_slot(spec_ingest(spec_ingest(s, h, d1).0, h, d2).0, h) == 1,
{
    let s1 = spec_ingest(s, h, d1).0;
    assert(s1 == s.push((h, d1)));
    assert(store_contains(s1, h)) by {
        assert(s1[s.len() as int].0 == h);
    }
    assert(spec_ingest(s1, h, d2).0 == s1);
    lemma_count_absent(s, h);
    assert(s1.drop_last() =~= s);
    assert(count_slot(s1, h) == 1);
}

/// A corrupted blob — any bytes whose digest is not the expected hash — is
/// rejected and never becomes visible in the cache.
pub proof fn lemma_corrupt_blob_rejected(s: Seq<(Seq<u8>, Seq<u8>)>, h: Seq<u8>, d: Seq<u8>)
    requires
        blake2b256_of(d) != h,
    ensures
        spec_ingest(s, h, d).0 == s,
        !spec_ingest(s, h, d).1,
{
}

/// The deterministic cache path of a blob, relative to the blob-cache root:
/// a short hex fan-out directory named by the hash's first byte, then the
/// full hash in hex with the `.blob` suffix.
pub fn blob_cache_rel_path(hash: &[u8]) -> (r: String)
    requires
        hash@.len() == 32,
    ensures
        r@ == hex_of(hash@.take(1)) + "/"@ + hex_of(hash@) + ".blob"@,
{
    let prefix = hex_encode(vstd::slice::slice_subrange(hash, 0, 1));
    let full = hex_encode(hash);
    let mut out = prefix;
    out.append("/");
    out.append(full.as_str());
    out.append(".blob");
    out
}

} // verus!
