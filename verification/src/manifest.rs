use vstd::prelude::*;
use vstd::slice::slice_subrange;

use crate::errors::AcquireError;
use crate::hashing::blake2b256;
use crate::hashing::blake2b256_of;
use crate::hexstr::hex_decode_ascii;
use crate::hexstr::hex_decoded_u8;
use crate::hexstr::hex_encode;
use crate::hexstr::hex_of;
use crate::hexstr::is_hex_seq_u8;
use crate::text::spec_trim;
use crate::text::trim_ascii;
use crate::text::utf8_lossy;
use crate::text::utf8_lossy_of;

verus! {

/// One line of a fetched incremental content manifest: a relative file path
/// and the 32-byte content hash of its bytes.
#[derive(Debug)]
pub struct ManifestEntry {
    pub path: String,
    pub hash: Vec<u8>,
}

impl ManifestEntry {
    pub open spec fn wf(&self) -> bool {
        self.hash@.len() == 32
    }

    /// The mathematical content of the entry.
    pub open spec fn model(&self) -> (Seq<u8>, Seq<char>) {
        (self.hash@, self.path@)
    }
}

/// Index of the first occurrence of `x` in `s` (`s.len()` when absent).
pub open spec fn find_byte(s: Seq<u8>, x: u8) -> int
    decreases s.len(),
{
    if s.len() == 0 {
        0
    } else if s[0] == x {
        0
    } else {
        1 + find_byte(s.skip(1), x)
    }
}

proof fn lemma_find_byte_at(s: Seq<u8>, x: u8, k: int)
    requires
        0 <= k <= s.len(),
        forall|t: int| 0 <= t < k ==> s[t] != x,
        k < s.len() ==> s[k] == x,
    ensures
        find_byte(s, x) == if k < s.len() {
            k
        } else {
            s.len() as int
        },
    decreases s.len(),
{
    if s.len() == 0 {
    } else if s[0] == x {
        assert(k == 0);
    } else {
        assert(k >= 1);
        lemma_find_byte_at(s.skip(1), x, k - 1);
        assert(forall|t: int| 0 <= t < k - 1 ==> s.skip(1)[t] == s[t + 1]);
        if k < s.len() {
            assert(s.skip(1)[k - 1] == s[k]);
        }
    }
}

proof fn lemma_find_byte_bounds(s: Seq<u8>, x: u8)
    ensures
        0 <= find_byte(s, x) <= s.len(),
    decreases s.len(),
{
    if s.len() > 0 && s[0] != x {
        lemma_find_byte_bounds(s.skip(1), x);
    }
}

/// The lines of a byte text, split at newline bytes; a trailing newline does
/// not open a final empty line.
pub open spec fn spec_lines(b: Seq<u8>) -> Seq<Seq<u8>>
    decreases b.len(),
    via spec_lines_decreases
{
    if b.len() == 0 {
        Seq::empty()
    } else {
        let k = find_byte(b, 0x0a);
        if k == b.len() {
            seq![b]
        } else {
            seq![b.take(k)] + spec_lines(b.skip(k + 1))
        }
    }
}

#[via_fn]
proof fn spec_lines_decreases(b: Seq<u8>) {
    if b.len() != 0 {
        lemma_find_byte_bounds(b, 0x0a);
    }
}

/// ASCII whitespace as a byte.
pub open spec fn is_space_u8(b: u8) -> bool {
    b == 0x20 || b == 0x09 || b == 0x0d || b == 0x0a
}

/// Index just past the last byte of `s` that is not ASCII whitespace.
pub open spec fn trim_end_u8_idx(s: Seq<u8>) -> int
    decreases s.len(),
{
    if s.len() == 0 {
        0
    } else if is_space_u8(s[s.len() - 1]) {
        trim_end_u8_idx(s.drop_last())
    } else {
        s.len() as int
    }
}

/// `s` with trailing ASCII whitespace removed.
pub open spec fn trim_end_u8(s: Seq<u8>) -> Seq<u8> {
    s.take(trim_end_u8_idx(s))
}

proof fn lemma_trim_end_u8_bounds(s: Seq<u8>)
    ensures
        0 <= trim_end_u8_idx(s) <= s.len(),
        forall|i: int| trim_end_u8_idx(s) <= i < s.len() ==> is_space_u8(#[trigger] s[i]),
        trim_end_u8_idx(s) > 0 ==> !is_space_u8(s[trim_end_u8_idx(s) - 1]),
    decreases s.len(),
{
    if s.len() > 0 && is_space_u8(s[s.len() - 1]) {
        lemma_trim_end_u8_bounds(s.drop_last());
        assert forall|i: int| trim_end_u8_idx(s) <= i < s.len() implies is_space_u8(
            #[trigger] s[i],
        ) by {
            if i < s.len() - 1 {
                assert(s.drop_last()[i] == s[i]);
            }
        }
        if trim_end_u8_idx(s) > 0 {
            assert(s.drop_last()[trim_end_u8_idx(s) - 1] == s[trim_end_u8_idx(s) - 1]);
        }
    }
}

/// The exact first line every supported content manifest starts with.
pub open spec fn header_literal() -> Seq<char> {
    "Robust Content Manifest 1"@
}

/// Whether the first line of the manifest carries the supported format tag.
pub open spec fn header_ok(lines: Seq<Seq<u8>>) -> bool {
    lines.len() > 0 && spec_trim(utf8_lossy_of(lines[0])) == header_literal()
}

/// A body line with nothing but whitespace is skipped.
pub open spec fn line_blank(l: Seq<u8>) -> bool {
    trim_end_u8(l).len() == 0
}

/// What one non-blank body line stands for: a 32-byte hash (64 hex digits up
/// to the first space) and the path after that space. `None` when malformed.
pub open spec fn spec_parse_line(l: Seq<u8>) -> Option<(Seq<u8>, Seq<char>)> {
    let t = trim_end_u8(l);
    let k = find_byte(t, 0x20);
    if k == t.len() {
        None
    } else {
        let hx = t.take(k);
        let pb = t.subrange(k + 1, t.len() as int);
        if is_hex_seq_u8(hx) && hex_decoded_u8(hx).len() == 32 {
            Some((hex_decoded_u8(hx), utf8_lossy_of(pb)))
        } else {
            None
        }
    }
}

/// A manifest is well-formed when its header is the supported tag and every
/// non-blank body line parses.
pub open spec fn manifest_ok(b: Seq<u8>) -> bool {
    let lines = spec_lines(b);
    header_ok(lines) && forall|i: int|
        1 <= i < lines.len() && !line_blank(#[trigger] lines[i]) ==> spec_parse_line(
            lines[i],
        ) is Some
}

/// The entries of body lines `1..n`, in manifest order, blanks skipped.
pub open spec fn entries_upto(lines: Seq<Seq<u8>>, n: int) -> Seq<(Seq<u8>, Seq<char>)>
    decreases n,
{
    if n <= 1 {
        Seq::empty()
    } else {
        let rest = entries_upto(lines, n - 1);
        let l = lines[n - 1];
        if line_blank(l) {
            rest
        } else {
            rest.push(spec_parse_line(l)->0)
        }
    }
}

/// All entries a well-formed manifest stands for.
pub open spec fn manifest_entries(b: Seq<u8>) -> Seq<(Seq<u8>, Seq<char>)> {
    entries_upto(spec_lines(b), spec_lines(b).len() as int)
}

/// Copies `s[lo..hi]` into a fresh vector.
pub(crate) fn sub_vec(s: &[u8], lo: usize, hi: usize) -> (r: Vec<u8>)
    requires
        lo <= hi <= s@.len(),
    ensures
        r@ == s@.subrange(lo as int, hi as int),
{
    let mut out: Vec<u8> = Vec::new();
    let mut i: usize = lo;
    while i < hi
        invariant
            lo <= i <= hi <= s@.len(),
            out@ == s@.subrange(lo as int, i as int),
        decreases hi - i,
    {
        out.push(s[i]);
        assert(s@.subrange(lo as int, i + 1 as int) =~= s@.subrange(lo as int, i as int).push(
            s@[i as int],
        ));
        i += 1;
    }
    out
}

/// Splits a byte text into lines at newline bytes, as `spec_lines` says.
fn split_lines(bytes: &[u8]) -> (r: Vec<Vec<u8>>)
    ensures
        r@.len() == spec_lines(bytes@).len(),
        forall|i: int| 0 <= i < r@.len() ==> #[trigger] r@[i]@ == spec_lines(bytes@)[i],
{
    let n = bytes.len();
    let mut lines: Vec<Vec<u8>> = Vec::new();
    let mut cur: usize = 0;
    proof {
        assert(bytes@.skip(0) =~= bytes@);
    }
    while cur < n
        invariant
            0 <= cur <= n,
            n == bytes@.len(),
            spec_lines(bytes@) =~= lines@.map_values(|v: Vec<u8>| v@) + spec_lines(
                bytes@.skip(cur as int),
            ),
        decreases n - cur,
    {
        let ghost prev_lines = lines@;
        let ghost cur0 = cur as int;
        let mut j = cur;
        while j < n && bytes[j] != 0x0a
            invariant
                cur <= j <= n,
                n == bytes@.len(),
                forall|t: int| cur <= t < j ==> bytes@[t] != 0x0a,
            decreases n - j,
        {
            j += 1;
        }
        let ghost rest = bytes@.skip(cur as int);
        proof {
            lemma_find_byte_at(rest, 0x0a, j - cur);
            assert(forall|t: int| 0 <= t < j - cur ==> rest[t] == bytes@[t + cur]);
            if j < n {
                assert(rest[j - cur] == bytes@[j as int]);
            }
        }
        let seg = sub_vec(bytes, cur, j);
        proof {
            assert(seg@ =~= rest.take(j - cur));
        }
        lines.push(seg);
        proof {
            assert(lines@.map_values(|v: Vec<u8>| v@) =~= prev_lines.map_values(
                |v: Vec<u8>| v@,
            ).push(seg@));
        }
        if j < n {
            cur = j + 1;
            proof {
                assert(rest.skip(j - cur0 + 1) =~= bytes@.skip(cur as int));
            }
        } else {
            cur = n;
            proof {
                assert(rest.take(j - cur0) =~= rest);
                assert(spec_lines(bytes@.skip(n as int)) =~= Seq::<Seq<u8>>::empty());
            }
        }
    }
    proof {
        assert(spec_lines(bytes@.skip(cur as int)) =~= Seq::<Seq<u8>>::empty());
        assert(spec_lines(bytes@) =~= lines@.map_values(|v: Vec<u8>| v@));
    }
    lines
}

/// Removes trailing ASCII whitespace from a byte line.
fn trim_end_ascii(v: &[u8]) -> (r: Vec<u8>)
    ensures
        r@ == trim_end_u8(v@),
{
    let n = v.len();
    let mut hi: usize = n;
    while hi > 0 && (v[hi - 1] == 0x20 || v[hi - 1] == 0x09 || v[hi - 1] == 0x0d || v[hi - 1]
        == 0x0a)
        invariant
            0 <= hi <= n,
            n == v@.len(),
            forall|i: int| hi <= i < n ==> is_space_u8(#[trigger] v@[i]),
        decreases hi,
    {
        hi -= 1;
    }
    proof {
        lemma_trim_end_u8_bounds(v@);
        if hi > 0 {
            assert(trim_end_u8_idx(v@) == hi) by {
                if trim_end_u8_idx(v@) < hi {
                    assert(is_space_u8(v@[hi - 1]));
                }
            }
        } else {
            assert(forall|i: int| 0 <= i < v@.len() ==> is_space_u8(#[trigger] v@[i]));
            if trim_end_u8_idx(v@) > 0 {
                assert(!is_space_u8(v@[trim_end_u8_idx(v@) - 1]));
            }
        }
    }
    sub_vec(v, 0, hi)
}

/// Parses the fetched manifest bytes and computes the manifest-identity hash.
///
/// The identity hash is the BLAKE2b-256 digest of the raw bytes as fetched,
/// independent of how the lines parse, so it is deterministic given identical
/// bytes. Returns the entries in manifest order and the digest in lower-case
/// hex; fails exactly when the header line is not the supported format tag or
/// some non-blank body line is not `<64-hex-digit hash> <path>`.
pub fn parse_manifest_and_hash(bytes: &[u8]) -> (r: Result<
    (Vec<ManifestEntry>, String),
    AcquireError,
>)
    ensures
        r is Ok <==> manifest_ok(bytes@),
        r is Err ==> r->Err_0 is Protocol,
        r is Ok ==> {
            let (entries, digest) = r->Ok_0;
            &&& digest@ == hex_of(blake2b256_of(bytes@))
            &&& entries@.map_values(|e: ManifestEntry| e.model()) == manifest_entries(bytes@)
            &&& forall|i: int| 0 <= i < entries@.len() ==> (#[trigger] entries@[i]).wf()
        },
{
    let lines = split_lines(bytes);
    if lines.len() == 0 {
        assert(!header_ok(spec_lines(bytes@)));
        return Err(
            AcquireError::Protocol { detail: "manifest has no header line".to_owned() },
        );
    }
    let header = utf8_lossy(lines[0].as_slice());
    let trimmed = trim_ascii(header.as_str());
    if !(trimmed == "Robust Content Manifest 1".to_owned()) {
        assert(!header_ok(spec_lines(bytes@)));
        return Err(
            AcquireError::Protocol { detail: "unsupported manifest header".to_owned() },
        );
    }
    assert(header_ok(spec_lines(bytes@)));

    let mut entries: Vec<ManifestEntry> = Vec::new();
    let mut i: usize = 1;
    let n = lines.len();
    while i < n
        invariant
            1 <= i <= n,
            n == lines@.len(),
            n == spec_lines(bytes@).len(),
            forall|k: int| 0 <= k < n ==> #[trigger] lines@[k]@ == spec_lines(bytes@)[k],
            header_ok(spec_lines(bytes@)),
            forall|k: int|
                1 <= k < i && !line_blank(#[trigger] spec_lines(bytes@)[k]) ==> spec_parse_line(
                    spec_lines(bytes@)[k],
                ) is Some,
            entries@.map_values(|e: ManifestEntry| e.model()) =~= entries_upto(
                spec_lines(bytes@),
                i as int,
            ),
            forall|k: int| 0 <= k < entries@.len() ==> (#[trigger] entries@[k]).wf(),
        decreases n - i,
    {
        let ghost prev = entries@;
        let ghost line = spec_lines(bytes@)[i as int];
        let t = trim_end_ascii(lines[i].as_slice());
        if t.len() > 0 {
            let tn = t.len();
            let mut k: usize = 0;
            while k < tn && t[k] != 0x20
                invariant
                    0 <= k <= tn,
                    tn == t@.len(),
                    forall|u: int| 0 <= u < k ==> t@[u] != 0x20,
                decreases tn - k,
            {
                k += 1;
            }
            proof {
                lemma_find_byte_at(t@, 0x20, k as int);
            }
            if k == tn {
                assert(spec_parse_line(line) is None);
                return Err(
                    AcquireError::Protocol { detail: "manifest line has no separator".to_owned() },
                );
            }
            let hash_part = slice_subrange(t.as_slice(), 0, k);
            let path_part = slice_subrange(t.as_slice(), k + 1, tn);
            assert(hash_part@ =~= trim_end_u8(line).take(k as int));
            let hash = match hex_decode_ascii(hash_part) {
                Some(h) => h,
                None => {
                    assert(spec_parse_line(line) is None);
                    return Err(
                        AcquireError::Protocol { detail: "bad hash in manifest line".to_owned() },
                    );
                },
            };
            if hash.len() != 32 {
                assert(spec_parse_line(line) is None);
                return Err(
                    AcquireError::Protocol {
                        detail: "manifest hash is not 32 bytes".to_owned(),
                    },
                );
            }
            let path = utf8_lossy(path_part);
            let entry = ManifestEntry { path, hash };
            assert(spec_parse_line(line) == Some(entry.model()));
            entries.push(entry);
            proof {
                assert(entries@.map_values(|e: ManifestEntry| e.model()) =~= prev.map_values(
                    |e: ManifestEntry| e.model(),
                ).push(spec_parse_line(line)->0));
            }
        } else {
            assert(line_blank(line));
        }
        i += 1;
    }
    let digest = blake2b256(bytes);
    let digest_hex = hex_encode(digest.as_slice());
    assert(manifest_ok(bytes@));
    Ok((entries, digest_hex))
}

} // verus!
