use vstd::prelude::*;
use vstd::slice::slice_subrange;

use crate::errors::AcquireError;
use crate::hashing::blake2b256;
use crate::hashing::blake2b256_of;
use crate::hashing::slices_equal;
use crate::hexstr::hex_encode;

verus! {

/// Default number of download worker threads.
pub const DEFAULT_DOWNLOAD_CONCURRENCY: usize = 8;

/// Bounds between which the automatic batch size is clamped.
pub const MIN_BATCH_SIZE: usize = 64;

pub const MAX_BATCH_SIZE: usize = 4096;

/// `n / d` rounded up.
pub open spec fn spec_div_ceil(n: int, d: int) -> int
    recommends
        d > 0,
{
    n / d + if n % d > 0 {
        1int
    } else {
        0int
    }
}

/// The worker count used for a download of `missing` blobs: the requested
/// override when given, else the default, never more than the number of blobs
/// and never less than one.
pub open spec fn spec_concurrency(requested: Option<usize>, missing: int) -> int {
    let base = if requested is Some {
        requested->0 as int
    } else {
        DEFAULT_DOWNLOAD_CONCURRENCY as int
    };
    let cap = if missing >= 1 {
        missing
    } else {
        1int
    };
    let limited = if base <= cap {
        base
    } else {
        cap
    };
    if limited >= 1 {
        limited
    } else {
        1int
    }
}

/// Picks the worker count, as `spec_concurrency` says.
pub fn compute_concurrency(requested: Option<usize>, missing: usize) -> (r: usize)
    ensures
        r as int == spec_concurrency(requested, missing as int),
        r >= 1,
{
    let base = match requested {
        Some(v) => v,
        None => DEFAULT_DOWNLOAD_CONCURRENCY,
    };
    let cap = if missing >= 1 {
        missing
    } else {
        1
    };
    let limited = if base <= cap {
        base
    } else {
        cap
    };
    if limited >= 1 {
        limited
    } else {
        1
    }
}

/// The batch size used for a download of `missing` blobs with `concurrency`
/// workers: the override when given, else sized so that each worker gets
/// roughly four batches, clamped to `[MIN_BATCH_SIZE, MAX_BATCH_SIZE]`.
pub open spec fn spec_batch_size(
    missing: int,
    concurrency: int,
    override_size: Option<usize>,
) -> int {
    if override_size is Some {
        override_size->0 as int
    } else {
        let target = if 4 * concurrency >= 1 {
            4 * concurrency
        } else {
            1int
        };
        let computed = spec_div_ceil(missing, target);
        if computed < MIN_BATCH_SIZE as int {
            MIN_BATCH_SIZE as int
        } else if computed > MAX_BATCH_SIZE as int {
            MAX_BATCH_SIZE as int
        } else {
            computed
        }
    }
}

/// Picks the batch size, as `spec_batch_size` says.
pub fn compute_batch_size(
    missing: usize,
    concurrency: usize,
    override_size: Option<usize>,
) -> (r: usize)
    requires
        concurrency >= 1,
        concurrency <= 0x1000_0000,
        override_size is Some ==> override_size->0 >= 1,
    ensures
        r as int == spec_batch_size(missing as int, concurrency as int, override_size),
        r >= 1,
{
    match override_size {
        Some(v) => v,
        None => {
            let target = 4 * concurrency;
            let q = missing / target;
            if q >= MAX_BATCH_SIZE {
                MAX_BATCH_SIZE
            } else {
                let computed = q + if missing % target > 0 {
                    1
                } else {
                    0
                };
                if computed < MIN_BATCH_SIZE {
                    MIN_BATCH_SIZE
                } else if computed > MAX_BATCH_SIZE {
                    MAX_BATCH_SIZE
                } else {
                    computed
                }
            }
        },
    }
}

/// Cuts the missing indices into consecutive batches of `size` (the last one
/// possibly shorter), in order.
pub fn partition_batches(indices: &Vec<u32>, size: usize) -> (r: Vec<Vec<u32>>)
    requires
        size >= 1,
    ensures
        r@.len() == spec_div_ceil(indices@.len() as int, size as int),
        forall|k: int|
            0 <= k < r@.len() ==> #[trigger] r@[k]@ == indices@.subrange(
                k * size,
                if (k + 1) * size <= indices@.len() {
                    (k + 1) * size
                } else {
                    indices@.len() as int
                },
            ),
{
    let n = indices.len();
    let mut out: Vec<Vec<u32>> = Vec::new();
    let mut cur: usize = 0;
    proof {
        assert(out@.len() * size == 0) by (nonlinear_arith)
            requires
                out@.len() == 0,
        {}
    }
    while cur < n
        invariant
            0 <= cur <= n,
            n == indices@.len(),
            size >= 1,
            cur == out@.len() * size || cur == n,
            cur <= out@.len() * size,
            out@.len() * size < cur + size,
            forall|k: int|
                0 <= k < out@.len() ==> #[trigger] out@[k]@ == indices@.subrange(
                    k * size,
                    if (k + 1) * size <= n {
                        (k + 1) * size
                    } else {
                        n as int
                    },
                ),
        decreases n - cur,
    {
        assert(cur == out@.len() * size);
        let end = if n - cur >= size {
            cur + size
        } else {
            n
        };
        let mut batch: Vec<u32> = Vec::new();
        let mut i: usize = cur;
        while i < end
            invariant
                cur <= i <= end <= n,
                n == indices@.len(),
                batch@ == indices@.subrange(cur as int, i as int),
            decreases end - i,
        {
            batch.push(indices[i]);
            assert(indices@.subrange(cur as int, i + 1 as int) =~= indices@.subrange(
                cur as int,
                i as int,
            ).push(indices@[i as int]));
            i += 1;
        }
        let ghost prev_len = out@.len() as int;
        out.push(batch);
        proof {
            assert(out@.len() * size == prev_len * size + size) by (nonlinear_arith)
                requires
                    out@.len() == prev_len + 1,
            {}
            assert(out@[prev_len]@ == indices@.subrange(cur as int, end as int));
            assert forall|k: int|
                0 <= k < out@.len() implies #[trigger] out@[k]@ == indices@.subrange(
                k * size,
                if (k + 1) * size <= n {
                    (k + 1) * size
                } else {
                    n as int
                },
            ) by {
                if k == prev_len {
                    assert(k * size == cur);
                    assert((k + 1) * size == cur + size);
                }
            }
        }
        cur = end;
    }
    proof {
        let b = out@.len() as int;
        let q = n as int / size as int;
        let rem = n as int % size as int;
        assert(n as int == q * size + rem && 0 <= rem < size) by (nonlinear_arith)
            requires
                size >= 1,
                q == n as int / size as int,
                rem == n as int % size as int,
        {}
        if b * size == n as int {
            assert(b == q && rem == 0) by (nonlinear_arith)
                requires
                    size >= 1,
                    n as int == q * size + rem,
                    0 <= rem < size,
                    b * size == n as int,
                    b >= 0,
            {}
        } else {
            assert(cur == n && cur <= b * size && b * size < cur + size);
            assert(b == q + 1 && rem > 0) by (nonlinear_arith)
                requires
                    size >= 1,
                    n as int == q * size + rem,
                    0 <= rem < size,
                    n as int <= b * size,
                    b * size < n as int + size,
                    b * size != n as int,
                    b >= 0,
            {}
        }
    }
    out
}

/// The little-endian bytes of one 32-bit value.
pub open spec fn le32_bytes(v: int) -> Seq<u8> {
    seq![
        (v % 256) as u8,
        ((v / 256) % 256) as u8,
        ((v / 65536) % 256) as u8,
        ((v / 16777216) % 256) as u8,
    ]
}

/// The request body of one batch download: the manifest indices as
/// consecutive little-endian 32-bit integers.
pub open spec fn spec_batch_request(indices: Seq<u32>, n: int) -> Seq<u8>
    decreases n,
{
    if n <= 0 {
        Seq::empty()
    } else {
        spec_batch_request(indices, n - 1) + le32_bytes(indices[n - 1] as int)
    }
}

/// Encodes a batch of manifest indices for the POST body.
pub fn encode_batch_request(indices: &Vec<u32>) -> (r: Vec<u8>)
    ensures
        r@ == spec_batch_request(indices@, indices@.len() as int),
        r@.len() == 4 * indices@.len(),
{
    let n = indices.len();
    let mut out: Vec<u8> = Vec::new();
    let mut i: usize = 0;
    while i < n
        invariant
            0 <= i <= n,
            n == indices@.len(),
            out@ =~= spec_batch_request(indices@, i as int),
            out@.len() == 4 * i,
        decreases n - i,
    {
        let v = indices[i];
        let ghost prev = out@;
        out.push((v % 256) as u8);
        out.push(((v / 256) % 256) as u8);
        out.push(((v / 65536) % 256) as u8);
        out.push(((v / 16777216) % 256) as u8);
        proof {
            assert(out@ =~= prev + le32_bytes(v as int));
        }
        i += 1;
    }
    out
}

/// What `zstd::stream::decode_all` yields on a byte sequence: the decompressed
/// bytes, or nothing when the input is not a well-formed zstd stream. The
/// outcome is a function of the input bytes alone.
pub uninterp spec fn zstd_inflate_of(b: Seq<u8>) -> Option<Seq<u8>>;

/// Relies on `zstd::stream::decode_all`: decompresses a whole zstd stream,
/// failing exactly on malformed input.
#[verifier::external_body]
fn zstd_decompress(b: &[u8]) -> (r: Option<Vec<u8>>)
    ensures
        r is Some <==> zstd_inflate_of(b@) is Some,
        r is Some ==> r->0@ == zstd_inflate_of(b@)->0,
{
    zstd::stream::decode_all(b).ok()
}

/// The unsigned value of the four little-endian bytes at `off`.
pub open spec fn spec_read_u32le(b: Seq<u8>, off: int) -> int
    recommends
        0 <= off,
        off + 4 <= b.len(),
{
    b[off] + 0x100 * b[off + 1] + 0x10000 * b[off + 2] + 0x1000000 * b[off + 3]
}

fn read_u32le(b: &[u8], off: usize) -> (r: u32)
    requires
        off + 4 <= b@.len(),
    ensures
        r as int == spec_read_u32le(b@, off as int),
{
    (b[off] as u32) + 0x100 * (b[off + 1] as u32) + 0x10000 * (b[off + 2] as u32) + 0x1000000 * (
    b[off + 3] as u32)
}

/// The blobs encoded in a batch response from `off` on, for `count` requested
/// indices. Per index: a 32-bit uncompressed length; when `pre` (bit 0 of the
/// flags word), a 32-bit compressed length follows — zero meaning the blob is
/// stored raw — and then the compressed bytes, else the raw bytes directly.
/// `None` when the stream is too short or a compressed blob does not inflate
/// to at least the declared length.
pub open spec fn spec_blobs(b: Seq<u8>, off: int, count: int, pre: bool) -> Option<Seq<Seq<u8>>>
    decreases count,
{
    if count <= 0 {
        Some(Seq::empty())
    } else if off + 4 > b.len() {
        None
    } else {
        let len = spec_read_u32le(b, off);
        if !pre {
            if off + 4 + len > b.len() {
                None
            } else {
                match spec_blobs(b, off + 4 + len, count - 1, pre) {
                    Some(rest) => Some(seq![b.subrange(off + 4, off + 4 + len)] + rest),
                    None => None,
                }
            }
        } else {
            if off + 8 > b.len() {
                None
            } else {
                let clen = spec_read_u32le(b, off + 4);
                if clen == 0 {
                    if off + 8 + len > b.len() {
                        None
                    } else {
                        match spec_blobs(b, off + 8 + len, count - 1, pre) {
                            Some(rest) => Some(
                                seq![b.subrange(off + 8, off + 8 + len)] + rest,
                            ),
                            None => None,
                        }
                    }
                } else {
                    if off + 8 + clen > b.len() {
                        None
                    } else {
                        match zstd_inflate_of(b.subrange(off + 8, off + 8 + clen)) {
                            Some(d) => {
                                if d.len() < len {
                                    None
                                } else {
                                    match spec_blobs(b, off + 8 + clen, count - 1, pre) {
                                        Some(rest) => Some(seq![d.take(len)] + rest),
                                        None => None,
                                    }
                                }
                            },
                            None => None,
                        }
                    }
                }
            }
        }
    }
}

/// The whole decoded batch response: the "individually pre-compressed" flag
/// and the per-index blobs.
pub open spec fn spec_payload(b: Seq<u8>, count: int) -> Option<(bool, Seq<Seq<u8>>)> {
    if b.len() < 4 {
        None
    } else {
        let pre = spec_read_u32le(b, 0) % 2 == 1;
        match spec_blobs(b, 4, count, pre) {
            Some(blobs) => Some((pre, blobs)),
            None => None,
        }
    }
}

/// Decodes one batch response and verifies every blob against the content
/// hash the manifest gives for its index. Succeeds exactly when the framing
/// is well-formed and every decoded blob carries its expected digest; a blob
/// whose digest differs is an integrity error and nothing is returned for the
/// batch.
pub fn process_batch_payload(body: &[u8], hashes: &Vec<Vec<u8>>) -> (r: Result<
    Vec<Vec<u8>>,
    AcquireError,
>)
    ensures
        spec_payload(body@, hashes@.len() as int) is None ==> r is Err,
        spec_payload(body@, hashes@.len() as int) matches Some((pre, blobs)) ==> {
            &&& (r is Ok <==> forall|k: int|
                0 <= k < blobs.len() ==> blake2b256_of(#[trigger] blobs[k]) == hashes@[k]@)
            &&& (r is Ok ==> r->Ok_0@.map_values(|v: Vec<u8>| v@) == blobs)
            &&& (r is Err ==> r->Err_0 is Integrity)
        },
{
    let count = hashes.len();
    if body.len() < 4 {
        return Err(AcquireError::Protocol { detail: "short download stream".to_owned() });
    }
    let flags = read_u32le(body, 0);
    let pre = flags % 2 == 1;
    let ghost gb = body@;
    let mut out: Vec<Vec<u8>> = Vec::new();
    let mut off: usize = 4;
    let mut k: usize = 0;
    while k < count
        invariant
            0 <= k <= count,
            count == hashes@.len(),
            4 <= off <= gb.len(),
            gb == body@,
            pre == (spec_read_u32le(gb, 0) % 2 == 1),
            gb.len() >= 4,
            out@.len() == k,
            spec_blobs(gb, 4, count as int, pre) == (match spec_blobs(
                gb,
                off as int,
                count - k,
                pre,
            ) {
                Some(rest) => Some(out@.map_values(|v: Vec<u8>| v@) + rest),
                None => None,
            }),
            forall|t: int|
                0 <= t < k ==> blake2b256_of(#[trigger] out@[t]@) == hashes@[t]@,
        decreases count - k,
    {
        let ghost out0 = out@.map_values(|v: Vec<u8>| v@);
        if body.len() - off < 4 {
            assert(spec_blobs(gb, off as int, count - k, pre) is None);
            return Err(AcquireError::Protocol { detail: "short download stream".to_owned() });
        }
        let len32 = read_u32le(body, off);
        let len = len32 as usize;
        let data: Vec<u8>;
        let next_off: usize;
        if !pre {
            if body.len() - (off + 4) < len {
                assert(spec_blobs(gb, off as int, count - k, pre) is None);
                return Err(
                    AcquireError::Protocol { detail: "short download stream".to_owned() },
                );
            }
            data = crate::manifest::sub_vec(body, off + 4, off + 4 + len);
            next_off = off + 4 + len;
        } else {
            if body.len() - off < 8 {
                assert(spec_blobs(gb, off as int, count - k, pre) is None);
                return Err(
                    AcquireError::Protocol { detail: "short download stream".to_owned() },
                );
            }
            let clen32 = read_u32le(body, off + 4);
            let clen = clen32 as usize;
            if clen == 0 {
                if body.len() - (off + 8) < len {
                    assert(spec_blobs(gb, off as int, count - k, pre) is None);
                    return Err(
                        AcquireError::Protocol { detail: "short download stream".to_owned() },
                    );
                }
                data = crate::manifest::sub_vec(body, off + 8, off + 8 + len);
                next_off = off + 8 + len;
            } else {
                if body.len() - (off + 8) < clen {
                    assert(spec_blobs(gb, off as int, count - k, pre) is None);
                    return Err(
                        AcquireError::Protocol { detail: "short download stream".to_owned() },
                    );
                }
                let compressed = slice_subrange(body, off + 8, off + 8 + clen);
                let inflated = match zstd_decompress(compressed) {
                    Some(d) => d,
                    None => {
                        assert(spec_blobs(gb, off as int, count - k, pre) is None);
                        return Err(
                            AcquireError::Protocol {
                                detail: "bad zstd stream in blob download".to_owned(),
                            },
                        );
                    },
                };
                if inflated.len() < len {
                    assert(spec_blobs(gb, off as int, count - k, pre) is None);
                    return Err(
                        AcquireError::Protocol {
                            detail: "blob shorter than declared length".to_owned(),
                        },
                    );
                }
                data = crate::manifest::sub_vec(inflated.as_slice(), 0, len);
                proof {
                    assert(data@ =~= zstd_inflate_of(
                        gb.subrange(off + 8, off + 8 + clen as int),
                    )->0.take(len as int));
                }
                next_off = off + 8 + clen;
            }
        }
        proof {
            assert(spec_blobs(gb, off as int, (count - k) as int, pre) == (
            match spec_blobs(gb, next_off as int, (count - k - 1) as int, pre) {
                Some(rest2) => Some(seq![data@] + rest2),
                None => None,
            }));
        }
        let digest = blake2b256(data.as_slice());
        if !slices_equal(digest.as_slice(), hashes[k].as_slice()) {
            let expected = hex_encode(hashes[k].as_slice());
            let actual = hex_encode(digest.as_slice());
            proof {
                if spec_payload(gb, count as int) is Some {
                    let blobs = (spec_payload(gb, count as int)->0).1;
                    assert(spec_blobs(gb, 4, count as int, pre) == Some(blobs));
                    assert(spec_blobs(gb, off as int, (count - k) as int, pre) is Some);
                    let rest = spec_blobs(gb, off as int, (count - k) as int, pre)->0;
                    assert(blobs == out@.map_values(|v: Vec<u8>| v@) + rest);
                    assert(rest[0] == data@);
                    assert(blobs[k as int] == data@);
                    assert(blake2b256_of(blobs[k as int]) != hashes@[k as int]@);
                }
            }
            return Err(AcquireError::Integrity { expected, actual });
        }
        out.push(data);
        proof {
            assert(out@.map_values(|v: Vec<u8>| v@) =~= out0.push(
                out@[out@.len() - 1]@,
            ));
            if spec_blobs(gb, next_off as int, count - (k + 1), pre) is Some {
                let rest2 = spec_blobs(gb, next_off as int, count - (k + 1), pre)->0;
                assert(out0 + (seq![out@[out@.len() - 1]@] + rest2) =~= out@.map_values(
                    |v: Vec<u8>| v@,
                ) + rest2);
            }
        }
        off = next_off;
        k += 1;
    }
    proof {
        assert(spec_blobs(gb, off as int, 0, pre) == Some(Seq::<Seq<u8>>::empty()));
        let m = out@.map_values(|v: Vec<u8>| v@);
        assert(m + Seq::<Seq<u8>>::empty() =~= m);
        assert(spec_blobs(gb, 4, count as int, pre) == Some(m));
        assert(spec_payload(gb, count as int) == Some((pre, m)));
        assert forall|t: int| 0 <= t < m.len() implies blake2b256_of(#[trigger] m[t])
            == hashes@[t]@ by {
            assert(m[t] == out@[t]@);
        }
    }
    Ok(out)
}

} // verus!
