use blake2::digest::{Update, VariableOutput};
use blake2::Blake2bVar;

use sgloader_core::cache::BlobStore;
use sgloader_core::errors::AcquireError;
use sgloader_core::manifest::parse_manifest_and_hash;
use sgloader_core::scheduler::WorkQueue;
use sgloader_core::sync_plan::{build_zip_plan, dedup_entries, missing_indices};
use sgloader_core::wire::{
    compute_batch_size, compute_concurrency, encode_batch_request, partition_batches,
    process_batch_payload,
};
use sgloader_core::cancel::CancelFlag;
use sgloader_core::protocol_supported;

fn blake2b256_hex(data: &[u8]) -> String {
    let mut hasher = Blake2bVar::new(32).unwrap();
    hasher.update(data);
    let mut out = [0u8; 32];
    hasher.finalize_variable(&mut out).unwrap();
    hex_of(&out)
}

fn blake2b256_raw(data: &[u8]) -> Vec<u8> {
    let mut hasher = Blake2bVar::new(32).unwrap();
    hasher.update(data);
    let mut out = [0u8; 32];
    hasher.finalize_variable(&mut out).unwrap();
    out.to_vec()
}

fn hex_of(bytes: &[u8]) -> String {
    let mut s = String::new();
    for b in bytes {
        s.push_str(&format!("{:02x}", b));
    }
    s
}

fn manifest_bytes(lines: &[String]) -> Vec<u8> {
    let mut text = String::from("Robust Content Manifest 1\n");
    for l in lines {
        text.push_str(l);
        text.push('\n');
    }
    text.into_bytes()
}

#[test]
fn manifest_parses_and_hashes_raw_bytes() {
    let d1 = b"first blob".to_vec();
    let h1 = blake2b256_hex(&d1);
    let line = format!("{} a.txt", h1);
    let bytes = manifest_bytes(&[line]);

    let (entries, digest) = parse_manifest_and_hash(&bytes).unwrap();
    assert_eq!(entries.len(), 1);
    assert_eq!(entries[0].path, "a.txt");
    assert_eq!(hex_of(&entries[0].hash), h1);
    // The manifest-identity hash is the digest of the raw bytes, not of the
    // parsed entries.
    assert_eq!(digest, blake2b256_hex(&bytes));
}

#[test]
fn manifest_hash_deterministic_for_identical_bytes() {
    let d1 = b"payload".to_vec();
    let line = format!("{} x/y.txt", blake2b256_hex(&d1));
    let bytes = manifest_bytes(&[line]);
    let (_, digest_a) = parse_manifest_and_hash(&bytes).unwrap();
    let (_, digest_b) = parse_manifest_and_hash(&bytes.clone()).unwrap();
    assert_eq!(digest_a, digest_b);
}

#[test]
fn manifest_rejects_bad_header() {
    let bytes = b"Some Other Manifest 9\naaaa bbbb\n".to_vec();
    let err = parse_manifest_and_hash(&bytes).unwrap_err();
    assert!(matches!(err, AcquireError::Protocol { .. }));
}

#[test]
fn manifest_rejects_line_without_separator() {
    let bytes = manifest_bytes(&[format!("{}", blake2b256_hex(b"z"))]);
    let err = parse_manifest_and_hash(&bytes).unwrap_err();
    assert!(matches!(err, AcquireError::Protocol { .. }));
}

#[test]
fn manifest_rejects_short_hash() {
    let bytes = manifest_bytes(&["abcd file.txt".to_string()]);
    let err = parse_manifest_and_hash(&bytes).unwrap_err();
    assert!(matches!(err, AcquireError::Protocol { .. }));
}

#[test]
fn manifest_rejects_non_hex_hash() {
    let mut bad = String::new();
    for _ in 0..64 {
        bad.push('g');
    }
    let bytes = manifest_bytes(&[format!("{} file.txt", bad)]);
    assert!(parse_manifest_and_hash(&bytes).is_err());
}

#[test]
fn manifest_skips_blank_lines_and_accepts_crlf() {
    let d1 = b"blob".to_vec();
    let h1 = blake2b256_hex(&d1);
    let text = format!("Robust Content Manifest 1\r\n\r\n{} a.txt\r\n", h1);
    let (entries, _) = parse_manifest_and_hash(text.as_bytes()).unwrap();
    assert_eq!(entries.len(), 1);
    assert_eq!(entries[0].path, "a.txt");
}

#[test]
fn empty_manifest_is_rejected() {
    assert!(parse_manifest_and_hash(b"").is_err());
}

/// The dedup/zip-plan scenario: three entries, two sharing a hash; the cache
/// already holds the other blob. Exactly one download (manifest index 0) is
/// scheduled, and the assembled zip has three entries with the two shared
/// paths byte-identical.
#[test]
fn dedup_scenario_single_batch_and_full_zip() {
    let d1 = b"shared blob contents".to_vec();
    let d2 = b"other blob".to_vec();
    let h1 = blake2b256_hex(&d1);
    let h2 = blake2b256_hex(&d2);
    let bytes = manifest_bytes(&[
        format!("{} a.txt", h1),
        format!("{} b.txt", h1),
        format!("{} c.txt", h2),
    ]);
    let (entries, _) = parse_manifest_and_hash(&bytes).unwrap();

    let unique = dedup_entries(&entries);
    assert_eq!(unique.len(), 2);
    assert_eq!(unique[0].index, 0);
    assert_eq!(hex_of(&unique[0].hash), h1);
    assert_eq!(unique[1].index, 2);

    // The cache holds H2 but not H1.
    let mut store = BlobStore::new();
    store.ingest(&blake2b256_raw(&d2), d2.clone()).unwrap();
    let present: Vec<bool> = unique
        .iter()
        .map(|u| store.contains(&u.hash))
        .collect();
    let missing = missing_indices(&unique, &present);
    assert_eq!(missing, vec![0u32]);

    // One batch, requesting exactly index 0.
    let batches = partition_batches(&missing, 64);
    assert_eq!(batches.len(), 1);
    assert_eq!(batches[0], vec![0u32]);
    assert_eq!(encode_batch_request(&batches[0]), vec![0u8, 0, 0, 0]);

    // Serve the batch: flags = 0, then the blob with its length.
    let mut body = vec![0u8, 0, 0, 0];
    body.extend_from_slice(&(d1.len() as u32).to_le_bytes());
    body.extend_from_slice(&d1);
    let hashes = vec![entries[0].hash.clone()];
    let blobs = process_batch_payload(&body, &hashes).unwrap();
    assert_eq!(blobs, vec![d1.clone()]);
    store.ingest(&entries[0].hash, blobs[0].clone()).unwrap();

    // The zip plan covers every path; the shared blob is written twice.
    let plan = build_zip_plan(&entries);
    let paths: Vec<&str> = plan.iter().map(|z| z.path.as_str()).collect();
    assert_eq!(paths, vec!["a.txt", "b.txt", "c.txt"]);
    let a_bytes = store.blob_bytes(&plan[0].hash).unwrap().clone();
    let b_bytes = store.blob_bytes(&plan[1].hash).unwrap().clone();
    assert_eq!(a_bytes, b_bytes);
    assert_eq!(a_bytes, d1);
    let c_bytes = store.blob_bytes(&plan[2].hash).unwrap().clone();
    assert_eq!(c_bytes, d2);
}

#[test]
fn payload_with_precompressed_blob_is_inflated_and_verified() {
    let data = b"a blob that zstd makes smaller aaaaaaaaaaaaaaaaaaaaaaaaaaaa".to_vec();
    let compressed = zstd::stream::encode_all(&data[..], 3).unwrap();
    let mut body = vec![1u8, 0, 0, 0]; // flags bit 0: individually pre-compressed
    body.extend_from_slice(&(data.len() as u32).to_le_bytes());
    body.extend_from_slice(&(compressed.len() as u32).to_le_bytes());
    body.extend_from_slice(&compressed);
    let hashes = vec![blake2b256_raw(&data)];
    let blobs = process_batch_payload(&body, &hashes).unwrap();
    assert_eq!(blobs, vec![data]);
}

#[test]
fn payload_precompressed_zero_clen_means_raw_bytes() {
    let data = b"raw".to_vec();
    let mut body = vec![1u8, 0, 0, 0];
    body.extend_from_slice(&(data.len() as u32).to_le_bytes());
    body.extend_from_slice(&0u32.to_le_bytes());
    body.extend_from_slice(&data);
    let hashes = vec![blake2b256_raw(&data)];
    let blobs = process_batch_payload(&body, &hashes).unwrap();
    assert_eq!(blobs, vec![data]);
}

#[test]
fn corrupted_payload_blob_is_an_integrity_error() {
    let data = b"correct bytes".to_vec();
    let mut corrupted = data.clone();
    corrupted[0] ^= 1;
    let mut body = vec![0u8, 0, 0, 0];
    body.extend_from_slice(&(corrupted.len() as u32).to_le_bytes());
    body.extend_from_slice(&corrupted);
    let hashes = vec![blake2b256_raw(&data)];
    let err = process_batch_payload(&body, &hashes).unwrap_err();
    assert!(matches!(err, AcquireError::Integrity { .. }));
}

#[test]
fn truncated_payload_is_a_protocol_error() {
    let body = vec![0u8, 0, 0, 0, 200, 0, 0, 0, 1, 2, 3];
    let hashes = vec![blake2b256_raw(b"whatever")];
    let err = process_batch_payload(&body, &hashes).unwrap_err();
    assert!(matches!(err, AcquireError::Protocol { .. }));
}

/// Corrupting one byte of a downloaded blob must surface an integrity error
/// and must not leave the blob visible in the cache.
#[test]
fn corrupted_blob_never_becomes_visible() {
    let data = b"good blob".to_vec();
    let hash = blake2b256_raw(&data);
    let mut corrupted = data.clone();
    corrupted[3] ^= 0x40;

    let mut store = BlobStore::new();
    let err = store.ingest(&hash, corrupted).unwrap_err();
    assert!(matches!(err, AcquireError::Integrity { .. }));
    assert!(err.is_integrity());
    assert!(!err.is_cancelled());
    assert!(!store.contains(&hash));
    assert!(store.blob_bytes(&hash).is_none());
    assert_eq!(store.len(), 0);
    assert_eq!(store.temp_count(), 0);
}

/// Two writers racing to populate the same cache slot leave exactly one
/// valid blob and no temporary files.
#[test]
fn racing_writers_leave_one_blob_and_no_temps() {
    let data = b"the blob both workers fetched".to_vec();
    let hash = blake2b256_raw(&data);

    let mut store = BlobStore::new();
    store.ingest(&hash, data.clone()).unwrap();
    // The second (losing) writer commits the same hash; its copy is
    // discarded silently.
    store.ingest(&hash, data.clone()).unwrap();
    assert_eq!(store.len(), 1);
    assert_eq!(store.temp_count(), 0);
    assert_eq!(store.blob_bytes(&hash).unwrap(), &data);
}

#[test]
fn blob_cache_path_uses_fanout_prefix() {
    let mut hash = vec![0u8; 32];
    hash[0] = 0xab;
    hash[1] = 0xcd;
    let rel = sgloader_core::cache::blob_cache_rel_path(&hash);
    let full_hex = hex_of(&hash);
    assert_eq!(rel, format!("ab/{}.blob", full_hex));
}

#[test]
fn batch_size_is_tuned_and_clamped() {
    // Aim for ~4 batches per worker, clamped to [64, 4096].
    assert_eq!(compute_batch_size(1000, 8, None), 64); // ceil(1000/32)=32 -> 64
    assert_eq!(compute_batch_size(100_000, 8, None), 3125);
    assert_eq!(compute_batch_size(1_000_000, 8, None), 4096);
    assert_eq!(compute_batch_size(1000, 8, Some(10)), 10);
}

#[test]
fn concurrency_is_capped_by_batching() {
    assert_eq!(compute_concurrency(None, 1000), 8);
    assert_eq!(compute_concurrency(None, 3), 3);
    assert_eq!(compute_concurrency(Some(2), 1000), 2);
    assert_eq!(compute_concurrency(Some(99), 4), 4);
    assert_eq!(compute_concurrency(None, 0), 1);
}

#[test]
fn partition_keeps_order_and_sizes() {
    let indices: Vec<u32> = (0..10).collect();
    let batches = partition_batches(&indices, 4);
    assert_eq!(batches.len(), 3);
    assert_eq!(batches[0], vec![0, 1, 2, 3]);
    assert_eq!(batches[1], vec![4, 5, 6, 7]);
    assert_eq!(batches[2], vec![8, 9]);
}

#[test]
fn batch_request_is_little_endian() {
    let r = encode_batch_request(&vec![1u32, 0x01020304]);
    assert_eq!(r, vec![1, 0, 0, 0, 4, 3, 2, 1]);
}

#[test]
fn protocol_window_check() {
    assert!(protocol_supported(1, 1));
    assert!(protocol_supported(0, 3));
    assert!(!protocol_supported(2, 5));
    assert!(!protocol_supported(-3, 0));
}

/// Cancellation mid-batch: the failing worker aborts the pool; every later
/// pull hands out nothing, so all workers stop within one pull each, and the
/// cancel flag surfaces as `Cancelled`.
#[test]
fn cancellation_stops_all_workers() {
    let batches = vec![vec![0u32, 1], vec![2u32, 3], vec![4u32]];
    let mut queue = WorkQueue::new(batches);
    let first = queue.take_next();
    assert_eq!(first, Some(vec![0u32, 1]));

    let cancel = CancelFlag::new();
    cancel.cancel();
    assert!(cancel.is_cancelled());
    let err = cancel.check().unwrap_err();
    assert!(matches!(err, AcquireError::Cancelled));
    assert!(err.is_cancelled());
    assert!(!err.is_integrity());

    // The worker that observed cancellation reports the failure.
    queue.abort();
    // Every worker's next pull yields nothing, whatever is still pending.
    assert_eq!(queue.remaining(), 2);
    assert!(queue.take_next().is_none());
    assert!(queue.take_next().is_none());
    assert!(queue.is_aborted());
}

#[test]
fn work_queue_is_fifo_and_drains() {
    let mut queue = WorkQueue::new(vec![vec![7u32], vec![8u32]]);
    assert!(!queue.is_aborted());
    assert_eq!(queue.take_next(), Some(vec![7u32]));
    assert_eq!(queue.take_next(), Some(vec![8u32]));
    assert_eq!(queue.take_next(), None);
}

#[test]
fn all_entries_sharing_one_hash_schedule_one_download() {
    let d = b"the only blob".to_vec();
    let h = blake2b256_hex(&d);
    let bytes = manifest_bytes(&[
        format!("{} a.txt", h),
        format!("{} b.txt", h),
        format!("{} c.txt", h),
        format!("{} d.txt", h),
    ]);
    let (entries, _) = parse_manifest_and_hash(&bytes).unwrap();
    let unique = dedup_entries(&entries);
    assert_eq!(unique.len(), 1);
    assert_eq!(unique[0].index, 0);
    let plan = build_zip_plan(&entries);
    assert_eq!(plan.len(), 4);
}

#[test]
fn partition_with_oversized_batch_yields_one_batch() {
    let indices: Vec<u32> = (0..5).collect();
    let batches = partition_batches(&indices, 4096);
    assert_eq!(batches.len(), 1);
    assert_eq!(batches[0], indices);
    let none: Vec<u32> = Vec::new();
    assert!(partition_batches(&none, 64).is_empty());
}

#[test]
fn empty_batch_payload_round_trips() {
    let body = vec![0u8, 0, 0, 0];
    let hashes: Vec<Vec<u8>> = Vec::new();
    let blobs = process_batch_payload(&body, &hashes).unwrap();
    assert!(blobs.is_empty());
}
