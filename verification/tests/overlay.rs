use sgloader_core::coordinator::{
    content_cache_key, should_try_self_hosted_fallback, DownloadOutcome, OverlayAction,
    OverlayEvent, OverlayFlow,
};
use sgloader_core::errors::AcquireError;
use sgloader_core::server_info::ServerBuildInformation;

fn build(
    download_url: Option<&str>,
    manifest_url: Option<&str>,
    manifest_download_url: Option<&str>,
    hash: Option<&str>,
    manifest_hash: Option<&str>,
) -> ServerBuildInformation {
    ServerBuildInformation {
        download_url: download_url.map(|s| s.to_string()),
        manifest_url: manifest_url.map(|s| s.to_string()),
        manifest_download_url: manifest_download_url.map(|s| s.to_string()),
        engine_version: "1.1".to_string(),
        version: "v42".to_string(),
        fork_id: "fork".to_string(),
        hash: hash.map(|s| s.to_string()),
        manifest_hash: manifest_hash.map(|s| s.to_string()),
        acz: false,
    }
}

fn full_build() -> ServerBuildInformation {
    build(
        Some("https://cdn.example/client.zip"),
        Some("https://game.example/manifest"),
        Some("https://game.example/download"),
        Some("AA11"),
        Some("BB22"),
    )
}

#[test]
fn cache_key_prefers_hash_then_manifest_hash_then_version() {
    assert_eq!(content_cache_key(&full_build()), "AA11");
    let b = build(Some("u"), None, None, None, Some(" BB22 "));
    assert_eq!(content_cache_key(&b), "BB22");
    let b = build(Some("u"), None, None, Some("  "), None);
    assert_eq!(content_cache_key(&b), "v42");
}

#[test]
fn missing_download_url_fails_at_start() {
    let b = build(None, None, None, None, None);
    let err = OverlayFlow::start(&b, None).unwrap_err();
    assert!(matches!(err, AcquireError::Protocol { .. }));
    let b = build(Some("   "), None, None, None, None);
    assert!(OverlayFlow::start(&b, None).is_err());
}

/// A repeat launch with unchanged server data downloads nothing: the
/// overlay-cache probe answers and the flow finishes at once.
#[test]
fn overlay_cache_hit_downloads_nothing() {
    let (mut flow, action) = OverlayFlow::start(&full_build(), None).unwrap();
    match action {
        OverlayAction::ProbeOverlayCache { zip_rel, marker_rel } => {
            assert_eq!(zip_rel, "content_overlay_cache/BB22/client.zip");
            assert_eq!(marker_rel, "content_overlay_cache/BB22/client.zip.acz_overlay");
        }
        _ => panic!("expected the overlay-cache probe first"),
    }
    let a = flow.step(OverlayEvent::OverlayCacheProbe { hit: true });
    match a {
        OverlayAction::Finish { zip_rel } => {
            assert_eq!(zip_rel, "content_overlay_cache/BB22/client.zip")
        }
        _ => panic!("a cache hit must finish the flow"),
    }
}

/// A synced zip with its marker is returned without re-verification.
#[test]
fn synced_zip_with_marker_is_reused() {
    let (mut flow, _) = OverlayFlow::start(&full_build(), None).unwrap();
    let a = flow.step(OverlayEvent::OverlayCacheProbe { hit: false });
    match a {
        OverlayAction::ProbeContentZip { zip_rel, marker_rel } => {
            assert_eq!(zip_rel, "content/AA11/client.zip");
            assert_eq!(marker_rel, "content/AA11/client.zip.acz_overlay");
        }
        _ => panic!("expected the content probe next"),
    }
    let a = flow.step(OverlayEvent::ContentProbe { zip_exists: true, marker_exists: true });
    assert!(matches!(a, OverlayAction::Finish { .. }));
}

/// An existing zip whose digest matches (case-insensitively) finishes the
/// flow without a download.
#[test]
fn matching_existing_zip_is_kept() {
    let (mut flow, _) = OverlayFlow::start(&full_build(), None).unwrap();
    flow.step(OverlayEvent::OverlayCacheProbe { hit: false });
    let a = flow.step(OverlayEvent::ContentProbe { zip_exists: true, marker_exists: false });
    assert!(matches!(a, OverlayAction::HashZip { .. }));
    let a = flow.step(OverlayEvent::ZipHashed { hex: "aa11".to_string() });
    assert!(matches!(a, OverlayAction::Finish { .. }));
}

/// The monolithic download returns 403 and the descriptor has both manifest
/// URLs: the flow falls back to the incremental sync, the final archive is
/// the manifest-hash-keyed overlay path, and the marker is written there.
#[test]
fn forbidden_zip_falls_back_to_manifest_sync() {
    let (mut flow, _) = OverlayFlow::start(&full_build(), None).unwrap();
    flow.step(OverlayEvent::OverlayCacheProbe { hit: false });
    let a = flow.step(OverlayEvent::ContentProbe { zip_exists: false, marker_exists: false });
    match a {
        OverlayAction::DownloadZip { url, dest_rel, delete_zip_first, .. } => {
            assert_eq!(url, "https://cdn.example/client.zip");
            assert_eq!(dest_rel, "content/AA11/client.zip");
            assert!(!delete_zip_first);
        }
        _ => panic!("a double cache miss must download"),
    }
    let a = flow.step(OverlayEvent::DownloadFinished {
        outcome: DownloadOutcome::HttpStatus { status: 403, detail: "status 403".to_string() },
    });
    match a {
        OverlayAction::RunManifestSync { out_zip_rel } => {
            assert_eq!(out_zip_rel, "content_overlay_cache/BB22/client.zip")
        }
        _ => panic!("an auth-style status must fall back to the manifest sync"),
    }
    let a = flow.step(OverlayEvent::SyncFinished { ok: true, detail: String::new() });
    match a {
        OverlayAction::WriteMarkers { content_marker, overlay_marker } => {
            assert!(content_marker.is_none());
            assert_eq!(
                overlay_marker.unwrap(),
                "content_overlay_cache/BB22/client.zip.acz_overlay"
            );
        }
        _ => panic!("a finished sync must stamp the marker"),
    }
    let a = flow.step(OverlayEvent::MarkersWritten);
    match a {
        OverlayAction::Finish { zip_rel } => {
            assert_eq!(zip_rel, "content_overlay_cache/BB22/client.zip")
        }
        _ => panic!("the flow must finish at the overlay path"),
    }
}

/// Without manifest URLs an auth-style rejection is final.
#[test]
fn forbidden_zip_without_manifest_urls_fails() {
    let b = build(Some("https://cdn.example/client.zip"), None, None, Some("AA11"), None);
    let (mut flow, first) = OverlayFlow::start(&b, None).unwrap();
    assert!(matches!(first, OverlayAction::ProbeContentZip { .. }));
    flow.step(OverlayEvent::ContentProbe { zip_exists: false, marker_exists: false });
    let a = flow.step(OverlayEvent::DownloadFinished {
        outcome: DownloadOutcome::HttpStatus { status: 403, detail: "status 403".to_string() },
    });
    match a {
        OverlayAction::Fail { error } => assert!(matches!(error, AcquireError::Network { .. })),
        _ => panic!("without manifest URLs the failure is final"),
    }
}

/// A downloaded zip that does not hash to the expected value is removed and
/// the failure is an integrity error.
#[test]
fn downloaded_zip_hash_mismatch_is_fatal() {
    let (mut flow, _) = OverlayFlow::start(&full_build(), None).unwrap();
    flow.step(OverlayEvent::OverlayCacheProbe { hit: false });
    flow.step(OverlayEvent::ContentProbe { zip_exists: false, marker_exists: false });
    let a = flow.step(OverlayEvent::DownloadFinished { outcome: DownloadOutcome::Success });
    assert!(matches!(a, OverlayAction::HashZip { .. }));
    let a = flow.step(OverlayEvent::ZipHashed { hex: "0000".to_string() });
    match a {
        OverlayAction::FailAndRemoveZip { zip_rel, error } => {
            assert_eq!(zip_rel, "content/AA11/client.zip");
            assert!(matches!(error, AcquireError::Integrity { .. }));
        }
        _ => panic!("a mismatching download must be removed and fail"),
    }
}

/// An existing zip whose digest mismatches is deleted and redownloaded.
#[test]
fn stale_existing_zip_is_redownloaded() {
    let (mut flow, _) = OverlayFlow::start(&full_build(), None).unwrap();
    flow.step(OverlayEvent::OverlayCacheProbe { hit: false });
    flow.step(OverlayEvent::ContentProbe { zip_exists: true, marker_exists: false });
    let a = flow.step(OverlayEvent::ZipHashed { hex: "dead".to_string() });
    match a {
        OverlayAction::DownloadZip { delete_zip_first, .. } => assert!(delete_zip_first),
        _ => panic!("a stale zip must be replaced"),
    }
}

#[test]
fn self_hosted_fallback_statuses() {
    assert!(should_try_self_hosted_fallback(401, "https://a/z.zip", "https://b/z.zip"));
    assert!(should_try_self_hosted_fallback(403, "https://a/z.zip", "https://b/z.zip"));
    assert!(should_try_self_hosted_fallback(404, "https://a/z.zip", "https://b/z.zip"));
    assert!(!should_try_self_hosted_fallback(500, "https://a/z.zip", "https://b/z.zip"));
    // The fallback must differ from the primary.
    assert!(!should_try_self_hosted_fallback(403, "https://a/z.zip", "HTTPS://A/Z.ZIP"));
}

#[test]
fn sanitized_keys_reach_the_paths() {
    let b = build(Some("u"), None, None, Some("../evil key"), None);
    let (_, action) = OverlayFlow::start(&b, None).unwrap();
    match action {
        OverlayAction::ProbeContentZip { zip_rel, .. } => {
            assert_eq!(zip_rel, "content/.._evil_key/client.zip")
        }
        _ => panic!("expected the content probe"),
    }
}
