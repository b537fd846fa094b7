use base64::Engine;
use ed25519_dalek::pkcs8::EncodePublicKey;
use ed25519_dalek::Signer;

use sgloader_core::errors::AcquireError;
use sgloader_core::installer::{InstallAction, InstallEvent, InstallFlow};
use sgloader_core::resolver::{
    follow_redirects, platform_candidates, resolve_engine_build, EngineVersionEntry,
    PlatformBuild, ResolveError, RobustEngineBuild,
};
use sgloader_core::signature::{decode_pem_to_der, verify_engine_signature};

fn entry(
    version: &str,
    insecure: bool,
    redirect: Option<&str>,
    platforms: &[(&str, &str, &str, &str)],
) -> EngineVersionEntry {
    EngineVersionEntry {
        version: version.to_string(),
        insecure,
        redirect: redirect.map(|s| s.to_string()),
        platforms: platforms
            .iter()
            .map(|(rid, url, sha, sig)| PlatformBuild {
                rid: rid.to_string(),
                url: url.to_string(),
                sha256: sha.to_string(),
                signature: sig.to_string(),
            })
            .collect(),
    }
}

/// The engine-manifest scenario: `1.0` redirects to `1.1`, which carries a
/// `win-x64` artifact; resolving `1.0` on 64-bit Windows yields `1.1` and
/// that artifact.
#[test]
fn redirect_resolves_to_terminal_version() {
    let manifest = vec![
        entry("1.0", false, Some("1.1"), &[]),
        entry(
            "1.1",
            false,
            None,
            &[("win-x64", "https://cdn.example/1.1.zip", "AABB", "CCDD")],
        ),
    ];
    let build = resolve_engine_build(&manifest, "1.0", "windows", "x86_64").unwrap();
    assert_eq!(build.requested_version, "1.0");
    assert_eq!(build.resolved_version, "1.1");
    assert_eq!(build.url, "https://cdn.example/1.1.zip");
    assert_eq!(build.sha256, "AABB");
    assert_eq!(build.signature, "CCDD");
}

#[test]
fn version_without_redirect_resolves_to_itself() {
    let manifest = vec![entry("5.0", false, None, &[("linux-x64", "u", "h", "s")])];
    let (resolved, idx) = follow_redirects(&manifest, "5.0").unwrap();
    assert_eq!(resolved, "5.0");
    assert_eq!(idx, 0);
}

#[test]
fn self_redirect_cycle_is_rejected() {
    let manifest = vec![entry("2.0", false, Some("2.0"), &[])];
    let err = follow_redirects(&manifest, "2.0").unwrap_err();
    assert_eq!(err, ResolveError::RedirectCycle);
}

#[test]
fn two_cycle_is_rejected() {
    let manifest = vec![
        entry("a", false, Some("b"), &[]),
        entry("b", false, Some("a"), &[]),
    ];
    let err = follow_redirects(&manifest, "a").unwrap_err();
    assert_eq!(err, ResolveError::RedirectCycle);
}

#[test]
fn unknown_version_is_rejected() {
    let manifest = vec![entry("1.0", false, None, &[])];
    assert_eq!(
        follow_redirects(&manifest, "9.9").unwrap_err(),
        ResolveError::UnknownVersion
    );
    let manifest2 = vec![entry("1.0", false, Some("missing"), &[])];
    assert_eq!(
        follow_redirects(&manifest2, "1.0").unwrap_err(),
        ResolveError::UnknownVersion
    );
}

#[test]
fn insecure_version_is_rejected() {
    let manifest = vec![entry("1.0", true, None, &[("win-x64", "u", "h", "s")])];
    assert_eq!(
        resolve_engine_build(&manifest, "1.0", "windows", "x86_64").unwrap_err(),
        ResolveError::InsecureVersion
    );
}

#[test]
fn rid_match_is_case_insensitive_and_keeps_manifest_casing() {
    let manifest = vec![entry(
        "1.0",
        false,
        None,
        &[("Win-X64", "u1", "h1", "s1"), ("linux-x64", "u2", "h2", "s2")],
    )];
    let build = resolve_engine_build(&manifest, "1.0", "windows", "x86_64").unwrap();
    assert_eq!(build.url, "u1");
}

#[test]
fn rid_falls_back_to_first_available() {
    let manifest = vec![entry("1.0", false, None, &[("freebsd-x64", "u", "h", "s")])];
    let build = resolve_engine_build(&manifest, "1.0", "windows", "x86_64").unwrap();
    assert_eq!(build.url, "u");
}

#[test]
fn no_platforms_at_all_is_rejected() {
    let manifest = vec![entry("1.0", false, None, &[])];
    assert_eq!(
        resolve_engine_build(&manifest, "1.0", "windows", "x86_64").unwrap_err(),
        ResolveError::NoPlatformBuild
    );
}

#[test]
fn candidate_lists_follow_platform() {
    assert_eq!(
        platform_candidates("windows", "x86_64"),
        vec!["win-x64".to_string(), "win-x86".to_string()]
    );
    assert_eq!(platform_candidates("linux", "x86_64"), vec!["linux-x64".to_string()]);
    assert_eq!(platform_candidates("macos", "aarch64"), vec!["osx-arm64".to_string()]);
    assert!(platform_candidates("plan9", "mips").is_empty());
}

fn test_build() -> RobustEngineBuild {
    RobustEngineBuild {
        requested_version: "1.0".to_string(),
        resolved_version: "1.1".to_string(),
        url: "https://cdn.example/engine.zip".to_string(),
        sha256: "ABCDEF".to_string(),
        signature: "1234".to_string(),
    }
}

/// A present archive whose digest matches is never redownloaded.
#[test]
fn installer_cache_hit_downloads_nothing() {
    let (mut flow, action) = InstallFlow::start(&test_build());
    let zip_rel = match action {
        InstallAction::ProbeZip { zip_rel } => zip_rel,
        other => panic!("unexpected action {:?}", action_name(&other)),
    };
    assert_eq!(zip_rel, "engines/1.1/engine.zip");
    let a2 = flow.step(InstallEvent::ZipProbe { exists: true });
    assert!(matches!(a2, InstallAction::HashZip { .. }));
    let a3 = flow.step(InstallEvent::ZipHashed { hex: "abcdef".to_string() });
    match a3 {
        InstallAction::Finish { install } => {
            assert_eq!(install.engine_zip, "engines/1.1/engine.zip");
            assert_eq!(install.engine_signature_hex, "1234");
        }
        other => panic!("unexpected action {}", action_name(&other)),
    }
}

/// A digest mismatch triggers exactly one redownload; a second mismatch is a
/// fatal integrity error.
#[test]
fn installer_retries_once_then_fails() {
    let (mut flow, _) = InstallFlow::start(&test_build());
    let a = flow.step(InstallEvent::ZipProbe { exists: true });
    assert!(matches!(a, InstallAction::HashZip { .. }));
    let a = flow.step(InstallEvent::ZipHashed { hex: "beef".to_string() });
    match a {
        InstallAction::DownloadZip { delete_zip_first, .. } => assert!(delete_zip_first),
        other => panic!("unexpected action {}", action_name(&other)),
    }
    let a = flow.step(InstallEvent::DownloadFinished { ok: true, detail: String::new() });
    assert!(matches!(a, InstallAction::HashZip { .. }));
    let a = flow.step(InstallEvent::ZipHashed { hex: "beef".to_string() });
    match a {
        InstallAction::Fail { error } => assert!(matches!(error, AcquireError::Integrity { .. })),
        other => panic!("unexpected action {}", action_name(&other)),
    }
}

#[test]
fn installer_downloads_when_absent() {
    let (mut flow, _) = InstallFlow::start(&test_build());
    let a = flow.step(InstallEvent::ZipProbe { exists: false });
    match a {
        InstallAction::DownloadZip { url, dest_rel, delete_zip_first } => {
            assert_eq!(url, "https://cdn.example/engine.zip");
            assert_eq!(dest_rel, "engines/1.1/engine.zip");
            assert!(!delete_zip_first);
        }
        other => panic!("unexpected action {}", action_name(&other)),
    }
    let a = flow.step(InstallEvent::DownloadFinished { ok: true, detail: String::new() });
    assert!(matches!(a, InstallAction::HashZip { .. }));
    let a = flow.step(InstallEvent::ZipHashed { hex: "ABCDEF".to_string() });
    assert!(matches!(a, InstallAction::Finish { .. }));
}

fn action_name(a: &InstallAction) -> &'static str {
    match a {
        InstallAction::ProbeZip { .. } => "ProbeZip",
        InstallAction::DownloadZip { .. } => "DownloadZip",
        InstallAction::HashZip { .. } => "HashZip",
        InstallAction::Finish { .. } => "Finish",
        InstallAction::Fail { .. } => "Fail",
    }
}

fn key_pem(vk: &ed25519_dalek::VerifyingKey) -> String {
    let der = vk.to_public_key_der().unwrap();
    let b64 = base64::engine::general_purpose::STANDARD.encode(der.as_bytes());
    format!("-----BEGIN PUBLIC KEY-----\n{}\n-----END PUBLIC KEY-----\n", b64)
}

fn sig_hex(sig: &ed25519_dalek::Signature) -> String {
    sig.to_bytes().iter().map(|b| format!("{:02X}", b)).collect()
}

#[test]
fn engine_signature_verifies_and_rejects_tampering() {
    let signing = ed25519_dalek::SigningKey::from_bytes(&[7u8; 32]);
    let verifying = signing.verifying_key();
    let pem = key_pem(&verifying);
    let message = b"engine archive bytes";
    let signature = signing.sign(message);
    let hex = sig_hex(&signature);

    assert!(verify_engine_signature(message, &hex, &pem).is_ok());
    // Signature hex comparison tolerates surrounding whitespace.
    assert!(verify_engine_signature(message, &format!("  {}\n", hex), &pem).is_ok());

    let mut tampered = message.to_vec();
    tampered[0] ^= 1;
    let err = verify_engine_signature(&tampered, &hex, &pem).unwrap_err();
    assert!(matches!(err, AcquireError::Integrity { .. }));
}

#[test]
fn engine_signature_rejects_malformed_inputs() {
    let signing = ed25519_dalek::SigningKey::from_bytes(&[9u8; 32]);
    let pem = key_pem(&signing.verifying_key());
    let msg = b"bytes";
    // Not hex at all.
    assert!(matches!(
        verify_engine_signature(msg, "zzzz", &pem).unwrap_err(),
        AcquireError::Protocol { .. }
    ));
    // Hex, but not 64 bytes.
    assert!(matches!(
        verify_engine_signature(msg, "abcd", &pem).unwrap_err(),
        AcquireError::Protocol { .. }
    ));
    // Empty PEM.
    let sig = sig_hex(&signing.sign(msg));
    assert!(matches!(
        verify_engine_signature(msg, &sig, "").unwrap_err(),
        AcquireError::Protocol { .. }
    ));
    // PEM that is not base64.
    assert!(matches!(
        verify_engine_signature(msg, &sig, "-----BEGIN PUBLIC KEY-----\n!!!\n-----END PUBLIC KEY-----\n")
            .unwrap_err(),
        AcquireError::Protocol { .. }
    ));
}

#[test]
fn pem_decoding_strips_armour_and_whitespace() {
    let payload = b"hello der";
    let b64 = base64::engine::general_purpose::STANDARD.encode(payload);
    let pem = format!(
        "-----BEGIN PUBLIC KEY-----\r\n  {}  \r\n-----END PUBLIC KEY-----\r\n",
        b64
    );
    let der = decode_pem_to_der(&pem).unwrap();
    assert_eq!(der, payload);
}

#[test]
fn long_redirect_chains_hit_the_hop_limit() {
    // A chain of sixteen hops still resolves; a longer one is treated as a
    // cycle.
    let mut ok_manifest = Vec::new();
    for i in 0..17 {
        let redirect = if i < 16 { Some(format!("v{}", i + 1)) } else { None };
        ok_manifest.push(EngineVersionEntry {
            version: format!("v{i}"),
            insecure: false,
            redirect,
            platforms: vec![PlatformBuild {
                rid: "linux-x64".to_string(),
                url: "u".to_string(),
                sha256: "h".to_string(),
                signature: "s".to_string(),
            }],
        });
    }
    let (resolved, _) = follow_redirects(&ok_manifest, "v0").unwrap();
    assert_eq!(resolved, "v16");

    let mut long_manifest = ok_manifest.clone();
    long_manifest[16].redirect = Some("v17".to_string());
    long_manifest.push(EngineVersionEntry {
        version: "v17".to_string(),
        insecure: false,
        redirect: None,
        platforms: Vec::new(),
    });
    assert_eq!(
        follow_redirects(&long_manifest, "v0").unwrap_err(),
        ResolveError::RedirectCycle
    );
}
