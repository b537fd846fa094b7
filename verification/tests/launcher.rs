use sgloader_core::favorites::{canonicalize_favorite_address, is_favorite, toggle_favorite};
use sgloader_core::hexstr::{eq_hex_case_insensitive, hex_decode, hex_encode};
use sgloader_core::http_profile::{
    backoff_delay_ms, cap_retry_after_secs, connect_timeout_ms, request_timeout_ms,
    should_retry_status, HttpProfile,
};
use sgloader_core::hub_urls::{default_hub_urls, load_hub_urls, normalize_and_validate_urls};
use sgloader_core::marsey::{
    build_marsey_conf_string, conf_encode_value, filter_enabled_mod_dlls, join_pipe_tokens,
    override_conf_kv, pipe_encode_token, prepare_pipes_for_launch, with_marsey_backports_enabled,
    MarseyLaunchContext, PatchEntry,
};
use sgloader_core::mask::{is_uuid_like, user_agent_value};
use sgloader_core::news::{is_safe_media_id, media_url};
use sgloader_core::patches_view::{truncate_ellipsis, PatchesState};
use sgloader_core::settings::{HideLevel, LauncherSettings, SecuritySettings};
use sgloader_core::text::{sanitize_dir_component, trim_ascii};
use sgloader_core::ss14_uri::{
    server_api_base, server_info_url, server_selfhosted_client_zip_url, server_status_url,
};
use sgloader_core::token::{decrypt_token, encrypt_token};

#[test]
fn hex_round_trips_and_ignores_case() {
    let bytes = vec![0x00u8, 0x7f, 0xab, 0xff];
    let lower = hex_encode(&bytes);
    assert_eq!(lower, "007fabff");
    assert_eq!(hex_decode(&lower).unwrap(), bytes);
    assert_eq!(hex_decode("007FABFF").unwrap(), bytes);
    assert!(hex_decode("007").is_none());
    assert!(hex_decode("zz").is_none());
    assert!(eq_hex_case_insensitive(" 007FABFF ", "007fabff"));
    assert!(!eq_hex_case_insensitive("007fabff", "007fabfe"));
}

#[test]
fn sanitizing_replaces_foreign_characters() {
    assert_eq!(sanitize_dir_component("v1.2_ok-name"), "v1.2_ok-name");
    assert_eq!(sanitize_dir_component("a/b\\c d"), "a_b_c_d");
    assert_eq!(sanitize_dir_component(""), "");
}

#[test]
fn trimming_is_ascii_whitespace_only() {
    assert_eq!(trim_ascii("  x y\t\r\n"), "x y");
    assert_eq!(trim_ascii("\t \n"), "");
}

#[test]
fn favorites_toggle_flips_membership() {
    let mut favs: Vec<String> = Vec::new();
    assert!(!is_favorite(&favs, "ss14://play.example"));
    toggle_favorite(&mut favs, " ss14://play.example ");
    assert!(is_favorite(&favs, "ss14://play.example"));
    assert_eq!(favs, vec!["ss14://play.example".to_string()]);
    toggle_favorite(&mut favs, "ss14://play.example");
    assert!(!is_favorite(&favs, "ss14://play.example"));
    assert!(favs.is_empty());
    assert_eq!(canonicalize_favorite_address("  a  "), "a");
}

#[test]
fn hub_urls_are_normalized_and_validated() {
    let raw = vec![
        " https://hub.example ".to_string(),
        "".to_string(),
        "https://hub.example/".to_string(),
        "http://other.example/".to_string(),
    ];
    let urls = normalize_and_validate_urls(&raw).unwrap();
    assert_eq!(
        urls,
        vec!["https://hub.example/".to_string(), "http://other.example/".to_string()]
    );
    assert!(normalize_and_validate_urls(&vec!["ftp://x/".to_string()]).is_err());
    assert!(normalize_and_validate_urls(&vec!["  ".to_string()]).is_err());
}

#[test]
fn hub_urls_fall_back_to_defaults() {
    let defaults = default_hub_urls();
    assert_eq!(defaults[0], "https://hub.spacestation14.com/");
    assert_eq!(defaults[1], "https://hub.fallback.spacestation14.com/");
    assert_eq!(load_hub_urls(None), defaults);
    assert_eq!(load_hub_urls(Some(vec![" ".to_string()])), defaults);
    assert_eq!(
        load_hub_urls(Some(vec!["https://mine.example".to_string()])),
        vec!["https://mine.example/".to_string()]
    );
}

#[test]
fn media_ids_are_vetted_before_building_urls() {
    assert!(is_safe_media_id("123e4567-e89b-12d3-a456-426614174000"));
    assert!(is_safe_media_id(" abc-DEF-123 "));
    assert!(!is_safe_media_id(""));
    assert!(!is_safe_media_id("../../etc/passwd"));
    assert!(!is_safe_media_id("a?b"));
    let long: String = std::iter::repeat('a').take(81).collect();
    assert!(!is_safe_media_id(&long));
    assert_eq!(
        media_url("abc-123"),
        "https://vzzx.pw/api/news/media/abc-123"
    );
}

#[test]
fn http_policy_values() {
    assert_eq!(connect_timeout_ms(HttpProfile::Api), 10_000);
    assert_eq!(request_timeout_ms(HttpProfile::Api), 20_000);
    assert_eq!(request_timeout_ms(HttpProfile::Download), 600_000);
    assert!(should_retry_status(408));
    assert!(should_retry_status(429));
    assert!(should_retry_status(503));
    assert!(!should_retry_status(403));
    assert!(!should_retry_status(200));
    assert_eq!(backoff_delay_ms(0), 250);
    assert_eq!(backoff_delay_ms(1), 750);
    assert_eq!(backoff_delay_ms(7), 1500);
    assert_eq!(cap_retry_after_secs(3), 3);
    assert_eq!(cap_retry_after_secs(600), 5);
}

#[test]
fn uuid_shape_check() {
    assert!(is_uuid_like("123e4567-e89b-12d3-a456-426614174000"));
    assert!(is_uuid_like(" 123E4567-E89B-12D3-A456-426614174000 "));
    assert!(!is_uuid_like("123e4567e89b12d3a456426614174000"));
    assert!(!is_uuid_like("123e4567-e89b-12d3-a456-42661417400g"));
    assert!(!is_uuid_like(""));
    assert_eq!(user_agent_value(), "SS14.Launcher/59");
}

#[test]
fn hide_level_keys_round_trip() {
    for level in [
        HideLevel::Disabled,
        HideLevel::Low,
        HideLevel::Medium,
        HideLevel::High,
        HideLevel::Maximum,
    ] {
        assert_eq!(HideLevel::from_key(level.as_key()), Some(level));
    }
    assert_eq!(HideLevel::from_key("nonsense"), None);
    assert_eq!(HideLevel::Medium.to_marsey_value(), "Normal");
    assert_eq!(HideLevel::Maximum.to_marsey_value(), "Unconditional");
    assert_eq!(HideLevel::Disabled.label_ru(), "Отключен");
}

#[test]
fn settings_defaults() {
    let s = SecuritySettings::default();
    assert_eq!(s.hide_level, HideLevel::Medium);
    assert!(s.auto_login);
    assert!(!s.disable_redial);
    assert!(!s.autodelete_hwid);
    let l = LauncherSettings::default();
    assert_eq!(l.security.hide_level, HideLevel::Medium);
}

#[test]
fn tokens_survive_a_store_and_load() {
    let stored = encrypt_token("secret token".as_bytes()).unwrap();
    assert_eq!(decrypt_token(&stored).unwrap(), "secret token");
    // Bytes that are not UTF-8 cannot come back as a token.
    assert!(decrypt_token(&[0xff, 0xfe, 0x80]).is_err());
}

#[test]
fn pipe_tokens_escape_their_delimiter() {
    assert_eq!(pipe_encode_token("plain"), "plain");
    assert_eq!(pipe_encode_token("a,b"), "a%2Cb");
    assert_eq!(pipe_encode_token("50%"), "50%25");
    let items = vec!["a,b".to_string(), "c".to_string()];
    assert_eq!(join_pipe_tokens(&items), "a%2Cb,c");
    assert_eq!(join_pipe_tokens(&Vec::new()), "");
}

#[test]
fn conf_values_escape_their_delimiters() {
    assert_eq!(conf_encode_value("a;b=c"), "a%3Bb%3Dc");
    assert_eq!(conf_encode_value("x"), "x");
}

#[test]
fn conf_override_replaces_or_appends() {
    assert_eq!(override_conf_kv("A=1;B=2", "B", "3"), "A=1;B=3");
    assert_eq!(override_conf_kv("A=1", "B", "2"), "A=1;B=2");
    assert_eq!(override_conf_kv("", "K", "V"), "K=V");
    assert_eq!(override_conf_kv(" A = 1 ; ; =x ", "A", "2"), "A=2");
}

#[test]
fn backports_switch_sets_both_keys() {
    let conf = "MARSEY_BACKPORTS=true;MARSEY_NO_ANY_BACKPORTS=false;OTHER=x";
    let off = with_marsey_backports_enabled(conf, false);
    assert_eq!(off, "MARSEY_BACKPORTS=false;MARSEY_NO_ANY_BACKPORTS=true;OTHER=x");
    let on = with_marsey_backports_enabled(&off, true);
    assert_eq!(on, "MARSEY_BACKPORTS=true;MARSEY_NO_ANY_BACKPORTS=false;OTHER=x");
}

#[test]
fn conf_string_carries_the_launch_context() {
    let ctx = MarseyLaunchContext {
        engine_version: "1.2;3".to_string(),
        fork_id: "fork=1".to_string(),
        hide_level: "Normal".to_string(),
        disable_redial: true,
    };
    let conf = build_marsey_conf_string(&ctx);
    assert!(conf.contains("MARSEY_JAMMER=true"));
    assert!(conf.contains("MARSEY_HIDE_LEVEL=Normal"));
    assert!(conf.contains("MARSEY_ENGINE=1.2%3B3"));
    assert!(conf.contains("MARSEY_FORKID=fork%3D1"));
    assert!(conf.contains("MARSEY_LOGGING=true"));
}

#[test]
fn enabled_filter_ignores_case() {
    let dlls = vec!["Foo.DLL".to_string(), "Bar.dll".to_string()];
    let enabled = Some(vec!["foo.dll".to_string()]);
    assert_eq!(filter_enabled_mod_dlls(dlls.clone(), &enabled), vec!["Foo.DLL".to_string()]);
    assert_eq!(filter_enabled_mod_dlls(dlls.clone(), &None), dlls);
}

#[test]
fn pipe_batch_merges_unclassified_dlls() {
    let ctx = MarseyLaunchContext {
        engine_version: "1".to_string(),
        fork_id: "f".to_string(),
        hide_level: "Normal".to_string(),
        disable_redial: false,
    };
    let preload = vec!["/p/pre.dll".to_string()];
    let marsey = vec!["/p/m.dll".to_string()];
    let subverter = vec!["/p/sub.dll".to_string()];
    let all = vec![
        "/P/PRE.DLL".to_string(), // preload, case-insensitively: skipped
        "/p/m.dll".to_string(),   // already present: skipped
        "/p/extra.dll".to_string(),
    ];
    let batch = prepare_pipes_for_launch(&preload, &marsey, &subverter, &all, &ctx);
    assert_eq!(batch.preload, "/p/pre.dll");
    assert_eq!(batch.subverter, "/p/sub.dll");
    assert_eq!(batch.marsey, "/p/m.dll,/p/extra.dll");
    assert!(batch.marsey_conf.contains("MARSEY_JAMMER=false"));
}

#[test]
fn pipe_batch_falls_back_to_all_enabled() {
    let ctx = MarseyLaunchContext {
        engine_version: "1".to_string(),
        fork_id: "f".to_string(),
        hide_level: "Normal".to_string(),
        disable_redial: false,
    };
    let none: Vec<String> = Vec::new();
    let batch = prepare_pipes_for_launch(&none, &none, &none, &none, &ctx);
    assert_eq!(batch.marsey, "");
    assert_eq!(batch.preload, "");
}

#[test]
fn patches_state_reflects_scan_outcomes() {
    let bad = PatchesState::refresh(Err("scan failed".to_string()));
    assert!(bad.mods_dir.is_none());
    assert!(bad.patches.is_empty());
    assert_eq!(bad.error.as_deref(), Some("scan failed"));

    let entries = vec![PatchEntry {
        filename: "x.dll".to_string(),
        enabled: true,
        name: "X".to_string(),
        description: "desc".to_string(),
        rdnn: "com.example.x".to_string(),
    }];
    let good = PatchesState::refresh(Ok(("patches".to_string(), entries)));
    assert!(good.error.is_none());
    assert_eq!(good.mods_dir.as_deref(), Some("patches"));
    assert_eq!(good.patches.len(), 1);
    assert_eq!(good.patches[0].filename, "x.dll");
    assert!(good.patches[0].enabled);
}

#[test]
fn truncation_marks_the_cut() {
    assert_eq!(truncate_ellipsis("short", 10), "short");
    assert_eq!(truncate_ellipsis("abcdefgh", 3), "abc...");
    assert_eq!(truncate_ellipsis("", 0), "");
}

#[test]
fn api_base_derivation() {
    let base = server_api_base("ss14", "play.example", None, "").unwrap();
    assert_eq!(base, "http://play.example:1212/");
    let base = server_api_base("ss14", "play.example", Some(4242), "/game").unwrap();
    assert_eq!(base, "http://play.example:4242/game/");
    let base = server_api_base("ss14s", "play.example", None, "/").unwrap();
    assert_eq!(base, "https://play.example/");
    let base = server_api_base("ss14s", "play.example", Some(8443), "").unwrap();
    assert_eq!(base, "https://play.example:8443/");
    assert!(server_api_base("https", "play.example", None, "").is_err());

    assert_eq!(server_info_url("https://play.example/"), "https://play.example/info");
    assert_eq!(server_status_url("https://play.example/"), "https://play.example/status");
    assert_eq!(
        server_selfhosted_client_zip_url("https://play.example/"),
        "https://play.example/client.zip"
    );
}
