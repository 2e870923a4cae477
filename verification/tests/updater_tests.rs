use car_logger::release::{
    candidate_from_release, channel_accepts, channel_rule_after, is_preview_part,
    newest_offered_release, version_text_of, ReleaseAsset, ReleaseInfo, ReleaseVersion,
    UpdateCandidate,
};
use car_logger::updater::{CountdownAction, RestartCountdown, UpdatePhase};
use semver::Version;
use car_logger::updater::{
    check_digest, download_progress, friendly_error, platform_marker_for, verify_archive,
    DigestError,
};

#[test]
fn progress_counts_mebibytes_up_to_99() {
    assert_eq!(download_progress(0), 0);
    assert_eq!(download_progress(3 * 1024 * 1024 + 5), 3);
    assert_eq!(download_progress(u64::MAX), 99);
}

#[test]
fn platform_markers() {
    assert_eq!(platform_marker_for("linux", "x86_64"), "linux-x64");
    assert_eq!(platform_marker_for("macos", "aarch64"), "macos-arm64");
    assert_eq!(platform_marker_for("windows", "aarch64"), "unsupported-platform");
}

#[test]
fn service_errors_are_explained() {
    assert_eq!(
        friendly_error("HTTP 429 Too Many Requests"),
        "GitHubの更新確認回数制限に達しました。後で再試行します"
    );
    assert_eq!(
        friendly_error("API Rate Limit exceeded"),
        "GitHubの更新確認回数制限に達しました。後で再試行します"
    );
    assert_eq!(friendly_error("timeout"), "更新サービスへ接続できません: timeout");
}

#[test]
fn sidecar_digest_is_checked_ignoring_case() {
    let digest = [0xabu8; 32];
    let good = format!("{}  car-logger.zip\n", "AB".repeat(32));
    assert_eq!(check_digest(&digest, &good), Ok(()));
    let zeros = format!("{}  x", "0".repeat(64));
    assert_eq!(check_digest(&digest, &zeros), Err(DigestError::Mismatch));
    assert_eq!(check_digest(&digest, "short x"), Err(DigestError::MalformedSidecar));
    assert_eq!(check_digest(&digest, &"g".repeat(64)), Err(DigestError::MalformedSidecar));
    assert_eq!(check_digest(&digest, ""), Err(DigestError::MalformedSidecar));
}

#[test]
fn rejects_tampered_archive() {
    assert!(verify_archive(b"changed", &format!("{}  x", "0".repeat(64))).is_err());
}

#[test]
fn accepts_the_archive_with_its_own_digest() {
    let sidecar = "b94d27b9934d3e08a52e52d7da7dabfac484efe37a5380ee9088f7ace2efcde9  hello.zip";
    assert_eq!(verify_archive(b"hello world", sidecar), Ok(()));
    assert_eq!(
        verify_archive(b"hello world!", sidecar),
        Err(DigestError::Mismatch)
    );
}

#[test]
fn semver_does_not_treat_old_as_update() {
    assert!(Version::parse("1.2.3").unwrap() > Version::parse("1.2.2").unwrap());
    let current = ReleaseVersion::parse("1.2.3").unwrap();
    assert!(!channel_accepts(&current, &ReleaseVersion::parse("1.2.2").unwrap()));
    assert!(!channel_accepts(&current, &ReleaseVersion::parse("1.2.3").unwrap()));
}

#[test]
fn preview_build_accepts_only_newer_preview_versions() {
    let current = ReleaseVersion::parse("0.1.1-preview.42").unwrap();
    assert!(channel_accepts(&current, &ReleaseVersion::parse("0.1.1-preview.43").unwrap()));
    assert!(!channel_accepts(&current, &ReleaseVersion::parse("0.1.1").unwrap()));
    assert!(!channel_accepts(&current, &ReleaseVersion::parse("0.1.1-beta.99").unwrap()));
}

#[test]
fn stable_build_accepts_only_newer_stable_versions() {
    let current = ReleaseVersion::parse("0.1.1").unwrap();
    assert!(channel_accepts(&current, &ReleaseVersion::parse("0.1.2").unwrap()));
    assert!(!channel_accepts(&current, &ReleaseVersion::parse("0.1.2-preview.1").unwrap()));
}

#[test]
fn preview_channel_is_the_first_identifier() {
    assert!(is_preview_part("preview"));
    assert!(is_preview_part("preview.7"));
    assert!(!is_preview_part("previews.7"));
    assert!(!is_preview_part("beta.preview"));
    assert!(!is_preview_part(""));
    assert!(ReleaseVersion::parse("0.2.0-preview.1").unwrap().is_preview());
    assert!(!ReleaseVersion::parse("0.2.0").unwrap().is_preview());
    assert!(ReleaseVersion::parse("0.2").is_err());
    assert!(channel_rule_after(true, "", ""));
    assert!(!channel_rule_after(false, "", ""));
    assert!(!channel_rule_after(true, "", "rc.1"));
}

fn asset(name: &str, url: &str) -> ReleaseAsset {
    ReleaseAsset { name: name.to_string(), download_url: url.to_string() }
}

fn release(version: &str, assets: Vec<ReleaseAsset>) -> ReleaseInfo {
    ReleaseInfo { version: version.to_string(), body: Some("notes".to_string()), assets }
}

#[test]
fn release_tags_lose_their_leading_v() {
    assert_eq!(version_text_of("v1.2.3"), "1.2.3");
    assert_eq!(version_text_of("vv0.1.0"), "0.1.0");
    assert_eq!(version_text_of("1.0.0-v2"), "1.0.0-v2");
}

#[test]
fn preview_builds_pick_the_newest_preview_release() {
    let current = ReleaseVersion::parse("0.1.1-preview.42").unwrap();
    let listed = vec![
        release("v0.1.1-preview.44", vec![]),
        release("v0.1.2", vec![]),
        release("v0.1.1-preview.50", vec![]),
        release("not-a-version", vec![]),
        release("v0.1.1-preview.43", vec![]),
    ];
    assert_eq!(newest_offered_release(&current, &listed), Some(2));
    assert_eq!(newest_offered_release(&current, &listed[..2]), Some(0));
    assert_eq!(newest_offered_release(&current, &listed[1..2]), None);
}

#[test]
fn candidates_need_a_platform_archive_its_checksum_and_github_urls() {
    let current = ReleaseVersion::parse("0.1.1").unwrap();
    let good = vec![
        asset("app-macos-arm64.zip", "https://github.com/o/r/a"),
        asset("app-linux-x64.zip", "https://github.com/o/r/b"),
        asset("app-linux-x64.zip.sha256", "https://github.com/o/r/c"),
    ];
    let c = candidate_from_release(&current, &release("v0.1.2", good.clone()), "linux-x64")
        .unwrap()
        .unwrap();
    assert_eq!(
        c,
        UpdateCandidate {
            version: "0.1.2".to_string(),
            notes: Some("notes".to_string()),
            archive_url: "https://github.com/o/r/b".to_string(),
            checksum_url: "https://github.com/o/r/c".to_string(),
            archive_name: "app-linux-x64.zip".to_string(),
        }
    );
    assert_eq!(candidate_from_release(&current, &release("v0.1.1", good.clone()), "linux-x64"), Ok(None));
    assert_eq!(
        candidate_from_release(&current, &release("latest", good.clone()), "linux-x64"),
        Err("リリースのバージョン情報が不正です".to_string())
    );
    assert_eq!(
        candidate_from_release(&current, &release("v0.1.2", good.clone()), "windows-x64"),
        Err("このOS/CPU向けの更新がありません (windows-x64)".to_string())
    );
    assert_eq!(
        candidate_from_release(&current, &release("v0.1.2", good[..2].to_vec()), "linux-x64"),
        Err("更新のSHA-256ファイルがありません".to_string())
    );
    let mirrored = vec![
        asset("app-linux-x64.zip", "https://example.com/b"),
        asset("app-linux-x64.zip.sha256", "https://github.com/o/r/c"),
    ];
    assert_eq!(
        candidate_from_release(&current, &release("v0.1.2", mirrored), "linux-x64"),
        Err("信頼されていない更新URLを拒否しました".to_string())
    );
}

#[test]
fn update_phases_have_header_labels() {
    assert_eq!(UpdatePhase::Idle.label(), "最新");
    assert_eq!(UpdatePhase::Checking.label(), "更新確認中");
    assert_eq!(UpdatePhase::Downloading(42).label(), "ダウンロード中 42%");
    assert_eq!(UpdatePhase::Downloading(0).label(), "ダウンロード中 0%");
    assert_eq!(UpdatePhase::Verifying.label(), "検証中");
    assert_eq!(UpdatePhase::WaitingForSafeExit.label(), "更新待機中");
    assert_eq!(UpdatePhase::Failed("x".to_string()).label(), "更新失敗");
}

#[test]
fn staged_update_is_applied_after_five_quiet_seconds() {
    let mut c = RestartCountdown::new();
    assert_eq!(c.tick(false), CountdownAction::Nothing);
    assert!(!c.on_event(&UpdatePhase::Verifying, false));
    assert!(!c.on_event(&UpdatePhase::WaitingForSafeExit, true));
    assert_eq!(c.tick(false), CountdownAction::Nothing);
    assert!(c.on_event(&UpdatePhase::WaitingForSafeExit, false));
    let mut shown = Vec::new();
    for _ in 0..25 {
        match c.tick(false) {
            CountdownAction::Show(v) => shown.push(v),
            other => panic!("unexpected {other:?}"),
        }
    }
    let expected: Vec<u8> = [5u8, 4, 3, 2, 1].iter().flat_map(|v| [*v; 5]).collect();
    assert_eq!(shown, expected);
    assert_eq!(c.tick(false), CountdownAction::Apply);
    // Nothing was staged yet: the countdown keeps asking.
    assert_eq!(c.tick(false), CountdownAction::Apply);
    c.apply_failed();
    assert_eq!(c.tick(false), CountdownAction::Nothing);
}

#[test]
fn connecting_a_vehicle_cancels_the_countdown() {
    let mut c = RestartCountdown::new();
    assert!(c.on_event(&UpdatePhase::WaitingForSafeExit, false));
    assert_eq!(c.tick(false), CountdownAction::Show(5));
    assert_eq!(c.tick(true), CountdownAction::Cancelled);
    assert_eq!(c.tick(false), CountdownAction::Nothing);
    // A new event restarts it from five seconds.
    assert!(c.on_event(&UpdatePhase::WaitingForSafeExit, false));
    assert_eq!(c.tick(false), CountdownAction::Show(5));
    assert_eq!(CountdownAction::Show(3).label().as_deref(), Some("3秒後に再起動"));
    assert_eq!(CountdownAction::Cancelled.label().as_deref(), Some("更新待機中"));
    assert_eq!(CountdownAction::Apply.label().as_deref(), Some("更新適用中"));
    assert_eq!(CountdownAction::Nothing.label(), None);
}
