//! Versions, settings and the schedule of update checks.

use std::time::{SystemTime, UNIX_EPOCH};

use antigravity_upstream::platform::{
    brew_args, brew_upgrade_cask, caskroom_paths, is_appimage_running, is_homebrew_installed,
    BrewAction, BrewEvent, BrewRun,
};
use antigravity_upstream::proxy_url::{
    get_upstream_proxy_url, proxy_env_vars, UpstreamProxyConfig,
};
use antigravity_upstream::settings::{
    default_channel, load_update_settings, save_update_settings, settings_or_default,
    should_check_for_updates, update_last_check_time, SettingsFile, SettingsWrite, UpdateChannel,
    UpdateSettings,
};
use antigravity_upstream::status::HttpStatus;
use antigravity_upstream::update_check::{
    check_for_updates, check_for_updates_internal, check_static_url,
    fetch_prerelease_updater_json_url, on_api, on_asset, on_package_json, on_prerelease_assets,
    on_updater_json, ApiFetched, CheckNext, CheckStep, Fetched, FetchedAnyway, PackageSource,
};
use antigravity_upstream::update_info::{
    info_from_package_json, info_from_release, info_from_updater_json, GitHubRelease,
    GitHubReleaseAsset, PackageJson, Timestamp, UpdateInfo, UpdaterJson,
};
use antigravity_upstream::version::compare_versions;

fn now() -> u64 {
    SystemTime::now().duration_since(UNIX_EPOCH).unwrap().as_secs()
}

#[test]
fn test_compare_versions() {
    assert!(compare_versions("3.3.36", "3.3.35"));
    assert!(compare_versions("3.4.0", "3.3.35"));
    assert!(compare_versions("4.0.3", "3.3.35"));
    assert!(!compare_versions("3.3.34", "3.3.35"));
    assert!(!compare_versions("3.3.35", "3.3.35"));

    // Pre-release tests
    assert!(compare_versions("4.8.1-beta.2", "4.8.1-beta.1"));
    assert!(!compare_versions("4.8.1-beta.1", "4.8.1-beta.2"));
    assert!(compare_versions("4.8.1", "4.8.1-beta.2")); // a release is after its pre-releases
    assert!(!compare_versions("4.8.1-beta.2", "4.8.1"));
    assert!(compare_versions("4.8.2-beta.1", "4.8.1"));
}

#[test]
fn test_should_check_for_updates() {
    let mut settings = UpdateSettings::default();
    assert!(should_check_for_updates(&settings, now()));

    settings.last_check_time = now();
    assert!(!should_check_for_updates(&settings, now()));

    settings.auto_check = false;
    assert!(!should_check_for_updates(&settings, now()));
}

// ----- Settings -----

fn settings(last: u64, interval: u64) -> UpdateSettings {
    UpdateSettings {
        auto_check: true,
        last_check_time: last,
        check_interval_hours: interval,
        update_channel: UpdateChannel::Stable,
    }
}

#[test]
fn checks_are_due_when_whole_hours_have_passed() {
    assert!(!should_check_for_updates(&settings(1000, 2), 1000 + 2 * 3600 - 1));
    assert!(should_check_for_updates(&settings(1000, 2), 1000 + 2 * 3600));
    // No interval means a day.
    assert!(!should_check_for_updates(&settings(0, 0), 24 * 3600 - 1));
    assert!(should_check_for_updates(&settings(0, 0), 24 * 3600));
    let off = UpdateSettings { auto_check: false, ..settings(0, 1) };
    assert!(!should_check_for_updates(&off, u64::MAX));
    // The clock was set back: no time has passed.
    assert!(!should_check_for_updates(&settings(1000, 1), 999));
    assert!(!should_check_for_updates(&settings(u64::MAX, 1), 0));
    assert!(!should_check_for_updates(&settings(10_000, 1), 10_000 + 3599));
    // Off, the time of the last check does not matter.
    let ahead = UpdateSettings { auto_check: false, ..settings(u64::MAX, 1) };
    assert!(!should_check_for_updates(&ahead, 0));
}

#[test]
fn settings_are_loaded_and_stored() {
    let e = || "boom".to_string();
    assert_eq!(
        load_update_settings(SettingsFile::NoDataDir(e())).unwrap_err(),
        "Failed to get data dir: boom"
    );
    assert_eq!(
        load_update_settings(SettingsFile::Unreadable(e())).unwrap_err(),
        "Failed to read settings file: boom"
    );
    assert_eq!(
        load_update_settings(SettingsFile::Invalid(e())).unwrap_err(),
        "Failed to parse settings: boom"
    );
    let fresh = load_update_settings(SettingsFile::Missing).unwrap();
    assert!(fresh == UpdateSettings::default());
    assert!(fresh.auto_check);
    assert_eq!(fresh.last_check_time, 0);
    assert_eq!(fresh.check_interval_hours, 24);
    assert_eq!(fresh.update_channel, UpdateChannel::Stable);
    let stored = load_update_settings(SettingsFile::Read(settings(7, 3))).unwrap();
    assert!(stored == settings(7, 3));

    assert!(settings_or_default(Ok(settings(7, 3))) == settings(7, 3));
    assert!(settings_or_default(Err(e())) == UpdateSettings::default());

    assert!(update_last_check_time(Ok(settings(7, 3)), 99).unwrap() == settings(99, 3));
    assert_eq!(update_last_check_time(Err(e()), 99).unwrap_err(), "boom");

    assert_eq!(
        save_update_settings(SettingsWrite::NoDataDir(e())).unwrap_err(),
        "Failed to get data dir: boom"
    );
    assert_eq!(
        save_update_settings(SettingsWrite::NotSerialized(e())).unwrap_err(),
        "Failed to serialize settings: boom"
    );
    assert_eq!(
        save_update_settings(SettingsWrite::NotWritten(e())).unwrap_err(),
        "Failed to write settings file: boom"
    );
    assert!(save_update_settings(SettingsWrite::Written).is_ok());
}

#[test]
fn pre_releases_follow_the_beta_channel() {
    assert_eq!(default_channel("4.8.1"), UpdateChannel::Stable);
    assert_eq!(default_channel("4.8.1-beta.2"), UpdateChannel::Beta);
}

// ----- Platform -----

#[test]
fn installations_are_told_apart() {
    assert_eq!(
        caskroom_paths(),
        vec![
            "/opt/homebrew/Caskroom/antigravity-tools",
            "/usr/local/Caskroom/antigravity-tools"
        ]
    );
    assert!(is_homebrew_installed(true, &vec![false, true]));
    assert!(is_homebrew_installed(true, &vec![true, false]));
    assert!(!is_homebrew_installed(true, &vec![false, false]));
    assert!(!is_homebrew_installed(false, &vec![true, true]));
    assert!(is_appimage_running(true, true));
    assert!(!is_appimage_running(true, false));
    assert!(!is_appimage_running(false, true));
}

fn done(action: BrewAction) -> Result<String, String> {
    match action {
        BrewAction::Done(r) => r,
        _ => panic!("not over"),
    }
}

fn finished(success: bool, stdout: &[u8], stderr: &[u8]) -> Result<String, String> {
    done(brew_upgrade_cask(BrewEvent::Ran(BrewRun::Finished {
        success,
        stdout: stdout.to_vec(),
        stderr: stderr.to_vec(),
    })))
}

#[test]
fn homebrew_upgrades_run_their_course() {
    let err = |key: &str| Err(key.to_string());
    assert_eq!(brew_args(), vec!["upgrade", "--cask", "antigravity-tools"]);
    assert_eq!(
        done(brew_upgrade_cask(BrewEvent::Start { on_macos: false })),
        err("brew_not_supported")
    );
    assert!(matches!(
        brew_upgrade_cask(BrewEvent::Start { on_macos: true }),
        BrewAction::Probe
    ));
    let probe = |opt_homebrew, usr_local| {
        brew_upgrade_cask(BrewEvent::Probed { opt_homebrew, usr_local })
    };
    assert!(matches!(probe(true, true), BrewAction::Run { brew: "/opt/homebrew/bin/brew" }));
    assert!(matches!(probe(false, true), BrewAction::Run { brew: "/usr/local/bin/brew" }));
    assert_eq!(done(probe(false, false)), err("brew_not_found"));

    assert_eq!(done(brew_upgrade_cask(BrewEvent::Ran(BrewRun::TimedOut))), err("brew_timeout"));
    assert_eq!(
        done(brew_upgrade_cask(BrewEvent::Ran(BrewRun::NotStarted))),
        err("brew_exec_failed")
    );
    assert_eq!(finished(true, b"done", b"already installed"), Ok("done".to_string()));
    assert_eq!(finished(true, b"a\xffb", b""), Ok("a\u{fffd}b".to_string()));
    assert_eq!(finished(true, "é".as_bytes(), b""), Ok("é".to_string()));
    assert_eq!(finished(false, b"x", b"is already installed"), err("brew_already_latest"));
    assert_eq!(finished(false, b"already installed", b""), err("brew_already_latest"));
    assert_eq!(finished(false, b"already", b" installed"), err("brew_upgrade_failed"));
}

// ----- Proxies -----

#[test]
fn the_proxy_is_chosen() {
    assert_eq!(
        proxy_env_vars(),
        vec!["HTTPS_PROXY", "https_proxy", "ALL_PROXY", "all_proxy", "HTTP_PROXY", "http_proxy"]
    );
    let config = |enabled, url: &str| UpstreamProxyConfig { enabled, url: url.to_string() };
    let none = || vec![None, None, None, None, None, None];
    let env = || {
        vec![None, Some("  ".to_string()), Some(" e:1 ".to_string()), Some("f:2".to_string()), None, None]
    };
    let text = |s: &str| Some(s.to_string());

    assert_eq!(
        get_upstream_proxy_url(Some(&config(true, " 127.0.0.1:7890 ")), &env()),
        text("http://127.0.0.1:7890")
    );
    assert_eq!(
        get_upstream_proxy_url(Some(&config(true, "socks5://h:1")), &none()),
        text("socks5://h:1")
    );
    assert_eq!(get_upstream_proxy_url(Some(&config(false, "h:1")), &env()), text("http://e:1"));
    assert_eq!(get_upstream_proxy_url(Some(&config(true, " \t")), &env()), text("http://e:1"));
    assert_eq!(get_upstream_proxy_url(None, &env()), text("http://e:1"));
    assert_eq!(get_upstream_proxy_url(None, &none()), None);
}

// ----- Documents -----

fn moment() -> Timestamp {
    Timestamp::new(1_700_000_000, 5_000_000).unwrap()
}

const MOMENT: &str = "2023-11-14T22:13:20.005+00:00";

fn updater(version: &str) -> UpdaterJson {
    UpdaterJson { version: version.to_string(), notes: None, pub_date: None }
}

fn release(tag: &str, prerelease: bool, assets: &[&str]) -> GitHubRelease {
    GitHubRelease {
        tag_name: tag.to_string(),
        html_url: format!("https://example.org/{}", tag),
        body: None,
        published_at: None,
        prerelease,
        assets: assets
            .iter()
            .map(|name| GitHubReleaseAsset {
                name: name.to_string(),
                browser_download_url: format!("https://example.org/{}/{}", tag, name),
            })
            .collect(),
    }
}

fn package(version: &str) -> PackageJson {
    PackageJson { version: version.to_string() }
}

#[test]
fn moments_are_written_by_rfc_3339() {
    assert_eq!(moment().rfc3339(), MOMENT);
    assert_eq!(Timestamp::new(0, 0).unwrap().rfc3339(), "1970-01-01T00:00:00+00:00");
    let last = Timestamp::new(8_210_266_876_799, 999_999_999).unwrap();
    assert_eq!(last.rfc3339(), "+262142-12-31T23:59:59.999999999+00:00");
    assert!(Timestamp::new(8_210_266_876_800, 0).is_none());
    assert!(Timestamp::new(-1, 0).is_none());
    assert!(Timestamp::new(0, 1_000_000_000).is_none());
}

#[test]
fn updater_json_tells_of_updates() {
    let info = info_from_updater_json(UpdateChannel::Stable, updater("v4.8.2"), "4.8.1", &moment());
    assert_eq!(info.current_version, "4.8.1");
    assert_eq!(info.latest_version, "4.8.2");
    assert!(info.has_update);
    assert_eq!(
        info.download_url,
        "https://github.com/lbjlaq/Antigravity-Manager/releases/tag/v4.8.2"
    );
    assert_eq!(info.release_notes, "Release notes available on GitHub.");
    assert_eq!(info.published_at, MOMENT);
    assert_eq!(info.source.as_deref(), Some("Stable updater.json"));
    assert_eq!(info.proxy_url, None);
    assert_eq!(info.channel, Some(UpdateChannel::Stable));
    assert_eq!(
        info.updater_json_url.as_deref(),
        Some("https://github.com/lbjlaq/Antigravity-Manager/releases/latest/download/updater.json")
    );

    let doc = UpdaterJson {
        version: "4.8.1-beta.1".to_string(),
        notes: Some("notes".to_string()),
        pub_date: Some("today".to_string()),
    };
    let info = info_from_updater_json(UpdateChannel::Beta, doc, "4.8.1", &moment());
    assert!(!info.has_update);
    assert_eq!(info.release_notes, "notes");
    assert_eq!(info.published_at, "today");
    assert_eq!(info.source.as_deref(), Some("Beta updater.json"));
    assert_eq!(
        info.updater_json_url.as_deref(),
        Some("https://github.com/lbjlaq/Antigravity-Manager/releases/download/preview/updater.json")
    );
}

#[test]
fn releases_tell_of_updates() {
    let mut r = release("v5.0.0", false, &[]);
    r.body = Some("body".to_string());
    r.published_at = Some("yesterday".to_string());
    let info = info_from_release(UpdateChannel::Stable, r, "4.8.1", &moment());
    assert_eq!(info.latest_version, "5.0.0");
    assert!(info.has_update);
    assert_eq!(info.download_url, "https://example.org/v5.0.0");
    assert_eq!(info.release_notes, "body");
    assert_eq!(info.published_at, "yesterday");
    assert_eq!(info.source.as_deref(), Some("GitHub API (Stable)"));
    assert_eq!(info.channel, Some(UpdateChannel::Stable));
    assert_eq!(info.updater_json_url, None);

    let info = info_from_release(UpdateChannel::Beta, release("v1", true, &[]), "4.8.1", &moment());
    assert!(!info.has_update);
    assert_eq!(info.release_notes, "");
    assert_eq!(info.published_at, MOMENT);
    assert_eq!(info.source.as_deref(), Some("GitHub API (Beta)"));
}

#[test]
fn package_json_tells_of_updates() {
    let info = info_from_package_json("GitHub Raw", package("v4.9"), "4.8.1", &moment());
    assert_eq!(info.latest_version, "v4.9");
    assert!(info.has_update);
    assert_eq!(
        info.download_url,
        "https://github.com/lbjlaq/Antigravity-Manager/releases/latest"
    );
    assert_eq!(
        info.release_notes,
        "New version detected via GitHub Raw. Please check release page for details."
    );
    assert_eq!(info.published_at, MOMENT);
    assert_eq!(info.source.as_deref(), Some("GitHub Raw"));
    assert_eq!(info.channel, Some(UpdateChannel::Stable));
    assert_eq!(info.updater_json_url, None);
}

// ----- The course of a check -----

fn status(code: u16) -> HttpStatus {
    HttpStatus::new(code).unwrap()
}

fn failed<T>() -> Fetched<T> {
    Fetched::NotSent("offline".to_string())
}

fn found(next: CheckNext) -> UpdateInfo {
    assert_eq!(next.warning, None);
    match next.step {
        CheckStep::Done(Ok(info)) => info,
        _ => panic!("nothing found"),
    }
}

fn goes_to_api(next: CheckNext, channel: UpdateChannel, warning: &str) {
    assert_eq!(next.warning.as_deref(), Some(warning));
    assert!(matches!(next.step, CheckStep::Api(c) if c == channel));
}

#[test]
fn the_first_source_is_updater_json() {
    for channel in [UpdateChannel::Stable, UpdateChannel::Beta] {
        assert!(matches!(
            check_for_updates_internal(channel),
            CheckStep::Updater(c) if c == channel
        ));
        let next = on_updater_json(channel, Fetched::Body(Ok(updater("9.9"))), &moment());
        assert_eq!(found(next).latest_version, "9.9");
    }
    goes_to_api(
        on_updater_json(UpdateChannel::Stable, failed(), &moment()),
        UpdateChannel::Stable,
        "Stable updater.json check failed: updater.json returned offline. Trying fallbacks...",
    );
    goes_to_api(
        on_updater_json(UpdateChannel::Stable, Fetched::Rejected(status(404)), &moment()),
        UpdateChannel::Stable,
        "Stable updater.json check failed: updater.json returned status 404 Not Found. \
         Trying fallbacks...",
    );
    goes_to_api(
        on_updater_json(UpdateChannel::Beta, Fetched::Body(Err("bad".to_string())), &moment()),
        UpdateChannel::Beta,
        "Beta updater.json check failed: Failed to parse updater.json: bad. Trying fallbacks...",
    );
    goes_to_api(
        on_updater_json(UpdateChannel::Beta, Fetched::NoClient("tls".to_string()), &moment()),
        UpdateChannel::Beta,
        "Beta updater.json check failed: Failed to create HTTP client: tls. Trying fallbacks...",
    );
}

#[test]
fn the_beta_channel_looks_among_pre_releases() {
    let next = on_updater_json(UpdateChannel::Beta, Fetched::Rejected(status(404)), &moment());
    assert_eq!(next.warning, None);
    let why = match next.step {
        CheckStep::PrereleaseAssets(why) => why,
        _ => panic!("does not look on"),
    };
    assert_eq!(why, "updater.json returned status 404 Not Found");

    let list = vec![
        release("v1", false, &["updater.json"]),
        release("v2", true, &["other.txt"]),
        release("v3", true, &["other.txt", "Updater.JSON", "updater.json"]),
        release("v4", true, &["updater.json"]),
    ];
    let next = on_prerelease_assets(why.clone(), Fetched::Body(Ok(list)));
    assert!(matches!(
        next.step,
        CheckStep::Asset(url) if url == "https://example.org/v3/Updater.JSON"
    ));

    // Without such a file the first failure is what is reported.
    goes_to_api(
        on_prerelease_assets(why, Fetched::Body(Ok(vec![release("v1", false, &["updater.json"])]))),
        UpdateChannel::Beta,
        "Beta updater.json check failed: updater.json returned status 404 Not Found. \
         Trying fallbacks...",
    );

    // The file of a pre-release is read whatever its status.
    let next = on_asset(FetchedAnyway::Body(Ok(updater("v4.9.0-beta.1"))), &moment());
    let info = found(next);
    assert_eq!(info.latest_version, "4.9.0-beta.1");
    assert_eq!(info.channel, Some(UpdateChannel::Beta));
    goes_to_api(
        on_asset(FetchedAnyway::NotSent("offline".to_string()), &moment()),
        UpdateChannel::Beta,
        "Beta updater.json check failed: Request failed: offline. Trying fallbacks...",
    );
    goes_to_api(
        on_asset(FetchedAnyway::Body(Err("bad".to_string())), &moment()),
        UpdateChannel::Beta,
        "Beta updater.json check failed: Failed to parse updater.json: bad. Trying fallbacks...",
    );
}

#[test]
fn failures_to_list_pre_releases_are_told() {
    let err = |f| fetch_prerelease_updater_json_url(f).unwrap_err();
    assert_eq!(err(failed()), "Failed to query releases: offline");
    assert_eq!(
        err(Fetched::Rejected(status(503))),
        "Releases API returned status 503 Service Unavailable"
    );
    assert_eq!(err(Fetched::Body(Err("bad".to_string()))), "Failed to parse releases: bad");
    assert_eq!(
        err(Fetched::Body(Ok(vec![]))),
        "No updater.json found in latest pre-releases"
    );
    assert_eq!(err(Fetched::NoClient("tls".to_string())), "Failed to create HTTP client: tls");
}

#[test]
fn the_second_source_is_github() {
    let info = found(on_api(
        ApiFetched::Latest(Fetched::Body(Ok(release("v9.9", false, &[])))),
        &moment(),
    ));
    assert_eq!(info.source.as_deref(), Some("GitHub API (Stable)"));

    let list = vec![release("v9.9", false, &[]), release("v9.8-b", true, &[]), release("v9.7-b", true, &[])];
    let info = found(on_api(ApiFetched::List(Fetched::Body(Ok(list))), &moment()));
    assert_eq!(info.latest_version, "9.8-b");
    assert_eq!(info.channel, Some(UpdateChannel::Beta));

    let warning = |fetched| {
        let next = on_api(fetched, &moment());
        next.warning.unwrap()
    };
    assert_eq!(
        warning(ApiFetched::Latest(failed())),
        "GitHub API (Stable) check failed: Request failed: offline. Trying static fallbacks..."
    );
    assert_eq!(
        warning(ApiFetched::Latest(Fetched::Rejected(status(403)))),
        "GitHub API (Stable) check failed: GitHub API returned status: 403 Forbidden. \
         Trying static fallbacks..."
    );
    assert_eq!(
        warning(ApiFetched::Latest(Fetched::Body(Err("bad".to_string())))),
        "GitHub API (Stable) check failed: Failed to parse release info: bad. \
         Trying static fallbacks..."
    );
    assert_eq!(
        warning(ApiFetched::List(Fetched::Body(Err("bad".to_string())))),
        "GitHub API (Beta) check failed: Failed to parse releases: bad. \
         Trying static fallbacks..."
    );
    assert_eq!(
        warning(ApiFetched::List(Fetched::Body(Ok(vec![release("v1", false, &[])])))),
        "GitHub API (Beta) check failed: No pre-release found on GitHub. \
         Trying static fallbacks..."
    );
    assert_eq!(
        warning(ApiFetched::List(Fetched::NoClient("tls".to_string()))),
        "GitHub API (Beta) check failed: Failed to create HTTP client: tls. \
         Trying static fallbacks..."
    );
}

#[test]
fn the_stable_channel_ends_with_package_json() {
    let next = on_api(ApiFetched::Latest(failed()), &moment());
    assert!(matches!(next.step, CheckStep::Package(PackageSource::GitHubRaw)));
    let next = on_package_json(PackageSource::GitHubRaw, failed(), &moment());
    assert_eq!(next.warning, None);
    assert!(matches!(next.step, CheckStep::Package(PackageSource::JsDelivr)));
    let info = found(on_package_json(
        PackageSource::JsDelivr,
        Fetched::Body(Ok(package("9.9"))),
        &moment(),
    ));
    assert_eq!(info.source.as_deref(), Some("jsDelivr"));
    let next = on_package_json(PackageSource::JsDelivr, Fetched::Rejected(status(500)), &moment());
    assert!(matches!(
        next.step,
        CheckStep::Done(Err(e))
            if e == "Failed to fetch updates for Stable channel. Please check network/proxy settings."
    ));
    assert_eq!(
        PackageSource::GitHubRaw.url(),
        "https://raw.githubusercontent.com/lbjlaq/Antigravity-Manager/main/package.json"
    );
    assert_eq!(
        PackageSource::JsDelivr.url(),
        "https://cdn.jsdelivr.net/gh/lbjlaq/Antigravity-Manager@main/package.json"
    );
}

#[test]
fn failures_of_package_json_are_told() {
    let err = |f| check_static_url("GitHub Raw", f, &moment()).unwrap_err();
    assert_eq!(err(failed()), "Request failed: offline");
    assert_eq!(
        err(Fetched::Rejected(status(404))),
        "GitHub Raw returned status: 404 Not Found"
    );
    assert_eq!(err(Fetched::Body(Err("bad".to_string()))), "Failed to parse package.json: bad");
    assert_eq!(err(Fetched::NoClient("tls".to_string())), "Failed to create HTTP client: tls");
}

#[test]
fn the_beta_channel_skips_package_json() {
    let next = on_api(ApiFetched::List(failed()), &moment());
    assert!(matches!(
        next.step,
        CheckStep::Done(Err(e))
            if e == "Failed to fetch updates for Beta channel. Please check network/proxy settings."
    ));
}

/// Runs a whole check. Of the places that it may ask, those in `up` answer, each with
/// a version of its own.
fn whole_check(channel: UpdateChannel, up: &[&str]) -> Result<String, String> {
    let ok = |place: &str| up.contains(&place);
    let mut step = check_for_updates_internal(channel);
    for _ in 0..6 {
        let next = match step {
            CheckStep::Done(r) => return r.map(|info| info.latest_version),
            CheckStep::Updater(c) => {
                let fetched = if ok("updater") { Fetched::Body(Ok(updater("9.1"))) } else { failed() };
                on_updater_json(c, fetched, &moment())
            }
            CheckStep::PrereleaseAssets(why) => on_prerelease_assets(
                why,
                if ok("list") {
                    Fetched::Body(Ok(vec![release("v9.2", true, &["updater.json"])]))
                } else {
                    failed()
                },
            ),
            CheckStep::Asset(url) => {
                assert_eq!(url, "https://example.org/v9.2/updater.json");
                let fetched = if ok("asset") {
                    FetchedAnyway::Body(Ok(updater("9.2")))
                } else {
                    FetchedAnyway::NotSent("offline".to_string())
                };
                on_asset(fetched, &moment())
            }
            CheckStep::Api(c) => {
                let fetched = match (c, ok("api")) {
                    (UpdateChannel::Stable, true) => {
                        ApiFetched::Latest(Fetched::Body(Ok(release("v9.3", false, &[]))))
                    }
                    (UpdateChannel::Stable, false) => ApiFetched::Latest(failed()),
                    (UpdateChannel::Beta, true) => {
                        ApiFetched::List(Fetched::Body(Ok(vec![release("v9.3", true, &[])])))
                    }
                    (UpdateChannel::Beta, false) => ApiFetched::List(failed()),
                };
                on_api(fetched, &moment())
            }
            CheckStep::Package(source) => {
                let (place, version) = match source {
                    PackageSource::GitHubRaw => ("raw", "9.4"),
                    PackageSource::JsDelivr => ("mirror", "9.5"),
                };
                let fetched = if ok(place) { Fetched::Body(Ok(package(version))) } else { failed() };
                on_package_json(source, fetched, &moment())
            }
        };
        step = next.step;
    }
    match step {
        CheckStep::Done(r) => r.map(|info| info.latest_version),
        _ => panic!("the check goes on"),
    }
}

#[test]
fn the_first_finding_wins() {
    let places = ["updater", "list", "asset", "api", "raw", "mirror"];
    for set in 0..64 {
        let up: Vec<&str> = (0..6).filter(|i| set >> i & 1 == 1).map(|i| places[i]).collect();
        let ok = |place: &str| up.contains(&place);
        for channel in [UpdateChannel::Stable, UpdateChannel::Beta] {
            let beta = channel == UpdateChannel::Beta;
            let version = if ok("updater") {
                "9.1"
            } else if beta && ok("list") && ok("asset") {
                "9.2"
            } else if ok("api") {
                "9.3"
            } else if !beta && ok("raw") {
                "9.4"
            } else if !beta && ok("mirror") {
                "9.5"
            } else {
                ""
            };
            match whole_check(channel, &up) {
                Ok(found) => assert_eq!(found, version, "{:?}", up),
                Err(e) => {
                    assert_eq!(version, "", "{:?}", up);
                    let name = if beta { "Beta" } else { "Stable" };
                    assert_eq!(
                        e,
                        format!(
                            "Failed to fetch updates for {} channel. \
                             Please check network/proxy settings.",
                            name
                        )
                    );
                }
            }
        }
    }
}

#[test]
fn results_note_proxy_and_channel() {
    let info = info_from_package_json("jsDelivr", package("9.9"), "4.8.1", &moment());
    let info = check_for_updates(Ok(info), UpdateChannel::Beta, Some("http://p".to_string())).unwrap();
    assert_eq!(info.proxy_url.as_deref(), Some("http://p"));
    assert_eq!(info.channel, Some(UpdateChannel::Beta));
    assert_eq!(info.latest_version, "9.9");
    let err = check_for_updates(Err("all failed".to_string()), UpdateChannel::Beta, None);
    assert_eq!(err.unwrap_err(), "all failed");
}
