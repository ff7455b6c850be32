use meta_launcher::account::{AuthChoice, MicrosoftAccount, UserSettings};
use meta_launcher::auth::{
    extract_code_from_redirect_url, open_microsoft_auth_modal, poll_redirect_url, AuthWait,
    AUTH_TIMEOUT_MS,
};
use meta_launcher::hash::hash_content;
use meta_launcher::manifest::{FileEntry, Manifest};
use meta_launcher::meta::{blank, join, MetaDirectories};
use meta_launcher::minecraft::{
    create_emitter_with_progress, get_loader_by_name, launch_minecraft_with_forge, loader_kind,
    plan_launch, LauncherComponent, LauncherProgress, LauncherSignal, LoaderKind, ModLoader,
};
use meta_launcher::modpack::{download_modpack, SyncSession};
use meta_launcher::plan::{find_stale_paths, SyncPlan};
use meta_launcher::progress::Phase;
use meta_launcher::session::{ErrorKind, Stage, SyncAction, SyncError, SyncEvent};
use meta_launcher::text::{chars_of, find};

fn text(value: &str) -> String {
    value.to_string()
}

fn account() -> MicrosoftAccount {
    MicrosoftAccount {
        xuid: text("2535"),
        exp: 1_900_000_000,
        uuid: text("069a79f4"),
        username: text("Notch"),
        access_token: text("access"),
        refresh_token: text("refresh"),
        client_id: text("client"),
    }
}

fn settings(method: &str, stored: Option<MicrosoftAccount>, ram: u16) -> UserSettings {
    UserSettings {
        username: text("Steve"),
        allocated_ram: ram,
        auth_method: text(method),
        microsoft_account: stored,
        client_token: None,
    }
}

fn entry(path: &str, content: &[u8]) -> FileEntry {
    FileEntry {
        path: text(path),
        sha1: hash_content(content),
        size: content.len() as u64,
        url: format!("https://files.example/{}", path),
    }
}

#[test]
fn join_puts_one_slash_between() {
    assert_eq!(join(&text("/data"), "meta"), "/data/meta");
    assert_eq!(join(&text("/data/"), "meta"), "/data/meta");
    assert_eq!(join(&text(""), "meta"), "meta");
    assert_eq!(join(&text("C:\\Users\\x"), "meta"), "C:\\Users\\x/meta");
}

#[test]
fn blank_knows_unicode_white_space() {
    assert!(blank(""));
    assert!(blank(" \t\r\n"));
    assert!(blank("\u{a0}\u{2003}\u{3000}\u{85}\u{1680}\u{2028}\u{2029}\u{202f}\u{205f}"));
    assert!(!blank(" a "));
    assert!(!blank("\u{200b}"));
    assert!(!blank("\u{180e}"));
    for code in 0..0x4000u32 {
        if let Some(ch) = char::from_u32(code) {
            assert_eq!(blank(&ch.to_string()), ch.is_whitespace(), "U+{:04X}", code);
        }
    }
}

#[test]
fn layout_below_the_own_directory_by_default() {
    let dirs = MetaDirectories::new(text("/home/u/.local/share/MetaLauncher"), None);
    let base = "/home/u/.local/share/MetaLauncher";
    assert_eq!(dirs.base, base);
    assert_eq!(dirs.get_root_dir(), base);
    assert_eq!(dirs.meta, format!("{}/meta", base));
    assert_eq!(dirs.libraries, format!("{}/meta/libraries", base));
    assert_eq!(dirs.assets, format!("{}/meta/assets", base));
    assert_eq!(dirs.versions, format!("{}/meta/versions", base));
    assert_eq!(dirs.java_versions, format!("{}/meta/java_versions", base));
    assert_eq!(dirs.caches, format!("{}/caches", base));
    assert_eq!(dirs.icons, format!("{}/caches/icons", base));
    assert_eq!(dirs.screenshots, format!("{}/caches/screenshots", base));
    assert_eq!(dirs.instances, format!("{}/instances", base));
    assert_eq!(dirs.default_instance, format!("{}/instances/MetaInstance", base));
    assert_eq!(dirs.settings_path(), format!("{}/settings.json", base));
}

#[test]
fn configured_root_wins_unless_blank() {
    let chosen = MetaDirectories::new(text("/base"), Some(text("/games/meta")));
    assert_eq!(chosen.root_dir, "/games/meta");
    assert_eq!(chosen.base, "/base");
    assert_eq!(chosen.default_instance, "/games/meta/instances/MetaInstance");
    assert_eq!(MetaDirectories::new(text("/base"), Some(text(""))).root_dir, "/base");
    assert_eq!(MetaDirectories::new(text("/base"), Some(text("  \t "))).root_dir, "/base");
    assert_eq!(MetaDirectories::new(text("/base"), Some(text(" x "))).root_dir, " x ");
}

#[test]
fn required_directories_in_order() {
    let dirs = MetaDirectories::new(text("/b"), Some(text("/r")));
    assert_eq!(
        dirs.ensure(),
        vec![
            "/b",
            "/r/meta",
            "/r/meta/libraries",
            "/r/meta/assets",
            "/r/meta/versions",
            "/r/meta/java_versions",
            "/r/caches",
            "/r/caches/icons",
            "/r/caches/screenshots",
            "/r/instances/MetaInstance/mods",
            "/r/instances/MetaInstance/config",
            "/r/instances/MetaInstance/saves",
        ]
    );
}

#[test]
fn moving_the_root_keeps_the_own_directory() {
    let mut dirs = MetaDirectories::new(text("/b"), None);
    dirs.set_root_dir(text("/elsewhere"));
    assert_eq!(dirs, MetaDirectories::new(text("/b"), Some(text("/elsewhere"))));
    assert_eq!(dirs.get_root_dir(), "/elsewhere");
    assert_eq!(dirs.settings_path(), "/b/settings.json");
}

#[test]
fn sign_in_follows_method_and_stored_account() {
    assert_eq!(
        settings("microsoft", Some(account()), 4).auth_choice(),
        AuthChoice::Microsoft {
            username: text("Notch"),
            xuid: text("2535"),
            uuid: text("069a79f4"),
            access_token: text("access"),
            refresh_token: text("refresh"),
        }
    );
    let offline = AuthChoice::Offline { username: text("Steve") };
    assert_eq!(settings("microsoft", None, 4).auth_choice(), offline);
    assert_eq!(settings("offline", Some(account()), 4).auth_choice(), offline);
    assert_eq!(settings("Microsoft", Some(account()), 4).auth_choice(), offline);
    assert_eq!(settings("", None, 4).auth_choice(), offline);
    assert_eq!(account().clone(), account());
}

#[test]
fn memory_is_at_least_one_gigabyte() {
    assert_eq!(settings("offline", None, 0).memory(), 1);
    assert_eq!(settings("offline", None, 1).memory(), 1);
    assert_eq!(settings("offline", None, 8).memory(), 8);
    assert_eq!(settings("offline", None, u16::MAX).memory(), u16::MAX);
}

/// The same reading, written with the standard library's splitting.
fn split_reading(url: &str) -> Result<String, String> {
    if let Some(code) = url.split("code=").nth(1).and_then(|rest| rest.split('&').next()) {
        Ok(code.to_string())
    } else if url.contains("error=") {
        let error = url
            .split("error=")
            .nth(1)
            .and_then(|rest| rest.split('&').next())
            .unwrap_or("Authentication failed");
        Err(format!("Microsoft authentication error: {}", error))
    } else {
        Err("No authorization code found in URL".to_string())
    }
}

#[test]
fn code_is_read_from_the_redirect_address() {
    assert_eq!(
        extract_code_from_redirect_url(
            "https://login.live.com/oauth20_desktop.srf?code=M.R3_BAY.abc-1&lc=1033"
        ),
        Ok(text("M.R3_BAY.abc-1"))
    );
    assert_eq!(extract_code_from_redirect_url("x?a=1&code=tail"), Ok(text("tail")));
    assert_eq!(extract_code_from_redirect_url("x?code=&a=1"), Ok(text("")));
    assert_eq!(extract_code_from_redirect_url("x?code=onecode=two"), Ok(text("one")));
    assert_eq!(extract_code_from_redirect_url("code="), Ok(text("")));
    assert_eq!(
        extract_code_from_redirect_url("x?error=access_denied&error_description=no"),
        Err(text("Microsoft authentication error: access_denied"))
    );
    assert_eq!(
        extract_code_from_redirect_url("https://example.org/"),
        Err(text("No authorization code found in URL"))
    );
    assert_eq!(extract_code_from_redirect_url(""), Err(text("No authorization code found in URL")));
}

#[test]
fn code_reading_agrees_with_splitting() {
    let pieces = ["", "code=", "error=", "&", "a", "cod", "e=", "=", "x&y", "code", "é"];
    for first in pieces {
        for second in pieces {
            for third in pieces {
                for fourth in pieces {
                    let url = format!("{}{}{}{}", first, second, third, fourth);
                    assert_eq!(extract_code_from_redirect_url(&url), split_reading(&url), "{}", url);
                }
            }
        }
    }
}

#[test]
fn polling_waits_for_code_or_error_on_the_redirect_page() {
    assert_eq!(poll_redirect_url("https://login.live.com/oauth20_authorize.srf?client_id=1"), None);
    assert_eq!(poll_redirect_url("https://x/?code=abc&s=1"), Some(Ok(text("abc"))));
    assert_eq!(
        poll_redirect_url("https://login.live.com/oauth20_desktop.srf?error=denied&x=1"),
        Some(Err(text("Microsoft authentication error: denied")))
    );
    // An error elsewhere than on the redirect page is not final.
    assert_eq!(poll_redirect_url("https://login.live.com/other?error=denied"), None);
    assert_eq!(poll_redirect_url("https://login.live.com/oauth20_desktop.srf"), None);
}

#[test]
fn waiting_for_sign_in() {
    assert_eq!(
        open_microsoft_auth_modal(Some(Ok(text("abc"))), 400_000, false),
        AuthWait::Finish { result: Ok(text("abc")), close_window: false }
    );
    assert_eq!(
        open_microsoft_auth_modal(Some(Err(text("no"))), 0, true),
        AuthWait::Finish { result: Err(text("no")), close_window: false }
    );
    assert_eq!(AUTH_TIMEOUT_MS, 300_000);
    assert_eq!(open_microsoft_auth_modal(None, 300_000, true), AuthWait::Sleep);
    assert_eq!(
        open_microsoft_auth_modal(None, 300_001, true),
        AuthWait::Finish { result: Err(text("Authentication timeout")), close_window: true }
    );
    assert_eq!(
        open_microsoft_auth_modal(None, 300_001, false),
        AuthWait::Finish { result: Err(text("Authentication timeout")), close_window: true }
    );
    assert_eq!(
        open_microsoft_auth_modal(None, 10, false),
        AuthWait::Finish {
            result: Err(text("Authentication window was closed")),
            close_window: false
        }
    );
    assert_eq!(open_microsoft_auth_modal(None, 10, true), AuthWait::Sleep);
}

#[test]
fn text_search() {
    let hay = chars_of("abcabc");
    assert_eq!(find(&hay, &chars_of("bc"), 0), Some(1));
    assert_eq!(find(&hay, &chars_of("bc"), 2), Some(4));
    assert_eq!(find(&hay, &chars_of("bc"), 5), None);
    assert_eq!(find(&hay, &chars_of("bc"), 100), None);
    assert_eq!(find(&hay, &chars_of(""), 0), Some(0));
    assert_eq!(find(&hay, &chars_of(""), 6), Some(6));
    assert_eq!(find(&hay, &chars_of(""), 7), None);
    assert_eq!(find(&hay, &chars_of("abcabcd"), 0), None);
    assert_eq!(find(&chars_of("aab"), &chars_of("ab"), 0), Some(1));
    assert_eq!(chars_of("héllo"), vec!['h', 'é', 'l', 'l', 'o']);
}

#[test]
fn loaders_by_name_in_any_case() {
    let forge = ModLoader { kind: LoaderKind::Forge, version: text("47.4.0") };
    assert_eq!(get_loader_by_name("forge", "47.4.0"), Ok(forge));
    assert_eq!(get_loader_by_name("Forge", "1").unwrap().kind, LoaderKind::Forge);
    assert_eq!(get_loader_by_name("FABRIC", "0.15").unwrap().kind, LoaderKind::Fabric);
    assert_eq!(get_loader_by_name("QuIlT", "0.2").unwrap().kind, LoaderKind::Quilt);
    assert_eq!(get_loader_by_name("NeoForge", "20").unwrap().kind, LoaderKind::NeoForge);
    assert_eq!(get_loader_by_name("NeoForge", "20").unwrap().version, "20");
    assert_eq!(get_loader_by_name("Rift", "1"), Err(text("Unsupported mod loader: Rift")));
    assert_eq!(get_loader_by_name("", "1"), Err(text("Unsupported mod loader: ")));
    assert_eq!(loader_kind(&text("forge")), Some(LoaderKind::Forge));
    assert_eq!(loader_kind(&text("Forge")), None);
    assert_eq!(loader_kind(&text("forge ")), None);
}

#[test]
fn launch_plan_for_forge() {
    let dirs = MetaDirectories::new(text("/b"), Some(text("/r")));
    let plan = launch_minecraft_with_forge(&settings("offline", None, 0), &dirs).unwrap();
    assert_eq!(plan.game_dir, "/r/meta");
    assert_eq!(plan.game_version, "1.20.1");
    assert_eq!(plan.auth, AuthChoice::Offline { username: text("Steve") });
    assert_eq!(plan.profile_name, "");
    assert_eq!(plan.instance_dir, "/r/instances/MetaInstance");
    assert_eq!(plan.runtime_dir, "/r/meta/java_versions/default/bin");
    assert_eq!(plan.memory_gigabytes, 1);
    assert_eq!(plan.loader, ModLoader { kind: LoaderKind::Forge, version: text("47.4.0") });
    let refused = plan_launch(&settings("offline", None, 6), &dirs, Err(text("no loader")));
    assert_eq!(refused, Err(text("no loader")));
    let quilt = ModLoader { kind: LoaderKind::Quilt, version: text("0.1") };
    let other = plan_launch(&settings("microsoft", Some(account()), 6), &dirs, Ok(quilt)).unwrap();
    assert_eq!(other.loader.kind, LoaderKind::Quilt);
    assert_eq!(other.memory_gigabytes, 6);
    assert!(matches!(other.auth, AuthChoice::Microsoft { .. }));
}

#[test]
fn download_counts_are_reported_with_percentage() {
    let signal = LauncherSignal::MultipleDownloadProgress {
        current_file: text("client.jar"),
        current: 3,
        total: 10,
    };
    assert_eq!(
        create_emitter_with_progress(&signal),
        Some(LauncherProgress {
            message: text("client.jar (3/10)"),
            percentage: Some(30),
            component: LauncherComponent::DownloadingGeneral,
            current: 3,
            total: 10,
        })
    );
    let nothing =
        LauncherSignal::MultipleDownloadProgress { current_file: text(""), current: 0, total: 0 };
    let report = create_emitter_with_progress(&nothing).unwrap();
    assert_eq!(report.message, " (0/0)");
    assert_eq!(report.percentage, Some(0));
    let over = LauncherSignal::MultipleDownloadProgress {
        current_file: text("f"),
        current: u64::MAX,
        total: 1_000_000_007,
    };
    let report = create_emitter_with_progress(&over).unwrap();
    assert_eq!(report.message, "f (18446744073709551615/1000000007)");
    assert_eq!(report.percentage, Some(100));
    assert_eq!(LauncherComponent::DownloadingGeneral.name(), "downloading_minecraft_general");
    assert_eq!(LauncherComponent::InstallingComponent.name(), "installing_component");
}

#[test]
fn console_lines_about_installing_are_reported() {
    let line = LauncherSignal::Console { line: text("[main] Installing forge 47.4.0") };
    assert_eq!(
        create_emitter_with_progress(&line),
        Some(LauncherProgress {
            message: text("Installing: [main] Installing forge 47.4.0"),
            percentage: None,
            component: LauncherComponent::InstallingComponent,
            current: 0,
            total: 0,
        })
    );
    assert_eq!(create_emitter_with_progress(&LauncherSignal::Console { line: text("installing") }), None);
    assert_eq!(create_emitter_with_progress(&LauncherSignal::Console { line: text("") }), None);
}

#[test]
fn stale_paths_are_those_the_remote_lacks() {
    let local =
        Manifest::new(text("1"), vec![entry("a", b"a"), entry("b", b"b"), entry("c", b"c")]).unwrap();
    let remote = Manifest::new(text("2"), vec![entry("b", b"new"), entry("d", b"d")]).unwrap();
    assert_eq!(find_stale_paths(&local, &remote), vec!["a", "c"]);
    assert!(find_stale_paths(&remote, &remote).is_empty());
    assert!(find_stale_paths(&Manifest::empty(text("0")), &remote).is_empty());
}

#[test]
fn plan_has_three_sets() {
    let local = Manifest::new(text("1"), vec![entry("a", b"a"), entry("b", b"b")]).unwrap();
    let remote = Manifest::new(text("2"), vec![entry("b", b"b"), entry("c", b"c")]).unwrap();
    let mut session = SyncSession::new();
    assert_eq!(session.plan(), None);
    let mut action;
    (session, _) = download_modpack(session, SyncEvent::Start);
    (session, _) = download_modpack(session, SyncEvent::RemoteManifest(remote));
    (session, action) = download_modpack(session, SyncEvent::LocalManifest(Some(local)));
    assert_eq!(action, SyncAction::ReadFile { path: text("b") });
    assert_eq!(session.stage(), Stage::Probing);
    assert_eq!(session.plan(), None);
    (session, action) = download_modpack(session, SyncEvent::FileContent(Some(b"b".to_vec())));
    assert_eq!(action, SyncAction::ReadFile { path: text("c") });
    (session, _) = download_modpack(session, SyncEvent::FileContent(None));
    assert_eq!(session.stage(), Stage::Preparing);
    assert_eq!(
        session.plan(),
        Some(SyncPlan {
            to_remove: vec![text("a")],
            to_fetch: vec![entry("c", b"c")],
            unchanged: vec![entry("b", b"b")],
        })
    );
    let failure = SyncError { kind: ErrorKind::Filesystem, context: text("a") };
    (session, _) = download_modpack(session, SyncEvent::Failed(failure));
    assert_eq!(session.plan(), None);
}

#[test]
fn failures_and_phases_in_words() {
    let failure = SyncError { kind: ErrorKind::Network, context: text("https://x/a.jar") };
    assert_eq!(failure.message(), "network error: https://x/a.jar");
    assert_eq!(
        SyncError { kind: ErrorKind::Parse, context: text("remote") }.message(),
        "malformed manifest: remote"
    );
    assert_eq!(
        SyncError { kind: ErrorKind::Filesystem, context: text("mods/a") }.message(),
        "file system error: mods/a"
    );
    assert_eq!(
        SyncError::out_of_sequence().message(),
        "driver error: report does not answer the pending action"
    );
    assert_eq!(Phase::Preparing.name(), "preparing");
    assert_eq!(Phase::Removing.name(), "removing");
    assert_eq!(Phase::Downloading.name(), "downloading");
    assert_eq!(Phase::Installing.name(), "installing");
    assert_eq!(Phase::UpToDate.name(), "up_to_date");
    assert_eq!(Phase::Complete.name(), "complete");
}
