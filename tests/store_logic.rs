use palethea_launcher::auth::{
    bearer, device_code_form, refresh_form, refresh_outcome, saved_microsoft_account, token_poll_form,
    xbl_identity_token, MicrosoftAccount,
    add_account, refresh_account, device_code_from_fields, get_form_field, next_poll_step, parse_form_encoded_pairs,
    profile_status_error, remove_account, set_active_account, truncate_body, AccountError, AccountsData,
    AuthError, PollStep, SavedAccount, TokenResponse,
};
use palethea_launcher::curseforge::{
    class_id_candidates_for_project_type, forced_categories_for_project_type, is_mc_version_tag,
    normalize_download_url, normalize_project_type, parse_loader_from_manifest, project_type_from_class_id,
    provider_from_project_id, release_type_label, CurseForgeManifestLoader, CurseForgeManifestMinecraft,
};
use palethea_launcher::downloader::{
    accept_download, asset_path, asset_url, client_jar_path, needs_download, plan_library_downloads,
    verify_sha1, DownloadError,
};
use palethea_launcher::files::{get_mods_dir, metadata_path, should_skip_pack_entry};
use palethea_launcher::forge::loader_version_candidates;
use palethea_launcher::instances::{clear_preferred_account, get_instance, update_instance, Instance, InstanceError, ModLoader};
use palethea_launcher::sessions::{
    clear_active_session, recover_orphaned_sessions, recovery_action, write_active_session, GameSession, Recovery,
};
use palethea_launcher::settings::{
    get_curseforge_api_key, get_instances_dir, get_launcher_version, get_minecraft_dir, has_curseforge_api_key,
    sanitize_api_key, LauncherVersion, Platform,
};
use palethea_launcher::supervisor::{is_running, on_game_exit, register_process, LaunchError, RunningProcessInfo, RunningProcesses};
use palethea_launcher::versions::{Artifact, Host, HostArch, HostOs, Library, LibraryDownloads, OsRule, Rule};

fn instance(id: &str) -> Instance {
    Instance::new(id.to_string(), format!("name-{}", id), "1.20.4".to_string(), "0".to_string())
}

fn session(id: &str, start: u64, pid: Option<u32>) -> GameSession {
    GameSession { instance_id: id.to_string(), start_time: start, pid, launch_username: None }
}

fn account(name: &str, uuid: &str, ms: bool) -> SavedAccount {
    SavedAccount {
        username: name.to_string(),
        uuid: uuid.to_string(),
        access_token: format!("at-{}", name),
        refresh_token: Some("rt".to_string()),
        is_microsoft: ms,
    }
}

#[test]
fn stale_session_is_discarded() {
    let now = 1_000_000u64;
    let s = session("a", now - 25 * 3600, Some(42));
    assert_eq!(recovery_action(&s, now, false), Recovery::Discard);
    let mut sessions = vec![s];
    let mut instances = vec![instance("a")];
    let (recovered, records) = recover_orphaned_sessions(&mut sessions, &vec![false], now, &mut instances);
    assert!(recovered.is_empty());
    assert!(records.is_empty());
    assert!(sessions.is_empty());
    assert_eq!(instances[0].playtime_seconds, 0);
}

#[test]
fn reattached_session_reports_playtime_before() {
    let mut a = instance("a");
    a.playtime_seconds = 50;
    let mut instances = vec![a, instance("b")];
    let mut sessions = vec![session("a", 100, Some(9)), session("b", 150, None)];
    let (recovered, records) = recover_orphaned_sessions(&mut sessions, &vec![true, false], 250, &mut instances);
    assert_eq!(recovered.len(), 2);
    assert_eq!(recovered[0].playtime_before, 50);
    assert_eq!(recovered[1].start_or_credit, 100);
    assert_eq!(records.len(), 1);
    assert_eq!(records[0].instance_id, "b");
    assert_eq!(sessions.len(), 1);
    assert_eq!(sessions[0].instance_id, "a");
    assert_eq!(instances[0].playtime_seconds, 50);
    assert_eq!(instances[1].playtime_seconds, 100);
}

#[test]
fn exited_session_credits_elapsed_time() {
    let t0 = 500_000u64;
    let mut inst = instance("a");
    inst.playtime_seconds = 1000;
    let mut instances = vec![inst];
    let mut sessions = vec![session("a", t0, Some(7))];
    let (recovered, records) = recover_orphaned_sessions(&mut sessions, &vec![false], t0 + 300, &mut instances);
    assert_eq!(instances[0].playtime_seconds, 1300);
    assert_eq!(recovered.len(), 1);
    assert_eq!(recovered[0].start_or_credit, 300);
    assert_eq!(recovered[0].playtime_before, 1000);
    assert_eq!(recovered[0].pid, None);
    assert_eq!(records.len(), 1);
    assert_eq!(records[0].instance_id, "a");
    assert_eq!(records[0].timestamp, t0 + 300);
    assert_eq!(records[0].duration_seconds, 300);
    assert!(sessions.is_empty());
}

#[test]
fn live_session_is_reattached_then_credited_once() {
    let mut instances = vec![instance("a")];
    let mut sessions = vec![session("a", 100, Some(9))];
    let (recovered, _) = recover_orphaned_sessions(&mut sessions, &vec![true], 200, &mut instances);
    assert_eq!(recovered.len(), 1);
    assert_eq!(recovered[0].pid, Some(9));
    assert_eq!(recovered[0].start_or_credit, 100);
    assert_eq!(recovered[0].playtime_before, 0);
    assert_eq!(sessions.len(), 1);
    assert_eq!(instances[0].playtime_seconds, 0);
    let mut running = RunningProcesses::new();
    register_process(&mut running, "a", RunningProcessInfo { pid: 9, start_time: 100 }).unwrap();
    assert!(is_running(&running, "a"));
    let rec = on_game_exit(&mut running, &mut sessions, &mut instances, "a", 700).unwrap();
    assert_eq!(rec.duration_seconds, 600);
    assert_eq!(instances[0].playtime_seconds, 600);
    assert!(!is_running(&running, "a"));
    assert!(sessions.is_empty());
    assert!(on_game_exit(&mut running, &mut sessions, &mut instances, "a", 900).is_none());
    assert_eq!(instances[0].playtime_seconds, 600);
}

#[test]
fn launch_refused_while_running() {
    let mut running = RunningProcesses::new();
    let info = RunningProcessInfo { pid: 1, start_time: 5 };
    assert_eq!(register_process(&mut running, "a", info), Ok(()));
    assert_eq!(register_process(&mut running, "a", info), Err(LaunchError::AlreadyRunning));
    assert_eq!(register_process(&mut running, "b", info), Ok(()));
}

#[test]
fn graceful_exit_adds_duration() {
    let mut instances = vec![instance("x"), instance("y")];
    let mut sessions = Vec::new();
    write_active_session(&mut sessions, "y", 1000, Some(3), Some("Steve".to_string()));
    let mut running = RunningProcesses::new();
    register_process(&mut running, "y", RunningProcessInfo { pid: 3, start_time: 1000 }).unwrap();
    on_game_exit(&mut running, &mut sessions, &mut instances, "y", 1300).unwrap();
    assert_eq!(instances[1].playtime_seconds, 300);
    assert_eq!(instances[0].playtime_seconds, 0);
}

#[test]
fn session_file_upsert_and_clear() {
    let mut sessions = Vec::new();
    write_active_session(&mut sessions, "a", 1, None, None);
    write_active_session(&mut sessions, "b", 2, Some(5), None);
    write_active_session(&mut sessions, "a", 3, Some(6), None);
    assert_eq!(sessions.len(), 2);
    assert_eq!(sessions[0].start_time, 3);
    clear_active_session(&mut sessions, "a");
    assert_eq!(sessions.len(), 1);
    assert_eq!(sessions[0].instance_id, "b");
}

#[test]
fn instance_update_and_lookup() {
    let mut instances = vec![instance("a"), instance("b")];
    let mut changed = instance("b");
    changed.name = "renamed".to_string();
    assert_eq!(update_instance(&mut instances, changed), Ok(()));
    assert_eq!(get_instance(&instances, "b").unwrap().name, "renamed");
    assert_eq!(update_instance(&mut instances, instance("zz")), Err(InstanceError::NotFound));
    assert!(get_instance(&instances, "zz").is_err());
}

#[test]
fn preferred_accounts_cleared() {
    let mut a = instance("a");
    a.preferred_account = Some("Steve".to_string());
    let mut b = instance("b");
    b.preferred_account = Some("Alex".to_string());
    let mut instances = vec![a, b];
    assert_eq!(clear_preferred_account(&mut instances, "Steve"), 1);
    assert_eq!(instances[0].preferred_account, None);
    assert_eq!(instances[0].version_id, "1.20.4");
    assert_eq!(instances[0].memory_max, Some(4096));
    assert_eq!(instances[1].preferred_account.as_deref(), Some("Alex"));
}

#[test]
fn refreshed_account_replaces_token_keeps_uuid() {
    let mut data = AccountsData { accounts: vec![], active_account: None };
    add_account(&mut data, account("Steve", "u1", true));
    add_account(&mut data, account("Alex", "u2", true));
    assert_eq!(data.active_account.as_deref(), Some("Steve"));
    let mut refreshed = account("Steve", "u1", true);
    refreshed.access_token = "new-token".to_string();
    add_account(&mut data, refreshed);
    assert_eq!(data.accounts.len(), 2);
    assert_eq!(data.accounts[0].access_token, "new-token");
    assert_eq!(data.accounts[0].uuid, "u1");
    assert_eq!(data.active_account.as_deref(), Some("Steve"));
}

#[test]
fn refresh_leaves_active_pointer() {
    let mut data = AccountsData { accounts: vec![account("Steve", "u1", true)], active_account: None };
    let mut refreshed = account("Steve", "u1", true);
    refreshed.access_token = "fresh".to_string();
    assert_eq!(refresh_account(&mut data, refreshed), Ok(()));
    assert_eq!(data.active_account, None);
    assert_eq!(data.accounts[0].access_token, "fresh");
    data.active_account = Some("Alex".to_string());
    data.accounts.push(account("Alex", "u2", true));
    assert_eq!(refresh_account(&mut data, account("Steve", "u1", true)), Ok(()));
    assert_eq!(data.active_account.as_deref(), Some("Alex"));
    data.active_account = Some("Steve".to_string());
    assert_eq!(refresh_account(&mut data, account("Steve2", "u1", true)), Ok(()));
    assert_eq!(data.active_account.as_deref(), Some("Steve2"));
    assert_eq!(data.accounts[0].uuid, "u1");
    assert_eq!(refresh_account(&mut data, account("Nobody", "u9", true)), Err(AccountError::NotFound));
}

#[test]
fn removing_active_account_moves_pointer() {
    let mut data = AccountsData { accounts: vec![account("Steve", "u1", true), account("Alex", "u2", false)], active_account: Some("Steve".to_string()) };
    remove_account(&mut data, "Steve");
    assert_eq!(data.accounts.len(), 1);
    assert_eq!(data.active_account.as_deref(), Some("Alex"));
    assert_eq!(set_active_account(&mut data, "Nobody"), Err(AccountError::NotFound));
    assert_eq!(set_active_account(&mut data, "Alex"), Ok(()));
    remove_account(&mut data, "Alex");
    assert_eq!(data.active_account, None);
}

#[test]
fn form_pairs_are_decoded() {
    let pairs = parse_form_encoded_pairs("user_code=AB%20CD&interval=7&junk&device_code=dc&verification_uri=https%3A%2F%2Fx");
    assert_eq!(pairs.len(), 4);
    assert_eq!(pairs[0], ("user_code".to_string(), "AB CD".to_string()));
    assert_eq!(get_form_field(&pairs, "verification_uri"), Some("https://x".to_string()));
    let info = device_code_from_fields(&pairs).unwrap();
    assert_eq!(info.interval, 7);
    assert_eq!(info.verification_uri, "https://x");
    assert_eq!(info.device_code, "dc");
    assert_eq!(info.user_code, "AB CD");
    let failed = parse_form_encoded_pairs("error=access_denied");
    assert_eq!(device_code_from_fields(&failed).unwrap_err(), AuthError::NetworkDuringAuth);
}

#[test]
fn device_code_interval_defaults() {
    let pairs = parse_form_encoded_pairs("user_code=A&device_code=B&verification_url=C");
    let info = device_code_from_fields(&pairs).unwrap();
    assert_eq!(info.interval, 5);
    assert_eq!(info.verification_uri, "C");
    let empty_code = parse_form_encoded_pairs("user_code=&device_code=B&verification_uri=C");
    assert_eq!(device_code_from_fields(&empty_code).unwrap_err(), AuthError::NetworkDuringAuth);
}

#[test]
fn poll_steps() {
    let t = |e: Option<&str>, at: Option<&str>| TokenResponse {
        access_token: at.map(|s| s.to_string()),
        refresh_token: None,
        error: e.map(|s| s.to_string()),
        error_description: None,
    };
    assert!(matches!(next_poll_step(&t(Some("authorization_pending"), None), false, 5), PollStep::Wait(5)));
    assert!(matches!(next_poll_step(&t(Some("slow_down"), None), false, 5), PollStep::Wait(10)));
    assert!(matches!(next_poll_step(&t(Some("expired_token"), None), false, 5), PollStep::Failed(AuthError::DeviceCodeExpired)));
    assert!(matches!(next_poll_step(&t(Some("access_denied"), None), false, 5), PollStep::Failed(AuthError::UserDenied)));
    match next_poll_step(&t(None, Some("tok")), true, 5) {
        PollStep::Done(s) => assert_eq!(s, "tok"),
        _ => panic!("expected a token"),
    }
    assert!(matches!(next_poll_step(&t(None, Some("tok")), false, 5), PollStep::Failed(AuthError::NetworkDuringAuth)));
    assert_eq!(profile_status_error(404), Some(AuthError::NoMinecraft));
    assert_eq!(profile_status_error(403), Some(AuthError::NoMinecraft));
    assert_eq!(profile_status_error(200), None);
    assert_eq!(profile_status_error(500), Some(AuthError::NetworkDuringAuth));
}

#[test]
fn bodies_are_truncated() {
    assert_eq!(truncate_body("a\nb\rc"), "a b c");
    let long = "x".repeat(300);
    let t = truncate_body(&long);
    assert_eq!(t.len(), 283);
    assert!(t.ends_with("..."));
}

#[test]
fn sha1_checks() {
    assert!(verify_sha1(b"abc", "a9993e364706816aba3e25717850c26c9cd0d89d"));
    assert!(!verify_sha1(b"abd", "a9993e364706816aba3e25717850c26c9cd0d89d"));
    let expected = Some("a9993e364706816aba3e25717850c26c9cd0d89d".to_string());
    assert!(!needs_download(&expected, &Some(b"abc".to_vec())));
    assert!(needs_download(&expected, &Some(b"abx".to_vec())));
    assert!(needs_download(&expected, &None));
    assert!(!needs_download(&Some(String::new()), &Some(vec![1])));
    assert!(needs_download(&None, &None));
    assert_eq!(accept_download(&expected, b"abc"), Ok(()));
    assert_eq!(accept_download(&expected, b"abz"), Err(DownloadError::Integrity));
    assert_eq!(accept_download(&None, b"abz"), Ok(()));
}

#[test]
fn library_download_plan() {
    let host = Host { os: HostOs::Linux, arch: HostArch::X86_64 };
    let with_artifact = Library {
        name: "a:b:1".to_string(),
        downloads: Some(LibraryDownloads {
            artifact: Some(Artifact { path: "a/b/1/b-1.jar".to_string(), sha1: "s".to_string(), size: 3, url: "https://m/b.jar".to_string() }),
            classifiers: None,
        }),
        url: None,
        rules: None,
        natives: None,
        extract: None,
    };
    let osx_only = Library {
        name: "c:d:1".to_string(),
        downloads: None,
        url: None,
        rules: Some(vec![Rule { action: "allow".to_string(), os: Some(OsRule { name: Some("osx".to_string()), version: None, arch: None }), features: None }]),
        natives: None,
        extract: None,
    };
    let fabric = Library { name: "net.fabricmc:intermediary:1.20.4".to_string(), downloads: None, url: Some("https://maven.fabricmc.net".to_string()), rules: None, natives: None, extract: None };
    let plain = Library { name: "e:f:2".to_string(), downloads: None, url: None, rules: None, natives: None, extract: None };
    let plan = plan_library_downloads(&vec![with_artifact, osx_only, fabric, plain], host, "/lib");
    assert_eq!(plan.len(), 3);
    assert_eq!(plan[0].path, "/lib/a/b/1/b-1.jar");
    assert_eq!(plan[0].sha1, "s");
    assert_eq!(plan[1].url, "https://maven.fabricmc.net/net/fabricmc/intermediary/1.20.4/intermediary-1.20.4.jar");
    assert_eq!(plan[2].url, "https://libraries.minecraft.net/e/f/2/f-2.jar");
}

#[test]
fn store_paths() {
    assert_eq!(asset_path("/a", "abcdef"), "/a/objects/ab/abcdef");
    assert_eq!(asset_url("abcdef"), "https://resources.download.minecraft.net/ab/abcdef");
    assert_eq!(client_jar_path("/v", "1.20.4"), "/v/1.20.4/1.20.4.jar");
    assert_eq!(get_instances_dir("/root"), "/root/instances");
    assert_eq!(get_minecraft_dir(Platform::Other, "/d", "/h"), "/h/.palethealauncher");
    assert_eq!(get_minecraft_dir(Platform::Windows, "/d", "/h"), "/d/PaletheaLauncher");
    assert_eq!(get_mods_dir(&instance("i"), "/inst"), "/inst/i/minecraft/mods");
    assert_eq!(metadata_path("/m", "x.jar"), "/m/metadata/x.jar.meta.json");
    assert!(should_skip_pack_entry(true, "metadata"));
    assert!(should_skip_pack_entry(false, ".index"));
    assert!(!should_skip_pack_entry(false, "pack.zip"));
}

#[test]
fn settings_values() {
    assert_eq!(sanitize_api_key("  key "), Some("key".to_string()));
    assert_eq!(sanitize_api_key("   "), None);
    assert_eq!(get_curseforge_api_key(Some(" "), Some("built")), Some("built".to_string()));
    assert_eq!(get_curseforge_api_key(Some("run"), Some("built")), Some("run".to_string()));
    assert!(!has_curseforge_api_key(None, None));
    assert_eq!(get_launcher_version(&LauncherVersion { version: String::new() }), "0.2.11");
    assert_eq!(get_launcher_version(&LauncherVersion { version: "1.0".to_string() }), "1.0");
}

#[test]
fn curseforge_helpers() {
    assert_eq!(release_type_label(2), "beta");
    assert_eq!(release_type_label(3), "alpha");
    assert_eq!(release_type_label(1), "release");
    assert!(is_mc_version_tag(" 1.20.1 "));
    assert!(!is_mc_version_tag("Forge"));
    assert_eq!(normalize_project_type(" Texture-Packs "), "resourcepack");
    assert_eq!(normalize_project_type("anything"), "mod");
    assert_eq!(project_type_from_class_id(4471), "modpack");
    assert_eq!(class_id_candidates_for_project_type("shaders"), vec![6552, 4546, 6]);
    assert_eq!(forced_categories_for_project_type("datapack"), vec!["data-packs".to_string(), "datapacks".to_string()]);
    assert_eq!(normalize_download_url(Some("  ".to_string())), None);
    assert_eq!(normalize_download_url(Some(" u ".to_string())), Some("u".to_string()));
    assert_eq!(provider_from_project_id("12345"), "CurseForge");
    assert_eq!(provider_from_project_id("AANobbMI"), "Modrinth");
    let m = CurseForgeManifestMinecraft {
        version: "1.20.1".to_string(),
        mod_loaders: vec![
            CurseForgeManifestLoader { id: "fabric-0.14".to_string(), primary: false },
            CurseForgeManifestLoader { id: " Forge-47.2.0".to_string(), primary: true },
        ],
    };
    let (loader, version) = parse_loader_from_manifest(&m);
    assert_eq!(loader, ModLoader::Forge);
    assert_eq!(version.as_deref(), Some("47.2.0"));
}

#[test]
fn forge_version_ids() {
    let ids = loader_version_candidates(ModLoader::Forge, "1.8.9", "11.15.1.2318", &Some("1.8.9-forge1.8.9-11.15.1.2318".to_string()));
    assert_eq!(ids, vec!["1.8.9-forge1.8.9-11.15.1.2318", "1.8.9-forge-11.15.1.2318", "1.8.9-forge11.15.1.2318"]);
    let neo = loader_version_candidates(ModLoader::NeoForge, "1.20.4", "20.4.80", &None);
    assert_eq!(neo, vec!["neoforge-20.4.80", "20.4.80", "1.20.4-neoforge-20.4.80"]);
    assert!(loader_version_candidates(ModLoader::Fabric, "1.20.4", "0.15.7", &None).is_empty());
}

#[test]
fn auth_request_forms() {
    let f = device_code_form();
    assert_eq!(f[0], ("client_id".to_string(), "000000004C12AE6F".to_string()));
    assert_eq!(f[2].1, "device_code");
    assert_eq!(token_poll_form("dc")[1].1, "urn:ietf:params:oauth:grant-type:device_code");
    let r = refresh_form("rt");
    assert_eq!(r[1], ("grant_type".to_string(), "refresh_token".to_string()));
    assert_eq!(r[2].1, "rt");
    assert_eq!(xbl_identity_token("uhs", "xsts"), "XBL3.0 x=uhs;xsts");
    assert_eq!(bearer("t"), "Bearer t");
    let ok = TokenResponse { access_token: Some("new".to_string()), refresh_token: None, error: None, error_description: None };
    assert_eq!(refresh_outcome(&ok, true), Ok("new".to_string()));
    assert_eq!(refresh_outcome(&ok, false), Err(AuthError::NetworkDuringAuth));
    let bad = TokenResponse { access_token: None, refresh_token: None, error: Some("invalid_grant".to_string()), error_description: None };
    assert_eq!(refresh_outcome(&bad, true), Err(AuthError::InvalidRefreshToken));
    let acc = saved_microsoft_account(MicrosoftAccount { username: "Steve".to_string(), uuid: "u1".to_string(), access_token: "a".to_string(), refresh_token: None });
    assert!(acc.is_microsoft);
    assert_eq!(acc.uuid, "u1");
}

#[test]
fn deleting_instances() {
    let mut instances = vec![instance("a"), instance("b")];
    assert_eq!(palethea_launcher::instances::delete_instance(&mut instances, "a"), Ok(()));
    assert_eq!(instances.len(), 1);
    assert_eq!(instances[0].id, "b");
    assert_eq!(palethea_launcher::instances::delete_instance(&mut instances, "a"), Err(InstanceError::NotFound));
    assert_eq!(instances.len(), 1);
}
