use vstd::prelude::*;
use crate::instances::{join_path, path_join};
use crate::text::{trim, trim_str};

verus! {

/// Global settings of the launcher.
#[derive(Clone, Debug)]
pub struct LauncherSettings {
    pub java_path: Option<String>,
    pub java_args: Option<String>,
    pub max_memory: Option<u32>,
    pub enable_console: Option<bool>,
    pub account_preview_mode: Option<String>,
    pub show_welcome: Option<bool>,
    pub update_channel: Option<String>,
    pub accent_color: Option<String>,
    pub background_style: Option<String>,
    pub edit_mode_preference: Option<String>,
    pub enable_instance_animations: Option<bool>,
}

impl Default for LauncherSettings {
    fn default() -> (r: Self)
        ensures
            r.java_path is None,
            r.java_args is None,
            r.max_memory == Some(4096u32),
            r.enable_console == Some(false),
            r.show_welcome == Some(true),
            r.update_channel is Some && r.update_channel->0@ == "stable"@,
            r.accent_color is Some && r.accent_color->0@ == "#E89C88"@,
            r.enable_instance_animations == Some(true),
    {
        LauncherSettings {
            java_path: None,
            java_args: None,
            max_memory: Some(4096),
            enable_console: Some(false),
            account_preview_mode: Some("simple".to_owned()),
            show_welcome: Some(true),
            update_channel: Some("stable".to_owned()),
            accent_color: Some("#E89C88".to_owned()),
            background_style: Some("gradient".to_owned()),
            edit_mode_preference: Some("ask".to_owned()),
            enable_instance_animations: Some(true),
        }
    }
}

/// The update channel of settings that do not name one.
pub fn default_update_channel() -> (r: Option<String>)
    ensures
        r is Some && r->0@ == "stable"@,
{
    Some("stable".to_owned())
}

/// Sets the global Java path.
pub fn set_java_path(settings: &mut LauncherSettings, path: Option<String>)
    ensures
        final(settings).java_path == path,
        final(settings).java_args == old(settings).java_args,
        final(settings).max_memory == old(settings).max_memory,
        final(settings).update_channel == old(settings).update_channel,
{
    settings.java_path = path;
}

/// The global Java path.
pub fn get_java_path(settings: &LauncherSettings) -> (r: Option<String>)
    ensures
        r == settings.java_path,
{
    match &settings.java_path {
        Some(p) => Some(p.clone()),
        None => None,
    }
}

/// An API key as configured: trimmed, and `None` when nothing remains.
pub open spec fn sanitized_key(value: Seq<char>) -> Option<Seq<char>> {
    if trim(value).len() == 0 {
        None
    } else {
        Some(trim(value))
    }
}

/// Trims an API key; an empty one counts as missing.
pub fn sanitize_api_key(value: &str) -> (r: Option<String>)
    ensures
        match r {
            Some(k) => sanitized_key(value@) == Some(k@),
            None => sanitized_key(value@) is None,
        },
{
    let t = trim_str(value);
    if t.as_str().unicode_len() == 0 {
        None
    } else {
        Some(t)
    }
}

/// The CurseForge API key: the one set at run time if usable, else the one
/// built in.
pub fn get_curseforge_api_key(runtime: Option<&str>, built_in: Option<&str>) -> (r: Option<String>)
    ensures
        match r {
            Some(k) => (runtime is Some && sanitized_key(runtime->0@) == Some(k@)) || ((runtime is None
                || sanitized_key(runtime->0@) is None) && built_in is Some && sanitized_key(built_in->0@) == Some(k@)),
            None => (runtime is None || sanitized_key(runtime->0@) is None) && (built_in is None
                || sanitized_key(built_in->0@) is None),
        },
{
    let from_runtime = match runtime {
        Some(v) => sanitize_api_key(v),
        None => None,
    };
    if from_runtime.is_some() {
        return from_runtime;
    }
    match built_in {
        Some(v) => sanitize_api_key(v),
        None => None,
    }
}

/// Whether a CurseForge API key is configured.
pub fn has_curseforge_api_key(runtime: Option<&str>, built_in: Option<&str>) -> (r: bool)
    ensures
        r == ((runtime is Some && sanitized_key(runtime->0@) is Some) || (built_in is Some && sanitized_key(built_in->0@) is Some)),
{
    get_curseforge_api_key(runtime, built_in).is_some()
}

/// The version the launcher reports, once it is known.
#[derive(Clone, Debug)]
pub struct LauncherVersion {
    pub version: String,
}

/// Records the launcher's version.
pub fn set_launcher_version(state: &mut LauncherVersion, version: String)
    ensures
        final(state).version == version,
{
    state.version = version;
}

/// The launcher's version, or a fixed fallback before it is set.
pub fn get_launcher_version(state: &LauncherVersion) -> (r: String)
    ensures
        r@ == if state.version@.len() > 0 { state.version@ } else { "0.2.11"@ },
{
    if state.version.as_str().unicode_len() > 0 {
        state.version.clone()
    } else {
        "0.2.11".to_owned()
    }
}

/// The user agent that every request sends.
pub fn get_user_agent(state: &LauncherVersion) -> (r: String)
    ensures
        r@ == "PaletheaLauncher/"@ + (if state.version@.len() > 0 { state.version@ } else { "0.2.11"@ }),
{
    let mut ua = "PaletheaLauncher/".to_owned();
    let v = get_launcher_version(state);
    ua.append(v.as_str());
    ua
}

/// The store's instances directory.
pub fn get_instances_dir(root: &str) -> (r: String)
    ensures
        r@ == path_join(root@, "instances"@),
{
    join_path(root, "instances")
}

/// The store's libraries directory.
pub fn get_libraries_dir(root: &str) -> (r: String)
    ensures
        r@ == path_join(root@, "libraries"@),
{
    join_path(root, "libraries")
}

/// The store's assets directory.
pub fn get_assets_dir(root: &str) -> (r: String)
    ensures
        r@ == path_join(root@, "assets"@),
{
    join_path(root, "assets")
}

/// The store's versions directory.
pub fn get_versions_dir(root: &str) -> (r: String)
    ensures
        r@ == path_join(root@, "versions"@),
{
    join_path(root, "versions")
}

/// The store's instance logos directory.
pub fn get_instance_logos_dir(root: &str) -> (r: String)
    ensures
        r@ == path_join(root@, "instance_logos"@),
{
    join_path(root, "instance_logos")
}

/// The store's skin collection directory.
pub fn get_skins_dir(root: &str) -> (r: String)
    ensures
        r@ == path_join(root@, "skin_collection"@),
{
    join_path(root, "skin_collection")
}

/// The platforms whose store roots differ.
#[derive(Clone, Copy, Debug, PartialEq, Eq, Structural)]
pub enum Platform {
    Windows,
    MacOs,
    Other,
}

/// The store root: under the data directory on Windows, under
/// `Library/Application Support` in the home directory on macOS, and the
/// hidden `.palethealauncher` in the home directory elsewhere.
pub fn get_minecraft_dir(platform: Platform, data_dir: &str, home_dir: &str) -> (r: String)
    ensures
        r@ == match platform {
            Platform::Windows => path_join(data_dir@, "PaletheaLauncher"@),
            Platform::MacOs => path_join(path_join(path_join(home_dir@, "Library"@), "Application Support"@), "PaletheaLauncher"@),
            Platform::Other => path_join(home_dir@, ".palethealauncher"@),
        },
{
    match platform {
        Platform::Windows => join_path(data_dir, "PaletheaLauncher"),
        Platform::MacOs => {
            let a = join_path(home_dir, "Library");
            let b = join_path(a.as_str(), "Application Support");
            join_path(b.as_str(), "PaletheaLauncher")
        },
        Platform::Other => join_path(home_dir, ".palethealauncher"),
    }
}


/// Where the global settings are stored.
pub fn get_settings_path(root: &str) -> (r: String)
    ensures
        r@ == path_join(root@, "settings.json"@),
{
    join_path(root, "settings.json")
}

/// Where the accounts are stored.
pub fn get_accounts_file(root: &str) -> (r: String)
    ensures
        r@ == path_join(root@, "accounts.json"@),
{
    join_path(root, "accounts.json")
}

/// Where the instance descriptors are stored.
pub fn get_instances_config_path(root: &str) -> (r: String)
    ensures
        r@ == path_join(root@, "instances.json"@),
{
    join_path(root, "instances.json")
}

/// Where the active sessions are stored.
pub fn get_session_file_path(root: &str) -> (r: String)
    ensures
        r@ == path_join(root@, "active_sessions.json"@),
{
    join_path(root, "active_sessions.json")
}

/// Where older versions stored their single active session.
pub fn get_legacy_session_file_path(root: &str) -> (r: String)
    ensures
        r@ == path_join(root@, "active_session.json"@),
{
    join_path(root, "active_session.json")
}

/// Where completed sessions are logged.
pub fn get_session_history_path(root: &str) -> (r: String)
    ensures
        r@ == path_join(root@, "session_history.json"@),
{
    join_path(root, "session_history.json")
}

/// The value of flags that default to on.
pub fn default_true() -> (r: bool)
    ensures
        r,
{
    true
}

/// The text that the rich presence shows for a number of running games.
pub fn presence_details(running_count: u64) -> (r: String)
    ensures
        r@ == if running_count == 0 {
            "No instances running"@
        } else {
            "Currently playing "@ + crate::args::decimal(running_count as nat) + " instance"@ + if running_count == 1 { ""@ } else { "s"@ }
        },
{
    if running_count == 0 {
        return "No instances running".to_owned();
    }
    let mut s = "Currently playing ".to_owned();
    crate::args::push_decimal(&mut s, running_count);
    s.append(" instance");
    if running_count != 1 {
        s.append("s");
    } else {
        proof {
            reveal_strlit("");
        }
        assert(s@ =~= s@ + ""@);
    }
    s
}

} // verus!
