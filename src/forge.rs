use vstd::prelude::*;
use crate::instances::ModLoader;
use crate::text::views;

verus! {

/// What a Forge or NeoForge installation records for an instance; its
/// `version_id` names the installed version descriptor.
#[derive(Clone, Debug)]
pub struct ForgeVersionInfo {
    pub forge_version: String,
    pub minecraft_version: String,
    pub main_class: String,
    pub version_id: Option<String>,
    pub libraries: Vec<ForgeLibrary>,
}

#[derive(Clone, Debug)]
pub struct ForgeLibrary {
    pub name: String,
    pub url: Option<String>,
}

/// A log line handed to the interface.
#[derive(Clone, Debug)]
pub struct LogPayload {
    pub level: String,
    pub message: String,
    pub timestamp: String,
}


/// The version ids under which a Forge or NeoForge descriptor may be
/// installed, in the order they are tried: the id that the installation
/// recorded, then `<mc>-forge-<v>` and `<mc>-forge<v>` for Forge, or
/// `neoforge-<v>`, `<v>` and `<mc>-neoforge-<v>` for NeoForge. Other loaders
/// have none.
pub open spec fn loader_version_ids(
    loader: ModLoader,
    mc_version: Seq<char>,
    loader_version: Seq<char>,
    recorded: Option<Seq<char>>,
) -> Seq<Seq<char>> {
    let head = match recorded {
        Some(r) => seq![r],
        None => Seq::<Seq<char>>::empty(),
    };
    match loader {
        ModLoader::Forge => head + seq![mc_version + "-forge-"@ + loader_version, mc_version + "-forge"@ + loader_version],
        ModLoader::NeoForge => head + seq!["neoforge-"@ + loader_version, loader_version, mc_version + "-neoforge-"@ + loader_version],
        _ => Seq::empty(),
    }
}

/// Lists the version ids to probe for an instance's Forge or NeoForge descriptor.
pub fn loader_version_candidates(
    loader: ModLoader,
    mc_version: &str,
    loader_version: &str,
    recorded: &Option<String>,
) -> (r: Vec<String>)
    ensures
        views(r@) == loader_version_ids(loader, mc_version@, loader_version@, match *recorded {
            Some(x) => Some(x@),
            None => None,
        }),
{
    let mut out: Vec<String> = Vec::new();
    if loader != ModLoader::Forge && loader != ModLoader::NeoForge {
        assert(views(out@) =~= Seq::<Seq<char>>::empty());
        return out;
    }
    match recorded {
        Some(x) => out.push(x.clone()),
        None => {},
    }
    if loader == ModLoader::Forge {
        let mut a = mc_version.to_owned();
        a.append("-forge-");
        a.append(loader_version);
        let mut b = mc_version.to_owned();
        b.append("-forge");
        b.append(loader_version);
        out.push(a);
        out.push(b);
    } else {
        let mut a = "neoforge-".to_owned();
        a.append(loader_version);
        let b = loader_version.to_owned();
        let mut c = mc_version.to_owned();
        c.append("-neoforge-");
        c.append(loader_version);
        out.push(a);
        out.push(b);
        out.push(c);
    }
    assert(views(out@) =~= loader_version_ids(loader, mc_version@, loader_version@, match *recorded {
        Some(x) => Some(x@),
        None => None,
    }));
    out
}


/// The places a Forge installer is fetched from, tried in order: the older
/// `<mc>-<forge>-<mc>` naming first, then `<mc>-<forge>`.
pub open spec fn forge_installer_url_list(mc: Seq<char>, forge: Seq<char>) -> Seq<Seq<char>> {
    let base = "https://maven.minecraftforge.net/net/minecraftforge/forge/"@;
    seq![
        base + mc + "-"@ + forge + "-"@ + mc + "/forge-"@ + mc + "-"@ + forge + "-"@ + mc + "-installer.jar"@,
        base + mc + "-"@ + forge + "/forge-"@ + mc + "-"@ + forge + "-installer.jar"@,
    ]
}

/// Lists the places a Forge installer is fetched from.
pub fn forge_installer_urls(mc: &str, forge: &str) -> (r: Vec<String>)
    ensures
        views(r@) == forge_installer_url_list(mc@, forge@),
{
    let base = "https://maven.minecraftforge.net/net/minecraftforge/forge/";
    let mut a = base.to_owned();
    a.append(mc);
    a.append("-");
    a.append(forge);
    a.append("-");
    a.append(mc);
    a.append("/forge-");
    a.append(mc);
    a.append("-");
    a.append(forge);
    a.append("-");
    a.append(mc);
    a.append("-installer.jar");
    let mut b = base.to_owned();
    b.append(mc);
    b.append("-");
    b.append(forge);
    b.append("/forge-");
    b.append(mc);
    b.append("-");
    b.append(forge);
    b.append("-installer.jar");
    let mut out: Vec<String> = Vec::new();
    out.push(a);
    out.push(b);
    assert(views(out@) =~= forge_installer_url_list(mc@, forge@));
    out
}

/// The arguments that run a vendor installer in client mode against the store.
pub fn installer_args(installer_path: &str, store_root: &str) -> (r: Vec<String>)
    ensures
        views(r@) == seq!["-jar"@, installer_path@, "--installClient"@, store_root@],
{
    let mut out: Vec<String> = Vec::new();
    out.push("-jar".to_owned());
    out.push(installer_path.to_owned());
    out.push("--installClient".to_owned());
    out.push(store_root.to_owned());
    assert(views(out@) =~= seq!["-jar"@, installer_path@, "--installClient"@, store_root@]);
    out
}

/// The longest a vendor installer may run, in seconds.
pub const INSTALLER_TIMEOUT_SECONDS: u64 = 600;

/// What follows a run of the vendor installer.
#[derive(Clone, Copy, Debug, PartialEq, Eq, Structural)]
pub enum InstallStep {
    /// It succeeded: record the loader version.
    Record,
    /// It failed on a legacy Forge: extract the installer by hand.
    ExtractLegacy,
    /// It failed: report the error.
    Fail,
}

/// Decides what follows an installer run: success records the version; a
/// failure or a timeout falls back to manual extraction for Forge, and is an
/// error for NeoForge.
pub fn after_installer(loader: ModLoader, succeeded: bool, elapsed_seconds: u64) -> (r: InstallStep)
    ensures
        r == if succeeded && elapsed_seconds < INSTALLER_TIMEOUT_SECONDS {
            InstallStep::Record
        } else if loader == ModLoader::Forge {
            InstallStep::ExtractLegacy
        } else {
            InstallStep::Fail
        },
{
    if succeeded && elapsed_seconds < INSTALLER_TIMEOUT_SECONDS {
        InstallStep::Record
    } else if loader == ModLoader::Forge {
        InstallStep::ExtractLegacy
    } else {
        InstallStep::Fail
    }
}

/// What an instance records after a Forge install: the versions, and the
/// installed descriptor's id when the manual extraction chose it.
pub fn forge_record(mc: &str, forge: &str, version_id: Option<String>) -> (r: ForgeVersionInfo)
    ensures
        r.forge_version@ == forge@,
        r.minecraft_version@ == mc@,
        r.main_class@.len() == 0,
        r.version_id == version_id,
        r.libraries@.len() == 0,
{
    ForgeVersionInfo {
        forge_version: forge.to_owned(),
        minecraft_version: mc.to_owned(),
        main_class: String::new(),
        version_id,
        libraries: Vec::new(),
    }
}

} // verus!
