use vstd::prelude::*;
use crate::instances::{join_path, path_join};
use crate::merge::entry_views;
use crate::versions::{maven_coordinate_path, maven_path};
use crate::downloader::{dl_view, LibDownload};

verus! {

#[derive(Clone, Debug)]
pub struct FabricLoader {
    pub separator: String,
    pub build: u32,
    pub maven: String,
    pub version: String,
    pub stable: bool,
}

#[derive(Clone, Debug)]
pub struct FabricIntermediary {
    pub maven: String,
    pub version: String,
    pub stable: bool,
}

#[derive(Clone, Debug)]
pub struct FabricLibrary {
    pub name: String,
    pub url: String,
    pub sha1: Option<String>,
    pub size: Option<u64>,
}

#[derive(Clone, Debug)]
pub struct FabricLibraries {
    pub client: Vec<FabricLibrary>,
    pub common: Vec<FabricLibrary>,
    pub server: Vec<FabricLibrary>,
}

/// The main class that Fabric reports: one name, or one per side.
#[derive(Clone, Debug)]
pub enum FabricMainClass {
    Simple(String),
    Complex { client: String, server: Option<String> },
}

impl FabricMainClass {
    /// The main class of the client.
    pub fn get_client_class(&self) -> (r: &str)
        ensures
            r@ == match *self {
                FabricMainClass::Simple(s) => s@,
                FabricMainClass::Complex { client, .. } => client@,
            },
    {
        match self {
            FabricMainClass::Simple(s) => s.as_str(),
            FabricMainClass::Complex { client, .. } => client.as_str(),
        }
    }
}

#[derive(Clone, Debug)]
pub struct FabricLauncherMeta {
    pub version: u32,
    pub libraries: FabricLibraries,
    pub main_class: FabricMainClass,
}

/// What Fabric's meta service reports for a game and loader version.
#[derive(Clone, Debug)]
pub struct FabricLoaderVersion {
    pub loader: FabricLoader,
    pub intermediary: FabricIntermediary,
    pub launcher_meta: FabricLauncherMeta,
}

/// The repository path of a maven coordinate, without classifier.
pub fn maven_to_path(maven: &str) -> (r: String)
    ensures
        r@ == maven_path(maven@, false),
{
    maven_coordinate_path(maven, false)
}

/// A `(maven name, path under the libraries directory)` classpath entry.
pub open spec fn fabric_entry(name: Seq<char>, libraries_dir: Seq<char>) -> (Seq<char>, Seq<char>) {
    (name, path_join(libraries_dir, maven_path(name, false)))
}

/// The entries of a list of Fabric libraries.
pub open spec fn fabric_lib_entries(libs: Seq<FabricLibrary>, libraries_dir: Seq<char>) -> Seq<(Seq<char>, Seq<char>)> {
    libs.map_values(|l: FabricLibrary| fabric_entry(l.name@, libraries_dir))
}

/// Fabric's classpath additions: the loader, the intermediary mappings, the
/// common libraries, then the client libraries.
pub open spec fn fabric_classpath(info: FabricLoaderVersion, libraries_dir: Seq<char>) -> Seq<(Seq<char>, Seq<char>)> {
    seq![fabric_entry(info.loader.maven@, libraries_dir), fabric_entry(info.intermediary.maven@, libraries_dir)]
        + fabric_lib_entries(info.launcher_meta.libraries.common@, libraries_dir)
        + fabric_lib_entries(info.launcher_meta.libraries.client@, libraries_dir)
}

fn entry(name: &str, libraries_dir: &str) -> (r: (String, String))
    ensures
        (r.0@, r.1@) == fabric_entry(name@, libraries_dir@),
{
    let p = maven_to_path(name);
    (name.to_owned(), join_path(libraries_dir, p.as_str()))
}

fn push_lib_entries(out: &mut Vec<(String, String)>, libs: &Vec<FabricLibrary>, libraries_dir: &str)
    ensures
        entry_views(final(out)@) == entry_views(old(out)@) + fabric_lib_entries(libs@, libraries_dir@),
{
    let ghost start = entry_views(out@);
    let mut i: usize = 0;
    while i < libs.len()
        invariant
            i <= libs@.len(),
            entry_views(out@) == start + fabric_lib_entries(libs@.subrange(0, i as int), libraries_dir@),
        decreases libs.len() - i,
    {
        let ghost before = entry_views(out@);
        let e = entry(libs[i].name.as_str(), libraries_dir);
        out.push(e);
        assert(entry_views(out@) =~= before.push((e.0@, e.1@)));
        assert(fabric_lib_entries(libs@.subrange(0, i + 1), libraries_dir@) =~= fabric_lib_entries(libs@.subrange(0, i as int), libraries_dir@).push(fabric_entry(libs@[i as int].name@, libraries_dir@)));
        i = i + 1;
    }
    assert(libs@.subrange(0, libs@.len() as int) =~= libs@);
}

/// Fabric's classpath additions as `(maven name, path)` pairs.
pub fn get_fabric_classpath(info: &FabricLoaderVersion, libraries_dir: &str) -> (r: Vec<(String, String)>)
    ensures
        entry_views(r@) == fabric_classpath(*info, libraries_dir@),
{
    let mut out: Vec<(String, String)> = Vec::new();
    out.push(entry(info.loader.maven.as_str(), libraries_dir));
    out.push(entry(info.intermediary.maven.as_str(), libraries_dir));
    assert(entry_views(out@) =~= seq![fabric_entry(info.loader.maven@, libraries_dir@), fabric_entry(info.intermediary.maven@, libraries_dir@)]);
    push_lib_entries(&mut out, &info.launcher_meta.libraries.common, libraries_dir);
    push_lib_entries(&mut out, &info.launcher_meta.libraries.client, libraries_dir);
    out
}


/// The meta service query for a game version and loader version.
pub fn fabric_meta_url(game_version: &str, loader_version: &str) -> (r: String)
    ensures
        r@ == "https://meta.fabricmc.net/v2/versions/loader/"@ + game_version@ + "/"@ + loader_version@,
{
    let mut u = "https://meta.fabricmc.net/v2/versions/loader/".to_owned();
    u.append(game_version);
    u.append("/");
    u.append(loader_version);
    u
}

/// The download of a maven artifact from a repository into the libraries
/// directory, checked against a digest when one is given.
pub open spec fn maven_download(repo: Seq<char>, name: Seq<char>, sha1: Option<String>, libraries_dir: Seq<char>) -> (Seq<char>, Seq<char>, Seq<char>, i64) {
    (repo + maven_path(name, false), path_join(libraries_dir, maven_path(name, false)), match sha1 {
        Some(h) => h@,
        None => Seq::empty(),
    }, 0i64)
}

/// The downloads of a list of Fabric libraries, each from its own repository.
pub open spec fn fabric_lib_downloads(libs: Seq<FabricLibrary>, libraries_dir: Seq<char>) -> Seq<(Seq<char>, Seq<char>, Seq<char>, i64)> {
    libs.map_values(|l: FabricLibrary| maven_download(l.url@, l.name@, l.sha1, libraries_dir))
}

/// Everything a Fabric install fetches: the loader and the intermediary
/// mappings from Fabric's repository, then the common and client libraries.
pub open spec fn fabric_install_files(info: FabricLoaderVersion, libraries_dir: Seq<char>) -> Seq<(Seq<char>, Seq<char>, Seq<char>, i64)> {
    seq![
        maven_download("https://maven.fabricmc.net/"@, info.loader.maven@, None, libraries_dir),
        maven_download("https://maven.fabricmc.net/"@, info.intermediary.maven@, None, libraries_dir),
    ] + fabric_lib_downloads(info.launcher_meta.libraries.common@, libraries_dir)
        + fabric_lib_downloads(info.launcher_meta.libraries.client@, libraries_dir)
}

fn maven_dl(repo: &str, name: &str, sha1: &Option<String>, libraries_dir: &str) -> (r: LibDownload)
    ensures
        dl_view(r) == maven_download(repo@, name@, *sha1, libraries_dir@),
{
    let p = maven_to_path(name);
    let mut url = repo.to_owned();
    url.append(p.as_str());
    LibDownload {
        url,
        path: join_path(libraries_dir, p.as_str()),
        sha1: match sha1 {
            Some(h) => h.clone(),
            None => String::new(),
        },
        size: 0,
    }
}

fn push_lib_downloads(out: &mut Vec<LibDownload>, libs: &Vec<FabricLibrary>, libraries_dir: &str)
    ensures
        final(out)@.map_values(|d: LibDownload| dl_view(d)) == old(out)@.map_values(|d: LibDownload| dl_view(d)) + fabric_lib_downloads(libs@, libraries_dir@),
{
    let ghost start = out@.map_values(|d: LibDownload| dl_view(d));
    let mut i: usize = 0;
    while i < libs.len()
        invariant
            i <= libs@.len(),
            out@.map_values(|d: LibDownload| dl_view(d)) == start + fabric_lib_downloads(libs@.subrange(0, i as int), libraries_dir@),
        decreases libs.len() - i,
    {
        let ghost before = out@.map_values(|d: LibDownload| dl_view(d));
        let d = maven_dl(libs[i].url.as_str(), libs[i].name.as_str(), &libs[i].sha1, libraries_dir);
        out.push(d);
        assert(out@.map_values(|x: LibDownload| dl_view(x)) =~= before.push(dl_view(d)));
        assert(fabric_lib_downloads(libs@.subrange(0, i + 1), libraries_dir@) =~= fabric_lib_downloads(libs@.subrange(0, i as int), libraries_dir@).push(
            maven_download(libs@[i as int].url@, libs@[i as int].name@, libs@[i as int].sha1, libraries_dir@)));
        i = i + 1;
    }
    assert(libs@.subrange(0, libs@.len() as int) =~= libs@);
}

/// Lists everything a Fabric install fetches.
pub fn fabric_install_downloads(info: &FabricLoaderVersion, libraries_dir: &str) -> (r: Vec<LibDownload>)
    ensures
        r@.map_values(|d: LibDownload| dl_view(d)) == fabric_install_files(*info, libraries_dir@),
{
    let mut out: Vec<LibDownload> = Vec::new();
    out.push(maven_dl("https://maven.fabricmc.net/", info.loader.maven.as_str(), &None, libraries_dir));
    out.push(maven_dl("https://maven.fabricmc.net/", info.intermediary.maven.as_str(), &None, libraries_dir));
    assert(out@.map_values(|d: LibDownload| dl_view(d)) =~= seq![
        maven_download("https://maven.fabricmc.net/"@, info.loader.maven@, None, libraries_dir@),
        maven_download("https://maven.fabricmc.net/"@, info.intermediary.maven@, None, libraries_dir@),
    ]);
    push_lib_downloads(&mut out, &info.launcher_meta.libraries.common, libraries_dir);
    push_lib_downloads(&mut out, &info.launcher_meta.libraries.client, libraries_dir);
    out
}

} // verus!
