use vstd::prelude::*;

verus! {

#[derive(Clone, Debug)]
pub struct ModrinthGalleryImage {
    pub url: String,
    pub raw_url: Option<String>,
    pub featured: bool,
    pub title: Option<String>,
    pub description: Option<String>,
    pub created: String,
}

#[derive(Clone, Debug)]
pub struct ModrinthProject {
    pub slug: String,
    pub title: String,
    pub description: String,
    pub body: String,
    pub project_type: String,
    pub downloads: u64,
    pub icon_url: Option<String>,
    pub project_id: String,
    pub author: String,
    pub categories: Vec<String>,
    pub game_versions: Vec<String>,
    pub loaders: Vec<String>,
    pub gallery: Vec<ModrinthGalleryImage>,
}

#[derive(Clone, Debug)]
pub struct ModrinthUser {
    pub id: String,
    pub username: String,
    pub name: Option<String>,
    pub avatar_url: Option<String>,
}

#[derive(Clone, Debug)]
pub struct ModrinthMember {
    pub team_id: String,
    pub user: ModrinthUser,
    pub role: String,
    pub accepted: bool,
}

#[derive(Clone, Debug)]
pub struct ModrinthSearchResult {
    pub hits: Vec<ModrinthProject>,
    pub offset: u32,
    pub limit: u32,
    pub total_hits: u32,
}

#[derive(Clone, Debug)]
pub struct ModrinthHashes {
    pub sha1: Option<String>,
    pub sha512: Option<String>,
}

#[derive(Clone, Debug)]
pub struct ModrinthFile {
    pub url: String,
    pub filename: String,
    pub primary: bool,
    pub size: u64,
    pub hashes: ModrinthHashes,
}

#[derive(Clone, Debug)]
pub struct ModrinthDependency {
    pub version_id: Option<String>,
    pub project_id: Option<String>,
    pub dependency_type: String,
}

/// A version of a Modrinth project; `version_type` is `release`, `beta` or
/// `alpha`.
#[derive(Clone, Debug)]
pub struct ModrinthVersion {
    pub id: String,
    pub project_id: String,
    pub name: String,
    pub version_number: String,
    pub game_versions: Vec<String>,
    pub loaders: Vec<String>,
    pub files: Vec<ModrinthFile>,
    pub dependencies: Vec<ModrinthDependency>,
    pub date_published: String,
    pub version_type: String,
}

#[derive(Clone, Debug)]
pub struct ModpackEnv {
    pub client: String,
    pub server: String,
}

/// A file of a Modrinth modpack; `hashes` maps an algorithm name to a digest.
#[derive(Clone, Debug)]
pub struct ModpackFile {
    pub path: String,
    pub hashes: Vec<(String, String)>,
    pub env: Option<ModpackEnv>,
    pub downloads: Vec<String>,
    pub file_size: u64,
}

/// The index of a Modrinth modpack; `dependencies` maps a component
/// (`minecraft`, `fabric-loader`, ...) to its version.
#[derive(Clone, Debug)]
pub struct ModpackIndex {
    pub format_version: u32,
    pub game: String,
    pub version_id: String,
    pub name: String,
    pub dependencies: Vec<(String, String)>,
    pub files: Vec<ModpackFile>,
}

} // verus!
