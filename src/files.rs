use vstd::prelude::*;
use crate::instances::{join_path, path_join, Instance};
use crate::text::{has_prefix, starts_with, views};

verus! {

#[derive(Clone, Debug)]
pub struct InstalledMod {
    pub filename: String,
    pub name: Option<String>,
    pub author: Option<String>,
    pub version: Option<String>,
    pub enabled: bool,
    pub project_id: Option<String>,
    pub version_id: Option<String>,
    pub icon_url: Option<String>,
    pub size: u64,
    pub provider: String,
    pub categories: Option<Vec<String>>,
}

/// What the launcher remembers of an installed item.
#[derive(Clone, Debug)]
pub struct ModMeta {
    pub project_id: String,
    pub version_id: Option<String>,
    pub name: Option<String>,
    pub author: Option<String>,
    pub icon_url: Option<String>,
    pub version_name: Option<String>,
    pub categories: Option<Vec<String>>,
}

#[derive(Clone, Debug)]
pub struct ResourcePack {
    pub filename: String,
    pub name: Option<String>,
    pub author: Option<String>,
    pub version: Option<String>,
    pub project_id: Option<String>,
    pub version_id: Option<String>,
    pub icon_url: Option<String>,
    pub size: u64,
    pub provider: String,
    pub categories: Option<Vec<String>>,
}

#[derive(Clone, Debug)]
pub struct ShaderPack {
    pub filename: String,
    pub name: Option<String>,
    pub author: Option<String>,
    pub version: Option<String>,
    pub project_id: Option<String>,
    pub version_id: Option<String>,
    pub icon_url: Option<String>,
    pub size: u64,
    pub provider: String,
    pub categories: Option<Vec<String>>,
}

#[derive(Clone, Debug)]
pub struct Datapack {
    pub filename: String,
    pub name: Option<String>,
    pub author: Option<String>,
    pub version: Option<String>,
    pub enabled: bool,
    pub project_id: Option<String>,
    pub version_id: Option<String>,
    pub icon_url: Option<String>,
    pub size: u64,
    pub provider: String,
}

#[derive(Clone, Debug)]
pub struct World {
    pub folder_name: String,
    pub name: String,
    pub last_played: Option<i64>,
    pub game_mode: Option<i32>,
    pub icon: Option<String>,
    pub size: u64,
}

/// A server entry; `accept_textures` is 0 to prompt, 1 enabled, 2 disabled.
#[derive(Clone, Debug)]
pub struct Server {
    pub name: String,
    pub ip: String,
    pub icon: Option<String>,
    pub accept_textures: i8,
}

#[derive(Clone, Debug)]
pub struct Screenshot {
    pub filename: String,
    pub path: String,
    pub date: Option<String>,
}

/// A subdirectory of the instance's game directory.
pub open spec fn game_subdir(instance: Instance, instances_dir: Seq<char>, name: Seq<char>) -> Seq<char> {
    path_join(
        match instance.game_directory {
            Some(g) => g@,
            None => path_join(path_join(instances_dir, instance.id@), "minecraft"@),
        },
        name,
    )
}

fn subdir(instance: &Instance, instances_dir: &str, name: &str) -> (r: String)
    ensures
        r@ == game_subdir(*instance, instances_dir@, name@),
{
    let g = instance.get_game_directory(instances_dir);
    join_path(g.as_str(), name)
}

/// The instance's mods directory.
pub fn get_mods_dir(instance: &Instance, instances_dir: &str) -> (r: String)
    ensures
        r@ == game_subdir(*instance, instances_dir@, "mods"@),
{
    subdir(instance, instances_dir, "mods")
}

/// The instance's resource packs directory.
pub fn get_resourcepacks_dir(instance: &Instance, instances_dir: &str) -> (r: String)
    ensures
        r@ == game_subdir(*instance, instances_dir@, "resourcepacks"@),
{
    subdir(instance, instances_dir, "resourcepacks")
}

/// The instance's shader packs directory.
pub fn get_shaderpacks_dir(instance: &Instance, instances_dir: &str) -> (r: String)
    ensures
        r@ == game_subdir(*instance, instances_dir@, "shaderpacks"@),
{
    subdir(instance, instances_dir, "shaderpacks")
}

/// The instance's worlds directory.
pub fn get_saves_dir(instance: &Instance, instances_dir: &str) -> (r: String)
    ensures
        r@ == game_subdir(*instance, instances_dir@, "saves"@),
{
    subdir(instance, instances_dir, "saves")
}

/// The instance's screenshots directory.
pub fn get_screenshots_dir(instance: &Instance, instances_dir: &str) -> (r: String)
    ensures
        r@ == game_subdir(*instance, instances_dir@, "screenshots"@),
{
    subdir(instance, instances_dir, "screenshots")
}

/// The instance's logs directory.
pub fn get_logs_dir(instance: &Instance, instances_dir: &str) -> (r: String)
    ensures
        r@ == game_subdir(*instance, instances_dir@, "logs"@),
{
    subdir(instance, instances_dir, "logs")
}

/// The metadata directory beside a content directory's items.
pub fn metadata_dir(parent_dir: &str) -> (r: String)
    ensures
        r@ == path_join(parent_dir@, "metadata"@),
{
    join_path(parent_dir, "metadata")
}

/// Where the metadata of an item is kept: `metadata/<file>.meta.json`.
pub fn metadata_path(parent_dir: &str, filename: &str) -> (r: String)
    ensures
        r@ == path_join(path_join(parent_dir@, "metadata"@), filename@ + ".meta.json"@),
{
    let d = metadata_dir(parent_dir);
    let mut f = filename.to_owned();
    f.append(".meta.json");
    join_path(d.as_str(), f.as_str())
}

/// Where older versions kept an item's metadata: beside the item.
pub fn legacy_metadata_path(parent_dir: &str, filename: &str) -> (r: String)
    ensures
        r@ == path_join(parent_dir@, filename@ + ".meta.json"@),
{
    let mut f = filename.to_owned();
    f.append(".meta.json");
    join_path(parent_dir, f.as_str())
}

/// Whether a directory entry is no content item: the metadata directory, or
/// a hidden index file.
pub fn should_skip_pack_entry(is_dir: bool, filename: &str) -> (r: bool)
    ensures
        r == ((is_dir && filename@ == "metadata"@) || has_prefix(filename@, "."@)),
{
    if is_dir && crate::text::str_eq(filename, "metadata") {
        return true;
    }
    crate::text::starts_with(filename, ".")
}


/// Where the metadata of the item at `file_path` is kept: the metadata path
/// for the part after the last `/` inside the part before it; `None` for a
/// path with no `/` or that ends in one.
pub fn meta_path_for_file(file_path: &str) -> (r: Option<String>)
    ensures
        match r {
            Some(p) => exists|k: int|
                0 <= k < file_path@.len() - 1 && file_path@[k] == '/' && (forall|j: int| k < j < file_path@.len() ==> file_path@[j] != '/')
                && p@ == path_join(path_join(file_path@.subrange(0, k), "metadata"@), file_path@.subrange(k + 1, file_path@.len() as int) + ".meta.json"@),
            None => forall|k: int| 0 <= k < file_path@.len() - 1 ==> file_path@[k] != '/' || exists|j: int| k < j < file_path@.len() && file_path@[j] == '/',
        },
{
    let n = file_path.unicode_len();
    let mut i: usize = n;
    while i > 0
        invariant
            i <= n,
            n == file_path@.len(),
            forall|j: int| i <= j < n ==> file_path@[j] != '/',
        decreases i,
    {
        if file_path.get_char(i - 1) == '/' {
            let k = i - 1;
            if k + 1 >= n {
                assert forall|q: int| 0 <= q < file_path@.len() - 1 implies file_path@[q] != '/' || exists|j: int| q < j < file_path@.len() && file_path@[j] == '/' by {
                    assert(file_path@[k as int] == '/' && q < k);
                }
                return None;
            }
            let parent = file_path.substring_char(0, k);
            let name = file_path.substring_char(k + 1, n);
            return Some(metadata_path(parent, name));
        }
        i = i - 1;
    }
    assert forall|q: int| 0 <= q < file_path@.len() - 1 implies file_path@[q] != '/' || exists|j: int| q < j < file_path@.len() && file_path@[j] == '/' by {}
    None
}


/// Whether an entry of a natives jar is extracted: not a directory, not
/// under `META-INF`, and not under any of the library's exclusions.
pub open spec fn extracted_entry(name: Seq<char>, is_dir: bool, exclusions: Seq<Seq<char>>) -> bool {
    !is_dir && !has_prefix(name, "META-INF"@) && forall|i: int| 0 <= i < exclusions.len() ==> !has_prefix(name, #[trigger] exclusions[i])
}

/// Decides whether an entry of a natives jar is extracted.
pub fn should_extract(name: &str, is_dir: bool, exclusions: &Vec<String>) -> (r: bool)
    ensures
        r == extracted_entry(name@, is_dir, views(exclusions@)),
{
    let mut i: usize = 0;
    while i < exclusions.len()
        invariant
            i <= exclusions@.len(),
            forall|k: int| 0 <= k < i ==> !has_prefix(name@, #[trigger] views(exclusions@)[k]),
        decreases exclusions.len() - i,
    {
        assert(views(exclusions@)[i as int] == exclusions@[i as int]@);
        if starts_with(name, exclusions[i].as_str()) {
            return false;
        }
        i = i + 1;
    }
    !is_dir && !starts_with(name, "META-INF")
}

} // verus!
