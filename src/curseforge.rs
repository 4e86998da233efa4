use vstd::prelude::*;
use crate::instances::ModLoader;
use crate::text::{contains, has_prefix, occurs_at, str_eq, trim, trim_str, views};
use crate::ordering::{insert_ordered, strictly_ordered};
use crate::java::{all_digits, digits_value, lemma_digits_monotone};
use crate::settings::sanitized_key;

verus! {

/// CurseForge's class of mods.
pub const CURSEFORGE_MOD_CLASS_ID: u32 = 6;
/// CurseForge's class of resource packs.
pub const CURSEFORGE_RESOURCEPACK_CLASS_ID: u32 = 12;
/// CurseForge's class of modpacks.
pub const CURSEFORGE_MODPACK_CLASS_ID: u32 = 4471;
/// CurseForge's class of shaders.
pub const CURSEFORGE_SHADER_CLASS_ID: u32 = 6552;
/// CurseForge's class of data packs.
pub const CURSEFORGE_DATAPACK_CLASS_ID: u32 = 6945;
/// CurseForge's class of customizations.
pub const CURSEFORGE_CUSTOMIZATION_CLASS_ID: u32 = 4546;

#[derive(Clone, Debug)]
pub struct CurseForgeGalleryImage {
    pub url: String,
    pub title: Option<String>,
    pub description: Option<String>,
    pub thumbnail_url: Option<String>,
}

#[derive(Clone, Debug)]
pub struct CurseForgeModpack {
    pub project_id: String,
    pub project_type: String,
    pub title: String,
    pub description: String,
    pub author: String,
    pub downloads: u64,
    pub icon_url: Option<String>,
    pub website_url: Option<String>,
    pub categories: Vec<String>,
    pub body: String,
    pub gallery: Vec<CurseForgeGalleryImage>,
}

#[derive(Clone, Debug)]
pub struct CurseForgeSearchResult {
    pub hits: Vec<CurseForgeModpack>,
    pub offset: u32,
    pub limit: u32,
    pub total_hits: u32,
}

#[derive(Clone, Debug)]
pub struct CurseForgeVersionFile {
    pub url: String,
    pub filename: String,
    pub primary: bool,
    pub size: u64,
}

#[derive(Clone, Debug)]
pub struct CurseForgeModpackVersion {
    pub id: String,
    pub project_id: String,
    pub name: String,
    pub version_number: String,
    pub game_versions: Vec<String>,
    pub loaders: Vec<String>,
    pub files: Vec<CurseForgeVersionFile>,
    pub date_published: String,
    pub version_type: String,
}

/// A mod loader that a modpack manifest names, such as `forge-47.2.0`.
#[derive(Clone, Debug)]
pub struct CurseForgeManifestLoader {
    pub id: String,
    pub primary: bool,
}

/// The game part of a modpack manifest.
#[derive(Clone, Debug)]
pub struct CurseForgeManifestMinecraft {
    pub version: String,
    pub mod_loaders: Vec<CurseForgeManifestLoader>,
}

/// The label of a CurseForge release type: 2 is beta, 3 alpha, anything
/// else a release.
pub fn release_type_label(release_type: u32) -> (r: String)
    ensures
        r@ == if release_type == 2 { "beta"@ } else if release_type == 3 { "alpha"@ } else { "release"@ },
{
    if release_type == 2 {
        "beta".to_owned()
    } else if release_type == 3 {
        "alpha".to_owned()
    } else {
        "release".to_owned()
    }
}

/// Whether a character is a decimal digit or a dot.
pub open spec fn version_char(c: char) -> bool {
    ('0' <= c && c <= '9') || c == '.'
}

/// Whether a tag names a game version: trimmed, it starts with `1` and holds
/// only digits and dots.
pub open spec fn mc_version_tag(tag: Seq<char>) -> bool {
    let t = trim(tag);
    t.len() > 0 && t[0] == '1' && forall|i: int| 0 <= i < t.len() ==> version_char(#[trigger] t[i])
}

/// Whether a tag names a game version.
pub fn is_mc_version_tag(tag: &str) -> (r: bool)
    ensures
        r == mc_version_tag(tag@),
{
    let t = trim_str(tag);
    let n = t.as_str().unicode_len();
    if n == 0 || t.as_str().get_char(0) != '1' {
        return false;
    }
    let mut i: usize = 0;
    while i < n
        invariant
            n == t@.len(),
            t@ == trim(tag@),
            i <= n,
            forall|k: int| 0 <= k < i ==> version_char(#[trigger] t@[k]),
        decreases n - i,
    {
        let c = t.as_str().get_char(i);
        if !(('0' <= c && c <= '9') || c == '.') {
            assert(!version_char(t@[i as int]));
            return false;
        }
        i = i + 1;
    }
    true
}

/// A character lowered if it is an ASCII capital.
pub open spec fn ascii_lower(c: char) -> char {
    if 'A' <= c && c <= 'Z' { ((c as u32) + 32) as char } else { c }
}

/// ASCII capitals lowered, as `str::to_ascii_lowercase` does.
pub open spec fn lower(s: Seq<char>) -> Seq<char> {
    s.map_values(|c: char| ascii_lower(c))
}

/// Lowers the ASCII capitals of a string.
pub fn to_ascii_lower(s: &str) -> (r: String)
    ensures
        r@ == lower(s@),
{
    let n = s.unicode_len();
    let mut out = String::new();
    let mut i: usize = 0;
    proof {
        reveal_strlit("abcdefghijklmnopqrstuvwxyz");
    }
    while i < n
        invariant
            n == s@.len(),
            i <= n,
            out@ == lower(s@.subrange(0, i as int)),
        decreases n - i,
    {
        let c = s.get_char(i);
        if 'A' <= c && c <= 'Z' {
            let k = ((c as u32) - ('A' as u32)) as usize;
            proof {
                reveal_strlit("abcdefghijklmnopqrstuvwxyz");
            }
            let low = "abcdefghijklmnopqrstuvwxyz".substring_char(k, k + 1);
            assert("abcdefghijklmnopqrstuvwxyz"@[k as int] == ascii_lower(c)) by {
                reveal_strlit("abcdefghijklmnopqrstuvwxyz");
                assert(('a' as u32) + k == (c as u32) + 32);
            }
            assert(low@ =~= seq![ascii_lower(c)]);
            out.append(low);
        } else {
            let same = s.substring_char(i, i + 1);
            assert(same@ =~= seq![ascii_lower(c)]);
            out.append(same);
        }
        assert(out@ =~= lower(s@.subrange(0, i + 1)));
        i = i + 1;
    }
    assert(s@.subrange(0, n as int) =~= s@);
    out
}

/// The project type that a requested type stands for, matched trimmed and
/// without case; anything unknown is a mod.
pub open spec fn project_type_of(value: Seq<char>) -> Seq<char> {
    let v = lower(trim(value));
    if v == "modpack"@ || v == "modpacks"@ {
        "modpack"@
    } else if v == "resourcepack"@ || v == "resourcepacks"@ || v == "resource-pack"@ || v == "resource-packs"@
        || v == "texture-pack"@ || v == "texture-packs"@ {
        "resourcepack"@
    } else if v == "shader"@ || v == "shaders"@ {
        "shader"@
    } else if v == "datapack"@ || v == "datapacks"@ || v == "data-pack"@ || v == "data-packs"@ {
        "datapack"@
    } else {
        "mod"@
    }
}

/// Normalises a requested project type.
pub fn normalize_project_type(value: &str) -> (r: String)
    ensures
        r@ == project_type_of(value@),
{
    let t = trim_str(value);
    let v = to_ascii_lower(t.as_str());
    let s = v.as_str();
    if str_eq(s, "modpack") || str_eq(s, "modpacks") {
        "modpack".to_owned()
    } else if str_eq(s, "resourcepack") || str_eq(s, "resourcepacks") || str_eq(s, "resource-pack")
        || str_eq(s, "resource-packs") || str_eq(s, "texture-pack") || str_eq(s, "texture-packs") {
        "resourcepack".to_owned()
    } else if str_eq(s, "shader") || str_eq(s, "shaders") {
        "shader".to_owned()
    } else if str_eq(s, "datapack") || str_eq(s, "datapacks") || str_eq(s, "data-pack") || str_eq(s, "data-packs") {
        "datapack".to_owned()
    } else {
        "mod".to_owned()
    }
}

/// The project type of a CurseForge class, taken modulo 2^32 as the
/// service's identifiers are; an unknown class is a mod.
pub fn project_type_from_class_id(class_id: u64) -> (r: String)
    ensures
        r@ == {
            let c = (class_id % 0x1_0000_0000) as u32;
            if c == CURSEFORGE_MODPACK_CLASS_ID {
                "modpack"@
            } else if c == CURSEFORGE_RESOURCEPACK_CLASS_ID {
                "resourcepack"@
            } else if c == CURSEFORGE_SHADER_CLASS_ID {
                "shader"@
            } else if c == CURSEFORGE_DATAPACK_CLASS_ID {
                "datapack"@
            } else {
                "mod"@
            }
        },
{
    let c = (class_id % 0x1_0000_0000) as u32;
    if c == CURSEFORGE_MODPACK_CLASS_ID {
        "modpack".to_owned()
    } else if c == CURSEFORGE_RESOURCEPACK_CLASS_ID {
        "resourcepack".to_owned()
    } else if c == CURSEFORGE_SHADER_CLASS_ID {
        "shader".to_owned()
    } else if c == CURSEFORGE_DATAPACK_CLASS_ID {
        "datapack".to_owned()
    } else {
        "mod".to_owned()
    }
}

/// The CurseForge classes searched for a project type, in order.
pub fn class_id_candidates_for_project_type(project_type: &str) -> (r: Vec<u32>)
    ensures
        r@ == {
            let t = project_type_of(project_type@);
            if t == "modpack"@ {
                seq![CURSEFORGE_MODPACK_CLASS_ID]
            } else if t == "resourcepack"@ {
                seq![CURSEFORGE_RESOURCEPACK_CLASS_ID]
            } else if t == "shader"@ {
                seq![CURSEFORGE_SHADER_CLASS_ID, CURSEFORGE_CUSTOMIZATION_CLASS_ID, CURSEFORGE_MOD_CLASS_ID]
            } else if t == "datapack"@ {
                seq![CURSEFORGE_DATAPACK_CLASS_ID, CURSEFORGE_CUSTOMIZATION_CLASS_ID, CURSEFORGE_MOD_CLASS_ID]
            } else {
                seq![CURSEFORGE_MOD_CLASS_ID]
            }
        },
{
    let t = normalize_project_type(project_type);
    let s = t.as_str();
    let mut v: Vec<u32> = Vec::new();
    if str_eq(s, "modpack") {
        v.push(CURSEFORGE_MODPACK_CLASS_ID);
    } else if str_eq(s, "resourcepack") {
        v.push(CURSEFORGE_RESOURCEPACK_CLASS_ID);
    } else if str_eq(s, "shader") {
        v.push(CURSEFORGE_SHADER_CLASS_ID);
        v.push(CURSEFORGE_CUSTOMIZATION_CLASS_ID);
        v.push(CURSEFORGE_MOD_CLASS_ID);
    } else if str_eq(s, "datapack") {
        v.push(CURSEFORGE_DATAPACK_CLASS_ID);
        v.push(CURSEFORGE_CUSTOMIZATION_CLASS_ID);
        v.push(CURSEFORGE_MOD_CLASS_ID);
    } else {
        v.push(CURSEFORGE_MOD_CLASS_ID);
    }
    assert(v@ =~= {
        let t = project_type_of(project_type@);
        if t == "modpack"@ {
            seq![CURSEFORGE_MODPACK_CLASS_ID]
        } else if t == "resourcepack"@ {
            seq![CURSEFORGE_RESOURCEPACK_CLASS_ID]
        } else if t == "shader"@ {
            seq![CURSEFORGE_SHADER_CLASS_ID, CURSEFORGE_CUSTOMIZATION_CLASS_ID, CURSEFORGE_MOD_CLASS_ID]
        } else if t == "datapack"@ {
            seq![CURSEFORGE_DATAPACK_CLASS_ID, CURSEFORGE_CUSTOMIZATION_CLASS_ID, CURSEFORGE_MOD_CLASS_ID]
        } else {
            seq![CURSEFORGE_MOD_CLASS_ID]
        }
    });
    v
}

/// The category filters that a project type always adds to a search.
pub fn forced_categories_for_project_type(project_type: &str) -> (r: Vec<String>)
    ensures
        r@.map_values(|s: String| s@) == {
            let t = project_type_of(project_type@);
            if t == "shader"@ {
                seq!["shaders"@]
            } else if t == "datapack"@ {
                seq!["data-packs"@, "datapacks"@]
            } else {
                Seq::<Seq<char>>::empty()
            }
        },
{
    let t = normalize_project_type(project_type);
    let mut v: Vec<String> = Vec::new();
    if str_eq(t.as_str(), "shader") {
        v.push("shaders".to_owned());
    } else if str_eq(t.as_str(), "datapack") {
        v.push("data-packs".to_owned());
        v.push("datapacks".to_owned());
    }
    assert(v@.map_values(|s: String| s@) =~= {
        let t = project_type_of(project_type@);
        if t == "shader"@ {
            seq!["shaders"@]
        } else if t == "datapack"@ {
            seq!["data-packs"@, "datapacks"@]
        } else {
            Seq::<Seq<char>>::empty()
        }
    });
    v
}

/// A download URL trimmed, `None` when missing or blank.
pub fn normalize_download_url(url: Option<String>) -> (r: Option<String>)
    ensures
        match r {
            Some(u) => url is Some && trim(url->0@).len() > 0 && u@ == trim(url->0@),
            None => url is None || trim(url->0@).len() == 0,
        },
{
    match url {
        Some(raw) => {
            let t = trim_str(raw.as_str());
            if t.as_str().unicode_len() == 0 {
                None
            } else {
                Some(t)
            }
        },
        None => None,
    }
}

/// The loader that a modpack manifest asks for: the primary one, else the
/// first; its lowered, trimmed id `fabric-<v>`, `forge-<v>` or
/// `neoforge-<v>` gives the loader and version, anything else vanilla.
pub open spec fn manifest_loader(loaders: Seq<CurseForgeManifestLoader>) -> (ModLoader, Option<Seq<char>>) {
    let chosen = if exists|i: int| 0 <= i < loaders.len() && loaders[i].primary {
        Some(loaders[choose|i: int| 0 <= i < loaders.len() && loaders[i].primary && forall|j: int| 0 <= j < i ==> !loaders[j].primary])
    } else if loaders.len() > 0 {
        Some(loaders[0])
    } else {
        None
    };
    match chosen {
        None => (ModLoader::Vanilla, None),
        Some(l) => {
            let id = lower(trim(l.id@));
            if has_prefix(id, "fabric-"@) {
                (ModLoader::Fabric, Some(id.subrange(7, id.len() as int)))
            } else if has_prefix(id, "forge-"@) {
                (ModLoader::Forge, Some(id.subrange(6, id.len() as int)))
            } else if has_prefix(id, "neoforge-"@) {
                (ModLoader::NeoForge, Some(id.subrange(9, id.len() as int)))
            } else {
                (ModLoader::Vanilla, None)
            }
        },
    }
}

/// Reads the mod loader and its version out of a modpack manifest.
pub fn parse_loader_from_manifest(minecraft: &CurseForgeManifestMinecraft) -> (r: (ModLoader, Option<String>))
    ensures
        r.0 == manifest_loader(minecraft.mod_loaders@).0,
        match r.1 {
            Some(v) => manifest_loader(minecraft.mod_loaders@).1 == Some(v@),
            None => manifest_loader(minecraft.mod_loaders@).1 is None,
        },
{
    let loaders = &minecraft.mod_loaders;
    let mut pick: Option<usize> = None;
    let mut i: usize = 0;
    while i < loaders.len()
        invariant
            i <= loaders@.len(),
            pick is None ==> forall|j: int| 0 <= j < i ==> !loaders@[j].primary,
            pick is Some ==> {
                let p = pick->0 as int;
                0 <= p < loaders@.len() && loaders@[p].primary && forall|j: int| 0 <= j < p ==> !loaders@[j].primary
            },
        decreases loaders.len() - i,
    {
        if pick.is_none() && loaders[i].primary {
            pick = Some(i);
        }
        i = i + 1;
    }
    let chosen = match pick {
        Some(p) => p,
        None => {
            if loaders.len() == 0 {
                return (ModLoader::Vanilla, None);
            }
            0
        },
    };
    proof {
        match pick {
            Some(p) => {
                let c = choose|k: int| 0 <= k < loaders@.len() && loaders@[k].primary && forall|j: int| 0 <= j < k ==> !loaders@[j].primary;
                assert(c == p as int) by {
                    if c < p as int {
                        assert(!loaders@[c].primary);
                    }
                    if c > p as int {
                        assert(!loaders@[p as int].primary);
                    }
                }
            },
            None => {},
        }
    }
    let t = trim_str(loaders[chosen].id.as_str());
    let id = to_ascii_lower(t.as_str());
    let s = id.as_str();
    let n = s.unicode_len();
    if crate::text::starts_with(s, "fabric-") {
        proof {
            reveal_strlit("fabric-");
        }
        (ModLoader::Fabric, Some(s.substring_char(7, n).to_owned()))
    } else if crate::text::starts_with(s, "forge-") {
        proof {
            reveal_strlit("forge-");
        }
        (ModLoader::Forge, Some(s.substring_char(6, n).to_owned()))
    } else if crate::text::starts_with(s, "neoforge-") {
        proof {
            reveal_strlit("neoforge-");
        }
        (ModLoader::NeoForge, Some(s.substring_char(9, n).to_owned()))
    } else {
        (ModLoader::Vanilla, None)
    }
}

/// Where an installed item came from: CurseForge for an all-digit project
/// id, Modrinth otherwise.
pub fn provider_from_project_id(project_id: &str) -> (r: String)
    ensures
        r@ == if project_id@.len() > 0 && forall|i: int| 0 <= i < project_id@.len() ==> '0' <= #[trigger] project_id@[i] && project_id@[i] <= '9' {
            "CurseForge"@
        } else {
            "Modrinth"@
        },
{
    let n = project_id.unicode_len();
    if n == 0 {
        return "Modrinth".to_owned();
    }
    let mut i: usize = 0;
    while i < n
        invariant
            n == project_id@.len(),
            i <= n,
            forall|k: int| 0 <= k < i ==> '0' <= #[trigger] project_id@[k] && project_id@[k] <= '9',
        decreases n - i,
    {
        let c = project_id.get_char(i);
        if c < '0' || c > '9' {
            assert(!('0' <= project_id@[i as int] && project_id@[i as int] <= '9'));
            return "Modrinth".to_owned();
        }
        i = i + 1;
    }
    "CurseForge".to_owned()
}


/// What `u64::from_str` gives: an optional `+`, then one or more decimal
/// digits whose value fits in 64 bits.
pub open spec fn parse_u64_spec(s: Seq<char>) -> Option<u64> {
    let d = if s.len() > 0 && s[0] == '+' { s.drop_first() } else { s };
    if d.len() > 0 && all_digits(d) && digits_value(d) <= u64::MAX {
        Some(digits_value(d) as u64)
    } else {
        None
    }
}

/// Parses a decimal `u64` as `str::parse::<u64>` does.
pub fn parse_u64(s: &str) -> (r: Option<u64>)
    ensures
        r == parse_u64_spec(s@),
{
    let n = s.unicode_len();
    let mut i: usize = 0;
    if n > 0 && s.get_char(0) == '+' {
        i = 1;
    }
    let start = i;
    let ghost d = if s@.len() > 0 && s@[0] == '+' { s@.drop_first() } else { s@ };
    assert(d =~= s@.subrange(start as int, n as int));
    if start == n {
        return None;
    }
    let mut acc: u128 = 0;
    assert(d.subrange(0, 0) =~= Seq::<char>::empty());
    while i < n
        invariant
            n == s@.len(),
            start <= i <= n,
            d == s@.subrange(start as int, n as int),
            d == (if s@.len() > 0 && s@[0] == '+' { s@.drop_first() } else { s@ }),
            acc == digits_value(d.subrange(0, i - start)),
            acc <= u64::MAX,
            all_digits(d.subrange(0, i - start)),
        decreases n - i,
    {
        let c = s.get_char(i);
        let k = i - start;
        assert(d[k as int] == c);
        if c < '0' || c > '9' {
            assert(!all_digits(d));
            return None;
        }
        let ghost t = d.subrange(0, k + 1);
        assert(t.drop_last() =~= d.subrange(0, k as int));
        assert(t.last() == c);
        acc = acc * 10 + ((c as u32) - ('0' as u32)) as u128;
        assert(all_digits(t));
        if acc > u64::MAX as u128 {
            proof {
                assert(acc == digits_value(t));
                if all_digits(d) {
                    lemma_digits_monotone(d, k + 1);
                }
            }
            return None;
        }
        i = i + 1;
    }
    assert(d.subrange(0, n - start) =~= d);
    Some(acc as u64)
}

/// Parses a CurseForge identifier, trimmed; the error names what was being
/// parsed: `Invalid <label> '<value>'`.
pub fn parse_u64_id(value: &str, label: &str) -> (r: Result<u64, String>)
    ensures
        match r {
            Ok(n) => parse_u64_spec(trim(value@)) == Some(n),
            Err(m) => parse_u64_spec(trim(value@)) is None && m@ == "Invalid "@ + label@ + " '"@ + value@ + "'"@,
        },
{
    let t = trim_str(value);
    match parse_u64(t.as_str()) {
        Some(n) => Ok(n),
        None => {
            let mut m = "Invalid ".to_owned();
            m.append(label);
            m.append(" '");
            m.append(value);
            m.append("'");
            Err(m)
        },
    }
}

/// The user agent sent to CurseForge.
pub fn user_agent(launcher_version: &str) -> (r: String)
    ensures
        r@ == "PaletheaLauncher/"@ + launcher_version@ + " (github.com/PaletheaLauncher)"@,
{
    let mut ua = "PaletheaLauncher/".to_owned();
    ua.append(launcher_version);
    ua.append(" (github.com/PaletheaLauncher)");
    ua
}

/// The CurseForge API key, or the message that it is not configured.
pub fn curseforge_api_key(runtime: Option<&str>, built_in: Option<&str>) -> (r: Result<String, String>)
    ensures
        match r {
            Ok(k) => (runtime is Some && sanitized_key(runtime->0@) == Some(k@)) || ((runtime is None
                || sanitized_key(runtime->0@) is None) && built_in is Some && sanitized_key(built_in->0@) == Some(k@)),
            Err(m) => (runtime is None || sanitized_key(runtime->0@) is None) && (built_in is None
                || sanitized_key(built_in->0@) is None)
                && m@ == "CurseForge API key is not configured. Set CURSEFORGE_API_KEY for backend runtime."@,
        },
{
    match crate::settings::get_curseforge_api_key(runtime, built_in) {
        Some(k) => Ok(k),
        None => Err("CurseForge API key is not configured. Set CURSEFORGE_API_KEY for backend runtime.".to_owned()),
    }
}


/// Whether `pat` occurs in `s`.
pub open spec fn holds(s: Seq<char>, pat: Seq<char>) -> bool {
    exists|i: int| occurs_at(s, i, pat)
}

/// The loader that a CurseForge version tag names, matched on the trimmed
/// tag without case: NeoForge, Fabric, Forge (the tag is `forge`, starts
/// with it, or holds ` forge`), Quilt; `None` for any other tag.
pub open spec fn loader_label(tag: Seq<char>) -> Option<Seq<char>> {
    let l = lower(trim(tag));
    if holds(l, "neoforge"@) {
        Some("neoforge"@)
    } else if holds(l, "fabric"@) {
        Some("fabric"@)
    } else if l == "forge"@ || has_prefix(l, "forge"@) || holds(l, " forge"@) {
        Some("forge"@)
    } else if holds(l, "quilt"@) {
        Some("quilt"@)
    } else {
        None
    }
}

fn get_loader_label(tag: &str) -> (r: Option<&'static str>)
    ensures
        match r {
            Some(l) => loader_label(tag@) == Some(l@),
            None => loader_label(tag@) is None,
        },
{
    let t = trim_str(tag);
    let l = to_ascii_lower(t.as_str());
    let s = l.as_str();
    if contains(s, "neoforge") {
        Some("neoforge")
    } else if contains(s, "fabric") {
        Some("fabric")
    } else if str_eq(s, "forge") || crate::text::starts_with(s, "forge") || contains(s, " forge") {
        Some("forge")
    } else if contains(s, "quilt") {
        Some("quilt")
    } else {
        None
    }
}

/// Splits CurseForge version tags into game versions (trimmed, newest
/// first by string order, each once) and loader names (in string order,
/// each once).
pub fn classify_game_versions_and_loaders(tags: &Vec<String>) -> (r: (Vec<String>, Vec<String>))
    ensures
        strictly_ordered(views(r.0@), false),
        strictly_ordered(views(r.1@), true),
        forall|y: Seq<char>|
            views(r.0@).contains(y) <==> exists|i: int| 0 <= i < tags@.len() && mc_version_tag(#[trigger] tags@[i]@) && y == trim(tags@[i]@),
        forall|y: Seq<char>|
            views(r.1@).contains(y) <==> exists|i: int| 0 <= i < tags@.len() && !mc_version_tag(#[trigger] tags@[i]@) && loader_label(tags@[i]@) == Some(y),
{
    let mut versions: Vec<String> = Vec::new();
    let mut loaders: Vec<String> = Vec::new();
    let mut i: usize = 0;
    while i < tags.len()
        invariant
            i <= tags@.len(),
            strictly_ordered(views(versions@), false),
            strictly_ordered(views(loaders@), true),
            forall|y: Seq<char>|
                views(versions@).contains(y) <==> exists|k: int| 0 <= k < i && mc_version_tag(#[trigger] tags@[k]@) && y == trim(tags@[k]@),
            forall|y: Seq<char>|
                views(loaders@).contains(y) <==> exists|k: int| 0 <= k < i && !mc_version_tag(#[trigger] tags@[k]@) && loader_label(tags@[k]@) == Some(y),
        decreases tags.len() - i,
    {
        let tag = tags[i].as_str();
        let ghost ov = views(versions@);
        let ghost ol = views(loaders@);
        if is_mc_version_tag(tag) {
            let t = trim_str(tag);
            insert_ordered(&mut versions, t, false);
            proof {
                assert forall|y: Seq<char>|
                    views(versions@).contains(y) <==> exists|k: int| 0 <= k < i + 1 && mc_version_tag(#[trigger] tags@[k]@) && y == trim(tags@[k]@) by {
                    if y == trim(tags@[i as int]@) {
                        assert(mc_version_tag(tags@[i as int]@));
                    }
                    if exists|k: int| 0 <= k < i + 1 && mc_version_tag(#[trigger] tags@[k]@) && y == trim(tags@[k]@) {
                        let k = choose|k: int| 0 <= k < i + 1 && mc_version_tag(#[trigger] tags@[k]@) && y == trim(tags@[k]@);
                        if k < i {
                            assert(ov.contains(y));
                        }
                    }
                }
                assert forall|y: Seq<char>|
                    views(loaders@).contains(y) <==> exists|k: int| 0 <= k < i + 1 && !mc_version_tag(#[trigger] tags@[k]@) && loader_label(tags@[k]@) == Some(y) by {
                    if exists|k: int| 0 <= k < i + 1 && !mc_version_tag(#[trigger] tags@[k]@) && loader_label(tags@[k]@) == Some(y) {
                        let k = choose|k: int| 0 <= k < i + 1 && !mc_version_tag(#[trigger] tags@[k]@) && loader_label(tags@[k]@) == Some(y);
                        assert(k < i);
                    }
                }
            }
        } else {
            match get_loader_label(tag) {
                Some(l) => {
                    insert_ordered(&mut loaders, l.to_owned(), true);
                },
                None => {},
            }
            proof {
                assert forall|y: Seq<char>|
                    views(versions@).contains(y) <==> exists|k: int| 0 <= k < i + 1 && mc_version_tag(#[trigger] tags@[k]@) && y == trim(tags@[k]@) by {
                    if exists|k: int| 0 <= k < i + 1 && mc_version_tag(#[trigger] tags@[k]@) && y == trim(tags@[k]@) {
                        let k = choose|k: int| 0 <= k < i + 1 && mc_version_tag(#[trigger] tags@[k]@) && y == trim(tags@[k]@);
                        assert(k < i);
                    }
                }
                assert forall|y: Seq<char>|
                    views(loaders@).contains(y) <==> exists|k: int| 0 <= k < i + 1 && !mc_version_tag(#[trigger] tags@[k]@) && loader_label(tags@[k]@) == Some(y) by {
                    if loader_label(tags@[i as int]@) == Some(y) {
                        assert(!mc_version_tag(tags@[i as int]@));
                    }
                    if exists|k: int| 0 <= k < i + 1 && !mc_version_tag(#[trigger] tags@[k]@) && loader_label(tags@[k]@) == Some(y) {
                        let k = choose|k: int| 0 <= k < i + 1 && !mc_version_tag(#[trigger] tags@[k]@) && loader_label(tags@[k]@) == Some(y);
                        if k < i {
                            assert(ol.contains(y));
                        }
                    }
                }
            }
        }
        i = i + 1;
    }
    (versions, loaders)
}


/// A file of a CurseForge project as the service describes it.
#[derive(Clone, Debug)]
pub struct CurseForgeFile {
    pub id: u64,
    pub display_name: String,
    pub file_name: String,
    pub file_date: String,
    pub file_length: u64,
    pub download_url: Option<String>,
    pub game_versions: Vec<String>,
    pub release_type: u32,
}

/// The name shown for a file: its display name, or its file name when the
/// display name is blank.
pub open spec fn shown_name(file: CurseForgeFile) -> Seq<char> {
    if trim(file.display_name@).len() == 0 { file.file_name@ } else { file.display_name@ }
}

/// A CurseForge file as a modpack version: ids in decimal, the shown name as
/// name and version number, its tags classified, one primary file, and the
/// release type's label.
pub fn to_modpack_version(project_id: u64, file: CurseForgeFile) -> (r: CurseForgeModpackVersion)
    ensures
        r.id@ == crate::args::decimal(file.id as nat),
        r.project_id@ == crate::args::decimal(project_id as nat),
        r.name@ == shown_name(file),
        r.version_number@ == shown_name(file),
        strictly_ordered(views(r.game_versions@), false),
        strictly_ordered(views(r.loaders@), true),
        forall|y: Seq<char>|
            views(r.game_versions@).contains(y) <==> exists|i: int|
                0 <= i < file.game_versions@.len() && mc_version_tag(#[trigger] file.game_versions@[i]@) && y == trim(file.game_versions@[i]@),
        forall|y: Seq<char>|
            views(r.loaders@).contains(y) <==> exists|i: int|
                0 <= i < file.game_versions@.len() && !mc_version_tag(#[trigger] file.game_versions@[i]@) && loader_label(file.game_versions@[i]@) == Some(y),
        r.files@.len() == 1,
        r.files@[0].url@ == match file.download_url { Some(u) => u@, None => Seq::<char>::empty() },
        r.files@[0].filename == file.file_name,
        r.files@[0].primary,
        r.files@[0].size == file.file_length,
        r.date_published == file.file_date,
        r.version_type@ == if file.release_type == 2 { "beta"@ } else if file.release_type == 3 { "alpha"@ } else { "release"@ },
{
    let (game_versions, loaders) = classify_game_versions_and_loaders(&file.game_versions);
    let blank = trim_str(file.display_name.as_str()).as_str().unicode_len() == 0;
    let name = if blank { file.file_name.clone() } else { file.display_name.clone() };
    let version_number = if blank { file.file_name.clone() } else { file.display_name.clone() };
    let url = match &file.download_url {
        Some(u) => u.clone(),
        None => String::new(),
    };
    let mut files: Vec<CurseForgeVersionFile> = Vec::new();
    files.push(CurseForgeVersionFile { url, filename: file.file_name, primary: true, size: file.file_length });
    CurseForgeModpackVersion {
        id: crate::args::u64_to_string(file.id),
        project_id: crate::args::u64_to_string(project_id),
        name,
        version_number,
        game_versions,
        loaders,
        files,
        date_published: file.file_date,
        version_type: release_type_label(file.release_type),
    }
}

} // verus!
