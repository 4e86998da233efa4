use vstd::prelude::*;
use crate::instances::{join_path, path_join};
use crate::text::{str_eq, views};
use crate::versions::{
    VersionDetails,
    find_key, get_native_classifier, library_name_to_path, lookup, maven_path, native_classifier,
    should_use_library, library_allowed, Artifact, Host, Library,
};

verus! {

/// The lowercase hexadecimal SHA-1 digest of some bytes, as `sha1` computes it.
pub uninterp spec fn sha1_hex_of(data: Seq<u8>) -> Seq<char>;

/// Relies on `sha1::Sha1::digest` and the lower-hex formatting of its output:
/// the digest depends on the bytes alone.
#[verifier::external_body]
fn sha1_hex(data: &[u8]) -> (r: String)
    ensures
        r@ == sha1_hex_of(data@),
{
    format!("{:x}", <sha1::Sha1 as sha1::Digest>::digest(data))
}

/// Whether some content has the expected SHA-1 digest.
pub fn verify_sha1(content: &[u8], expected: &str) -> (r: bool)
    ensures
        r == (sha1_hex_of(content@) == expected@),
{
    let actual = sha1_hex(content);
    str_eq(actual.as_str(), expected)
}

/// Whether a file already on disk may be kept: with a non-empty expected
/// digest, when it exists and its content has that digest; with an empty or
/// missing one, when it exists.
pub open spec fn keep_existing(expected: Option<String>, content: Option<Vec<u8>>) -> bool {
    match expected {
        Some(e) if e@.len() > 0 => content is Some && sha1_hex_of(content->0@) == e@,
        _ => content is Some,
    }
}

/// Decides whether a file must be fetched; `content` is what the file holds,
/// `None` when it does not exist.
pub fn needs_download(expected: &Option<String>, content: &Option<Vec<u8>>) -> (r: bool)
    ensures
        r == !keep_existing(*expected, *content),
{
    match expected {
        Some(e) => {
            if e.as_str().unicode_len() > 0 {
                match content {
                    Some(c) => !verify_sha1(c.as_slice(), e.as_str()),
                    None => true,
                }
            } else {
                content.is_none()
            }
        },
        None => content.is_none(),
    }
}

/// Why a download failed.
#[derive(Clone, Copy, Debug, PartialEq, Eq, Structural)]
pub enum DownloadError {
    /// The transfer failed or the server refused it.
    Network,
    /// The bytes do not have the expected digest; the file is removed.
    Integrity,
}

/// Fetched bytes may be kept: with a non-empty expected digest, they have it.
pub open spec fn accepted(expected: Option<String>, bytes: Seq<u8>) -> bool {
    match expected {
        Some(e) => e@.len() == 0 || sha1_hex_of(bytes) == e@,
        None => true,
    }
}

/// Checks fetched bytes before they are kept: with a non-empty expected
/// digest, they must have it.
pub fn accept_download(expected: &Option<String>, bytes: &[u8]) -> (r: Result<(), DownloadError>)
    ensures
        r is Ok <==> accepted(*expected, bytes@),
        r is Err ==> r == Err::<(), DownloadError>(DownloadError::Integrity),
{
    match expected {
        Some(e) => {
            if e.as_str().unicode_len() > 0 && !verify_sha1(bytes, e.as_str()) {
                Err(DownloadError::Integrity)
            } else {
                Ok(())
            }
        },
        None => Ok(()),
    }
}

/// One file to fetch: where from, where to, its digest (empty when unknown)
/// and its size.
#[derive(Clone, Debug)]
pub struct LibDownload {
    pub url: String,
    pub path: String,
    pub sha1: String,
    pub size: i64,
}

/// The view of a planned download.
pub open spec fn dl_view(d: LibDownload) -> (Seq<char>, Seq<char>, Seq<char>, i64) {
    (d.url@, d.path@, d.sha1@, d.size)
}

/// The maven repository used for libraries that give no download information.
pub open spec fn mojang_libraries() -> Seq<char> {
    "https://libraries.minecraft.net/"@
}

/// The download of an artifact into the libraries directory.
pub open spec fn artifact_download(a: Artifact, libraries_dir: Seq<char>) -> (Seq<char>, Seq<char>, Seq<char>, i64) {
    (a.url@, path_join(libraries_dir, a.path@), a.sha1@, a.size)
}

/// The files that one library needs on `host`: its main artifact and its
/// natives classifier artifact when it has download information; else the
/// maven path fetched from the library's own repository or from Mojang's.
pub open spec fn library_files(lib: Library, host: Host, libraries_dir: Seq<char>) -> Seq<(Seq<char>, Seq<char>, Seq<char>, i64)> {
    match lib.downloads {
        Some(d) => (match d.artifact {
            Some(a) => seq![artifact_download(a, libraries_dir)],
            None => Seq::empty(),
        }) + match (native_classifier(lib, host), d.classifiers) {
            (Some(key), Some(cs)) => match lookup(cs@, key) {
                Some(a) => seq![artifact_download(a, libraries_dir)],
                None => Seq::empty(),
            },
            _ => Seq::empty(),
        },
        None => {
            let p = maven_path(lib.name@, true);
            let url = match lib.url {
                Some(base) => if base@.len() > 0 && base@.last() == '/' { base@ + p } else { base@ + "/"@ + p },
                None => mojang_libraries() + p,
            };
            seq![(url, path_join(libraries_dir, p), Seq::<char>::empty(), 0i64)]
        },
    }
}

/// The files that a library list needs on `host`, library by library, the
/// libraries that their rules exclude left out.
pub open spec fn planned_files(libs: Seq<Library>, host: Host, libraries_dir: Seq<char>) -> Seq<(Seq<char>, Seq<char>, Seq<char>, i64)>
    decreases libs.len(),
{
    if libs.len() == 0 {
        Seq::empty()
    } else {
        planned_files(libs.drop_last(), host, libraries_dir) + if library_allowed(libs.last(), host) {
            library_files(libs.last(), host, libraries_dir)
        } else {
            Seq::empty()
        }
    }
}

fn artifact_dl(a: &Artifact, libraries_dir: &str) -> (r: LibDownload)
    ensures
        dl_view(r) == artifact_download(*a, libraries_dir@),
{
    LibDownload { url: a.url.clone(), path: join_path(libraries_dir, a.path.as_str()), sha1: a.sha1.clone(), size: a.size }
}

/// Lists the files that one library needs on `host`.
pub fn library_downloads(lib: &Library, host: Host, libraries_dir: &str) -> (r: Vec<LibDownload>)
    ensures
        r@.map_values(|d: LibDownload| dl_view(d)) == library_files(*lib, host, libraries_dir@),
{
    let mut out: Vec<LibDownload> = Vec::new();
    match &lib.downloads {
        Some(d) => {
            match &d.artifact {
                Some(a) => out.push(artifact_dl(a, libraries_dir)),
                None => {},
            }
            let key = get_native_classifier(lib, host);
            match (key, &d.classifiers) {
                (Some(k), Some(cs)) => match find_key(cs, k.as_str()) {
                    Some(i) => {
                        out.push(artifact_dl(&cs[i].1, libraries_dir));
                        assert(out@.map_values(|x: LibDownload| dl_view(x)) =~= library_files(*lib, host, libraries_dir@));
                    },
                    None => {
                        assert(out@.map_values(|x: LibDownload| dl_view(x)) =~= library_files(*lib, host, libraries_dir@));
                    },
                },
                _ => {
                    assert(out@.map_values(|x: LibDownload| dl_view(x)) =~= library_files(*lib, host, libraries_dir@));
                },
            }
        },
        None => {
            let p = library_name_to_path(lib.name.as_str());
            let url = match &lib.url {
                Some(base) => {
                    let n = base.as_str().unicode_len();
                    let mut u = base.clone();
                    if n > 0 && base.as_str().get_char(n - 1) == '/' {
                        u.append(p.as_str());
                    } else {
                        u.append("/");
                        u.append(p.as_str());
                    }
                    u
                },
                None => {
                    let mut u = "https://libraries.minecraft.net/".to_owned();
                    u.append(p.as_str());
                    u
                },
            };
            out.push(LibDownload { url, path: join_path(libraries_dir, p.as_str()), sha1: String::new(), size: 0 });
            assert(out@.map_values(|x: LibDownload| dl_view(x)) =~= library_files(*lib, host, libraries_dir@));
        },
    }
    out
}

/// Lists the files that a version's libraries need on `host`, skipping the
/// libraries that their rules exclude.
pub fn plan_library_downloads(libs: &Vec<Library>, host: Host, libraries_dir: &str) -> (r: Vec<LibDownload>)
    ensures
        r@.map_values(|d: LibDownload| dl_view(d)) == planned_files(libs@, host, libraries_dir@),
{
    let mut out: Vec<LibDownload> = Vec::new();
    let mut i: usize = 0;
    assert(libs@.subrange(0, 0) =~= Seq::<Library>::empty());
    assert(out@.map_values(|x: LibDownload| dl_view(x)) =~= Seq::<(Seq<char>, Seq<char>, Seq<char>, i64)>::empty());
    while i < libs.len()
        invariant
            i <= libs@.len(),
            out@.map_values(|x: LibDownload| dl_view(x)) == planned_files(libs@.subrange(0, i as int), host, libraries_dir@),
        decreases libs.len() - i,
    {
        proof {
            let t = libs@.subrange(0, i + 1);
            assert(t.drop_last() =~= libs@.subrange(0, i as int));
            assert(t.last() == libs@[i as int]);
        }
        if should_use_library(&libs[i], host) {
            let mut more = library_downloads(&libs[i], host, libraries_dir);
            let ghost before = out@;
            let ghost extra = more@;
            let mut k: usize = 0;
            let m = more.len();
            while k < m
                invariant
                    m == extra.len(),
                    k <= m,
                    more@ == extra,
                    out@ == before + extra.subrange(0, k as int),
                decreases m - k,
            {
                out.push(more[k].clone_download());
                k = k + 1;
                assert(out@ =~= before + extra.subrange(0, k as int));
            }
            assert(extra.subrange(0, m as int) =~= extra);
            assert(out@.map_values(|x: LibDownload| dl_view(x)) =~= before.map_values(|x: LibDownload| dl_view(x)) + extra.map_values(|x: LibDownload| dl_view(x)));
        } else {
            assert(out@.map_values(|x: LibDownload| dl_view(x)) =~= planned_files(libs@.subrange(0, i + 1), host, libraries_dir@));
        }
        i = i + 1;
    }
    assert(libs@.subrange(0, libs@.len() as int) =~= libs@);
    out
}

impl LibDownload {
    /// A copy of this download.
    pub fn clone_download(&self) -> (r: LibDownload)
        ensures
            r == *self,
    {
        LibDownload { url: self.url.clone(), path: self.path.clone(), sha1: self.sha1.clone(), size: self.size }
    }
}

/// The positions of the libraries that their rules admit on `host`, in order.
pub fn select_libraries(libs: &Vec<Library>, host: Host) -> (r: Vec<usize>)
    ensures
        forall|k: int| 0 <= k < r@.len() ==> r@[k] < libs@.len() && library_allowed(libs@[r@[k] as int], host),
        forall|i: int| 0 <= i < libs@.len() && library_allowed(#[trigger] libs@[i], host) ==> r@.contains(i as usize),
        forall|a: int, b: int| 0 <= a < b < r@.len() ==> r@[a] < r@[b],
{
    let mut out: Vec<usize> = Vec::new();
    let mut i: usize = 0;
    while i < libs.len()
        invariant
            i <= libs@.len(),
            forall|k: int| 0 <= k < out@.len() ==> out@[k] < i && library_allowed(libs@[out@[k] as int], host),
            forall|j: int| 0 <= j < i && library_allowed(#[trigger] libs@[j], host) ==> out@.contains(j as usize),
            forall|a: int, b: int| 0 <= a < b < out@.len() ==> out@[a] < out@[b],
        decreases libs.len() - i,
    {
        if should_use_library(&libs[i], host) {
            let ghost before = out@;
            out.push(i);
            proof {
                assert forall|j: int| 0 <= j < i + 1 && library_allowed(#[trigger] libs@[j], host) implies out@.contains(j as usize) by {
                    if j < i {
                        let w = choose|w: int| 0 <= w < before.len() && before[w] == j as usize;
                        assert(out@[w] == j as usize);
                    } else {
                        assert(out@[out@.len() - 1] == i);
                    }
                }
            }
        }
        i = i + 1;
    }
    out
}

/// A planned file belongs to a library of `libs` whose rules allow it.
pub open spec fn from_allowed_library(f: (Seq<char>, Seq<char>, Seq<char>, i64), libs: Seq<Library>, host: Host, libraries_dir: Seq<char>) -> bool {
    exists|i: int| 0 <= i < libs.len() && library_allowed(libs[i], host) && library_files(libs[i], host, libraries_dir).contains(f)
}

/// Every file that the download plan holds belongs to a library whose rules
/// allow it on the host: a rules re-evaluation of that library says allow.
pub proof fn planned_files_from_allowed(libs: Seq<Library>, host: Host, libraries_dir: Seq<char>)
    ensures
        forall|k: int|
            0 <= k < planned_files(libs, host, libraries_dir).len() ==> from_allowed_library(#[trigger] planned_files(libs, host, libraries_dir)[k], libs, host, libraries_dir),
    decreases libs.len(),
{
    if libs.len() > 0 {
        let prev = libs.drop_last();
        planned_files_from_allowed(prev, host, libraries_dir);
        let p0 = planned_files(prev, host, libraries_dir);
        let last = libs[libs.len() - 1];
        assert forall|k: int| 0 <= k < planned_files(libs, host, libraries_dir).len() implies from_allowed_library(#[trigger] planned_files(libs, host, libraries_dir)[k], libs, host, libraries_dir) by {
            let f = planned_files(libs, host, libraries_dir)[k];
            if k < p0.len() {
                assert(f == p0[k]);
                let i = choose|i: int| 0 <= i < prev.len() && library_allowed(prev[i], host) && library_files(prev[i], host, libraries_dir).contains(p0[k]);
                assert(libs[i] == prev[i]);
                assert(0 <= i < libs.len() && library_allowed(libs[i], host) && library_files(libs[i], host, libraries_dir).contains(f));
            } else {
                assert(library_allowed(last, host));
                assert(library_files(last, host, libraries_dir)[k - p0.len()] == f);
                assert(library_files(libs[libs.len() - 1], host, libraries_dir).contains(f));
            }
        }
    }
}

/// Where an asset object lives: `objects/<first two digits>/<hash>` under
/// the assets directory.
pub open spec fn asset_object_path(assets_dir: Seq<char>, hash: Seq<char>) -> Seq<char> {
    path_join(path_join(path_join(assets_dir, "objects"@), hash.subrange(0, 2)), hash)
}

/// The path of an asset object.
pub fn asset_path(assets_dir: &str, hash: &str) -> (r: String)
    requires
        hash@.len() >= 2,
    ensures
        r@ == asset_object_path(assets_dir@, hash@),
{
    let objects = join_path(assets_dir, "objects");
    let prefix = hash.substring_char(0, 2);
    let dir = join_path(objects.as_str(), prefix);
    join_path(dir.as_str(), hash)
}

/// The URL of an asset object.
pub fn asset_url(hash: &str) -> (r: String)
    requires
        hash@.len() >= 2,
    ensures
        r@ == "https://resources.download.minecraft.net/"@ + hash@.subrange(0, 2) + "/"@ + hash@,
{
    let mut u = "https://resources.download.minecraft.net/".to_owned();
    u.append(hash.substring_char(0, 2));
    u.append("/");
    u.append(hash);
    u
}

/// Where a version's client jar lives: `versions/<id>/<id>.jar`.
pub open spec fn client_jar(versions_dir: Seq<char>, id: Seq<char>) -> Seq<char> {
    path_join(path_join(versions_dir, id), id + ".jar"@)
}

/// The path of a version's client jar.
pub fn client_jar_path(versions_dir: &str, id: &str) -> (r: String)
    ensures
        r@ == client_jar(versions_dir@, id@),
{
    let dir = join_path(versions_dir, id);
    let mut file = id.to_owned();
    file.append(".jar");
    join_path(dir.as_str(), file.as_str())
}

/// The path of a version's descriptor: `versions/<id>/<id>.json`.
pub fn version_json_path(versions_dir: &str, id: &str) -> (r: String)
    ensures
        r@ == path_join(path_join(versions_dir@, id@), id@ + ".json"@),
{
    let dir = join_path(versions_dir, id);
    let mut file = id.to_owned();
    file.append(".json");
    join_path(dir.as_str(), file.as_str())
}


/// An object of an asset index: its content hash and size.
#[derive(Clone, Debug)]
pub struct AssetObject {
    pub hash: String,
    pub size: u64,
}

/// The download of one asset object.
pub open spec fn asset_file(o: AssetObject, assets_dir: Seq<char>) -> (Seq<char>, Seq<char>, Seq<char>, u64) {
    (
        "https://resources.download.minecraft.net/"@ + o.hash@.subrange(0, 2) + "/"@ + o.hash@,
        asset_object_path(assets_dir, o.hash@),
        o.hash@,
        o.size,
    )
}

/// The downloads of an asset index's objects, in order; an object whose hash
/// is shorter than two characters has no place in the store and is skipped.
pub open spec fn asset_files(objects: Seq<AssetObject>, assets_dir: Seq<char>) -> Seq<(Seq<char>, Seq<char>, Seq<char>, u64)>
    decreases objects.len(),
{
    if objects.len() == 0 {
        Seq::empty()
    } else {
        asset_files(objects.drop_last(), assets_dir) + if objects.last().hash@.len() >= 2 {
            seq![asset_file(objects.last(), assets_dir)]
        } else {
            Seq::empty()
        }
    }
}

/// One asset object to fetch, checked against its hash.
#[derive(Clone, Debug)]
pub struct AssetDownload {
    pub url: String,
    pub path: String,
    pub hash: String,
    pub size: u64,
}

/// Lists the downloads of an asset index's objects.
pub fn plan_asset_downloads(objects: &Vec<AssetObject>, assets_dir: &str) -> (r: Vec<AssetDownload>)
    ensures
        r@.map_values(|d: AssetDownload| (d.url@, d.path@, d.hash@, d.size)) == asset_files(objects@, assets_dir@),
{
    let mut out: Vec<AssetDownload> = Vec::new();
    let mut i: usize = 0;
    assert(objects@.subrange(0, 0) =~= Seq::<AssetObject>::empty());
    assert(out@.map_values(|d: AssetDownload| (d.url@, d.path@, d.hash@, d.size)) =~= Seq::<(Seq<char>, Seq<char>, Seq<char>, u64)>::empty());
    while i < objects.len()
        invariant
            i <= objects@.len(),
            out@.map_values(|d: AssetDownload| (d.url@, d.path@, d.hash@, d.size)) == asset_files(objects@.subrange(0, i as int), assets_dir@),
        decreases objects.len() - i,
    {
        proof {
            let t = objects@.subrange(0, i + 1);
            assert(t.drop_last() =~= objects@.subrange(0, i as int));
            assert(t.last() == objects@[i as int]);
        }
        let o = &objects[i];
        if o.hash.as_str().unicode_len() >= 2 {
            let d = AssetDownload {
                url: asset_url(o.hash.as_str()),
                path: asset_path(assets_dir, o.hash.as_str()),
                hash: o.hash.clone(),
                size: o.size,
            };
            out.push(d);
        }
        assert(out@.map_values(|d: AssetDownload| (d.url@, d.path@, d.hash@, d.size)) =~= asset_files(objects@.subrange(0, i + 1), assets_dir@));
        i = i + 1;
    }
    assert(objects@.subrange(0, objects@.len() as int) =~= objects@);
    out
}

/// Whether a progress event goes out after `done` of `total` completions:
/// every `every` completions, and at the last one.
pub fn should_emit_progress(done: u32, total: u32, every: u32) -> (r: bool)
    requires
        every > 0,
    ensures
        r == (done % every == 0 || done == total),
{
    done % every == 0 || done == total
}

/// A natives jar to unpack: its path and the entry prefixes its library
/// excludes.
pub open spec fn natives_jar(lib: Library, host: Host, libraries_dir: Seq<char>) -> Seq<(Seq<char>, Seq<Seq<char>>)> {
    match lib.downloads {
        Some(d) => match (native_classifier(lib, host), d.classifiers) {
            (Some(key), Some(cs)) => match lookup(cs@, key) {
                Some(a) => seq![(path_join(libraries_dir, a.path@), match lib.extract {
                    Some(e) => match e.exclude {
                        Some(x) => views(x@),
                        None => Seq::empty(),
                    },
                    None => Seq::empty(),
                })],
                None => Seq::empty(),
            },
            _ => Seq::empty(),
        },
        None => Seq::empty(),
    }
}

/// The natives jars of the libraries that their rules admit on `host`.
pub open spec fn natives_jars(libs: Seq<Library>, host: Host, libraries_dir: Seq<char>) -> Seq<(Seq<char>, Seq<Seq<char>>)>
    decreases libs.len(),
{
    if libs.len() == 0 {
        Seq::empty()
    } else {
        natives_jars(libs.drop_last(), host, libraries_dir) + if library_allowed(libs.last(), host) {
            natives_jar(libs.last(), host, libraries_dir)
        } else {
            Seq::empty()
        }
    }
}

fn copy_strings(v: &Vec<String>) -> (r: Vec<String>)
    ensures
        views(r@) == views(v@),
{
    let mut out: Vec<String> = Vec::new();
    let mut i: usize = 0;
    while i < v.len()
        invariant
            i <= v@.len(),
            views(out@) == views(v@.subrange(0, i as int)),
        decreases v.len() - i,
    {
        let ghost before = views(out@);
        out.push(v[i].clone());
        assert(views(out@) =~= before.push(v@[i as int]@));
        assert(views(out@) =~= views(v@.subrange(0, i + 1)));
        i = i + 1;
    }
    assert(v@.subrange(0, v@.len() as int) =~= v@);
    out
}

/// Lists the natives jars to unpack for a launch, with their exclusions.
pub fn natives_to_extract(libs: &Vec<Library>, host: Host, libraries_dir: &str) -> (r: Vec<(String, Vec<String>)>)
    ensures
        r@.map_values(|e: (String, Vec<String>)| (e.0@, views(e.1@))) == natives_jars(libs@, host, libraries_dir@),
{
    let mut out: Vec<(String, Vec<String>)> = Vec::new();
    let mut i: usize = 0;
    assert(libs@.subrange(0, 0) =~= Seq::<Library>::empty());
    assert(out@.map_values(|e: (String, Vec<String>)| (e.0@, views(e.1@))) =~= Seq::<(Seq<char>, Seq<Seq<char>>)>::empty());
    while i < libs.len()
        invariant
            i <= libs@.len(),
            out@.map_values(|e: (String, Vec<String>)| (e.0@, views(e.1@))) == natives_jars(libs@.subrange(0, i as int), host, libraries_dir@),
        decreases libs.len() - i,
    {
        proof {
            let t = libs@.subrange(0, i + 1);
            assert(t.drop_last() =~= libs@.subrange(0, i as int));
            assert(t.last() == libs@[i as int]);
        }
        let lib = &libs[i];
        if should_use_library(lib, host) {
            match &lib.downloads {
                Some(d) => {
                    let key = get_native_classifier(lib, host);
                    match (key, &d.classifiers) {
                        (Some(k), Some(cs)) => match find_key(cs, k.as_str()) {
                            Some(j) => {
                                let excl = match &lib.extract {
                                    Some(e) => match &e.exclude {
                                        Some(x) => copy_strings(x),
                                        None => Vec::new(),
                                    },
                                    None => Vec::new(),
                                };
                                assert(views(excl@) == match lib.extract {
                                    Some(e) => match e.exclude {
                                        Some(x) => views(x@),
                                        None => Seq::<Seq<char>>::empty(),
                                    },
                                    None => Seq::<Seq<char>>::empty(),
                                }) by {
                                    assert(views(Seq::<String>::empty()) =~= Seq::<Seq<char>>::empty());
                                }
                                out.push((join_path(libraries_dir, cs[j].1.path.as_str()), excl));
                            },
                            None => {},
                        },
                        _ => {},
                    }
                },
                None => {},
            }
        }
        assert(out@.map_values(|e: (String, Vec<String>)| (e.0@, views(e.1@))) =~= natives_jars(libs@.subrange(0, i + 1), host, libraries_dir@));
        i = i + 1;
    }
    assert(libs@.subrange(0, libs@.len() as int) =~= libs@);
    out
}


/// The client jar download of a version: from the descriptor's client
/// download entry to `versions/<id>/<id>.jar`, checked against its digest.
pub fn client_download(details: &VersionDetails, versions_dir: &str) -> (r: Option<LibDownload>)
    ensures
        match details.downloads {
            None => r is None,
            Some(d) => r is Some && dl_view(r->0) == (d.client.url@, client_jar(versions_dir@, details.id@), d.client.sha1@, d.client.size),
        },
{
    match &details.downloads {
        None => None,
        Some(d) => Some(LibDownload {
            url: d.client.url.clone(),
            path: client_jar_path(versions_dir, details.id.as_str()),
            sha1: d.client.sha1.clone(),
            size: d.client.size,
        }),
    }
}


/// A client jar that passes the check has the digest that the descriptor's
/// client download names (`client_download` places it at
/// `versions/<id>/<id>.jar`).
pub proof fn accepted_client_jar_matches(details: VersionDetails, bytes: Seq<u8>)
    requires
        details.downloads is Some,
        details.downloads->0.client.sha1@.len() > 0,
        accepted(Some(details.downloads->0.client.sha1), bytes),
    ensures
        sha1_hex_of(bytes) == details.downloads->0.client.sha1@,
{
}

/// Every planned library file with a digest, once its bytes pass the check,
/// has that digest: the plan keeps each artifact's digest, and the check
/// compares against it.
pub proof fn accepted_library_file_matches(
    libs: Seq<Library>,
    host: Host,
    libraries_dir: Seq<char>,
    k: int,
    expected: String,
    bytes: Seq<u8>,
)
    requires
        0 <= k < planned_files(libs, host, libraries_dir).len(),
        expected@ == planned_files(libs, host, libraries_dir)[k].2,
        expected@.len() > 0,
        accepted(Some(expected), bytes),
    ensures
        sha1_hex_of(bytes) == planned_files(libs, host, libraries_dir)[k].2,
{
}

} // verus!
