use vstd::prelude::*;
use crate::text::{has_prefix, replace, replace_all, split, split_on, str_eq, starts_with, views};

verus! {

/// The operating systems that version descriptors name in their rules.
#[derive(Clone, Copy, Debug, PartialEq, Eq, Structural)]
pub enum HostOs {
    Windows,
    Osx,
    Linux,
}

/// The processor architectures that version descriptors name in their rules.
#[derive(Clone, Copy, Debug, PartialEq, Eq, Structural)]
pub enum HostArch {
    X86,
    X86_64,
    Arm64,
}

/// The machine that a launch runs on.
#[derive(Clone, Copy, Debug, PartialEq, Eq, Structural)]
pub struct Host {
    pub os: HostOs,
    pub arch: HostArch,
}

/// The name that descriptors use for an operating system.
pub open spec fn os_name(os: HostOs) -> Seq<char> {
    match os {
        HostOs::Windows => "windows"@,
        HostOs::Osx => "osx"@,
        HostOs::Linux => "linux"@,
    }
}

/// The name that descriptors use for an architecture.
pub open spec fn arch_name(arch: HostArch) -> Seq<char> {
    match arch {
        HostArch::X86 => "x86"@,
        HostArch::X86_64 => "x86_64"@,
        HostArch::Arm64 => "arm64"@,
    }
}

/// What `${arch}` in a natives classifier stands for.
pub open spec fn arch_bits(arch: HostArch) -> Seq<char> {
    match arch {
        HostArch::X86 => "32"@,
        _ => "64"@,
    }
}

#[derive(Clone, Debug)]
pub struct VersionManifest {
    pub latest: LatestVersions,
    pub versions: Vec<VersionInfo>,
}

#[derive(Clone, Debug)]
pub struct LatestVersions {
    pub release: String,
    pub snapshot: String,
}

#[derive(Clone, Debug)]
pub struct VersionInfo {
    pub id: String,
    pub version_type: String,
    pub url: String,
    pub time: String,
    pub release_time: String,
    pub sha1: String,
    pub compliance_level: i32,
}

#[derive(Clone, Debug)]
pub struct AssetIndex {
    pub id: String,
    pub sha1: String,
    pub size: i64,
    pub total_size: Option<i64>,
    pub url: String,
}

#[derive(Clone, Debug)]
pub struct DownloadInfo {
    pub sha1: String,
    pub size: i64,
    pub url: String,
}

#[derive(Clone, Debug)]
pub struct Downloads {
    pub client: DownloadInfo,
    pub server: Option<DownloadInfo>,
    pub client_mappings: Option<DownloadInfo>,
    pub server_mappings: Option<DownloadInfo>,
}

#[derive(Clone, Debug)]
pub struct Artifact {
    pub path: String,
    pub sha1: String,
    pub size: i64,
    pub url: String,
}

/// Download information of a library: its main artifact and its classifier
/// artifacts, keyed by classifier name.
#[derive(Clone, Debug)]
pub struct LibraryDownloads {
    pub artifact: Option<Artifact>,
    pub classifiers: Option<Vec<(String, Artifact)>>,
}

#[derive(Clone, Debug)]
pub struct OsRule {
    pub name: Option<String>,
    pub version: Option<String>,
    pub arch: Option<String>,
}

/// One rule: an action (`allow` or `disallow`) gated by an optional OS
/// condition and optional feature conditions (feature name, required value).
#[derive(Clone, Debug)]
pub struct Rule {
    pub action: String,
    pub os: Option<OsRule>,
    pub features: Option<Vec<(String, bool)>>,
}

#[derive(Clone, Debug)]
pub struct ExtractInfo {
    pub exclude: Option<Vec<String>>,
}

/// A library of a version descriptor; `natives` maps an OS name to a
/// classifier pattern.
#[derive(Clone, Debug)]
pub struct Library {
    pub name: String,
    pub downloads: Option<LibraryDownloads>,
    pub url: Option<String>,
    pub rules: Option<Vec<Rule>>,
    pub natives: Option<Vec<(String, String)>>,
    pub extract: Option<ExtractInfo>,
}

/// One entry of a modern argument list.
#[derive(Clone, Debug)]
pub enum Argument {
    Plain(String),
    Conditional { rules: Option<Vec<Rule>>, value: Vec<String> },
}

#[derive(Clone, Debug)]
pub struct Arguments {
    pub game: Option<Vec<Argument>>,
    pub jvm: Option<Vec<Argument>>,
}

#[derive(Clone, Debug)]
pub struct JavaVersion {
    pub component: String,
    pub major_version: i32,
}

#[derive(Clone, Debug)]
pub struct VersionDetails {
    pub id: String,
    pub version_type: String,
    pub main_class: String,
    pub minimum_launcher_version: Option<i32>,
    pub release_time: String,
    pub time: String,
    pub assets: Option<String>,
    pub asset_index: Option<AssetIndex>,
    pub downloads: Option<Downloads>,
    pub libraries: Vec<Library>,
    pub arguments: Option<Arguments>,
    pub minecraft_arguments: Option<String>,
    pub java_version: Option<JavaVersion>,
}

/// The value that the launcher gives a feature, or `None` for a feature it
/// does not know.
pub open spec fn feature_value(name: Seq<char>, custom_resolution: bool) -> Option<bool> {
    if name == "is_demo_user"@ {
        Some(false)
    } else if name == "has_custom_resolution"@ {
        Some(custom_resolution)
    } else if has_prefix(name, "is_quick_play_"@) || name == "has_quick_plays_support"@ {
        Some(false)
    } else {
        None
    }
}

/// Every feature condition holds: the feature is known and has the value asked.
pub open spec fn features_match(features: Seq<(String, bool)>, custom_resolution: bool) -> bool {
    forall|i: int|
        0 <= i < features.len() ==> feature_value(#[trigger] features[i].0@, custom_resolution)
            == Some(features[i].1)
}

/// The OS condition holds on `host` (an OS version condition is not checked).
pub open spec fn os_matches(os: Option<OsRule>, host: Host) -> bool {
    match os {
        None => true,
        Some(o) => (match o.name {
            None => true,
            Some(n) => n@ == os_name(host.os),
        }) && (match o.arch {
            None => true,
            Some(a) => a@ == arch_name(host.arch),
        }),
    }
}

/// Whether a rule applies: each condition that it states holds.
pub open spec fn rule_applies(rule: Rule, host: Host, custom_resolution: bool) -> bool {
    os_matches(rule.os, host) && match rule.features {
        None => true,
        Some(fs) => features_match(fs@, custom_resolution),
    }
}

/// The action of the last applicable rule (`true` for allow), if any applies.
pub open spec fn rules_verdict(rules: Seq<Rule>, host: Host, custom_resolution: bool) -> Option<bool>
    decreases rules.len(),
{
    if rules.len() == 0 {
        None
    } else if rule_applies(rules.last(), host, custom_resolution) {
        Some(rules.last().action@ == "allow"@)
    } else {
        rules_verdict(rules.drop_last(), host, custom_resolution)
    }
}

/// A rule list admits its item: it is empty, or its last applicable rule allows.
pub open spec fn rules_allow(rules: Seq<Rule>, host: Host, custom_resolution: bool) -> bool {
    rules.len() == 0 || rules_verdict(rules, host, custom_resolution) == Some(true)
}

/// Whether a library is used on `host`.
pub open spec fn library_allowed(library: Library, host: Host) -> bool {
    match library.rules {
        None => true,
        Some(rs) => rules_allow(rs@, host, false),
    }
}

/// The name that descriptors use for the host's operating system.
pub fn get_os_name(os: HostOs) -> (r: &'static str)
    ensures
        r@ == os_name(os),
{
    match os {
        HostOs::Windows => "windows",
        HostOs::Osx => "osx",
        HostOs::Linux => "linux",
    }
}

/// The name that descriptors use for the host's architecture.
pub fn get_arch_name(arch: HostArch) -> (r: &'static str)
    ensures
        r@ == arch_name(arch),
{
    match arch {
        HostArch::X86 => "x86",
        HostArch::X86_64 => "x86_64",
        HostArch::Arm64 => "arm64",
    }
}

/// What `${arch}` in a natives classifier stands for on this architecture.
pub fn get_arch_bits(arch: HostArch) -> (r: &'static str)
    ensures
        r@ == arch_bits(arch),
{
    match arch {
        HostArch::X86 => "32",
        _ => "64",
    }
}

/// The value that the launcher gives a feature named in a rule.
pub fn get_feature_value(name: &str, custom_resolution: bool) -> (r: Option<bool>)
    ensures
        r == feature_value(name@, custom_resolution),
{
    if str_eq(name, "is_demo_user") {
        Some(false)
    } else if str_eq(name, "has_custom_resolution") {
        Some(custom_resolution)
    } else if starts_with(name, "is_quick_play_") || str_eq(name, "has_quick_plays_support") {
        Some(false)
    } else {
        None
    }
}

/// Whether a rule applies on `host`.
pub fn check_rule_applies(rule: &Rule, host: Host, custom_resolution: bool) -> (r: bool)
    ensures
        r == rule_applies(*rule, host, custom_resolution),
{
    match &rule.os {
        None => {},
        Some(o) => {
            match &o.name {
                None => {},
                Some(n) => {
                    if !str_eq(n.as_str(), get_os_name(host.os)) {
                        return false;
                    }
                },
            }
            match &o.arch {
                None => {},
                Some(a) => {
                    if !str_eq(a.as_str(), get_arch_name(host.arch)) {
                        return false;
                    }
                },
            }
        },
    }
    match &rule.features {
        None => true,
        Some(fs) => {
            let mut i: usize = 0;
            while i < fs.len()
                invariant
                    i <= fs@.len(),
                    os_matches(rule.os, host),
                    rule.features == Some(*fs),
                    forall|k: int|
                        0 <= k < i ==> feature_value(#[trigger] fs@[k].0@, custom_resolution)
                            == Some(fs@[k].1),
                decreases fs.len() - i,
            {
                let v = get_feature_value(fs[i].0.as_str(), custom_resolution);
                match v {
                    Some(b) => {
                        if b != fs[i].1 {
                            assert(feature_value(fs@[i as int].0@, custom_resolution) != Some(fs@[i as int].1));
                            return false;
                        }
                    },
                    None => {
                        assert(feature_value(fs@[i as int].0@, custom_resolution) != Some(fs@[i as int].1));
                        return false;
                    },
                }
                i = i + 1;
            }
            true
        },
    }
}

/// The action of the last applicable rule, if any applies (`Some(true)` for
/// allow).
pub fn evaluate_rules(rules: &Vec<Rule>, host: Host, custom_resolution: bool) -> (r: Option<bool>)
    ensures
        r == rules_verdict(rules@, host, custom_resolution),
{
    let mut verdict: Option<bool> = None;
    let mut i: usize = 0;
    assert(rules@.subrange(0, 0) =~= Seq::<Rule>::empty());
    while i < rules.len()
        invariant
            i <= rules@.len(),
            verdict == rules_verdict(rules@.subrange(0, i as int), host, custom_resolution),
        decreases rules.len() - i,
    {
        proof {
            let t = rules@.subrange(0, i + 1);
            assert(t.drop_last() =~= rules@.subrange(0, i as int));
            assert(t.last() == rules@[i as int]);
        }
        if check_rule_applies(&rules[i], host, custom_resolution) {
            verdict = Some(str_eq(rules[i].action.as_str(), "allow"));
        }
        i = i + 1;
    }
    assert(rules@.subrange(0, rules@.len() as int) =~= rules@);
    verdict
}

/// Whether a rule list admits its item: it is empty, or the last applicable
/// rule allows it (no applicable rule means deny).
pub fn check_argument_rules(rules: &Vec<Rule>, host: Host, custom_resolution: bool) -> (r: bool)
    ensures
        r == rules_allow(rules@, host, custom_resolution),
{
    if rules.len() == 0 {
        return true;
    }
    match evaluate_rules(rules, host, custom_resolution) {
        Some(true) => true,
        _ => false,
    }
}

/// Whether a library is used on `host`, by its rules.
pub fn should_use_library(library: &Library, host: Host) -> (r: bool)
    ensures
        r == library_allowed(*library, host),
{
    match &library.rules {
        None => true,
        Some(rules) => check_argument_rules(rules, host, false),
    }
}


/// The repository path of a maven coordinate `group:artifact:version[:classifier]`:
/// `group/as/path/artifact/version/artifact-version[-classifier].jar`, the
/// classifier kept when `with_classifier` holds; a name of fewer than three
/// parts is its own path.
pub open spec fn maven_path(name: Seq<char>, with_classifier: bool) -> Seq<char> {
    let p = split_on(name, ':');
    if p.len() < 3 {
        name
    } else {
        replace_all(p[0], "."@, "/"@) + "/"@ + p[1] + "/"@ + p[2] + "/"@ + p[1] + "-"@ + p[2] + (
        if with_classifier && p.len() > 3 {
            "-"@ + p[3]
        } else {
            Seq::<char>::empty()
        }) + ".jar"@
    }
}

/// The repository path of a maven coordinate, with or without its classifier.
pub fn maven_coordinate_path(name: &str, with_classifier: bool) -> (r: String)
    ensures
        r@ == maven_path(name@, with_classifier),
{
    let parts = split(name, ':');
    let ghost p = split_on(name@, ':');
    if parts.len() < 3 {
        return name.to_owned();
    }
    proof {
        assert(views(parts@)[0] == parts@[0]@);
        assert(views(parts@)[1] == parts@[1]@);
        assert(views(parts@)[2] == parts@[2]@);
    }
    proof {
        reveal_strlit(".");
    }
    let mut path = replace(parts[0].as_str(), ".", "/");
    path.append("/");
    path.append(parts[1].as_str());
    path.append("/");
    path.append(parts[2].as_str());
    path.append("/");
    path.append(parts[1].as_str());
    path.append("-");
    path.append(parts[2].as_str());
    if with_classifier && parts.len() > 3 {
        proof {
            assert(views(parts@)[3] == parts@[3]@);
        }
        path.append("-");
        path.append(parts[3].as_str());
    }
    path.append(".jar");
    assert(path@ =~= maven_path(name@, with_classifier));
    path
}

/// The library path of a maven coordinate, classifier included.
pub fn library_name_to_path(name: &str) -> (r: String)
    ensures
        r@ == maven_path(name@, true),
{
    maven_coordinate_path(name, true)
}

/// The value stored under the first entry whose key is `key`.
pub open spec fn lookup<T>(entries: Seq<(String, T)>, key: Seq<char>) -> Option<T>
    decreases entries.len(),
{
    if entries.len() == 0 {
        None
    } else if entries[0].0@ == key {
        Some(entries[0].1)
    } else {
        lookup(entries.drop_first(), key)
    }
}

/// The index of the first entry whose key is `key`.
pub fn find_key<T>(entries: &Vec<(String, T)>, key: &str) -> (r: Option<usize>)
    ensures
        match r {
            None => lookup(entries@, key@) is None,
            Some(i) => i < entries@.len() && lookup(entries@, key@) == Some(entries@[i as int].1),
        },
{
    let mut i: usize = 0;
    assert(entries@.subrange(0, entries@.len() as int) =~= entries@);
    while i < entries.len()
        invariant
            i <= entries@.len(),
            lookup(entries@.subrange(i as int, entries@.len() as int), key@) == lookup(entries@, key@),
        decreases entries.len() - i,
    {
        let ghost rest = entries@.subrange(i as int, entries@.len() as int);
        assert(rest[0] == entries@[i as int]);
        if str_eq(entries[i].0.as_str(), key) {
            return Some(i);
        }
        assert(rest.drop_first() =~= entries@.subrange(i + 1, entries@.len() as int));
        i = i + 1;
    }
    None
}

/// The natives classifier of a library for `host`: the pattern stored under the
/// OS name, with `${arch}` replaced by 32 or 64.
pub open spec fn native_classifier(library: Library, host: Host) -> Option<Seq<char>> {
    match library.natives {
        None => None,
        Some(n) => match lookup(n@, os_name(host.os)) {
            None => None,
            Some(pattern) => Some(replace_all(pattern@, "${arch}"@, arch_bits(host.arch))),
        },
    }
}

/// The natives classifier of a library for `host`, if it has one.
pub fn get_native_classifier(library: &Library, host: Host) -> (r: Option<String>)
    ensures
        match r {
            None => native_classifier(*library, host) is None,
            Some(c) => native_classifier(*library, host) == Some(c@),
        },
{
    match &library.natives {
        None => None,
        Some(n) => match find_key(n, get_os_name(host.os)) {
            None => None,
            Some(i) => {
                proof {
                    reveal_strlit("${arch}");
                }
                Some(replace(n[i].1.as_str(), "${arch}", get_arch_bits(host.arch)))
            },
        },
    }
}

} // verus!
