use vstd::prelude::*;
use crate::downloader::{client_jar, client_jar_path};
use crate::instances::{join_path, path_join};
use crate::merge::{dedup_classpath, deduped_paths, entry_views};
use crate::text::{join, join_strs, views};
use crate::versions::{
    find_key, get_native_classifier, library_allowed, library_name_to_path, lookup, maven_path,
    native_classifier, should_use_library, Host, HostOs, Library,
};

verus! {

/// The main classpath entry of a library: its artifact's path, or its maven
/// path when it has no download information.
pub open spec fn main_entry(lib: Library, libraries_dir: Seq<char>) -> Seq<(Seq<char>, Seq<char>)> {
    match lib.downloads {
        Some(d) => match d.artifact {
            Some(a) => seq![(lib.name@, path_join(libraries_dir, a.path@))],
            None => Seq::empty(),
        },
        None => seq![(lib.name@, path_join(libraries_dir, maven_path(lib.name@, true)))],
    }
}

/// The natives classifier entry of a library on `host`, named
/// `<name>:<classifier>` so that it keeps an identity of its own.
pub open spec fn native_entry(lib: Library, host: Host, libraries_dir: Seq<char>) -> Seq<(Seq<char>, Seq<char>)> {
    match lib.downloads {
        Some(d) => match (native_classifier(lib, host), d.classifiers) {
            (Some(key), Some(cs)) => match lookup(cs@, key) {
                Some(a) => seq![(lib.name@ + ":"@ + key, path_join(libraries_dir, a.path@))],
                None => Seq::empty(),
            },
            _ => Seq::empty(),
        },
        None => Seq::empty(),
    }
}

/// The main entries of the libraries that their rules admit on `host`.
pub open spec fn main_entries(libs: Seq<Library>, host: Host, libraries_dir: Seq<char>) -> Seq<(Seq<char>, Seq<char>)>
    decreases libs.len(),
{
    if libs.len() == 0 {
        Seq::empty()
    } else {
        main_entries(libs.drop_last(), host, libraries_dir) + if library_allowed(libs.last(), host) {
            main_entry(libs.last(), libraries_dir)
        } else {
            Seq::empty()
        }
    }
}

/// The natives entries of the libraries that their rules admit on `host`.
pub open spec fn native_entries(libs: Seq<Library>, host: Host, libraries_dir: Seq<char>) -> Seq<(Seq<char>, Seq<char>)>
    decreases libs.len(),
{
    if libs.len() == 0 {
        Seq::empty()
    } else {
        native_entries(libs.drop_last(), host, libraries_dir) + if library_allowed(libs.last(), host) {
            native_entry(libs.last(), host, libraries_dir)
        } else {
            Seq::empty()
        }
    }
}

/// A main classpath entry belongs to a library of `libs` whose rules allow it.
pub open spec fn main_from_allowed(e: (Seq<char>, Seq<char>), libs: Seq<Library>, host: Host, libraries_dir: Seq<char>) -> bool {
    exists|i: int| 0 <= i < libs.len() && library_allowed(libs[i], host) && main_entry(libs[i], libraries_dir).contains(e)
}

/// A natives classpath entry belongs to a library of `libs` whose rules allow it.
pub open spec fn native_from_allowed(e: (Seq<char>, Seq<char>), libs: Seq<Library>, host: Host, libraries_dir: Seq<char>) -> bool {
    exists|i: int| 0 <= i < libs.len() && library_allowed(libs[i], host) && native_entry(libs[i], host, libraries_dir).contains(e)
}

/// Every library entry of the classpath, main artifact or natives
/// classifier, belongs to a library whose rules allow it on the host.
pub proof fn classpath_entries_from_allowed(libs: Seq<Library>, host: Host, libraries_dir: Seq<char>)
    ensures
        forall|k: int|
            0 <= k < main_entries(libs, host, libraries_dir).len() ==> main_from_allowed(#[trigger] main_entries(libs, host, libraries_dir)[k], libs, host, libraries_dir),
        forall|k: int|
            0 <= k < native_entries(libs, host, libraries_dir).len() ==> native_from_allowed(#[trigger] native_entries(libs, host, libraries_dir)[k], libs, host, libraries_dir),
    decreases libs.len(),
{
    if libs.len() > 0 {
        let prev = libs.drop_last();
        classpath_entries_from_allowed(prev, host, libraries_dir);
        let last = libs[libs.len() - 1];
        let m0 = main_entries(prev, host, libraries_dir);
        let n0 = native_entries(prev, host, libraries_dir);
        assert forall|k: int| 0 <= k < main_entries(libs, host, libraries_dir).len() implies main_from_allowed(#[trigger] main_entries(libs, host, libraries_dir)[k], libs, host, libraries_dir) by {
            let f = main_entries(libs, host, libraries_dir)[k];
            if k < m0.len() {
                assert(f == m0[k]);
                let i = choose|i: int| 0 <= i < prev.len() && library_allowed(prev[i], host) && main_entry(prev[i], libraries_dir).contains(m0[k]);
                assert(libs[i] == prev[i]);
                assert(0 <= i < libs.len() && library_allowed(libs[i], host) && main_entry(libs[i], libraries_dir).contains(f));
            } else {
                assert(library_allowed(last, host));
                assert(main_entry(last, libraries_dir)[k - m0.len()] == f);
                assert(main_entry(libs[libs.len() - 1], libraries_dir).contains(f));
            }
        }
        assert forall|k: int| 0 <= k < native_entries(libs, host, libraries_dir).len() implies native_from_allowed(#[trigger] native_entries(libs, host, libraries_dir)[k], libs, host, libraries_dir) by {
            let f = native_entries(libs, host, libraries_dir)[k];
            if k < n0.len() {
                assert(f == n0[k]);
                let i = choose|i: int| 0 <= i < prev.len() && library_allowed(prev[i], host) && native_entry(prev[i], host, libraries_dir).contains(n0[k]);
                assert(libs[i] == prev[i]);
                assert(0 <= i < libs.len() && library_allowed(libs[i], host) && native_entry(libs[i], host, libraries_dir).contains(f));
            } else {
                assert(library_allowed(last, host));
                assert(native_entry(last, host, libraries_dir)[k - n0.len()] == f);
                assert(native_entry(libs[libs.len() - 1], host, libraries_dir).contains(f));
            }
        }
    }
}

/// The classpath separator: `;` on Windows, `:` elsewhere.
pub open spec fn separator(os: HostOs) -> Seq<char> {
    if os == HostOs::Windows { ";"@ } else { ":"@ }
}

/// The classpath of a launch: the loader's entries, the libraries' main
/// artifacts, then their natives classifiers, deduplicated by identity with
/// the first occurrence kept, then the client jar; joined by the platform's
/// separator.
pub open spec fn classpath_text(
    loader: Seq<(Seq<char>, Seq<char>)>,
    libs: Seq<Library>,
    host: Host,
    libraries_dir: Seq<char>,
    versions_dir: Seq<char>,
    id: Seq<char>,
) -> Seq<char> {
    join(
        deduped_paths(loader + main_entries(libs, host, libraries_dir) + native_entries(libs, host, libraries_dir)).push(
            client_jar(versions_dir, id),
        ),
        separator(host.os),
    )
}

fn push_main_entries(out: &mut Vec<(String, String)>, libs: &Vec<Library>, host: Host, libraries_dir: &str)
    ensures
        entry_views(final(out)@) == entry_views(old(out)@) + main_entries(libs@, host, libraries_dir@),
{
    let ghost start = entry_views(out@);
    let mut i: usize = 0;
    assert(libs@.subrange(0, 0) =~= Seq::<Library>::empty());
    assert(start + Seq::<(Seq<char>, Seq<char>)>::empty() =~= start);
    while i < libs.len()
        invariant
            i <= libs@.len(),
            entry_views(out@) == start + main_entries(libs@.subrange(0, i as int), host, libraries_dir@),
        decreases libs.len() - i,
    {
        proof {
            let t = libs@.subrange(0, i + 1);
            assert(t.drop_last() =~= libs@.subrange(0, i as int));
            assert(t.last() == libs@[i as int]);
        }
        let ghost before = entry_views(out@);
        let lib = &libs[i];
        if should_use_library(lib, host) {
            match &lib.downloads {
                Some(d) => match &d.artifact {
                    Some(a) => {
                        let e = (lib.name.clone(), join_path(libraries_dir, a.path.as_str()));
                        out.push(e);
                        assert(entry_views(out@) =~= before.push((e.0@, e.1@)));
                    },
                    None => {},
                },
                None => {
                    let p = library_name_to_path(lib.name.as_str());
                    let e = (lib.name.clone(), join_path(libraries_dir, p.as_str()));
                    out.push(e);
                    assert(entry_views(out@) =~= before.push((e.0@, e.1@)));
                },
            }
        }
        assert(entry_views(out@) =~= start + main_entries(libs@.subrange(0, i + 1), host, libraries_dir@));
        i = i + 1;
    }
    assert(libs@.subrange(0, libs@.len() as int) =~= libs@);
}

fn push_native_entries(out: &mut Vec<(String, String)>, libs: &Vec<Library>, host: Host, libraries_dir: &str)
    ensures
        entry_views(final(out)@) == entry_views(old(out)@) + native_entries(libs@, host, libraries_dir@),
{
    let ghost start = entry_views(out@);
    let mut i: usize = 0;
    assert(libs@.subrange(0, 0) =~= Seq::<Library>::empty());
    assert(start + Seq::<(Seq<char>, Seq<char>)>::empty() =~= start);
    while i < libs.len()
        invariant
            i <= libs@.len(),
            entry_views(out@) == start + native_entries(libs@.subrange(0, i as int), host, libraries_dir@),
        decreases libs.len() - i,
    {
        proof {
            let t = libs@.subrange(0, i + 1);
            assert(t.drop_last() =~= libs@.subrange(0, i as int));
            assert(t.last() == libs@[i as int]);
        }
        let ghost before = entry_views(out@);
        let lib = &libs[i];
        if should_use_library(lib, host) {
            match &lib.downloads {
                Some(d) => {
                    let key = get_native_classifier(lib, host);
                    match (key, &d.classifiers) {
                        (Some(k), Some(cs)) => match find_key(cs, k.as_str()) {
                            Some(j) => {
                                let mut name = lib.name.clone();
                                name.append(":");
                                name.append(k.as_str());
                                let e = (name, join_path(libraries_dir, cs[j].1.path.as_str()));
                                out.push(e);
                                assert(entry_views(out@) =~= before.push((e.0@, e.1@)));
                            },
                            None => {},
                        },
                        _ => {},
                    }
                },
                None => {},
            }
        }
        assert(entry_views(out@) =~= start + native_entries(libs@.subrange(0, i + 1), host, libraries_dir@));
        i = i + 1;
    }
    assert(libs@.subrange(0, libs@.len() as int) =~= libs@);
}

/// Builds the classpath of a launch from the loader's `(maven name, path)`
/// entries and the merged descriptor's libraries.
pub fn build_classpath(
    loader: &Vec<(String, String)>,
    libs: &Vec<Library>,
    host: Host,
    libraries_dir: &str,
    versions_dir: &str,
    id: &str,
) -> (r: String)
    ensures
        r@ == classpath_text(entry_views(loader@), libs@, host, libraries_dir@, versions_dir@, id@),
{
    let mut entries: Vec<(String, String)> = Vec::new();
    let mut i: usize = 0;
    while i < loader.len()
        invariant
            i <= loader@.len(),
            entry_views(entries@) == entry_views(loader@.subrange(0, i as int)),
        decreases loader.len() - i,
    {
        let ghost before = entry_views(entries@);
        let e = (loader[i].0.clone(), loader[i].1.clone());
        entries.push(e);
        assert(entry_views(entries@) =~= before.push((e.0@, e.1@)));
        assert(entry_views(entries@) =~= entry_views(loader@.subrange(0, i + 1)));
        i = i + 1;
    }
    assert(loader@.subrange(0, loader@.len() as int) =~= loader@);
    push_main_entries(&mut entries, libs, host, libraries_dir);
    push_native_entries(&mut entries, libs, host, libraries_dir);
    let mut paths = dedup_classpath(&entries);
    let ghost kept = views(paths@);
    paths.push(client_jar_path(versions_dir, id));
    assert(views(paths@) =~= kept.push(client_jar(versions_dir@, id@)));
    let sep = match host.os {
        HostOs::Windows => ";",
        _ => ":",
    };
    join_strs(&paths, sep)
}

} // verus!
