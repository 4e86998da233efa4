use vstd::prelude::*;
use crate::text::{split, split_on, str_eq, views};
use crate::versions::{Arguments, Library, VersionDetails};

verus! {

/// The identity of a maven coordinate: `group:artifact[:classifier]`, the
/// version left out.
pub open spec fn lib_identity(name: Seq<char>) -> Seq<char> {
    let p = split_on(name, ':');
    if p.len() >= 4 {
        p[0] + ":"@ + p[1] + ":"@ + p[3]
    } else if p.len() >= 2 {
        p[0] + ":"@ + p[1]
    } else {
        name
    }
}

/// The identity (`group:artifact[:classifier]`) of a maven coordinate.
pub fn get_lib_identity(name: &str) -> (r: String)
    ensures
        r@ == lib_identity(name@),
{
    let parts = split(name, ':');
    proof {
        if parts@.len() >= 2 {
            assert(views(parts@)[0] == parts@[0]@);
            assert(views(parts@)[1] == parts@[1]@);
        }
        if parts@.len() >= 4 {
            assert(views(parts@)[3] == parts@[3]@);
        }
    }
    if parts.len() >= 4 {
        let mut id = parts[0].clone();
        id.append(":");
        id.append(parts[1].as_str());
        id.append(":");
        id.append(parts[3].as_str());
        assert(id@ =~= lib_identity(name@));
        id
    } else if parts.len() >= 2 {
        let mut id = parts[0].clone();
        id.append(":");
        id.append(parts[1].as_str());
        assert(id@ =~= lib_identity(name@));
        id
    } else {
        name.to_owned()
    }
}

/// Whether some library of `libs` has identity `id`.
pub open spec fn has_identity(libs: Seq<Library>, id: Seq<char>) -> bool {
    exists|i: int| 0 <= i < libs.len() && lib_identity(#[trigger] libs[i].name@) == id
}

/// The libraries whose identity has not occurred earlier in the list, in
/// order: the first occurrence of each identity.
pub open spec fn first_by_identity(libs: Seq<Library>) -> Seq<Library>
    decreases libs.len(),
{
    if libs.len() == 0 {
        Seq::empty()
    } else {
        let before = first_by_identity(libs.drop_last());
        if has_identity(libs.drop_last(), lib_identity(libs.last().name@)) {
            before
        } else {
            before.push(libs.last())
        }
    }
}

/// The merged library list: the loader's libraries, then the vanilla ones,
/// each identity kept at its first occurrence only.
pub open spec fn merged_libs(loader: Seq<Library>, vanilla: Seq<Library>) -> Seq<Library> {
    first_by_identity(loader + vanilla)
}

/// No two libraries share an identity.
pub open spec fn unique_identities(libs: Seq<Library>) -> bool {
    forall|i: int, j: int|
        0 <= i < libs.len() && 0 <= j < libs.len() && i != j ==> lib_identity(
            #[trigger] libs[i].name@,
        ) != lib_identity(#[trigger] libs[j].name@)
}

/// Whether `id` is among the views of `ids`.
fn contains_id(ids: &Vec<String>, id: &str) -> (r: bool)
    ensures
        r == exists|k: int| 0 <= k < ids@.len() && ids@[k]@ == id@,
{
    let mut k: usize = 0;
    while k < ids.len()
        invariant
            k <= ids@.len(),
            forall|j: int| 0 <= j < k ==> ids@[j]@ != id@,
        decreases ids.len() - k,
    {
        if str_eq(ids[k].as_str(), id) {
            return true;
        }
        k = k + 1;
    }
    false
}

/// Overlays a loader's library list on the vanilla one: the loader's
/// libraries first, then the vanilla ones, keeping only the first library of
/// each identity.
pub fn merge_libraries(loader: Vec<Library>, vanilla: Vec<Library>) -> (r: Vec<Library>)
    ensures
        r@ == merged_libs(loader@, vanilla@),
{
    let all = concat_vecs(loader, vanilla);
    dedup_libraries(all)
}

/// Keeps the first library of each identity, in order.
pub fn dedup_libraries(libs: Vec<Library>) -> (r: Vec<Library>)
    ensures
        r@ == first_by_identity(libs@),
{
    let ghost orig = libs@;
    let n = libs.len();
    let mut rest = libs;
    let mut out: Vec<Library> = Vec::new();
    let mut ids: Vec<String> = Vec::new();
    let mut j: usize = 0;
    assert(orig.subrange(0, 0) =~= Seq::<Library>::empty());
    while rest.len() > 0
        invariant
            orig.len() == n,
            j <= n,
            rest@ == orig.subrange(j as int, n as int),
            out@ == first_by_identity(orig.subrange(0, j as int)),
            ids@.len() == j,
            forall|k: int| 0 <= k < j ==> ids@[k]@ == lib_identity(#[trigger] orig[k].name@),
        decreases rest.len(),
    {
        let lib = rest.remove(0);
        assert(lib == orig[j as int]);
        let id = get_lib_identity(lib.name.as_str());
        let present = contains_id(&ids, id.as_str());
        let ghost pre = orig.subrange(0, j as int);
        let ghost next = orig.subrange(0, j + 1);
        proof {
            assert(next.drop_last() =~= pre);
            assert(next.last() == lib);
            if present {
                let k = choose|k: int| 0 <= k < ids@.len() && ids@[k]@ == id@;
                assert(pre[k] == orig[k]);
                assert(lib_identity(pre[k].name@) == id@);
                assert(has_identity(pre, id@));
            } else {
                assert forall|k: int| 0 <= k < pre.len() implies lib_identity(#[trigger] pre[k].name@) != id@ by {
                    assert(pre[k] == orig[k]);
                    assert(ids@[k]@ == lib_identity(orig[k].name@));
                }
            }
        }
        if !present {
            out.push(lib);
        }
        ids.push(id);
        j = j + 1;
        assert(rest@ =~= orig.subrange(j as int, n as int));
    }
    assert(orig.subrange(0, n as int) =~= orig);
    out
}

proof fn lemma_first_from(libs: Seq<Library>)
    ensures
        forall|i: int|
            0 <= i < first_by_identity(libs).len() ==> exists|j: int|
                0 <= j < libs.len() && #[trigger] first_by_identity(libs)[i] == libs[j],
    decreases libs.len(),
{
    if libs.len() > 0 {
        let prev = libs.drop_last();
        lemma_first_from(prev);
        let before = first_by_identity(prev);
        assert forall|i: int| 0 <= i < first_by_identity(libs).len() implies exists|j: int|
            0 <= j < libs.len() && #[trigger] first_by_identity(libs)[i] == libs[j] by {
            if i < before.len() {
                let j = choose|j: int| 0 <= j < prev.len() && before[i] == prev[j];
                assert(libs[j] == prev[j]);
            } else {
                assert(first_by_identity(libs)[i] == libs[libs.len() - 1]);
            }
        }
    }
}

proof fn lemma_first_unique(libs: Seq<Library>)
    ensures
        unique_identities(first_by_identity(libs)),
    decreases libs.len(),
{
    if libs.len() > 0 {
        let prev = libs.drop_last();
        lemma_first_unique(prev);
        let m0 = first_by_identity(prev);
        let id = lib_identity(libs.last().name@);
        if !has_identity(prev, id) {
            lemma_first_from(prev);
            let m = first_by_identity(libs);
            assert(m =~= m0.push(libs.last()));
            assert forall|i: int| 0 <= i < m0.len() implies lib_identity(#[trigger] m0[i].name@) != id by {
                let j = choose|j: int| 0 <= j < prev.len() && m0[i] == prev[j];
                assert(lib_identity(prev[j].name@) != id);
            }
            assert forall|i: int, j: int|
                0 <= i < m.len() && 0 <= j < m.len() && i != j implies lib_identity(#[trigger] m[i].name@) != lib_identity(
                #[trigger] m[j].name@,
            ) by {
                if i < m0.len() && j < m0.len() {
                    assert(m[i] == m0[i] && m[j] == m0[j]);
                } else if i < m0.len() {
                    assert(m[i] == m0[i]);
                } else {
                    assert(m[j] == m0[j]);
                }
            }
        }
    }
}

/// After a merge no two libraries share an identity.
pub proof fn merged_identities_unique(loader: Seq<Library>, vanilla: Seq<Library>)
    ensures
        unique_identities(merged_libs(loader, vanilla)),
{
    lemma_first_unique(loader + vanilla);
}

/// A merge starts with all of the loader's libraries, in order, when they
/// have no identity twice.
pub proof fn merge_keeps_loader_first(loader: Seq<Library>, vanilla: Seq<Library>)
    requires
        unique_identities(loader),
    ensures
        merged_libs(loader, vanilla).subrange(0, loader.len() as int) == loader,
{
    assert((loader + vanilla).subrange(0, loader.len() as int) =~= loader);
    lemma_loader_prefix(loader + vanilla, loader.len() as int, loader);
}

proof fn lemma_loader_prefix(all: Seq<Library>, n: int, loader: Seq<Library>)
    requires
        0 <= n <= all.len(),
        loader == all.subrange(0, n),
        unique_identities(loader),
    ensures
        first_by_identity(all).len() >= n,
        first_by_identity(all).subrange(0, n) == loader,
    decreases all.len(),
{
    if all.len() == n {
        lemma_unique_kept(loader);
        assert(all =~= loader);
    } else {
        let prev = all.drop_last();
        assert(prev.subrange(0, n) =~= loader);
        lemma_loader_prefix(prev, n, loader);
        assert(first_by_identity(all).subrange(0, n) =~= first_by_identity(prev).subrange(0, n));
    }
}

proof fn lemma_unique_kept(libs: Seq<Library>)
    requires
        unique_identities(libs),
    ensures
        first_by_identity(libs) == libs,
    decreases libs.len(),
{
    if libs.len() > 0 {
        let prev = libs.drop_last();
        assert forall|i: int, j: int| 0 <= i < prev.len() && 0 <= j < prev.len() && i != j implies lib_identity(
            #[trigger] prev[i].name@,
        ) != lib_identity(#[trigger] prev[j].name@) by {
            assert(prev[i] == libs[i] && prev[j] == libs[j]);
        }
        lemma_unique_kept(prev);
        if has_identity(prev, lib_identity(libs.last().name@)) {
            let k = choose|k: int| 0 <= k < prev.len() && lib_identity(#[trigger] prev[k].name@) == lib_identity(libs.last().name@);
            assert(prev[k] == libs[k]);
            assert(false);
        }
        assert(libs =~= prev.push(libs.last()));
    }
}

/// The views of `(String, String)` pairs.
pub open spec fn entry_views(v: Seq<(String, String)>) -> Seq<(Seq<char>, Seq<char>)> {
    v.map_values(|p: (String, String)| (p.0@, p.1@))
}

/// Whether an element of `elems` before position `n` has identity `id`.
pub open spec fn seen_before(elems: Seq<(Seq<char>, Seq<char>)>, n: int, id: Seq<char>) -> bool {
    exists|i: int| 0 <= i < n && lib_identity(#[trigger] elems[i].0) == id
}

/// The paths of `(maven name, path)` pairs, each kept only when no earlier
/// pair has the same identity.
pub open spec fn deduped_paths(elems: Seq<(Seq<char>, Seq<char>)>) -> Seq<Seq<char>>
    decreases elems.len(),
{
    if elems.len() == 0 {
        Seq::empty()
    } else {
        let before = deduped_paths(elems.drop_last());
        if seen_before(elems, elems.len() - 1, lib_identity(elems.last().0)) {
            before
        } else {
            before.push(elems.last().1)
        }
    }
}

/// Keeps the path of each `(maven name, path)` pair whose identity has not
/// occurred before, in order, so that the first occurrence wins.
pub fn dedup_classpath(elems: &Vec<(String, String)>) -> (r: Vec<String>)
    ensures
        views(r@) == deduped_paths(entry_views(elems@)),
{
    let ghost ev = entry_views(elems@);
    let mut out: Vec<String> = Vec::new();
    let mut ids: Vec<String> = Vec::new();
    let mut i: usize = 0;
    assert(ev.subrange(0, 0) =~= Seq::<(Seq<char>, Seq<char>)>::empty());
    assert(views(out@) =~= Seq::<Seq<char>>::empty());
    while i < elems.len()
        invariant
            ev == entry_views(elems@),
            i <= elems@.len(),
            ids@.len() == i,
            forall|k: int| 0 <= k < i ==> ids@[k]@ == lib_identity(#[trigger] elems@[k].0@),
            views(out@) == deduped_paths(ev.subrange(0, i as int)),
        decreases elems.len() - i,
    {
        let id = get_lib_identity(elems[i].0.as_str());
        let seen = contains_id(&ids, id.as_str());
        let ghost pre = ev.subrange(0, i as int);
        let ghost next = ev.subrange(0, i + 1);
        proof {
            assert(next.drop_last() =~= pre);
            assert(next.last() == (elems@[i as int].0@, elems@[i as int].1@));
            if seen {
                let k = choose|k: int| 0 <= k < ids@.len() && ids@[k]@ == id@;
                assert(next[k] == (elems@[k].0@, elems@[k].1@));
                assert(lib_identity(next[k].0) == id@);
                assert(seen_before(next, i as int, id@));
            } else {
                assert forall|k: int| 0 <= k < i implies lib_identity(#[trigger] next[k].0) != id@ by {
                    assert(next[k] == (elems@[k].0@, elems@[k].1@));
                    assert(ids@[k]@ == lib_identity(elems@[k].0@));
                }
            }
        }
        if !seen {
            let ghost old_out = out@;
            out.push(elems[i].1.clone());
            proof {
                assert(views(out@) =~= views(old_out).push(elems@[i as int].1@));
            }
        }
        ids.push(id);
        i = i + 1;
    }
    assert(ev.subrange(0, elems@.len() as int) =~= ev);
    out
}

/// `a` followed by `b`.
pub fn concat_vecs<T>(a: Vec<T>, b: Vec<T>) -> (r: Vec<T>)
    ensures
        r@ == a@ + b@,
{
    let ghost bv = b@;
    let mut out = a;
    let ghost av = out@;
    let mut rest = b;
    let mut j: usize = 0;
    let n = rest.len();
    assert(av + bv.subrange(0, 0) =~= av);
    while rest.len() > 0
        invariant
            bv.len() == n,
            j <= n,
            rest@ == bv.subrange(j as int, n as int),
            out@ == av + bv.subrange(0, j as int),
        decreases rest.len(),
    {
        let x = rest.remove(0);
        out.push(x);
        j = j + 1;
        proof {
            assert(out@ =~= av + bv.subrange(0, j as int));
            assert(rest@ =~= bv.subrange(j as int, n as int));
        }
    }
    assert(bv.subrange(0, n as int) =~= bv);
    out
}

/// Two optional lists concatenated, the first first; one alone stays as it is.
pub open spec fn joined_lists<T>(first: Option<Vec<T>>, second: Option<Vec<T>>) -> Option<Seq<T>> {
    match (first, second) {
        (Some(f), Some(s)) => Some(f@ + s@),
        (Some(f), None) => Some(f@),
        (None, Some(s)) => Some(s@),
        (None, None) => None,
    }
}

/// The view of an optional list.
pub open spec fn opt_view<T>(v: Option<Vec<T>>) -> Option<Seq<T>> {
    match v {
        Some(x) => Some(x@),
        None => None,
    }
}

/// Concatenates two optional lists, the first first.
pub fn join_optional_lists<T>(first: Option<Vec<T>>, second: Option<Vec<T>>) -> (r: Option<Vec<T>>)
    ensures
        opt_view(r) == joined_lists(first, second),
{
    match (first, second) {
        (Some(f), Some(s)) => Some(concat_vecs(f, s)),
        (Some(f), None) => Some(f),
        (None, Some(s)) => Some(s),
        (None, None) => None,
    }
}

/// The argument lists after a merge: the loader's lists before the vanilla
/// ones, a list that only one side has taken as it is.
pub open spec fn merged_arguments(loader: Arguments, vanilla: Option<Arguments>) -> (Option<Seq<crate::versions::Argument>>, Option<Seq<crate::versions::Argument>>) {
    match vanilla {
        None => (opt_view(loader.game), opt_view(loader.jvm)),
        Some(v) => (joined_lists(loader.game, v.game), joined_lists(loader.jvm, v.jvm)),
    }
}

/// Overlays a mod loader's version descriptor on the vanilla one: the loader's
/// id and main class; its asset index and Java version where it has them; its
/// legacy argument string, which clears the modern lists, or its modern lists,
/// which clear the legacy string and come before the vanilla ones; and the
/// merged library list.
pub fn merge_version_details(vanilla: VersionDetails, loader: VersionDetails) -> (r: VersionDetails)
    ensures
        r.id == loader.id,
        r.main_class == loader.main_class,
        r.version_type == vanilla.version_type,
        r.downloads == vanilla.downloads,
        r.asset_index == if loader.asset_index is Some { loader.asset_index } else { vanilla.asset_index },
        r.java_version == if loader.java_version is Some { loader.java_version } else { vanilla.java_version },
        r.libraries@ == merged_libs(loader.libraries@, vanilla.libraries@),
        loader.arguments is Some ==> r.minecraft_arguments is None,
        loader.arguments is None && loader.minecraft_arguments is Some ==> r.minecraft_arguments == loader.minecraft_arguments && r.arguments is None,
        loader.arguments is None && loader.minecraft_arguments is None ==> r.minecraft_arguments == vanilla.minecraft_arguments && r.arguments == vanilla.arguments,
        match loader.arguments {
            None => true,
            Some(la) => r.arguments is Some && {
                let base = if loader.minecraft_arguments is Some { None } else { vanilla.arguments };
                let ra = r.arguments->0;
                (opt_view(ra.game), opt_view(ra.jvm)) == merged_arguments(la, base)
            },
        },
{
    let VersionDetails {
        id: _,
        version_type,
        main_class: _,
        minimum_launcher_version,
        release_time,
        time,
        assets,
        asset_index,
        downloads,
        libraries,
        arguments,
        minecraft_arguments,
        java_version,
    } = vanilla;
    let VersionDetails {
        id: l_id,
        main_class: l_main_class,
        asset_index: l_asset_index,
        libraries: l_libraries,
        arguments: l_arguments,
        minecraft_arguments: l_minecraft_arguments,
        java_version: l_java_version,
        ..
    } = loader;
    let mut merged_arguments = arguments;
    let mut merged_legacy = minecraft_arguments;
    if l_minecraft_arguments.is_some() {
        merged_legacy = l_minecraft_arguments;
        merged_arguments = None;
    }
    match l_arguments {
        None => {},
        Some(la) => {
            merged_legacy = None;
            match merged_arguments {
                None => {
                    merged_arguments = Some(la);
                },
                Some(base) => {
                    let Arguments { game: l_game, jvm: l_jvm } = la;
                    let Arguments { game: b_game, jvm: b_jvm } = base;
                    merged_arguments = Some(
                        Arguments {
                            game: join_optional_lists(l_game, b_game),
                            jvm: join_optional_lists(l_jvm, b_jvm),
                        },
                    );
                },
            }
        },
    }
    VersionDetails {
        id: l_id,
        version_type,
        main_class: l_main_class,
        minimum_launcher_version,
        release_time,
        time,
        assets,
        asset_index: if l_asset_index.is_some() { l_asset_index } else { asset_index },
        downloads,
        libraries: merge_libraries(l_libraries, libraries),
        arguments: merged_arguments,
        minecraft_arguments: merged_legacy,
        java_version: if l_java_version.is_some() { l_java_version } else { java_version },
    }
}

} // verus!
