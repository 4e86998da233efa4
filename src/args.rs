use vstd::prelude::*;
use crate::text::{replace, replace_all, split_whitespace, views, words};
use crate::versions::{check_argument_rules, rules_allow, Argument, Host, VersionDetails};

verus! {

/// The values that placeholders of launch arguments stand for. A `None`
/// leaves its placeholder as it is.
#[derive(Clone, Debug)]
pub struct ArgValues {
    pub username: String,
    pub version_id: String,
    pub game_dir: String,
    pub assets_dir: String,
    pub asset_index: String,
    pub uuid: String,
    pub access_token: String,
    pub version_type: String,
    pub resolution_width: String,
    pub resolution_height: String,
    pub classpath: Option<String>,
    pub natives_dir: Option<String>,
    pub library_dir: Option<String>,
}

/// `s` with `pat` replaced by `v` when there is a value.
pub open spec fn replace_opt(s: Seq<char>, pat: Seq<char>, v: Option<String>) -> Seq<char> {
    match v {
        Some(x) => replace_all(s, pat, x@),
        None => s,
    }
}

/// An argument with its placeholders replaced, one placeholder after another.
pub open spec fn substitute(s: Seq<char>, v: ArgValues) -> Seq<char> {
    let r = replace_all(s, "${auth_player_name}"@, v.username@);
    let r = replace_all(r, "${version_name}"@, v.version_id@);
    let r = replace_all(r, "${game_directory}"@, v.game_dir@);
    let r = replace_all(r, "${assets_root}"@, v.assets_dir@);
    let r = replace_all(r, "${assets_index_name}"@, v.asset_index@);
    let r = replace_all(r, "${auth_uuid}"@, v.uuid@);
    let r = replace_all(r, "${auth_access_token}"@, v.access_token@);
    let r = replace_all(r, "${user_type}"@, "msa"@);
    let r = replace_all(r, "${version_type}"@, v.version_type@);
    let r = replace_all(r, "${clientid}"@, ""@);
    let r = replace_all(r, "${auth_xuid}"@, ""@);
    let r = replace_all(r, "${resolution_width}"@, v.resolution_width@);
    let r = replace_all(r, "${resolution_height}"@, v.resolution_height@);
    let r = replace_all(r, "${launcher_name}"@, "PaletheaLauncher"@);
    let r = replace_all(r, "${launcher_version}"@, "0.1.0"@);
    let r = replace_opt(r, "${classpath}"@, v.classpath);
    let r = replace_opt(r, "${natives_directory}"@, v.natives_dir);
    replace_opt(r, "${library_directory}"@, v.library_dir)
}

/// A legacy argument token with its placeholders replaced; `${user_properties}`
/// becomes an empty JSON object.
pub open spec fn substitute_legacy(s: Seq<char>, v: ArgValues) -> Seq<char> {
    replace_all(substitute(s, v), "${user_properties}"@, "{}"@)
}

fn replace_opt_exec(s: String, pat: &str, v: &Option<String>) -> (r: String)
    requires
        pat@.len() > 0,
    ensures
        r@ == replace_opt(s@, pat@, *v),
{
    match v {
        Some(x) => replace(s.as_str(), pat, x.as_str()),
        None => s,
    }
}

/// Replaces the placeholders of one argument.
pub fn process_arg_string(s: &str, v: &ArgValues) -> (r: String)
    ensures
        r@ == substitute(s@, *v),
{
    proof {
        reveal_strlit("${auth_player_name}");
        reveal_strlit("${version_name}");
        reveal_strlit("${game_directory}");
        reveal_strlit("${assets_root}");
        reveal_strlit("${assets_index_name}");
        reveal_strlit("${auth_uuid}");
        reveal_strlit("${auth_access_token}");
        reveal_strlit("${user_type}");
        reveal_strlit("${version_type}");
        reveal_strlit("${clientid}");
        reveal_strlit("${auth_xuid}");
        reveal_strlit("${resolution_width}");
        reveal_strlit("${resolution_height}");
        reveal_strlit("${launcher_name}");
        reveal_strlit("${launcher_version}");
        reveal_strlit("${classpath}");
        reveal_strlit("${natives_directory}");
        reveal_strlit("${library_directory}");
        reveal_strlit("");
    }
    let r = replace(s, "${auth_player_name}", v.username.as_str());
    let r = replace(r.as_str(), "${version_name}", v.version_id.as_str());
    let r = replace(r.as_str(), "${game_directory}", v.game_dir.as_str());
    let r = replace(r.as_str(), "${assets_root}", v.assets_dir.as_str());
    let r = replace(r.as_str(), "${assets_index_name}", v.asset_index.as_str());
    let r = replace(r.as_str(), "${auth_uuid}", v.uuid.as_str());
    let r = replace(r.as_str(), "${auth_access_token}", v.access_token.as_str());
    let r = replace(r.as_str(), "${user_type}", "msa");
    let r = replace(r.as_str(), "${version_type}", v.version_type.as_str());
    let r = replace(r.as_str(), "${clientid}", "");
    let r = replace(r.as_str(), "${auth_xuid}", "");
    let r = replace(r.as_str(), "${resolution_width}", v.resolution_width.as_str());
    let r = replace(r.as_str(), "${resolution_height}", v.resolution_height.as_str());
    let r = replace(r.as_str(), "${launcher_name}", "PaletheaLauncher");
    let r = replace(r.as_str(), "${launcher_version}", "0.1.0");
    let r = replace_opt_exec(r, "${classpath}", &v.classpath);
    let r = replace_opt_exec(r, "${natives_directory}", &v.natives_dir);
    replace_opt_exec(r, "${library_directory}", &v.library_dir)
}

/// The arguments that one entry of a modern argument list contributes.
pub open spec fn expand_one(a: Argument, host: Host, custom_resolution: bool, v: ArgValues) -> Seq<Seq<char>> {
    match a {
        Argument::Plain(s) => seq![substitute(s@, v)],
        Argument::Conditional { rules, value } => {
            let allowed = match rules {
                None => true,
                Some(rs) => rules_allow(rs@, host, custom_resolution),
            };
            if allowed {
                value@.map_values(|x: String| substitute(x@, v))
            } else {
                Seq::empty()
            }
        },
    }
}

/// A modern argument list expanded: plain entries substituted, conditional
/// entries kept only where their rules allow them.
pub open spec fn expand_args(args: Seq<Argument>, host: Host, custom_resolution: bool, v: ArgValues) -> Seq<Seq<char>>
    decreases args.len(),
{
    if args.len() == 0 {
        Seq::empty()
    } else {
        expand_args(args.drop_last(), host, custom_resolution, v) + expand_one(args.last(), host, custom_resolution, v)
    }
}

/// Appends the expansion of a modern argument list to `out`.
pub fn push_expanded(out: &mut Vec<String>, args: &Vec<Argument>, host: Host, custom_resolution: bool, v: &ArgValues)
    ensures
        views(final(out)@) == views(old(out)@) + expand_args(args@, host, custom_resolution, *v),
{
    let ghost start = views(out@);
    let mut i: usize = 0;
    assert(args@.subrange(0, 0) =~= Seq::<Argument>::empty());
    assert(start + Seq::<Seq<char>>::empty() =~= start);
    while i < args.len()
        invariant
            i <= args@.len(),
            views(out@) == start + expand_args(args@.subrange(0, i as int), host, custom_resolution, *v),
        decreases args.len() - i,
    {
        let ghost pre = args@.subrange(0, i as int);
        let ghost next = args@.subrange(0, i + 1);
        assert(next.drop_last() =~= pre);
        assert(next.last() == args@[i as int]);
        let ghost before = views(out@);
        match &args[i] {
            Argument::Plain(s) => {
                let a = process_arg_string(s.as_str(), v);
                out.push(a);
                assert(views(out@) =~= before.push(a@));
                assert(views(out@) =~= start + expand_args(next, host, custom_resolution, *v));
            },
            Argument::Conditional { rules, value } => {
                let allowed = match rules {
                    None => true,
                    Some(rs) => check_argument_rules(rs, host, custom_resolution),
                };
                if allowed {
                    let mut k: usize = 0;
                    while k < value.len()
                        invariant
                            k <= value@.len(),
                            views(out@) == before + value@.subrange(0, k as int).map_values(
                                |x: String| substitute(x@, *v),
                            ),
                        decreases value.len() - k,
                    {
                        let ghost b2 = views(out@);
                        out.push(process_arg_string(value[k].as_str(), v));
                        proof {
                            assert(value@.subrange(0, k + 1).map_values(|x: String| substitute(x@, *v))
                                =~= value@.subrange(0, k as int).map_values(|x: String| substitute(x@, *v)).push(
                                substitute(value@[k as int]@, *v)));
                            assert(views(out@) =~= b2.push(substitute(value@[k as int]@, *v)));
                        }
                        k = k + 1;
                    }
                    assert(value@.subrange(0, value@.len() as int) =~= value@);
                    assert(views(out@) =~= start + expand_args(next, host, custom_resolution, *v));
                } else {
                    assert(views(out@) =~= start + expand_args(next, host, custom_resolution, *v));
                }
            },
        }
        i = i + 1;
    }
    assert(args@.subrange(0, args@.len() as int) =~= args@);
}

/// The decimal digits of `n`.
pub open spec fn decimal(n: nat) -> Seq<char>
    decreases n,
{
    if n < 10 {
        seq![digit_char(n)]
    } else {
        decimal(n / 10) + seq![digit_char(n % 10)]
    }
}

/// The character of a decimal digit.
pub open spec fn digit_char(d: nat) -> char {
    "0123456789"@[d as int]
}

/// Appends the decimal digits of `n` to `out`.
pub fn push_decimal(out: &mut String, n: u64)
    ensures
        final(out)@ == old(out)@ + decimal(n as nat),
    decreases n,
{
    if n >= 10 {
        push_decimal(out, n / 10);
    }
    let d = (n % 10) as usize;
    proof {
        reveal_strlit("0123456789");
    }
    let c = "0123456789".substring_char(d, d + 1);
    assert(c@ =~= seq![digit_char((n % 10) as nat)]);
    out.append(c);
    proof {
        if n >= 10 {
            assert(final(out)@ =~= old(out)@ + decimal(n as nat));
        } else {
            assert(final(out)@ =~= old(out)@ + decimal(n as nat));
        }
    }
}

/// The decimal form of `n`.
pub fn u64_to_string(n: u64) -> (r: String)
    ensures
        r@ == decimal(n as nat),
{
    let mut s = String::new();
    push_decimal(&mut s, n);
    assert(s@ =~= decimal(n as nat));
    s
}

/// The game arguments of a launch. A legacy argument string is split on white
/// space and each token substituted, followed by `--width <w> --height <h>`
/// when a custom resolution is set; otherwise the modern game list is
/// expanded.
pub open spec fn game_args(details: VersionDetails, host: Host, custom_resolution: bool, v: ArgValues) -> Seq<Seq<char>> {
    match details.minecraft_arguments {
        Some(legacy) => words(legacy@).map_values(|t: Seq<char>| substitute_legacy(t, v)) + if custom_resolution {
            seq!["--width"@, v.resolution_width@, "--height"@, v.resolution_height@]
        } else {
            Seq::<Seq<char>>::empty()
        },
        None => match details.arguments {
            Some(a) => match a.game {
                Some(g) => expand_args(g@, host, custom_resolution, v),
                None => Seq::empty(),
            },
            None => Seq::empty(),
        },
    }
}

/// Builds the game arguments of a launch.
pub fn build_game_args(details: &VersionDetails, host: Host, custom_resolution: bool, v: &ArgValues) -> (r: Vec<String>)
    ensures
        views(r@) == game_args(*details, host, custom_resolution, *v),
{
    let mut out: Vec<String> = Vec::new();
    match &details.minecraft_arguments {
        Some(legacy) => {
            let toks = split_whitespace(legacy.as_str());
            let mut i: usize = 0;
            proof {
                reveal_strlit("${user_properties}");
            }
            while i < toks.len()
                invariant
                    i <= toks@.len(),
                    views(toks@) == words(legacy@),
                    views(out@) == views(toks@).subrange(0, i as int).map_values(
                        |t: Seq<char>| substitute_legacy(t, *v),
                    ),
                decreases toks.len() - i,
            {
                let ghost before = views(out@);
                proof {
                    reveal_strlit("${user_properties}");
                }
                let a = process_arg_string(toks[i].as_str(), v);
                out.push(replace(a.as_str(), "${user_properties}", "{}"));
                proof {
                    assert(views(toks@)[i as int] == toks@[i as int]@);
                    assert(views(toks@).subrange(0, i + 1).map_values(|t: Seq<char>| substitute_legacy(t, *v))
                        =~= before.push(substitute_legacy(toks@[i as int]@, *v)));
                    assert(views(out@) =~= before.push(substitute_legacy(toks@[i as int]@, *v)));
                }
                i = i + 1;
            }
            assert(views(toks@).subrange(0, toks@.len() as int) =~= views(toks@));
            let ghost base = views(out@);
            if custom_resolution {
                out.push("--width".to_owned());
                out.push(v.resolution_width.clone());
                out.push("--height".to_owned());
                out.push(v.resolution_height.clone());
                assert(views(out@) =~= base + seq!["--width"@, v.resolution_width@, "--height"@, v.resolution_height@]);
            } else {
                assert(views(out@) =~= base + Seq::<Seq<char>>::empty());
            }
        },
        None => match &details.arguments {
            Some(a) => match &a.game {
                Some(g) => {
                    assert(views(out@) =~= Seq::<Seq<char>>::empty());
                    push_expanded(&mut out, g, host, custom_resolution, v);
                    assert(views(out@) =~= expand_args(g@, host, custom_resolution, *v));
                },
                None => {
                    assert(views(out@) =~= Seq::<Seq<char>>::empty());
                },
            },
            None => {
                assert(views(out@) =~= Seq::<Seq<char>>::empty());
            },
        },
    }
    out
}

/// A memory flag such as `-Xmx2048M`.
pub open spec fn memory_flag(prefix: Seq<char>, mib: u32) -> Seq<char> {
    prefix + decimal(mib as nat) + "M"@
}

/// The JVM arguments of a launch: the heap bounds (512 and 2048 MiB when the
/// instance sets none); the modern JVM list expanded with no custom
/// resolution, or, for a descriptor without modern arguments, the library
/// path and classpath flags; then the instance's own JVM arguments split on
/// white space.
pub open spec fn jvm_args(
    details: VersionDetails,
    host: Host,
    v: ArgValues,
    memory_min: Option<u32>,
    memory_max: Option<u32>,
    custom: Option<String>,
    natives_dir: Seq<char>,
    classpath: Seq<char>,
) -> Seq<Seq<char>> {
    let min = match memory_min { Some(m) => m, None => 512u32 };
    let max = match memory_max { Some(m) => m, None => 2048u32 };
    seq![memory_flag("-Xms"@, min), memory_flag("-Xmx"@, max)] + (match details.arguments {
        Some(a) => match a.jvm {
            Some(j) => expand_args(j@, host, false, v),
            None => Seq::empty(),
        },
        None => seq!["-Djava.library.path="@ + natives_dir, "-cp"@, classpath],
    }) + match custom {
        Some(c) => words(c@),
        None => Seq::empty(),
    }
}

/// Builds the JVM arguments of a launch; `v` carries the classpath, natives
/// and library directories that the JVM list refers to.
pub fn build_jvm_args(
    details: &VersionDetails,
    host: Host,
    v: &ArgValues,
    memory_min: Option<u32>,
    memory_max: Option<u32>,
    custom: &Option<String>,
    natives_dir: &str,
    classpath: &str,
) -> (r: Vec<String>)
    ensures
        views(r@) == jvm_args(*details, host, *v, memory_min, memory_max, *custom, natives_dir@, classpath@),
{
    let min = match memory_min { Some(m) => m, None => 512u32 };
    let max = match memory_max { Some(m) => m, None => 2048u32 };
    let mut out: Vec<String> = Vec::new();
    let mut a = "-Xms".to_owned();
    push_decimal(&mut a, min as u64);
    a.append("M");
    let mut b = "-Xmx".to_owned();
    push_decimal(&mut b, max as u64);
    b.append("M");
    out.push(a);
    out.push(b);
    let ghost head = seq![memory_flag("-Xms"@, min), memory_flag("-Xmx"@, max)];
    assert(views(out@) =~= head);
    match &details.arguments {
        Some(args) => match &args.jvm {
            Some(j) => {
                push_expanded(&mut out, j, host, false, v);
            },
            None => {
                assert(views(out@) =~= head + Seq::<Seq<char>>::empty());
            },
        },
        None => {
            let mut lp = "-Djava.library.path=".to_owned();
            lp.append(natives_dir);
            out.push(lp);
            out.push("-cp".to_owned());
            out.push(classpath.to_owned());
            assert(views(out@) =~= head + seq!["-Djava.library.path="@ + natives_dir@, "-cp"@, classpath@]);
        },
    }
    let ghost mid = views(out@);
    match custom {
        Some(c) => {
            let toks = split_whitespace(c.as_str());
            let mut i: usize = 0;
            assert(mid + views(toks@).subrange(0, 0) =~= mid);
            while i < toks.len()
                invariant
                    i <= toks@.len(),
                    views(out@) == mid + views(toks@).subrange(0, i as int),
                decreases toks.len() - i,
            {
                let ghost before = views(out@);
                let t = toks[i].clone();
                out.push(t);
                assert(views(out@) =~= before.push(toks@[i as int]@));
                assert(views(toks@)[i as int] == toks@[i as int]@);
                assert(views(out@) =~= mid + views(toks@).subrange(0, i + 1));
                i = i + 1;
            }
            assert(views(toks@).subrange(0, toks@.len() as int) =~= views(toks@));
        },
        None => {
            assert(views(out@) =~= mid + Seq::<Seq<char>>::empty());
        },
    }
    out
}

} // verus!
