use palethea_launcher::args::{build_game_args, build_jvm_args, process_arg_string, ArgValues};
use palethea_launcher::classpath::build_classpath;
use palethea_launcher::java::{
    build_argfile, find_java_by_version, needs_argfile, parse_java_major, select_java_for_launch,
    JavaError, JavaProbe,
};
use palethea_launcher::merge::{dedup_classpath, get_lib_identity, merge_libraries, merge_version_details};
use palethea_launcher::versions::{
    check_argument_rules, get_native_classifier, get_os_name, library_name_to_path,
    should_use_library, Argument, Arguments, Artifact, Host, HostArch, HostOs, JavaVersion, Library,
    LibraryDownloads, OsRule, Rule, VersionDetails,
};

fn linux() -> Host {
    Host { os: HostOs::Linux, arch: HostArch::X86_64 }
}

fn windows() -> Host {
    Host { os: HostOs::Windows, arch: HostArch::X86_64 }
}

fn rule(action: &str, os: Option<&str>) -> Rule {
    Rule {
        action: action.to_string(),
        os: os.map(|n| OsRule { name: Some(n.to_string()), version: None, arch: None }),
        features: None,
    }
}

fn lib(name: &str) -> Library {
    Library { name: name.to_string(), downloads: None, url: None, rules: None, natives: None, extract: None }
}

fn artifact(path: &str) -> Artifact {
    Artifact { path: path.to_string(), sha1: String::new(), size: 1, url: format!("https://x/{}", path) }
}

fn details(id: &str, main_class: &str, libraries: Vec<Library>) -> VersionDetails {
    VersionDetails {
        id: id.to_string(),
        version_type: "release".to_string(),
        main_class: main_class.to_string(),
        minimum_launcher_version: None,
        release_time: String::new(),
        time: String::new(),
        assets: None,
        asset_index: None,
        downloads: None,
        libraries,
        arguments: None,
        minecraft_arguments: None,
        java_version: None,
    }
}

fn values() -> ArgValues {
    ArgValues {
        username: "Steve".to_string(),
        version_id: "1.20.4".to_string(),
        game_dir: "/g".to_string(),
        assets_dir: "/a".to_string(),
        asset_index: "12".to_string(),
        uuid: "u1".to_string(),
        access_token: "tok".to_string(),
        version_type: "release".to_string(),
        resolution_width: "854".to_string(),
        resolution_height: "480".to_string(),
        classpath: None,
        natives_dir: None,
        library_dir: None,
    }
}

#[test]
fn empty_rules_include() {
    assert!(check_argument_rules(&vec![], linux(), false));
    let mut l = lib("a:b:1");
    l.rules = Some(vec![]);
    assert!(should_use_library(&l, linux()));
    assert!(should_use_library(&lib("a:b:1"), linux()));
}

#[test]
fn allow_other_os_excludes() {
    let rules = vec![rule("allow", Some("osx"))];
    assert!(!check_argument_rules(&rules, linux(), false));
    assert!(check_argument_rules(&rules, Host { os: HostOs::Osx, arch: HostArch::Arm64 }, false));
}

#[test]
fn last_applicable_rule_wins() {
    let rules = vec![rule("allow", None), rule("disallow", Some("linux"))];
    assert!(!check_argument_rules(&rules, linux(), false));
    assert!(check_argument_rules(&rules, windows(), false));
}

#[test]
fn feature_rules_follow_policy() {
    let res = Rule {
        action: "allow".to_string(),
        os: None,
        features: Some(vec![("has_custom_resolution".to_string(), true)]),
    };
    assert!(check_argument_rules(&vec![res.clone()], linux(), true));
    assert!(!check_argument_rules(&vec![res], linux(), false));
    let demo = Rule { action: "allow".to_string(), os: None, features: Some(vec![("is_demo_user".to_string(), true)]) };
    assert!(!check_argument_rules(&vec![demo], linux(), true));
    let unknown = Rule { action: "allow".to_string(), os: None, features: Some(vec![("has_pets".to_string(), true)]) };
    assert!(!check_argument_rules(&vec![unknown], linux(), true));
}

#[test]
fn os_names() {
    assert_eq!(get_os_name(HostOs::Windows), "windows");
    assert_eq!(get_os_name(HostOs::Osx), "osx");
    assert_eq!(get_os_name(HostOs::Linux), "linux");
}

#[test]
fn maven_paths() {
    assert_eq!(library_name_to_path("org.ow2.asm:asm:9.6"), "org/ow2/asm/asm/9.6/asm-9.6.jar");
    assert_eq!(
        library_name_to_path("org.lwjgl:lwjgl:3.3.3:natives-linux"),
        "org/lwjgl/lwjgl/3.3.3/lwjgl-3.3.3-natives-linux.jar"
    );
    assert_eq!(library_name_to_path("broken:name"), "broken:name");
    assert_eq!(palethea_launcher::fabric::maven_to_path("net.fabricmc:fabric-loader:0.15.7"), "net/fabricmc/fabric-loader/0.15.7/fabric-loader-0.15.7.jar");
}

#[test]
fn library_identity_strips_version() {
    assert_eq!(get_lib_identity("org.ow2.asm:asm:9.6"), "org.ow2.asm:asm");
    assert_eq!(get_lib_identity("org.lwjgl:lwjgl:3.3.3:natives-linux"), "org.lwjgl:lwjgl:natives-linux");
    assert_eq!(get_lib_identity("single"), "single");
}

#[test]
fn merge_prefers_loader_libraries() {
    let loader = vec![lib("org.ow2.asm:asm:9.6"), lib("net.fabricmc:fabric-loader:0.15.7")];
    let vanilla = vec![lib("org.ow2.asm:asm:9.3"), lib("com.google:guava:31"), lib("com.google:guava:32")];
    let merged = merge_libraries(loader, vanilla);
    let names: Vec<&str> = merged.iter().map(|l| l.name.as_str()).collect();
    assert_eq!(names, vec!["org.ow2.asm:asm:9.6", "net.fabricmc:fabric-loader:0.15.7", "com.google:guava:31"]);
    let loader_dups = vec![lib("org.ow2.asm:asm:9.6"), lib("org.ow2.asm:asm:9.5")];
    let merged = merge_libraries(loader_dups, vec![lib("org.ow2.asm:asm:9.3"), lib("org.lwjgl:lwjgl:3.3.3:natives-linux")]);
    let names: Vec<&str> = merged.iter().map(|l| l.name.as_str()).collect();
    assert_eq!(names, vec!["org.ow2.asm:asm:9.6", "org.lwjgl:lwjgl:3.3.3:natives-linux"]);
}

#[test]
fn classpath_dedup_keeps_first() {
    let elems = vec![
        ("org.ow2.asm:asm:9.6".to_string(), "/l/asm-9.6.jar".to_string()),
        ("org.ow2.asm:asm:9.3".to_string(), "/l/asm-9.3.jar".to_string()),
        ("org.lwjgl:lwjgl:3.3.3:natives-linux".to_string(), "/l/n.jar".to_string()),
    ];
    assert_eq!(dedup_classpath(&elems), vec!["/l/asm-9.6.jar".to_string(), "/l/n.jar".to_string()]);
}

#[test]
fn fabric_classpath_lists_loader_before_vanilla() {
    let loader = vec![("net.fabricmc:fabric-loader:0.15.7".to_string(), "/l/fl.jar".to_string())];
    let mut objectweb = lib("org.ow2.asm:asm:9.3");
    objectweb.downloads = Some(LibraryDownloads { artifact: Some(artifact("org/ow2/asm/asm-9.3.jar")), classifiers: None });
    let cp = build_classpath(&loader, &vec![objectweb, lib("a:b:1")], linux(), "/l", "/v", "1.20.4");
    assert_eq!(cp, "/l/fl.jar:/l/org/ow2/asm/asm-9.3.jar:/l/a/b/1/b-1.jar:/v/1.20.4/1.20.4.jar");
    let cpw = build_classpath(&vec![], &vec![lib("a:b:1")], windows(), "L", "V", "x");
    assert_eq!(cpw, "L/a/b/1/b-1.jar;V/x/x.jar");
}

#[test]
fn natives_classifier_expands_arch() {
    let mut l = lib("org.lwjgl.lwjgl:lwjgl-platform:2.9.4");
    l.natives = Some(vec![("windows".to_string(), "natives-windows-${arch}".to_string())]);
    assert_eq!(get_native_classifier(&l, windows()), Some("natives-windows-64".to_string()));
    assert_eq!(get_native_classifier(&l, Host { os: HostOs::Windows, arch: HostArch::X86 }), Some("natives-windows-32".to_string()));
    assert_eq!(get_native_classifier(&l, linux()), None);
}

#[test]
fn overlay_takes_loader_main_class_and_concatenates_arguments() {
    let mut vanilla = details("1.20.4", "net.minecraft.client.main.Main", vec![lib("com.google:guava:31")]);
    vanilla.arguments = Some(Arguments { game: Some(vec![Argument::Plain("--v".to_string())]), jvm: None });
    vanilla.java_version = Some(JavaVersion { component: "java-runtime-gamma".to_string(), major_version: 17 });
    let mut loader = details("fabric-loader-0.15.7-1.20.4", "net.fabricmc.loader.impl.launch.knot.KnotClient", vec![lib("net.fabricmc:fabric-loader:0.15.7")]);
    loader.arguments = Some(Arguments { game: Some(vec![Argument::Plain("--l".to_string())]), jvm: None });
    let merged = merge_version_details(vanilla, loader);
    assert_eq!(merged.main_class, "net.fabricmc.loader.impl.launch.knot.KnotClient");
    assert_eq!(merged.id, "fabric-loader-0.15.7-1.20.4");
    assert_eq!(merged.java_version.unwrap().major_version, 17);
    let game = merged.arguments.unwrap().game.unwrap();
    let plain: Vec<String> = game.iter().map(|a| match a { Argument::Plain(s) => s.clone(), _ => String::new() }).collect();
    assert_eq!(plain, vec!["--l".to_string(), "--v".to_string()]);
    assert_eq!(merged.libraries.len(), 2);
}

#[test]
fn legacy_loader_arguments_clear_modern_ones() {
    let mut vanilla = details("1.8.9", "net.minecraft.client.main.Main", vec![]);
    vanilla.arguments = Some(Arguments { game: Some(vec![]), jvm: None });
    let mut loader = details("1.8.9-forge", "net.minecraft.launchwrapper.Launch", vec![]);
    loader.minecraft_arguments = Some("--tweakClass x".to_string());
    let merged = merge_version_details(vanilla, loader);
    assert!(merged.arguments.is_none());
    assert_eq!(merged.minecraft_arguments.as_deref(), Some("--tweakClass x"));
    assert_eq!(merged.main_class, "net.minecraft.launchwrapper.Launch");
}

#[test]
fn placeholders_are_substituted() {
    let v = values();
    assert_eq!(process_arg_string("${auth_player_name}-${version_name}", &v), "Steve-1.20.4");
    assert_eq!(process_arg_string("${user_type}${clientid}${auth_xuid}", &v), "msa");
    assert_eq!(process_arg_string("${classpath}", &v), "${classpath}");
    let mut w = values();
    w.classpath = Some("a:b".to_string());
    assert_eq!(process_arg_string("-cp=${classpath}", &w), "-cp=a:b");
}

#[test]
fn legacy_game_args_split_and_resolution() {
    let mut d = details("1.8.9", "net.minecraft.launchwrapper.Launch", vec![]);
    d.minecraft_arguments = Some("--username ${auth_player_name}  --userProperties ${user_properties}".to_string());
    let args = build_game_args(&d, linux(), true, &values());
    assert_eq!(args, vec!["--username", "Steve", "--userProperties", "{}", "--width", "854", "--height", "480"]);
    let plain = build_game_args(&d, linux(), false, &values());
    assert_eq!(plain.len(), 4);
}

#[test]
fn modern_game_args_follow_rules() {
    let mut d = details("1.20.4", "m", vec![]);
    let demo = Rule { action: "allow".to_string(), os: None, features: Some(vec![("is_demo_user".to_string(), true)]) };
    d.arguments = Some(Arguments {
        game: Some(vec![
            Argument::Plain("--username".to_string()),
            Argument::Plain("${auth_player_name}".to_string()),
            Argument::Conditional { rules: Some(vec![demo]), value: vec!["--demo".to_string()] },
            Argument::Conditional { rules: None, value: vec!["--a".to_string(), "${version_type}".to_string()] },
        ]),
        jvm: None,
    });
    let args = build_game_args(&d, linux(), false, &values());
    assert_eq!(args, vec!["--username", "Steve", "--a", "release"]);
}

#[test]
fn jvm_args_start_with_memory_flags() {
    let d = details("1.8.9", "m", vec![]);
    let args = build_jvm_args(&d, linux(), &values(), Some(1024), None, &Some(" -XX:+UseG1GC  -Dx=1 ".to_string()), "/n", "cp");
    assert_eq!(args, vec!["-Xms1024M", "-Xmx2048M", "-Djava.library.path=/n", "-cp", "cp", "-XX:+UseG1GC", "-Dx=1"]);
}

#[test]
fn java_major_parsing() {
    assert_eq!(parse_java_major("java version \"1.8.0_392\"\nJava(TM) SE"), Some(8));
    assert_eq!(parse_java_major("openjdk version \"17.0.2\" 2022-01-18\n"), Some(17));
    assert_eq!(parse_java_major("openjdk version \"21\" 2023-09-19"), Some(21));
    assert_eq!(parse_java_major("no quotes here"), None);
}

#[test]
fn java_21_requirement_selection() {
    let only17 = vec![("/j17".to_string(), 17u32)];
    assert_eq!(find_java_by_version(&only17, 21), None);
    let newer = vec![("/j17".to_string(), 17u32), ("/j22".to_string(), 22u32)];
    assert_eq!(find_java_by_version(&newer, 21), Some(1));
    let both = vec![("/j22".to_string(), 22u32), ("/j21".to_string(), 21u32)];
    assert_eq!(find_java_by_version(&both, 21), Some(1));
}

#[test]
fn launch_java_too_old() {
    let detected = Some(JavaProbe { path: "/j17".to_string(), exists: true, major: Some(17) });
    let r = select_java_for_launch(&None, Some(21), &None, &None, &detected, false, &None);
    assert_eq!(r, Err(JavaError::TooOld { required: 21, found: 17 }));
    let ok = select_java_for_launch(&None, Some(21), &None, &Some("/j21".to_string()), &detected, false, &None);
    assert_eq!(ok, Ok("/j21".to_string()));
    assert_eq!(select_java_for_launch(&None, Some(21), &None, &None, &None, false, &None), Err(JavaError::NotFound));
}

#[test]
fn legacy_forge_forces_java8() {
    let detected = Some(JavaProbe { path: "/j17".to_string(), exists: true, major: Some(17) });
    let java8 = Some(JavaProbe { path: "/j8".to_string(), exists: true, major: Some(8) });
    let r = select_java_for_launch(&None, None, &None, &None, &detected, true, &java8);
    assert_eq!(r, Ok("/j8".to_string()));
    let none = select_java_for_launch(&None, None, &None, &None, &detected, true, &None);
    assert_eq!(none, Err(JavaError::Java8Required));
    let java7 = Some(JavaProbe { path: "/j7".to_string(), exists: true, major: Some(7) });
    assert_eq!(select_java_for_launch(&None, None, &None, &None, &java7, true, &None), Err(JavaError::Java8Required));
    let unreadable = Some(JavaProbe { path: "/j?".to_string(), exists: true, major: None });
    assert_eq!(select_java_for_launch(&unreadable, None, &None, &None, &None, true, &None), Err(JavaError::Java8Required));
    let own8 = Some(JavaProbe { path: "/mine8".to_string(), exists: true, major: Some(8) });
    assert_eq!(select_java_for_launch(&own8, None, &None, &None, &detected, true, &java8), Ok("/mine8".to_string()));
    let own = Some(JavaProbe { path: "/mine".to_string(), exists: true, major: None });
    assert_eq!(select_java_for_launch(&own, Some(21), &None, &None, &detected, true, &None), Ok("/mine".to_string()));
}

#[test]
fn instance_java_checked_against_requirement() {
    let own17 = Some(JavaProbe { path: "/own17".to_string(), exists: true, major: Some(17) });
    let found = Some("/j21".to_string());
    assert_eq!(select_java_for_launch(&own17, Some(21), &None, &found, &None, false, &None), Ok("/j21".to_string()));
    assert_eq!(select_java_for_launch(&own17, Some(21), &None, &None, &None, false, &None), Err(JavaError::TooOld { required: 21, found: 17 }));
    assert_eq!(select_java_for_launch(&own17, Some(17), &None, &found, &None, false, &None), Ok("/own17".to_string()));
}

#[test]
fn long_command_fallback_threshold() {
    let main = "m".to_string();
    // 2 jvm arguments of 3994 chars: 2 * (3994 + 3) + (1 + 3) = 7998
    let short = vec!["x".repeat(3994), "y".repeat(3994)];
    assert!(!needs_argfile(true, &short, &main, &vec![], Some(17)));
    // one more character per argument: 8000
    let long = vec!["x".repeat(3995), "y".repeat(3995)];
    assert!(needs_argfile(true, &long, &main, &vec![], Some(17)));
    assert!(needs_argfile(true, &long, &main, &vec![], Some(9)));
    assert!(!needs_argfile(true, &long, &main, &vec![], Some(8)));
    assert!(!needs_argfile(false, &long, &main, &vec![], Some(17)));
    assert!(!needs_argfile(true, &long, &main, &vec![], None));
}

#[test]
fn argfile_quotes_and_escapes() {
    let text = build_argfile(&vec!["C:\\a b".to_string()], "Main", &vec!["say \"hi\"".to_string()]);
    assert_eq!(text, "\"C:\\\\a b\"\n\"Main\"\n\"say \\\"hi\\\"\"\n");
}
