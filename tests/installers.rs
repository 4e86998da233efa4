use palethea_launcher::downloader::{
    client_download, natives_to_extract, plan_asset_downloads, should_emit_progress, AssetObject,
};
use palethea_launcher::fabric::{
    fabric_install_downloads, fabric_meta_url, get_fabric_classpath, FabricIntermediary, FabricLauncherMeta,
    FabricLibraries, FabricLibrary, FabricLoader, FabricLoaderVersion, FabricMainClass,
};
use palethea_launcher::forge::{after_installer, forge_installer_urls, forge_record, installer_args, InstallStep};
use palethea_launcher::instances::ModLoader;
use palethea_launcher::versions::{
    Artifact, DownloadInfo, Downloads, ExtractInfo, Host, HostArch, HostOs, Library, LibraryDownloads, VersionDetails,
};

fn fabric_info() -> FabricLoaderVersion {
    FabricLoaderVersion {
        loader: FabricLoader { separator: ".".to_string(), build: 1, maven: "net.fabricmc:fabric-loader:0.15.7".to_string(), version: "0.15.7".to_string(), stable: true },
        intermediary: FabricIntermediary { maven: "net.fabricmc:intermediary:1.20.4".to_string(), version: "1.20.4".to_string(), stable: true },
        launcher_meta: FabricLauncherMeta {
            version: 1,
            libraries: FabricLibraries {
                client: vec![],
                common: vec![FabricLibrary { name: "org.ow2.asm:asm:9.6".to_string(), url: "https://maven.fabricmc.net/".to_string(), sha1: Some("aa".to_string()), size: None }],
                server: vec![],
            },
            main_class: FabricMainClass::Complex { client: "net.fabricmc.loader.impl.launch.knot.KnotClient".to_string(), server: None },
        },
    }
}

#[test]
fn asset_plan() {
    let objects = vec![
        AssetObject { hash: "bdf48ef6b5d0d23bbb02e17d04865216179f510a".to_string(), size: 10 },
        AssetObject { hash: "x".to_string(), size: 1 },
    ];
    let plan = plan_asset_downloads(&objects, "/assets");
    assert_eq!(plan.len(), 1);
    assert_eq!(plan[0].path, "/assets/objects/bd/bdf48ef6b5d0d23bbb02e17d04865216179f510a");
    assert_eq!(plan[0].url, "https://resources.download.minecraft.net/bd/bdf48ef6b5d0d23bbb02e17d04865216179f510a");
    assert_eq!(plan[0].size, 10);
    assert!(should_emit_progress(5, 32, 5));
    assert!(should_emit_progress(32, 32, 5));
    assert!(!should_emit_progress(7, 32, 5));
}

#[test]
fn natives_selected_for_host() {
    let lib = Library {
        name: "org.lwjgl.lwjgl:lwjgl-platform:2.9.4".to_string(),
        downloads: Some(LibraryDownloads {
            artifact: None,
            classifiers: Some(vec![(
                "natives-linux".to_string(),
                Artifact { path: "n/l.jar".to_string(), sha1: String::new(), size: 1, url: String::new() },
            )]),
        }),
        url: None,
        rules: None,
        natives: Some(vec![("linux".to_string(), "natives-linux".to_string())]),
        extract: Some(ExtractInfo { exclude: Some(vec!["META-INF/".to_string()]) }),
    };
    let linux = Host { os: HostOs::Linux, arch: HostArch::X86_64 };
    let jars = natives_to_extract(&vec![lib.clone()], linux, "/lib");
    assert_eq!(jars, vec![("/lib/n/l.jar".to_string(), vec!["META-INF/".to_string()])]);
    let windows = Host { os: HostOs::Windows, arch: HostArch::X86_64 };
    assert!(natives_to_extract(&vec![lib], windows, "/lib").is_empty());
}

#[test]
fn client_jar_download() {
    let mut d = VersionDetails {
        id: "1.20.4".to_string(),
        version_type: "release".to_string(),
        main_class: "m".to_string(),
        minimum_launcher_version: None,
        release_time: String::new(),
        time: String::new(),
        assets: None,
        asset_index: None,
        downloads: None,
        libraries: vec![],
        arguments: None,
        minecraft_arguments: None,
        java_version: None,
    };
    assert!(client_download(&d, "/v").is_none());
    d.downloads = Some(Downloads {
        client: DownloadInfo { sha1: "fd19469fed4a4b4c15b2d5133985f0e3e7816a8a".to_string(), size: 24445539, url: "https://piston-data.mojang.com/c.jar".to_string() },
        server: None,
        client_mappings: None,
        server_mappings: None,
    });
    let c = client_download(&d, "/v").unwrap();
    assert_eq!(c.path, "/v/1.20.4/1.20.4.jar");
    assert_eq!(c.sha1, "fd19469fed4a4b4c15b2d5133985f0e3e7816a8a");
}

#[test]
fn forge_installer_plan() {
    let urls = forge_installer_urls("1.8.9", "11.15.1.2318");
    assert_eq!(urls[0], "https://maven.minecraftforge.net/net/minecraftforge/forge/1.8.9-11.15.1.2318-1.8.9/forge-1.8.9-11.15.1.2318-1.8.9-installer.jar");
    assert_eq!(urls[1], "https://maven.minecraftforge.net/net/minecraftforge/forge/1.8.9-11.15.1.2318/forge-1.8.9-11.15.1.2318-installer.jar");
    assert_eq!(installer_args("/tmp/i.jar", "/root"), vec!["-jar", "/tmp/i.jar", "--installClient", "/root"]);
    assert_eq!(after_installer(ModLoader::Forge, true, 30), InstallStep::Record);
    assert_eq!(after_installer(ModLoader::Forge, false, 30), InstallStep::ExtractLegacy);
    assert_eq!(after_installer(ModLoader::NeoForge, true, 600), InstallStep::Fail);
    let rec = forge_record("1.8.9", "11.15.1.2318", Some("1.8.9-forge1.8.9-11.15.1.2318".to_string()));
    assert_eq!(rec.version_id.as_deref(), Some("1.8.9-forge1.8.9-11.15.1.2318"));
    assert_eq!(rec.minecraft_version, "1.8.9");
}

#[test]
fn fabric_install_plan() {
    let info = fabric_info();
    assert_eq!(fabric_meta_url("1.20.4", "0.15.7"), "https://meta.fabricmc.net/v2/versions/loader/1.20.4/0.15.7");
    let plan = fabric_install_downloads(&info, "/lib");
    assert_eq!(plan.len(), 3);
    assert_eq!(plan[0].url, "https://maven.fabricmc.net/net/fabricmc/fabric-loader/0.15.7/fabric-loader-0.15.7.jar");
    assert_eq!(plan[1].path, "/lib/net/fabricmc/intermediary/1.20.4/intermediary-1.20.4.jar");
    assert_eq!(plan[2].sha1, "aa");
    let cp = get_fabric_classpath(&info, "/lib");
    assert_eq!(cp[0].0, "net.fabricmc:fabric-loader:0.15.7");
    assert_eq!(cp.len(), 3);
    assert_eq!(info.launcher_meta.main_class.get_client_class(), "net.fabricmc.loader.impl.launch.knot.KnotClient");
}
