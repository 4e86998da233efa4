use palethea_launcher::args::u64_to_string;
use palethea_launcher::curseforge::{classify_game_versions_and_loaders, curseforge_api_key, parse_u64_id, to_modpack_version, user_agent, CurseForgeFile};
use palethea_launcher::files::{meta_path_for_file, should_extract};
use palethea_launcher::ping::{
    color_to_code, get_style_prefix, handshake_packet, parse_motd, read_varint, status_json,
    status_request_packet, write_varint, ChatComponent, MotdStyle, PingError,
};
use palethea_launcher::settings::{get_session_file_path, presence_details};

fn plain(text: &str) -> ChatComponent {
    ChatComponent::Text(text.to_string())
}

fn object(color: Option<&str>, bold: Option<bool>, text: Option<&str>, extra: Vec<ChatComponent>) -> ChatComponent {
    ChatComponent::Object {
        color: color.map(|c| c.to_string()),
        bold,
        italic: None,
        underlined: None,
        strikethrough: None,
        obfuscated: None,
        text: text.map(|t| t.to_string()),
        extra,
    }
}

#[test]
fn varint_encoding() {
    let mut buf = Vec::new();
    write_varint(&mut buf, 0);
    write_varint(&mut buf, 300);
    write_varint(&mut buf, 25565);
    assert_eq!(buf, vec![0x00, 0xac, 0x02, 0xdd, 0xc7, 0x01]);
    assert_eq!(read_varint(&buf, 0), Some((0, 1)));
    assert_eq!(read_varint(&buf, 1), Some((300, 3)));
    assert_eq!(read_varint(&buf, 3), Some((25565, 6)));
    assert_eq!(read_varint(&buf, 6), None);
    assert_eq!(read_varint(&[0xff, 0xff, 0xff, 0xff, 0x0f], 0), Some((-1, 5)));
    assert_eq!(read_varint(&[0x80, 0x80, 0x80, 0x80, 0x80, 0x01], 0), None);
    assert_eq!(read_varint(&[0x80], 0), None);
}

#[test]
fn handshake_bytes() {
    let p = handshake_packet(b"mc.example", 25565);
    let mut expected = vec![0x00, 47, 10];
    expected.extend_from_slice(b"mc.example");
    expected.extend_from_slice(&[0x63, 0xdd, 0x01]);
    let mut framed = vec![expected.len() as u8];
    framed.extend_from_slice(&expected);
    assert_eq!(p, framed);
    assert_eq!(status_request_packet(), vec![1, 0]);
}

#[test]
fn status_frame() {
    let json = b"{\"a\":1}";
    let mut bytes = vec![9, 0, json.len() as u8];
    bytes.extend_from_slice(json);
    let (a, b) = status_json(&bytes).unwrap();
    assert_eq!(&bytes[a..b], json);
    assert_eq!(status_json(&[2, 1, 0]), Err(PingError::UnexpectedPacket(1)));
    assert_eq!(status_json(&[9, 0, 20, b'{']), Err(PingError::Truncated));
    assert_eq!(status_json(&[]), Err(PingError::Truncated));
}

#[test]
fn motd_styles_inherit() {
    assert_eq!(color_to_code("GOLD"), Some('6'));
    assert_eq!(color_to_code("pink"), None);
    let none = MotdStyle { color: None, bold: false, italic: false, underlined: false, strikethrough: false, obfuscated: false };
    assert_eq!(get_style_prefix(&none), "§r");
    let d = object(Some("red"), Some(true), Some("Hi"), vec![plain(" there"), object(Some("reset"), None, Some("!"), vec![])]);
    assert_eq!(parse_motd(&d), "§c§lHi§c§l there§r!");
    let list = ChatComponent::List(vec![plain("A"), plain(""), ChatComponent::Other, object(Some("aqua"), None, None, vec![plain("B")])]);
    assert_eq!(parse_motd(&list), "§rA§bB");
}

#[test]
fn curseforge_ids_and_agent() {
    assert_eq!(parse_u64_id(" 42 ", "project id"), Ok(42));
    assert_eq!(parse_u64_id("x1", "file id"), Err("Invalid file id 'x1'".to_string()));
    assert_eq!(parse_u64_id("18446744073709551616", "id").is_err(), true);
    assert_eq!(user_agent("1.2"), "PaletheaLauncher/1.2 (github.com/PaletheaLauncher)");
    assert!(curseforge_api_key(None, None).is_err());
    assert_eq!(curseforge_api_key(None, Some(" k ")), Ok("k".to_string()));
}

#[test]
fn natives_entries_filtered() {
    let ex = vec!["META-INF/".to_string(), "org/".to_string()];
    assert!(should_extract("liblwjgl.so", false, &ex));
    assert!(!should_extract("org/x.class", false, &ex));
    assert!(!should_extract("META-INF/MANIFEST.MF", false, &vec![]));
    assert!(!should_extract("dir/", true, &vec![]));
}

#[test]
fn small_paths_and_texts() {
    assert_eq!(meta_path_for_file("/g/mods/a.jar"), Some("/g/mods/metadata/a.jar.meta.json".to_string()));
    assert_eq!(meta_path_for_file("a.jar"), None);
    assert_eq!(meta_path_for_file("/g/mods/"), None);
    assert_eq!(get_session_file_path("/r"), "/r/active_sessions.json");
    assert_eq!(presence_details(0), "No instances running");
    assert_eq!(presence_details(1), "Currently playing 1 instance");
    assert_eq!(presence_details(12), "Currently playing 12 instances");
    assert_eq!(u64_to_string(0), "0");
    assert_eq!(u64_to_string(18446744073709551615), "18446744073709551615");
}

#[test]
fn version_tags_classified() {
    let tags: Vec<String> = ["1.20.1", " 1.19.2", "Forge", "NeoForge", "Fabric", "1.20.1", "Client", "Quilt", "1.9"]
        .iter()
        .map(|s| s.to_string())
        .collect();
    let (versions, loaders) = classify_game_versions_and_loaders(&tags);
    assert_eq!(versions, vec!["1.9", "1.20.1", "1.19.2"]);
    assert_eq!(loaders, vec!["fabric", "forge", "neoforge", "quilt"]);
}

#[test]
fn modpack_version_from_file() {
    let file = CurseForgeFile {
        id: 4711,
        display_name: "  ".to_string(),
        file_name: "pack-1.0.zip".to_string(),
        file_date: "2024-01-01".to_string(),
        file_length: 99,
        download_url: None,
        game_versions: vec!["1.20.1".to_string(), "Forge".to_string()],
        release_type: 2,
    };
    let v = to_modpack_version(123, file);
    assert_eq!(v.id, "4711");
    assert_eq!(v.project_id, "123");
    assert_eq!(v.name, "pack-1.0.zip");
    assert_eq!(v.version_type, "beta");
    assert_eq!(v.files.len(), 1);
    assert_eq!(v.files[0].url, "");
    assert_eq!(v.game_versions, vec!["1.20.1"]);
    assert_eq!(v.loaders, vec!["forge"]);
}
