use yabridgectl::cli::{parse_directory_path, parse_path, parse_path_from_set, parse_vst2_location};
use yabridgectl::moduleinfo::{Class, CompatibilityMapping, ModuleInfo};
use yabridgectl::path::FsPath;
use yabridgectl::plugin::LibArchitecture;
use yabridgectl::search::Vst2InstallationLocation;
use yabridgectl::uid::UidError;

fn p(s: &str) -> FsPath {
    FsPath {
        absolute: s.starts_with('/'),
        parts: s.split('/').filter(|x| !x.is_empty()).map(String::from).collect(),
    }
}

fn extra(key: &str) -> serde_jsonrc::Map<String, serde_jsonrc::Value> {
    let mut m = serde_jsonrc::Map::new();
    m.insert(String::from(key), serde_jsonrc::Value::Bool(true));
    m
}

#[test]
fn moduleinfo_class_ids_are_rewritten() {
    let mut info = ModuleInfo {
        classes: vec![Class { cid: String::from("0011223344556677ff00112233445566"), other: extra("Name") }],
        compatibility_mappings: Some(vec![CompatibilityMapping {
            new: String::from("00112233445566778899AABBCCDDEEFF"),
            old: vec![String::from("FFEEDDCCBBAA99887766554433221100")],
            other: serde_jsonrc::Map::new(),
        }]),
        other: extra("Version"),
    };
    assert_eq!(info.rewrite_uid_byte_orders(), Ok(()));
    assert_eq!(info.classes[0].cid, "3322110055447766FF00112233445566");
    assert!(info.classes[0].other.contains_key("Name"));
    let m = &info.compatibility_mappings.as_ref().unwrap()[0];
    assert_eq!(m.new, "33221100554477668899AABBCCDDEEFF");
    assert_eq!(m.old[0], "CCDDEEFFAABB88997766554433221100");
    assert!(info.other.contains_key("Version"));
}

#[test]
fn moduleinfo_with_a_bad_class_id_is_left_alone() {
    let mut info = ModuleInfo {
        classes: vec![
            Class { cid: String::from("0011223344556677FF00112233445566"), other: serde_jsonrc::Map::new() },
            Class { cid: String::from("short"), other: serde_jsonrc::Map::new() },
        ],
        compatibility_mappings: None,
        other: serde_jsonrc::Map::new(),
    };
    assert_eq!(info.rewrite_uid_byte_orders(), Err(UidError::WrongLength));
    assert_eq!(info.classes[0].cid, "0011223344556677FF00112233445566");
}

#[test]
fn command_line_paths() {
    assert_eq!(parse_path("/x", true), Ok(String::from("/x")));
    assert_eq!(parse_path("/x", false), Err(String::from("File or directory could not be found.")));
    assert_eq!(parse_directory_path("/x", true, true), Ok(String::from("/x")));
    assert_eq!(parse_directory_path("/x", true, false), Err(String::from("Path is not a directory.")));
    assert_eq!(parse_directory_path("/x", false, false), Err(String::from("Directory could not be found.")));
    let known = vec![p("/a/b"), p("/c")];
    assert_eq!(parse_path_from_set(&known, &p("/c"), &p("/zzz")), Some(p("/c")));
    assert_eq!(parse_path_from_set(&known, &p("/link"), &p("/a/b")), Some(p("/a/b")));
    assert_eq!(parse_path_from_set(&known, &p("/link"), &p("/nope")), None);
    assert_eq!(parse_vst2_location("inline"), Some(Vst2InstallationLocation::Inline));
    assert_eq!(parse_vst2_location("centralized"), Some(Vst2InstallationLocation::Centralized));
    assert_eq!(parse_vst2_location("elsewhere"), None);
    assert_eq!(Vst2InstallationLocation::default(), Vst2InstallationLocation::Centralized);
    assert_eq!(LibArchitecture::Lib32.describe(), "32-bit");
    assert_eq!(LibArchitecture::Lib64.vst_arch(), "x86_64-win");
}
