use yabridgectl::path::{name_extension, name_stem, replace_extension, FsPath};

fn p(s: &str) -> FsPath {
    FsPath {
        absolute: s.starts_with('/'),
        parts: s.split('/').filter(|x| !x.is_empty()).map(String::from).collect(),
    }
}

#[test]
fn stems_and_extensions() {
    assert_eq!(name_stem("Plugin.dll"), "Plugin");
    assert_eq!(name_stem("a.tar.gz"), "a.tar");
    assert_eq!(name_stem(".hidden"), ".hidden");
    assert_eq!(name_stem("noext"), "noext");
    assert_eq!(name_extension("Plugin.vst3"), Some(String::from("vst3")));
    assert_eq!(name_extension(".hidden"), None);
    assert_eq!(name_extension("noext"), None);
    assert_eq!(name_extension("trailing."), Some(String::new()));
}

#[test]
fn extension_replacement() {
    assert_eq!(replace_extension("Plugin.dll", "so"), "Plugin.so");
    assert_eq!(replace_extension("Plugin", "so"), "Plugin.so");
    assert_eq!(replace_extension("Plugin.clap", "clap-win"), "Plugin.clap-win");
    assert_eq!(replace_extension("Plugin.dll", ""), "Plugin");
}

#[test]
fn join_parent_and_strip_prefix() {
    let home = p("/home/u/.vst3/yabridge");
    assert_eq!(home.join(&p("Vendor/Sub")), p("/home/u/.vst3/yabridge/Vendor/Sub"));
    assert_eq!(home.join(&p("/abs")), p("/abs"));
    assert_eq!(home.parent(), Some(p("/home/u/.vst3")));
    assert_eq!(FsPath::root().parent(), None);
    assert_eq!(p("/a/b/c").strip_prefix(&p("/a")), Some(p("b/c")));
    assert_eq!(p("/a/b/c").strip_prefix(&p("/x")), None);
    assert!(p("/a/b").same_as(&p("/a/b")));
    assert!(!p("/a/b").same_as(&p("a/b")));
    assert_eq!(p("/a/b.dll").with_extension("so"), p("/a/b.so"));
}
