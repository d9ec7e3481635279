use yabridgectl::path::FsPath;
use yabridgectl::plugin::{LibArchitecture, NativeFile, Plugin, Vst2Plugin, Vst3ModuleType};
use yabridgectl::search::{
    classify_candidate, exports_entry_point, index, vst3_module_placement, BridgeHomes,
    PluginFormat, ScannedFile, SearchError, Vst2InstallationLocation,
};
use yabridgectl::symbols::Pe32Info;

fn p(s: &str) -> FsPath {
    FsPath {
        absolute: s.starts_with('/'),
        parts: s.split('/').filter(|x| !x.is_empty()).map(String::from).collect(),
    }
}

fn info(exports: &[&str], is_64_bit: bool) -> Pe32Info {
    Pe32Info { exports: exports.iter().map(|s| String::from(*s)).collect(), is_64_bit }
}

fn file(s: &str) -> ScannedFile {
    ScannedFile { path: p(s), is_symlink: false }
}

#[test]
fn library_without_entry_points_is_skipped() {
    let lib = info(&["foo", "bar"], true);
    for format in [PluginFormat::Vst2, PluginFormat::Vst3, PluginFormat::Clap] {
        assert!(!exports_entry_point(&lib, format));
        let r = classify_candidate(format, p("/plugins/lib.dll"), None, &lib);
        assert_eq!(r, Err(p("/plugins/lib.dll")));
    }
}

#[test]
fn get_plugin_factory_makes_a_vst3_module() {
    let lib = info(&["foo", "GetPluginFactory", "VSTPluginMain", "bar"], true);
    assert!(exports_entry_point(&lib, PluginFormat::Vst3));
    let r = classify_candidate(PluginFormat::Vst3, p("/plugins/Q.vst3"), None, &lib);
    match r {
        Ok(Plugin::Vst3(m)) => {
            assert_eq!(m.module, Vst3ModuleType::Legacy(p("/plugins/Q.vst3")));
            assert_eq!(m.architecture, LibArchitecture::Lib64);
        }
        other => panic!("unexpected {:?}", other),
    }
}

#[test]
fn entry_points_of_each_format() {
    assert!(exports_entry_point(&info(&["main"], false), PluginFormat::Vst2));
    assert!(exports_entry_point(&info(&["VSTPluginMain"], false), PluginFormat::Vst2));
    assert!(!exports_entry_point(&info(&["clap_entry"], false), PluginFormat::Vst2));
    assert!(exports_entry_point(&info(&["clap_entry"], false), PluginFormat::Clap));
    assert!(!exports_entry_point(&info(&["GetPluginFactory"], false), PluginFormat::Clap));
}

#[test]
fn bundle_module_is_classified_as_bundle() {
    let m = vst3_module_placement(
        p("/plugins/Vendor/P.vst3/Contents/x86_64-win/P.vst3"),
        Some(p("Vendor/P.vst3/Contents/x86_64-win")),
        LibArchitecture::Lib64,
    );
    assert_eq!(m.module, Vst3ModuleType::Bundle(p("/plugins/Vendor/P.vst3")));
    assert_eq!(m.subdirectory, Some(p("Vendor")));
    assert_eq!(m.type_str(), "bundle");
}

#[test]
fn bare_module_is_classified_as_legacy() {
    let m = vst3_module_placement(p("/plugins/Q.vst3"), Some(p("")), LibArchitecture::Lib64);
    assert_eq!(m.module, Vst3ModuleType::Legacy(p("/plugins/Q.vst3")));
    assert_eq!(m.subdirectory, Some(p("")));
    assert_eq!(m.type_str(), "legacy");
}

#[test]
fn bundle_layout_must_match_the_architecture() {
    let m = vst3_module_placement(
        p("/plugins/P.vst3/Contents/x86_64-win/P.vst3"),
        None,
        LibArchitecture::Lib32,
    );
    assert_eq!(m.module, Vst3ModuleType::Legacy(p("/plugins/P.vst3/Contents/x86_64-win/P.vst3")));
    let other_name = vst3_module_placement(
        p("/plugins/Other.vst3/Contents/x86_64-win/P.vst3"),
        None,
        LibArchitecture::Lib64,
    );
    assert!(matches!(other_name.module, Vst3ModuleType::Legacy(_)));
}

#[test]
fn index_sorts_files_by_extension() {
    let files = vec![
        file("/plugins/A.dll"),
        file("/plugins/Vendor/B.vst3"),
        file("/plugins/C.clap"),
        ScannedFile { path: p("/plugins/A.so"), is_symlink: true },
        file("/plugins/readme.txt"),
        file("/plugins/D.so"),
    ];
    let idx = index(&p("/plugins"), &files);
    assert_eq!(idx.dll_files, vec![(p("/plugins/A.dll"), Some(p("")))]);
    assert_eq!(idx.vst3_files, vec![(p("/plugins/Vendor/B.vst3"), Some(p("Vendor")))]);
    assert_eq!(idx.clap_files, vec![(p("/plugins/C.clap"), Some(p("")))]);
    assert_eq!(
        idx.so_files,
        vec![NativeFile::Symlink(p("/plugins/A.so")), NativeFile::Regular(p("/plugins/D.so"))]
    );
}

#[test]
fn search_sorts_candidates_into_plugins_and_skipped_files() {
    let files = vec![
        file("/plugins/A.dll"),
        file("/plugins/junk.dll"),
        file("/plugins/broken.dll"),
        file("/plugins/P.vst3/Contents/x86_64-win/P.vst3"),
        file("/plugins/C.clap"),
    ];
    let idx = index(&p("/plugins"), &files);
    let dll = vec![Some(info(&["VSTPluginMain"], false)), Some(info(&["foo", "bar"], true)), None];
    let vst3 = vec![Some(info(&["GetPluginFactory"], true))];
    let clap = vec![Some(info(&["clap_entry"], true))];
    let res = idx.search(&dll, &vst3, &clap).unwrap();
    assert_eq!(res.plugins.len(), 3);
    assert_eq!(
        res.plugins[0],
        Plugin::Vst2(Vst2Plugin {
            path: p("/plugins/A.dll"),
            architecture: LibArchitecture::Lib32,
            subdirectory: Some(p("")),
        })
    );
    match &res.plugins[1] {
        Plugin::Vst3(m) => {
            assert_eq!(m.module, Vst3ModuleType::Bundle(p("/plugins/P.vst3")));
            assert_eq!(m.subdirectory, Some(p("")));
        }
        other => panic!("unexpected {:?}", other),
    }
    assert!(matches!(res.plugins[2], Plugin::Clap(_)));
    assert_eq!(res.skipped_files, vec![p("/plugins/junk.dll")]);
}

#[test]
fn search_needs_one_reading_per_candidate() {
    let idx = index(&p("/plugins"), &vec![file("/plugins/A.dll")]);
    assert_eq!(idx.search(&vec![], &vec![], &vec![]).unwrap_err(), SearchError::ReadingsMismatch);
}

#[test]
fn inline_orphans_need_a_dll_of_the_same_stem() {
    let files = vec![
        file("/plugins/Plugin.so"),
        file("/plugins/Other.dll"),
        file("/plugins/Kept.dll"),
        file("/plugins/Kept.so"),
    ];
    let idx = index(&p("/plugins"), &files);
    let dll = vec![Some(info(&["main"], true)), Some(info(&["main"], true))];
    let res = idx.search(&dll, &vec![], &vec![]).unwrap();
    let inline = res.vst2_inline_orphans(Vst2InstallationLocation::Inline);
    assert_eq!(inline, vec![NativeFile::Regular(p("/plugins/Plugin.so"))]);
    let centralized = res.vst2_inline_orphans(Vst2InstallationLocation::Centralized);
    assert_eq!(centralized.len(), 2);
}

#[test]
fn installation_status_of_each_kind() {
    let files = vec![file("/plugins/A.dll"), file("/plugins/A.so"), file("/plugins/Q.vst3")];
    let idx = index(&p("/plugins"), &files);
    let res = idx
        .search(&vec![Some(info(&["main"], true))], &vec![Some(info(&["GetPluginFactory"], true))], &vec![])
        .unwrap();
    let homes = BridgeHomes {
        vst2: p("/home/u/.vst/yabridge"),
        vst3: p("/home/u/.vst3/yabridge"),
        clap: p("/home/u/.clap/yabridge"),
    };
    assert_eq!(
        res.plugins[1].status_target(Vst2InstallationLocation::Inline, &homes, Some(LibArchitecture::Lib32)),
        Some(p("/home/u/.vst3/yabridge/Q.vst3/Contents/i386-linux/Q.so"))
    );
    assert_eq!(res.plugins[0].status_target(Vst2InstallationLocation::Inline, &homes, None), None);
    let on_disk = vec![None, Some(NativeFile::Regular(p("/home/u/.vst3/yabridge/Q.vst3/Contents/x86_64-linux/Q.so")))];
    let status = res.installation_status(Vst2InstallationLocation::Inline, &on_disk);
    assert_eq!(status[0], (p("/plugins/A.dll"), Some(NativeFile::Regular(p("/plugins/A.so")))));
    assert_eq!(status[1].0, p("/plugins/Q.vst3"));
    assert_eq!(status[1].1, on_disk[1]);
}
