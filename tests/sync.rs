use yabridgectl::path::FsPath;
use yabridgectl::plugin::{ClapPlugin, LibArchitecture, NativeFile, Plugin, Vst2Plugin, Vst3Module, Vst3ModuleType};
use yabridgectl::search::{BridgeHomes, Vst2InstallationLocation};
use yabridgectl::sync::{
    install_decision, InstallAction, InstallationMethod, NativeLibraries, NativeLibrary,
    PluginPlan, SyncState, SyncStep, TargetState,
};

fn p(s: &str) -> FsPath {
    FsPath {
        absolute: s.starts_with('/'),
        parts: s.split('/').filter(|x| !x.is_empty()).map(String::from).collect(),
    }
}

fn homes() -> BridgeHomes {
    BridgeHomes {
        vst2: p("/home/u/.vst/yabridge"),
        vst3: p("/home/u/.vst3/yabridge"),
        clap: p("/home/u/.clap/yabridge"),
    }
}

fn libs() -> NativeLibraries {
    NativeLibraries {
        vst2: NativeLibrary { path: p("/usr/lib/libyabridge-chainloader-vst2.so"), architecture: LibArchitecture::Lib64, hash: 11 },
        vst3: Some(NativeLibrary { path: p("/usr/lib/libyabridge-chainloader-vst3.so"), architecture: LibArchitecture::Lib64, hash: 22 }),
        clap: Some(NativeLibrary { path: p("/usr/lib/libyabridge-chainloader-clap.so"), architecture: LibArchitecture::Lib64, hash: 33 }),
    }
}

fn steps_of(plan: PluginPlan) -> Vec<SyncStep> {
    match plan {
        PluginPlan::Steps(s) => s,
        other => panic!("unexpected {:?}", other),
    }
}

fn installed(step: &SyncStep) -> TargetState {
    match step {
        SyncStep::Install { method: InstallationMethod::Copy, source_hash: Some(h), .. } => TargetState::Regular { hash: *h },
        SyncStep::Install { method: InstallationMethod::Symlink, source, .. } => TargetState::Symlink { link: source.clone() },
        other => panic!("not an install step: {:?}", other),
    }
}

#[test]
fn copy_with_same_hash_is_kept() {
    let src = p("/usr/lib/libyabridge-chainloader-vst2.so");
    let target = TargetState::Regular { hash: 42 };
    assert_eq!(install_decision(false, InstallationMethod::Copy, &src, Some(42), &target), InstallAction::Keep);
    assert_eq!(install_decision(false, InstallationMethod::Copy, &src, Some(43), &target), InstallAction::ReplaceFile);
    assert_eq!(install_decision(true, InstallationMethod::Copy, &src, Some(42), &target), InstallAction::ReplaceFile);
    assert_eq!(install_decision(false, InstallationMethod::Copy, &src, None, &target), InstallAction::ReplaceFile);
}

#[test]
fn install_decision_for_each_target_state() {
    let src = p("/plugins/A.dll");
    assert_eq!(install_decision(false, InstallationMethod::Symlink, &src, None, &TargetState::Missing), InstallAction::Create);
    assert_eq!(
        install_decision(false, InstallationMethod::Symlink, &src, None, &TargetState::Symlink { link: p("/plugins/A.dll") }),
        InstallAction::Keep
    );
    assert_eq!(
        install_decision(false, InstallationMethod::Symlink, &src, None, &TargetState::Symlink { link: p("/plugins/B.dll") }),
        InstallAction::ReplaceFile
    );
    assert_eq!(
        install_decision(false, InstallationMethod::Copy, &src, Some(1), &TargetState::Symlink { link: p("/plugins/A.dll") }),
        InstallAction::ReplaceFile
    );
    assert_eq!(
        install_decision(false, InstallationMethod::Symlink, &src, None, &TargetState::Directory),
        InstallAction::ReplaceDirectory
    );
}

#[test]
fn centralized_vst2_plan_and_conflict() {
    let mut state = SyncState::new();
    let plugin = Plugin::Vst2(Vst2Plugin { path: p("/plugins/Vendor/A.dll"), architecture: LibArchitecture::Lib64, subdirectory: Some(p("Vendor")) });
    let steps = steps_of(state.plan_plugin(&plugin, Vst2InstallationLocation::Centralized, &homes(), &libs(), false, false, false));
    assert_eq!(steps.len(), 3);
    assert!(matches!(&steps[0], SyncStep::CreateDirectory(d) if *d == p("/home/u/.vst/yabridge/Vendor")));
    match &steps[1] {
        SyncStep::Install { method, source, source_hash, target, counted, .. } => {
            assert_eq!(*method, InstallationMethod::Copy);
            assert_eq!(*source, p("/usr/lib/libyabridge-chainloader-vst2.so"));
            assert_eq!(*source_hash, Some(11));
            assert_eq!(*target, p("/home/u/.vst/yabridge/Vendor/A.so"));
            assert!(*counted);
        }
        other => panic!("unexpected {:?}", other),
    }
    match &steps[2] {
        SyncStep::Install { method, source, target, .. } => {
            assert_eq!(*method, InstallationMethod::Symlink);
            assert_eq!(*source, p("/plugins/Vendor/A.dll"));
            assert_eq!(*target, p("/home/u/.vst/yabridge/Vendor/A.dll"));
        }
        other => panic!("unexpected {:?}", other),
    }
    let again = Plugin::Vst2(Vst2Plugin { path: p("/other/Vendor/A.dll"), architecture: LibArchitecture::Lib32, subdirectory: Some(p("Vendor")) });
    assert!(matches!(
        state.plan_plugin(&again, Vst2InstallationLocation::Centralized, &homes(), &libs(), false, false, false),
        PluginPlan::Conflict
    ));
}

#[test]
fn inline_vst2_plan_copies_beside_the_dll() {
    let mut state = SyncState::new();
    let plugin = Plugin::Vst2(Vst2Plugin { path: p("/plugins/A.dll"), architecture: LibArchitecture::Lib64, subdirectory: None });
    let steps = steps_of(state.plan_plugin(&plugin, Vst2InstallationLocation::Inline, &homes(), &libs(), false, false, false));
    assert_eq!(steps.len(), 1);
    assert!(matches!(&steps[0], SyncStep::Install { target, .. } if *target == p("/plugins/A.so")));
}

#[test]
fn vst3_bundle_plan_keeps_the_two_architectures_apart() {
    let mut state = SyncState::new();
    let mut l = libs();
    l.vst3 = Some(NativeLibrary { path: p("/usr/lib/libyabridge-chainloader-vst3.so"), architecture: LibArchitecture::Lib32, hash: 22 });
    let module = Plugin::Vst3(Vst3Module {
        module: Vst3ModuleType::Bundle(p("/plugins/P.vst3")),
        architecture: LibArchitecture::Lib64,
        subdirectory: Some(p("Vendor")),
    });
    let steps = steps_of(state.plan_plugin(&module, Vst2InstallationLocation::Centralized, &homes(), &l, false, true, true));
    assert_eq!(steps.len(), 6);
    assert!(matches!(&steps[1], SyncStep::Install { target, .. }
        if *target == p("/home/u/.vst3/yabridge/Vendor/P.vst3/Contents/i386-linux/P.so")));
    assert!(matches!(&steps[3], SyncStep::Install { source, target, .. }
        if *target == p("/home/u/.vst3/yabridge/Vendor/P.vst3/Contents/x86_64-win/P.vst3")
            && *source == p("/plugins/P.vst3/Contents/x86_64-win/P.vst3")));
    assert!(matches!(&steps[4], SyncStep::Install { source, target, force: false, .. }
        if *target == p("/home/u/.vst3/yabridge/Vendor/P.vst3/Contents/Resources")
            && *source == p("/plugins/P.vst3/Contents/Resources")));
    assert!(matches!(&steps[5], SyncStep::WriteModuleInfo { target, .. }
        if *target == p("/home/u/.vst3/yabridge/Vendor/P.vst3/Contents/moduleinfo.json")));
    // The same module again (from another prefix) is a conflict.
    assert!(matches!(
        state.plan_plugin(&module, Vst2InstallationLocation::Centralized, &homes(), &l, false, true, true),
        PluginPlan::Conflict
    ));
    let mut no_vst3 = libs();
    no_vst3.vst3 = None;
    assert!(matches!(
        SyncState::new().plan_plugin(&module, Vst2InstallationLocation::Centralized, &homes(), &no_vst3, false, false, false),
        PluginPlan::NotSupported
    ));
}

#[test]
fn clap_plan_uses_a_distinct_windows_extension() {
    let mut state = SyncState::new();
    let plugin = Plugin::Clap(ClapPlugin { path: p("/plugins/C.clap"), architecture: LibArchitecture::Lib64, subdirectory: None });
    let steps = steps_of(state.plan_plugin(&plugin, Vst2InstallationLocation::Centralized, &homes(), &libs(), false, false, false));
    assert!(matches!(&steps[1], SyncStep::Install { target, .. } if *target == p("/home/u/.clap/yabridge/C.clap")));
    assert!(matches!(&steps[2], SyncStep::Install { target, .. } if *target == p("/home/u/.clap/yabridge/C.clap-win")));
}

#[test]
fn second_sync_keeps_every_target() {
    let plugins = vec![
        Plugin::Vst2(Vst2Plugin { path: p("/plugins/A.dll"), architecture: LibArchitecture::Lib64, subdirectory: None }),
        Plugin::Vst3(Vst3Module { module: Vst3ModuleType::Bundle(p("/plugins/P.vst3")), architecture: LibArchitecture::Lib64, subdirectory: None }),
        Plugin::Clap(ClapPlugin { path: p("/plugins/C.clap"), architecture: LibArchitecture::Lib64, subdirectory: None }),
    ];
    let mut first = SyncState::new();
    let mut second = SyncState::new();
    for plugin in &plugins {
        let a = steps_of(first.plan_plugin(plugin, Vst2InstallationLocation::Centralized, &homes(), &libs(), false, true, false));
        let b = steps_of(second.plan_plugin(plugin, Vst2InstallationLocation::Centralized, &homes(), &libs(), false, true, false));
        assert_eq!(a.len(), b.len());
        for (done, again) in a.iter().zip(b.iter()) {
            if let SyncStep::Install { method, source, source_hash, force, .. } = again {
                let on_disk = installed(done);
                assert_eq!(install_decision(*force, *method, source, *source_hash, &on_disk), InstallAction::Keep);
            }
        }
    }
}

#[test]
fn pruning_removes_unmanaged_bundles_and_stale_files() {
    let mut state = SyncState::new();
    let module = Plugin::Vst3(Vst3Module { module: Vst3ModuleType::Legacy(p("/plugins/B.vst3")), architecture: LibArchitecture::Lib64, subdirectory: None });
    steps_of(state.plan_plugin(&module, Vst2InstallationLocation::Centralized, &homes(), &libs(), false, false, false));
    let bundles = vec![
        (p("/home/u/.vst3/yabridge/A.vst3"), vec![NativeFile::Regular(p("/home/u/.vst3/yabridge/A.vst3/Contents/x86_64-linux/A.so"))]),
        (
            p("/home/u/.vst3/yabridge/B.vst3"),
            vec![
                NativeFile::Directory(p("/home/u/.vst3/yabridge/B.vst3/Contents")),
                NativeFile::Regular(p("/home/u/.vst3/yabridge/B.vst3/Contents/x86_64-linux/B.so")),
                NativeFile::Symlink(p("/home/u/.vst3/yabridge/B.vst3/Contents/x86_64-win/B.vst3")),
                NativeFile::Regular(p("/home/u/.vst3/yabridge/B.vst3/Contents/i386-linux/stale.so")),
            ],
        ),
    ];
    let orphans = state.centralized_orphans(&vec![], &vec![], &bundles);
    assert_eq!(
        orphans,
        vec![
            NativeFile::Directory(p("/home/u/.vst3/yabridge/A.vst3")),
            NativeFile::Regular(p("/home/u/.vst3/yabridge/B.vst3/Contents/i386-linux/stale.so")),
        ]
    );
}

#[test]
fn centralized_home_orphans_by_extension() {
    let mut state = SyncState::new();
    let plugin = Plugin::Vst2(Vst2Plugin { path: p("/plugins/A.dll"), architecture: LibArchitecture::Lib64, subdirectory: None });
    steps_of(state.plan_plugin(&plugin, Vst2InstallationLocation::Centralized, &homes(), &libs(), false, false, false));
    let vst2 = vec![
        NativeFile::Regular(p("/home/u/.vst/yabridge/A.so")),
        NativeFile::Symlink(p("/home/u/.vst/yabridge/A.dll")),
        NativeFile::Regular(p("/home/u/.vst/yabridge/Old.so")),
        NativeFile::Regular(p("/home/u/.vst/yabridge/notes.txt")),
    ];
    let clap = vec![NativeFile::Symlink(p("/home/u/.clap/yabridge/X.clap-win"))];
    let orphans = state.centralized_orphans(&vst2, &clap, &vec![]);
    assert_eq!(
        orphans,
        vec![
            NativeFile::Regular(p("/home/u/.vst/yabridge/Old.so")),
            NativeFile::Symlink(p("/home/u/.clap/yabridge/X.clap-win")),
        ]
    );
}

#[test]
fn leftovers_are_removed_deepest_first() {
    let files = vec![
        NativeFile::Directory(p("/home/u/.vst3/yabridge/A.vst3")),
        NativeFile::Regular(p("/home/u/.vst/yabridge/B.so")),
        NativeFile::Regular(p("/home/u/.vst3/yabridge/A.vst3/Contents/x86_64-linux/A.so")),
        NativeFile::Regular(p("/home/u/.vst/yabridge/A.so")),
    ];
    let ordered = yabridgectl::order::removal_order(files);
    assert_eq!(
        ordered,
        vec![
            NativeFile::Regular(p("/home/u/.vst3/yabridge/A.vst3/Contents/x86_64-linux/A.so")),
            NativeFile::Directory(p("/home/u/.vst3/yabridge/A.vst3")),
            NativeFile::Regular(p("/home/u/.vst/yabridge/B.so")),
            NativeFile::Regular(p("/home/u/.vst/yabridge/A.so")),
        ]
    );
}
