//! What a sync does: for each plugin, the files to create in the bridge homes
//! (or beside the plugin); for each target, whether the file there can stay; and
//! afterwards, what the homes hold that no plugin of this run accounts for.
use vstd::prelude::*;

use crate::path::{FsPath, PathView};
use crate::plugin::{opt_view, FileKind, LibArchitecture, NativeFile, Plugin, Vst3ModuleType};
use crate::search::{path_views, BridgeHomes, Vst2InstallationLocation};

verus! {

/// How a file is put in place.
#[derive(Debug, Clone, Copy, PartialEq, Eq, Structural)]
pub enum InstallationMethod {
    Copy,
    Symlink,
}

/// What stands at a target path before it is written, as seen without following a link
/// there.
#[derive(Debug, Clone)]
pub enum TargetState {
    Missing,
    /// A regular file, with the hash of its contents.
    Regular { hash: i64 },
    /// A symbolic link, with the path it holds.
    Symlink { link: FsPath },
    Directory,
}

/// What to do about a target.
#[derive(Debug, Clone, Copy, PartialEq, Eq, Structural)]
pub enum InstallAction {
    /// It already holds what would be written: leave it alone.
    Keep,
    /// Nothing stands there: create it.
    Create,
    /// Remove the file or link there, then create it.
    ReplaceFile,
    /// Remove the directory there with its contents, then create it.
    ReplaceDirectory,
}

/// The decision of `install_decision`.
pub open spec fn spec_install_decision(
    force: bool,
    method: InstallationMethod,
    source: PathView,
    source_hash: Option<i64>,
    target: TargetState,
) -> InstallAction {
    match target {
        TargetState::Missing => InstallAction::Create,
        TargetState::Regular { hash } => if !force && method == InstallationMethod::Copy
            && source_hash == Some(hash) {
            InstallAction::Keep
        } else {
            InstallAction::ReplaceFile
        },
        TargetState::Symlink { link } => if !force && method == InstallationMethod::Symlink
            && link@ == source {
            InstallAction::Keep
        } else {
            InstallAction::ReplaceFile
        },
        TargetState::Directory => InstallAction::ReplaceDirectory,
    }
}

/// Decides whether a copy of (or link to) `source` must be written at a target that is in
/// `target` state. Unless `force` is set, a regular file whose hash is that of the source
/// stays when copying, and a link to the source stays when linking. Anything else there is
/// removed first. A call that writes returns anything but `Keep`.
pub fn install_decision(
    force: bool,
    method: InstallationMethod,
    source: &FsPath,
    source_hash: Option<i64>,
    target: &TargetState,
) -> (r: InstallAction)
    ensures
        r == spec_install_decision(force, method, source@, source_hash, *target),
{
    match target {
        TargetState::Missing => InstallAction::Create,
        TargetState::Regular { hash } => {
            let same = match source_hash {
                Some(h) => h == *hash,
                None => false,
            };
            if !force && method == InstallationMethod::Copy && same {
                InstallAction::Keep
            } else {
                InstallAction::ReplaceFile
            }
        },
        TargetState::Symlink { link } => {
            if !force && method == InstallationMethod::Symlink && link.same_as(source) {
                InstallAction::Keep
            } else {
                InstallAction::ReplaceFile
            }
        },
        TargetState::Directory => InstallAction::ReplaceDirectory,
    }
}

/// A copy whose target already holds the source's contents is not written again.
pub proof fn lemma_hash_gated_skip(source: PathView, hash: i64)
    ensures
        spec_install_decision(
            false,
            InstallationMethod::Copy,
            source,
            Some(hash),
            TargetState::Regular { hash },
        ) == InstallAction::Keep,
{
}

} // verus!

verus! {

/// One file operation of a sync.
#[derive(Debug, Clone)]
pub enum SyncStep {
    /// Create a directory and its missing parents.
    CreateDirectory(FsPath),
    /// Put a copy of, or a link to, `source` at `target` (see `install_decision`).
    /// `counted` marks the native library that stands for a set-up plugin.
    Install {
        method: InstallationMethod,
        source: FsPath,
        source_hash: Option<i64>,
        target: FsPath,
        force: bool,
        counted: bool,
    },
    /// Write the `moduleinfo.json` at `source`, with its class IDs rewritten, to `target`.
    WriteModuleInfo { source: FsPath, target: FsPath },
}

/// What a `SyncStep` means.
pub enum StepView {
    CreateDirectory(PathView),
    Install {
        method: InstallationMethod,
        source: PathView,
        source_hash: Option<i64>,
        target: PathView,
        force: bool,
        counted: bool,
    },
    WriteModuleInfo { source: PathView, target: PathView },
}

impl View for SyncStep {
    type V = StepView;

    open spec fn view(&self) -> StepView {
        match self {
            SyncStep::CreateDirectory(p) => StepView::CreateDirectory(p@),
            SyncStep::Install { method, source, source_hash, target, force, counted } => StepView::Install {
                method: *method,
                source: source@,
                source_hash: *source_hash,
                target: target@,
                force: *force,
                counted: *counted,
            },
            SyncStep::WriteModuleInfo { source, target } => StepView::WriteModuleInfo {
                source: source@,
                target: target@,
            },
        }
    }
}

pub open spec fn step_views(v: Seq<SyncStep>) -> Seq<StepView> {
    v.map_values(|s: SyncStep| s@)
}

/// A native library of the bridge, to be copied next to each plugin.
#[derive(Debug, Clone)]
pub struct NativeLibrary {
    pub path: FsPath,
    pub architecture: LibArchitecture,
    /// The hash of its contents.
    pub hash: i64,
}

/// The bridge's native libraries: the VST2 one always, the VST3 and CLAP ones where the
/// bridge was built with them.
#[derive(Debug, Clone)]
pub struct NativeLibraries {
    pub vst2: NativeLibrary,
    pub vst3: Option<NativeLibrary>,
    pub clap: Option<NativeLibrary>,
}

/// What a sync has put in the bridge homes so far: the files in the VST2 and CLAP homes,
/// the VST3 bundles, and the files within each bundle.
#[derive(Debug, Clone)]
pub struct SyncState {
    pub vst2_files: Vec<FsPath>,
    pub clap_files: Vec<FsPath>,
    pub vst3_bundles: Vec<FsPath>,
    pub vst3_bundle_files: Vec<(FsPath, FsPath)>,
}

pub struct SyncStateView {
    pub vst2_files: Seq<PathView>,
    pub clap_files: Seq<PathView>,
    pub vst3_bundles: Seq<PathView>,
    pub vst3_bundle_files: Seq<(PathView, PathView)>,
}

pub open spec fn pair_views(v: Seq<(FsPath, FsPath)>) -> Seq<(PathView, PathView)> {
    v.map_values(|p: (FsPath, FsPath)| (p.0@, p.1@))
}

impl View for SyncState {
    type V = SyncStateView;

    open spec fn view(&self) -> SyncStateView {
        SyncStateView {
            vst2_files: path_views(self.vst2_files@),
            clap_files: path_views(self.clap_files@),
            vst3_bundles: path_views(self.vst3_bundles@),
            vst3_bundle_files: pair_views(self.vst3_bundle_files@),
        }
    }
}

/// The outcome of planning one plugin.
#[derive(Debug, Clone)]
pub enum PluginPlan {
    /// The operations that set the plugin up, in order.
    Steps(Vec<SyncStep>),
    /// Another plugin of this run already took the same place: the plugin is skipped.
    Conflict,
    /// The bridge has no native library for the plugin's format: the plugin is skipped.
    NotSupported,
}

pub enum PlanView {
    Steps(Seq<StepView>),
    Conflict,
    NotSupported,
}

impl View for PluginPlan {
    type V = PlanView;

    open spec fn view(&self) -> PlanView {
        match self {
            PluginPlan::Steps(s) => PlanView::Steps(step_views(s@)),
            PluginPlan::Conflict => PlanView::Conflict,
            PluginPlan::NotSupported => PlanView::NotSupported,
        }
    }
}

pub open spec fn copy_step(lib: NativeLibrary, target: PathView, force: bool) -> StepView {
    StepView::Install {
        method: InstallationMethod::Copy,
        source: lib.path@,
        source_hash: Some(lib.hash),
        target,
        force,
        counted: true,
    }
}

pub open spec fn link_step(source: PathView, target: PathView, force: bool) -> StepView {
    StepView::Install {
        method: InstallationMethod::Symlink,
        source,
        source_hash: None,
        target,
        force,
        counted: false,
    }
}

/// How one plugin is set up, and what the sync state becomes.
///
/// - VST2, centralized: a copy of the VST2 library in the VST2 home (under the plugin's
///   subdirectory), named after the `.dll` with extension `so`, and a link to the `.dll`
///   beside it. Where both places are already taken this run, the plugin is skipped.
/// - VST2, inline: a copy of the VST2 library beside the `.dll`, with extension `so`.
/// - VST3: a merged bundle in the VST3 home: a copy of the VST3 library in the directory
///   of that library's architecture, a link to the Windows module in the directory of the
///   module's architecture, for a bundle with resources a link to them (never forced),
///   and for a bundle with a `moduleinfo.json` a rewritten copy. Where the bundle already
///   holds a module of this architecture this run, the plugin is skipped.
/// - CLAP: a copy of the CLAP library in the CLAP home with extension `clap`, and a link
///   to the Windows library beside it with extension `clap-win`. Where both places are
///   already taken this run, the plugin is skipped.
pub open spec fn spec_plan(
    plugin: Plugin,
    state: SyncStateView,
    location: Vst2InstallationLocation,
    homes: BridgeHomes,
    libs: NativeLibraries,
    force: bool,
    has_resources: bool,
    has_moduleinfo: bool,
) -> (PlanView, SyncStateView) {
    match plugin {
        Plugin::Vst2(v) => match location {
            Vst2InstallationLocation::Centralized => {
                let native = v.spec_centralized_native_target(homes.vst2@);
                let windows = v.spec_centralized_windows_target(homes.vst2@);
                if state.vst2_files.contains(native) && state.vst2_files.contains(windows) {
                    (PlanView::Conflict, state)
                } else {
                    (
                        PlanView::Steps(
                            seq![
                                StepView::CreateDirectory(native.parent()),
                                copy_step(libs.vst2, native, force),
                                link_step(v.path@, windows, force),
                            ],
                        ),
                        SyncStateView {
                            vst2_files: state.vst2_files.push(native).push(windows),
                            ..state
                        },
                    )
                }
            },
            Vst2InstallationLocation::Inline => (
                PlanView::Steps(seq![copy_step(libs.vst2, v.path@.with_extension("so"@), force)]),
                state,
            ),
        },
        Plugin::Vst3(m) => match libs.vst3 {
            None => (PlanView::NotSupported, state),
            Some(lib) => {
                let bundle = m.spec_target_bundle_home(homes.vst3@);
                let native = m.spec_target_native_module_path(homes.vst3@, Some(lib.architecture));
                let windows = m.spec_target_windows_module_path(homes.vst3@);
                let resources = bundle.push("Contents"@).push("Resources"@);
                let moduleinfo = bundle.push("Contents"@).push("moduleinfo.json"@);
                let is_bundle = m.module is Bundle;
                let with_bundle = SyncStateView { vst3_bundles: state.vst3_bundles.push(bundle), ..state };
                if state.vst3_bundle_files.contains((bundle, windows)) {
                    (PlanView::Conflict, with_bundle)
                } else {
                    let src = m.module.spec_path()@;
                    let base = seq![
                        StepView::CreateDirectory(native.parent()),
                        copy_step(lib, native, force),
                        StepView::CreateDirectory(windows.parent()),
                        link_step(m.spec_original_module_path(), windows, force),
                    ];
                    let with_resources = if is_bundle && has_resources {
                        base.push(
                            link_step(src.push("Contents"@).push("Resources"@), resources, false),
                        )
                    } else {
                        base
                    };
                    let steps = if is_bundle && has_moduleinfo {
                        with_resources.push(
                            StepView::WriteModuleInfo {
                                source: src.push("Contents"@).push("moduleinfo.json"@),
                                target: moduleinfo,
                            },
                        )
                    } else {
                        with_resources
                    };
                    let files0 = state.vst3_bundle_files.push((bundle, native)).push((bundle, windows));
                    let files1 = if is_bundle && has_resources {
                        files0.push((bundle, resources))
                    } else {
                        files0
                    };
                    let files2 = if is_bundle && has_moduleinfo {
                        files1.push((bundle, moduleinfo))
                    } else {
                        files1
                    };
                    (
                        PlanView::Steps(steps),
                        SyncStateView { vst3_bundle_files: files2, ..with_bundle },
                    )
                }
            },
        },
        Plugin::Clap(c) => match libs.clap {
            None => (PlanView::NotSupported, state),
            Some(lib) => {
                let native = c.spec_native_target(homes.clap@);
                let windows = c.spec_windows_target(homes.clap@);
                if state.clap_files.contains(native) && state.clap_files.contains(windows) {
                    (PlanView::Conflict, state)
                } else {
                    (
                        PlanView::Steps(
                            seq![
                                StepView::CreateDirectory(native.parent()),
                                copy_step(lib, native, force),
                                link_step(c.path@, windows, force),
                            ],
                        ),
                        SyncStateView {
                            clap_files: state.clap_files.push(native).push(windows),
                            ..state
                        },
                    )
                }
            },
        },
    }
}

fn contains_path(v: &Vec<FsPath>, p: &FsPath) -> (r: bool)
    ensures
        r == path_views(v@).contains(p@),
{
    let mut i: usize = 0;
    while i < v.len()
        invariant
            i <= v@.len(),
            forall|k: int| 0 <= k < i ==> path_views(v@)[k] != p@,
        decreases v@.len() - i,
    {
        if v[i].same_as(p) {
            assert(path_views(v@)[i as int] == p@);
            return true;
        }
        i = i + 1;
    }
    false
}

fn contains_pair(v: &Vec<(FsPath, FsPath)>, a: &FsPath, b: &FsPath) -> (r: bool)
    ensures
        r == pair_views(v@).contains((a@, b@)),
{
    let mut i: usize = 0;
    while i < v.len()
        invariant
            i <= v@.len(),
            forall|k: int| 0 <= k < i ==> pair_views(v@)[k] != (a@, b@),
        decreases v@.len() - i,
    {
        if v[i].0.same_as(a) && v[i].1.same_as(b) {
            assert(pair_views(v@)[i as int] == (a@, b@));
            return true;
        }
        i = i + 1;
    }
    false
}

fn parent_of(p: &FsPath) -> (r: FsPath)
    requires
        p@.has_file_name(),
    ensures
        r@ == p@.parent(),
{
    match p.parent() {
        Some(d) => d,
        None => {
            assert(false);
            p.duplicate()
        },
    }
}

fn copy_install(lib: &NativeLibrary, target: FsPath, force: bool) -> (r: SyncStep)
    ensures
        r@ == copy_step(*lib, target@, force),
{
    SyncStep::Install {
        method: InstallationMethod::Copy,
        source: lib.path.duplicate(),
        source_hash: Some(lib.hash),
        target,
        force,
        counted: true,
    }
}

fn link_install(source: FsPath, target: FsPath, force: bool) -> (r: SyncStep)
    ensures
        r@ == link_step(source@, target@, force),
{
    SyncStep::Install {
        method: InstallationMethod::Symlink,
        source,
        source_hash: None,
        target,
        force,
        counted: false,
    }
}

} // verus!

verus! {

impl SyncState {
    /// A sync that has set nothing up yet.
    pub fn new() -> (r: SyncState)
        ensures
            r@.vst2_files.len() == 0,
            r@.clap_files.len() == 0,
            r@.vst3_bundles.len() == 0,
            r@.vst3_bundle_files.len() == 0,
    {
        SyncState {
            vst2_files: Vec::new(),
            clap_files: Vec::new(),
            vst3_bundles: Vec::new(),
            vst3_bundle_files: Vec::new(),
        }
    }

    fn add_vst2_file(&mut self, p: FsPath)
        ensures
            final(self)@ == (SyncStateView { vst2_files: old(self)@.vst2_files.push(p@), ..old(self)@ }),
    {
        let ghost v0 = self.vst2_files@;
        self.vst2_files.push(p);
        assert(path_views(self.vst2_files@) =~= path_views(v0).push(p@));
    }

    fn add_clap_file(&mut self, p: FsPath)
        ensures
            final(self)@ == (SyncStateView { clap_files: old(self)@.clap_files.push(p@), ..old(self)@ }),
    {
        let ghost v0 = self.clap_files@;
        self.clap_files.push(p);
        assert(path_views(self.clap_files@) =~= path_views(v0).push(p@));
    }

    fn add_vst3_bundle(&mut self, p: FsPath)
        ensures
            final(self)@ == (SyncStateView {
                vst3_bundles: old(self)@.vst3_bundles.push(p@),
                ..old(self)@
            }),
    {
        let ghost v0 = self.vst3_bundles@;
        self.vst3_bundles.push(p);
        assert(path_views(self.vst3_bundles@) =~= path_views(v0).push(p@));
    }

    fn add_vst3_bundle_file(&mut self, bundle: &FsPath, p: &FsPath)
        ensures
            final(self)@ == (SyncStateView {
                vst3_bundle_files: old(self)@.vst3_bundle_files.push((bundle@, p@)),
                ..old(self)@
            }),
    {
        let ghost v0 = self.vst3_bundle_files@;
        self.vst3_bundle_files.push((bundle.duplicate(), p.duplicate()));
        assert(pair_views(self.vst3_bundle_files@) =~= pair_views(v0).push((bundle@, p@)));
    }

    /// Plans the setup of one plugin (see `spec_plan`) and records what it puts in the
    /// bridge homes. `has_resources` and `has_moduleinfo` tell whether a bundle's
    /// `Contents/Resources` and `Contents/moduleinfo.json` exist.
    pub fn plan_plugin(
        &mut self,
        plugin: &Plugin,
        location: Vst2InstallationLocation,
        homes: &BridgeHomes,
        libs: &NativeLibraries,
        force: bool,
        has_resources: bool,
        has_moduleinfo: bool,
    ) -> (r: PluginPlan)
        requires
            plugin.spec_named(),
        ensures
            (r@, final(self)@) == spec_plan(
                *plugin,
                old(self)@,
                location,
                *homes,
                *libs,
                force,
                has_resources,
                has_moduleinfo,
            ),
    {
        match plugin {
            Plugin::Vst2(v) => match location {
                Vst2InstallationLocation::Centralized => {
                    let native = v.centralized_native_target(&homes.vst2);
                    let windows = v.centralized_windows_target(&homes.vst2);
                    if contains_path(&self.vst2_files, &native) && contains_path(
                        &self.vst2_files,
                        &windows,
                    ) {
                        return PluginPlan::Conflict;
                    }
                    let mut steps: Vec<SyncStep> = Vec::new();
                    steps.push(SyncStep::CreateDirectory(parent_of(&native)));
                    steps.push(copy_install(&libs.vst2, native.duplicate(), force));
                    steps.push(link_install(v.path.duplicate(), windows.duplicate(), force));
                    self.add_vst2_file(native);
                    self.add_vst2_file(windows);
                    proof {
                        assert(step_views(steps@) =~= seq![
                            steps@[0]@,
                            steps@[1]@,
                            steps@[2]@,
                        ]);
                    }
                    PluginPlan::Steps(steps)
                },
                Vst2InstallationLocation::Inline => {
                    let mut steps: Vec<SyncStep> = Vec::new();
                    steps.push(copy_install(&libs.vst2, v.inline_native_target(), force));
                    proof {
                        assert(step_views(steps@) =~= seq![steps@[0]@]);
                    }
                    PluginPlan::Steps(steps)
                },
            },
            Plugin::Vst3(m) => match &libs.vst3 {
                None => PluginPlan::NotSupported,
                Some(lib) => {
                    let bundle = m.target_bundle_home(&homes.vst3);
                    let native = m.target_native_module_path(&homes.vst3, Some(lib.architecture));
                    let windows = m.target_windows_module_path(&homes.vst3);
                    let conflict = contains_pair(&self.vst3_bundle_files, &bundle, &windows);
                    self.add_vst3_bundle(bundle.duplicate());
                    if conflict {
                        return PluginPlan::Conflict;
                    }
                    let is_bundle = match &m.module {
                        Vst3ModuleType::Bundle(_) => true,
                        Vst3ModuleType::Legacy(_) => false,
                    };
                    let mut steps: Vec<SyncStep> = Vec::new();
                    steps.push(SyncStep::CreateDirectory(parent_of(&native)));
                    steps.push(copy_install(lib, native.duplicate(), force));
                    steps.push(SyncStep::CreateDirectory(parent_of(&windows)));
                    steps.push(link_install(m.original_module_path(), windows.duplicate(), force));
                    self.add_vst3_bundle_file(&bundle, &native);
                    self.add_vst3_bundle_file(&bundle, &windows);
                    let ghost base = step_views(steps@);
                    proof {
                        assert(base =~= seq![steps@[0]@, steps@[1]@, steps@[2]@, steps@[3]@]);
                    }
                    if is_bundle && has_resources {
                        let target = m.target_resources_dir(&homes.vst3);
                        match m.original_resources_dir() {
                            Some(source) => {
                                self.add_vst3_bundle_file(&bundle, &target);
                                let ghost before = steps@;
                                steps.push(link_install(source, target, false));
                                assert(step_views(steps@) =~= step_views(before).push(steps@.last()@));
                            },
                            None => {},
                        }
                    }
                    let ghost with_resources = step_views(steps@);
                    if is_bundle && has_moduleinfo {
                        let target = m.target_moduleinfo_path(&homes.vst3);
                        match m.original_moduleinfo_path() {
                            Some(source) => {
                                self.add_vst3_bundle_file(&bundle, &target);
                                let ghost before = steps@;
                                steps.push(SyncStep::WriteModuleInfo { source, target });
                                assert(step_views(steps@) =~= step_views(before).push(steps@.last()@));
                            },
                            None => {},
                        }
                    }
                    PluginPlan::Steps(steps)
                },
            },
            Plugin::Clap(c) => match &libs.clap {
                None => PluginPlan::NotSupported,
                Some(lib) => {
                    let native = c.native_target(&homes.clap);
                    let windows = c.windows_target(&homes.clap);
                    if contains_path(&self.clap_files, &native) && contains_path(
                        &self.clap_files,
                        &windows,
                    ) {
                        return PluginPlan::Conflict;
                    }
                    let mut steps: Vec<SyncStep> = Vec::new();
                    steps.push(SyncStep::CreateDirectory(parent_of(&native)));
                    steps.push(copy_install(lib, native.duplicate(), force));
                    steps.push(link_install(c.path.duplicate(), windows.duplicate(), force));
                    self.add_clap_file(native);
                    self.add_clap_file(windows);
                    proof {
                        assert(step_views(steps@) =~= seq![
                            steps@[0]@,
                            steps@[1]@,
                            steps@[2]@,
                        ]);
                    }
                    PluginPlan::Steps(steps)
                },
            },
        }
    }
}

} // verus!

verus! {

/// Whether `target` is what an install of `source` by `method` leaves behind: a regular
/// file with the source's hash, or a link to the source.
pub open spec fn holds_installed(
    target: TargetState,
    method: InstallationMethod,
    source: PathView,
    source_hash: Option<i64>,
) -> bool {
    match method {
        InstallationMethod::Copy => source_hash is Some && target == TargetState::Regular {
            hash: source_hash->0,
        },
        InstallationMethod::Symlink => target matches TargetState::Symlink { link } && link@ == source,
    }
}

/// The steps of a plan; none for a skipped plugin.
pub open spec fn planned_steps(p: PlanView) -> Seq<StepView> {
    match p {
        PlanView::Steps(s) => s,
        _ => Seq::empty(),
    }
}

/// Whether `target` is what the install step `s` leaves behind.
pub open spec fn left_by(s: StepView, target: TargetState) -> bool {
    match s {
        StepView::Install { method, source, source_hash, .. } => holds_installed(
            target,
            method,
            source,
            source_hash,
        ),
        _ => false,
    }
}

/// Whether the install step `s` keeps what it finds at its target.
pub open spec fn keeps(s: StepView, target: TargetState) -> bool {
    match s {
        StepView::Install { method, source, source_hash, force, .. } => spec_install_decision(
            force,
            method,
            source,
            source_hash,
            target,
        ) == InstallAction::Keep,
        _ => false,
    }
}

/// A sync without `force` that finds the target of an install step of a plugin's plan as
/// an earlier sync of the same plugin left it writes nothing there: the target is kept.
pub proof fn lemma_second_sync_writes_nothing(
    plugin: Plugin,
    state: SyncStateView,
    location: Vst2InstallationLocation,
    homes: BridgeHomes,
    libs: NativeLibraries,
    has_resources: bool,
    has_moduleinfo: bool,
    i: int,
    target: TargetState,
)
    requires
        0 <= i < planned_steps(
            spec_plan(plugin, state, location, homes, libs, false, has_resources, has_moduleinfo).0,
        ).len(),
        left_by(
            planned_steps(
                spec_plan(plugin, state, location, homes, libs, false, has_resources, has_moduleinfo).0,
            )[i],
            target,
        ),
    ensures
        keeps(
            planned_steps(
                spec_plan(plugin, state, location, homes, libs, false, has_resources, has_moduleinfo).0,
            )[i],
            target,
        ),
{
}

} // verus!

verus! {

/// The files of a bridge home that this sync did not set up: the entries that are not
/// directories, carry one of the extensions `exts`, and are not among `known`.
pub open spec fn home_orphans(
    files: Seq<(FileKind, PathView)>,
    known: Seq<PathView>,
    exts: Seq<Seq<char>>,
) -> Seq<(FileKind, PathView)>
    decreases files.len(),
{
    if files.len() == 0 {
        Seq::empty()
    } else {
        let rest = home_orphans(files.drop_last(), known, exts);
        let f = files.last();
        if f.0 != FileKind::Directory && exts.contains(
            crate::search::path_extension(f.1).unwrap_or(Seq::empty()),
        ) && crate::search::path_extension(f.1) is Some && !known.contains(f.1) {
            rest.push(f)
        } else {
            rest
        }
    }
}

pub open spec fn bundle_views(v: Seq<(FsPath, Vec<NativeFile>)>) -> Seq<(PathView, Seq<(FileKind, PathView)>)> {
    v.map_values(|b: (FsPath, Vec<NativeFile>)| (b.0@, crate::plugin::native_views(b.1@)))
}

/// The entries of a set-up bundle that this sync did not put there (directories aside).
pub open spec fn stale_bundle_files(
    bundle: PathView,
    contents: Seq<(FileKind, PathView)>,
    managed: Seq<(PathView, PathView)>,
) -> Seq<(FileKind, PathView)>
    decreases contents.len(),
{
    if contents.len() == 0 {
        Seq::empty()
    } else {
        let rest = stale_bundle_files(bundle, contents.drop_last(), managed);
        let f = contents.last();
        if f.0 != FileKind::Directory && !managed.contains((bundle, f.1)) {
            rest.push(f)
        } else {
            rest
        }
    }
}

/// The leftovers in the VST3 home: each bundle that this sync did not set up, whole; and
/// within the others, the files that this sync did not put there.
pub open spec fn bundle_orphans(
    bundles: Seq<(PathView, Seq<(FileKind, PathView)>)>,
    state: SyncStateView,
) -> Seq<(FileKind, PathView)>
    decreases bundles.len(),
{
    if bundles.len() == 0 {
        Seq::empty()
    } else {
        let rest = bundle_orphans(bundles.drop_last(), state);
        let (b, contents) = bundles.last();
        if !state.vst3_bundles.contains(b) {
            rest.push((FileKind::Directory, b))
        } else {
            rest + stale_bundle_files(b, contents, state.vst3_bundle_files)
        }
    }
}

pub open spec fn vst2_home_extensions() -> Seq<Seq<char>> {
    seq!["dll"@, "so"@]
}

pub open spec fn clap_home_extensions() -> Seq<Seq<char>> {
    seq!["clap"@, "clap-win"@]
}

fn has_one_of_extensions(p: &FsPath, a: &str, b: &str) -> (r: bool)
    ensures
        r == (crate::search::path_extension(p@) is Some && seq![a@, b@].contains(
            crate::search::path_extension(p@).unwrap_or(Seq::empty()),
        )),
{
    let r = match p.file_name() {
        None => false,
        Some(name) => match crate::path::name_extension(name.as_str()) {
            Some(e) => e == String::from_str(a) || e == String::from_str(b),
            None => false,
        },
    };
    proof {
        let ext = crate::search::path_extension(p@);
        if ext is Some {
            let e = ext->0;
            if e == a@ {
                assert(seq![a@, b@][0] == e);
            }
            if e == b@ {
                assert(seq![a@, b@][1] == e);
            }
        }
    }
    r
}

fn home_orphans_of(
    files: &Vec<NativeFile>,
    known: &Vec<FsPath>,
    a: &str,
    b: &str,
    out: &mut Vec<NativeFile>,
)
    ensures
        crate::plugin::native_views(final(out)@) == crate::plugin::native_views(old(out)@)
            + home_orphans(crate::plugin::native_views(files@), path_views(known@), seq![a@, b@]),
{
    let ghost all = crate::plugin::native_views(files@);
    let ghost start = crate::plugin::native_views(out@);
    let mut i: usize = 0;
    assert(start + home_orphans(all.subrange(0, 0), path_views(known@), seq![a@, b@]) =~= start);
    while i < files.len()
        invariant
            all == crate::plugin::native_views(files@),
            i <= files@.len(),
            crate::plugin::native_views(out@) == start + home_orphans(
                all.subrange(0, i as int),
                path_views(known@),
                seq![a@, b@],
            ),
        decreases files@.len() - i,
    {
        let f = &files[i];
        let ghost prefix = all.subrange(0, i + 1);
        assert(prefix.drop_last() =~= all.subrange(0, i as int));
        assert(prefix.last() == f@);
        let is_dir = match f {
            NativeFile::Directory(_) => true,
            _ => false,
        };
        let ghost o0 = out@;
        if !is_dir && has_one_of_extensions(f.path(), a, b) && !contains_path(known, f.path()) {
            out.push(f.duplicate());
            assert(crate::plugin::native_views(out@) =~= crate::plugin::native_views(o0).push(f@));
        }
        i = i + 1;
    }
    assert(all.subrange(0, all.len() as int) =~= all);
}

fn stale_files_of(
    bundle: &FsPath,
    contents: &Vec<NativeFile>,
    managed: &Vec<(FsPath, FsPath)>,
    out: &mut Vec<NativeFile>,
)
    ensures
        crate::plugin::native_views(final(out)@) == crate::plugin::native_views(old(out)@)
            + stale_bundle_files(bundle@, crate::plugin::native_views(contents@), pair_views(managed@)),
{
    let ghost all = crate::plugin::native_views(contents@);
    let ghost start = crate::plugin::native_views(out@);
    let mut i: usize = 0;
    assert(start + stale_bundle_files(bundle@, all.subrange(0, 0), pair_views(managed@)) =~= start);
    while i < contents.len()
        invariant
            all == crate::plugin::native_views(contents@),
            i <= contents@.len(),
            crate::plugin::native_views(out@) == start + stale_bundle_files(
                bundle@,
                all.subrange(0, i as int),
                pair_views(managed@),
            ),
        decreases contents@.len() - i,
    {
        let f = &contents[i];
        let ghost prefix = all.subrange(0, i + 1);
        assert(prefix.drop_last() =~= all.subrange(0, i as int));
        assert(prefix.last() == f@);
        let is_dir = match f {
            NativeFile::Directory(_) => true,
            _ => false,
        };
        let ghost o0 = out@;
        if !is_dir && !contains_pair(managed, bundle, f.path()) {
            out.push(f.duplicate());
            assert(crate::plugin::native_views(out@) =~= crate::plugin::native_views(o0).push(f@));
        }
        i = i + 1;
    }
    assert(all.subrange(0, all.len() as int) =~= all);
}

impl SyncState {
    /// The leftovers in the bridge homes after this sync: in the VST2 home the `.dll` and
    /// `.so` entries, in the CLAP home the `.clap` and `.clap-win` entries that it did not
    /// set up; then in the VST3 home each bundle it did not set up, whole, and within the
    /// others the files it did not put there. The homes' entries are given as found, each
    /// bundle with its contents.
    pub fn centralized_orphans(
        &self,
        vst2_home_files: &Vec<NativeFile>,
        clap_home_files: &Vec<NativeFile>,
        vst3_bundles: &Vec<(FsPath, Vec<NativeFile>)>,
    ) -> (r: Vec<NativeFile>)
        ensures
            crate::plugin::native_views(r@) == home_orphans(
                crate::plugin::native_views(vst2_home_files@),
                self@.vst2_files,
                vst2_home_extensions(),
            ) + home_orphans(
                crate::plugin::native_views(clap_home_files@),
                self@.clap_files,
                clap_home_extensions(),
            ) + bundle_orphans(bundle_views(vst3_bundles@), self@),
    {
        let mut r: Vec<NativeFile> = Vec::new();
        assert(crate::plugin::native_views(r@) =~= Seq::<(FileKind, PathView)>::empty());
        home_orphans_of(vst2_home_files, &self.vst2_files, "dll", "so", &mut r);
        home_orphans_of(clap_home_files, &self.clap_files, "clap", "clap-win", &mut r);
        let ghost before = crate::plugin::native_views(r@);
        let ghost all = bundle_views(vst3_bundles@);
        let mut i: usize = 0;
        assert(before + bundle_orphans(all.subrange(0, 0), self@) =~= before);
        while i < vst3_bundles.len()
            invariant
                all == bundle_views(vst3_bundles@),
                i <= vst3_bundles@.len(),
                crate::plugin::native_views(r@) == before + bundle_orphans(
                    all.subrange(0, i as int),
                    self@,
                ),
            decreases vst3_bundles@.len() - i,
        {
            let (bundle, contents) = (&vst3_bundles[i].0, &vst3_bundles[i].1);
            let ghost prefix = all.subrange(0, i + 1);
            assert(prefix.drop_last() =~= all.subrange(0, i as int));
            assert(prefix.last() == (bundle@, crate::plugin::native_views(contents@)));
            let ghost r0 = crate::plugin::native_views(r@);
            if !contains_path(&self.vst3_bundles, bundle) {
                r.push(NativeFile::Directory(bundle.duplicate()));
                assert(crate::plugin::native_views(r@) =~= r0.push((FileKind::Directory, bundle@)));
            } else {
                stale_files_of(bundle, contents, &self.vst3_bundle_files, &mut r);
                assert(before + (bundle_orphans(all.subrange(0, i as int), self@) + stale_bundle_files(
                    bundle@,
                    crate::plugin::native_views(contents@),
                    self@.vst3_bundle_files,
                )) =~= r0 + stale_bundle_files(
                    bundle@,
                    crate::plugin::native_views(contents@),
                    self@.vst3_bundle_files,
                ));
            }
            i = i + 1;
        }
        assert(all.subrange(0, all.len() as int) =~= all);
        r
    }
}

} // verus!

verus! {

/// A bundle in the VST3 home that this sync did not set up is reported whole.
pub proof fn lemma_unmanaged_bundle_is_reported(
    bundles: Seq<(PathView, Seq<(FileKind, PathView)>)>,
    state: SyncStateView,
    i: int,
)
    requires
        0 <= i < bundles.len(),
        !state.vst3_bundles.contains(bundles[i].0),
    ensures
        bundle_orphans(bundles, state).contains((FileKind::Directory, bundles[i].0)),
    decreases bundles.len(),
{
    let rest = bundle_orphans(bundles.drop_last(), state);
    let entry = (FileKind::Directory, bundles[i].0);
    if i < bundles.len() - 1 {
        lemma_unmanaged_bundle_is_reported(bundles.drop_last(), state, i);
        assert(bundles.drop_last()[i] == bundles[i]);
        let k = choose|k: int| 0 <= k < rest.len() && rest[k] == entry;
        let (b, contents) = bundles.last();
        if !state.vst3_bundles.contains(b) {
            assert(rest.push((FileKind::Directory, b))[k] == entry);
        } else {
            assert((rest + stale_bundle_files(b, contents, state.vst3_bundle_files))[k] == entry);
        }
    } else {
        assert(rest.push(entry)[rest.len() as int] == entry);
    }
}

/// A file that this sync put in a bundle is never reported as stale.
pub proof fn lemma_managed_file_is_kept(
    bundle: PathView,
    contents: Seq<(FileKind, PathView)>,
    managed: Seq<(PathView, PathView)>,
    f: (FileKind, PathView),
)
    requires
        managed.contains((bundle, f.1)),
    ensures
        !stale_bundle_files(bundle, contents, managed).contains(f),
    decreases contents.len(),
{
    if contents.len() > 0 {
        lemma_managed_file_is_kept(bundle, contents.drop_last(), managed, f);
        let rest = stale_bundle_files(bundle, contents.drop_last(), managed);
        let last = contents.last();
        if last.0 != FileKind::Directory && !managed.contains((bundle, last.1)) {
            assert forall|k: int| 0 <= k < rest.push(last).len() implies rest.push(last)[k] != f by {
                if k < rest.len() {
                    assert(rest.push(last)[k] == rest[k]);
                }
            }
        }
    }
}

} // verus!
