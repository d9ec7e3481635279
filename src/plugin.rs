//! The plugins found in the plugin directories, and the places that their
//! bridged copies take.
use vstd::prelude::*;

use crate::path::{FsPath, PathView};

verus! {

/// The word size of a library, Windows or native.
#[derive(Debug, Clone, Copy, PartialEq, Eq, PartialOrd, Ord, Hash, Structural)]
pub enum LibArchitecture {
    Lib32,
    Lib64,
}

/// The name of the directory that holds Windows modules of this architecture in a VST3 bundle.
pub open spec fn vst_arch_name(a: LibArchitecture) -> Seq<char> {
    match a {
        LibArchitecture::Lib32 => "x86-win"@,
        LibArchitecture::Lib64 => "x86_64-win"@,
    }
}

/// The name of the directory that holds native modules of this architecture in a VST3 bundle.
pub open spec fn linux_arch_name(a: LibArchitecture) -> Seq<char> {
    match a {
        LibArchitecture::Lib32 => "i386-linux"@,
        LibArchitecture::Lib64 => "x86_64-linux"@,
    }
}

impl LibArchitecture {
    /// The Windows architecture directory of a VST3 bundle.
    pub fn vst_arch(&self) -> (r: &'static str)
        ensures
            r@ == vst_arch_name(*self),
    {
        match self {
            LibArchitecture::Lib32 => "x86-win",
            LibArchitecture::Lib64 => "x86_64-win",
        }
    }

    /// The native architecture directory of a VST3 bundle.
    pub fn linux_arch(&self) -> (r: &'static str)
        ensures
            r@ == linux_arch_name(*self),
    {
        match self {
            LibArchitecture::Lib32 => "i386-linux",
            LibArchitecture::Lib64 => "x86_64-linux",
        }
    }

    /// A short description for status output.
    pub fn describe(&self) -> (r: &'static str)
        ensures
            *self == LibArchitecture::Lib32 ==> r@ == "32-bit"@,
            *self == LibArchitecture::Lib64 ==> r@ == "64-bit"@,
    {
        match self {
            LibArchitecture::Lib32 => "32-bit",
            LibArchitecture::Lib64 => "64-bit",
        }
    }
}

/// Something found on disk where a native library or a bundle may stand.
#[derive(Debug, Clone, PartialEq, Eq)]
pub enum NativeFile {
    Symlink(FsPath),
    Regular(FsPath),
    Directory(FsPath),
}

/// The kind of a `NativeFile`.
#[derive(Debug, Clone, Copy, PartialEq, Eq, Structural)]
pub enum FileKind {
    Symlink,
    Regular,
    Directory,
}

impl View for NativeFile {
    type V = (FileKind, PathView);

    open spec fn view(&self) -> (FileKind, PathView) {
        match self {
            NativeFile::Symlink(p) => (FileKind::Symlink, p@),
            NativeFile::Regular(p) => (FileKind::Regular, p@),
            NativeFile::Directory(p) => (FileKind::Directory, p@),
        }
    }
}

pub open spec fn native_views(v: Seq<NativeFile>) -> Seq<(FileKind, PathView)> {
    v.map_values(|f: NativeFile| f@)
}

impl NativeFile {
    /// A copy of the entry.
    pub fn duplicate(&self) -> (r: NativeFile)
        ensures
            r@ == self@,
    {
        match self {
            NativeFile::Symlink(p) => NativeFile::Symlink(p.duplicate()),
            NativeFile::Regular(p) => NativeFile::Regular(p.duplicate()),
            NativeFile::Directory(p) => NativeFile::Directory(p.duplicate()),
        }
    }

    pub open spec fn spec_path(&self) -> FsPath {
        match self {
            NativeFile::Symlink(p) => *p,
            NativeFile::Regular(p) => *p,
            NativeFile::Directory(p) => *p,
        }
    }

    /// The path of the file.
    pub fn path(&self) -> (r: &FsPath)
        ensures
            *r == self.spec_path(),
    {
        match self {
            NativeFile::Symlink(p) => p,
            NativeFile::Regular(p) => p,
            NativeFile::Directory(p) => p,
        }
    }
}

/// A Windows VST2 plugin library.
#[derive(Debug, Clone, PartialEq, Eq)]
pub struct Vst2Plugin {
    /// The plugin's `.dll` file.
    pub path: FsPath,
    pub architecture: LibArchitecture,
    /// Where the plugin lies below the plugin directory that was searched.
    pub subdirectory: Option<FsPath>,
}

/// Where a Windows VST3 module lies.
#[derive(Debug, Clone, PartialEq, Eq)]
pub enum Vst3ModuleType {
    /// A standalone `.vst3` library.
    Legacy(FsPath),
    /// The root of a `<name>.vst3/Contents/<arch>-win/<name>.vst3` bundle.
    Bundle(FsPath),
}

/// A Windows VST3 module.
#[derive(Debug, Clone, PartialEq, Eq)]
pub struct Vst3Module {
    pub module: Vst3ModuleType,
    pub architecture: LibArchitecture,
    /// Where the module (or its bundle) lies below the plugin directory that was searched.
    pub subdirectory: Option<FsPath>,
}

/// A Windows CLAP plugin library.
#[derive(Debug, Clone, PartialEq, Eq)]
pub struct ClapPlugin {
    /// The plugin's `.clap` file.
    pub path: FsPath,
    pub architecture: LibArchitecture,
    /// Where the plugin lies below the plugin directory that was searched.
    pub subdirectory: Option<FsPath>,
}

/// A plugin found during a search.
#[derive(Debug, Clone, PartialEq, Eq)]
pub enum Plugin {
    Vst2(Vst2Plugin),
    Vst3(Vst3Module),
    Clap(ClapPlugin),
}

impl Plugin {
    /// Whether the plugin's file (or bundle) has a name, as every plugin that a search
    /// finds has.
    pub open spec fn spec_named(self) -> bool {
        match self {
            Plugin::Vst2(p) => p.path@.has_file_name(),
            Plugin::Vst3(m) => m.module.spec_path()@.has_file_name(),
            Plugin::Clap(p) => p.path@.has_file_name(),
        }
    }
}

pub open spec fn opt_view(p: Option<FsPath>) -> Option<PathView> {
    match p {
        Some(d) => Some(d@),
        None => None,
    }
}

/// A home directory, extended by a plugin's subdirectory where it has one.
pub open spec fn under_home(home: PathView, subdirectory: Option<PathView>) -> PathView {
    match subdirectory {
        Some(d) => home.join(d),
        None => home,
    }
}

fn home_with_subdirectory(home: &FsPath, subdirectory: &Option<FsPath>) -> (r: FsPath)
    ensures
        r@ == under_home(home@, opt_view(*subdirectory)),
{
    match subdirectory {
        Some(d) => home.join(d),
        None => home.duplicate(),
    }
}

/// The last name of a path, where it has one.
fn last_name(path: &FsPath) -> (r: &String)
    requires
        path@.has_file_name(),
    ensures
        r@ == path@.file_name(),
{
    match path.file_name() {
        Some(n) => n,
        None => {
            assert(false);
            &path.parts[0]
        },
    }
}

/// `under_home` followed by one name.
fn home_target(home: &FsPath, subdirectory: &Option<FsPath>, name: &str) -> (r: FsPath)
    ensures
        r@ == under_home(home@, opt_view(*subdirectory)).push(name@),
{
    let mut r = home_with_subdirectory(home, subdirectory);
    r.push(name);
    r
}

impl Vst2Plugin {
    pub open spec fn spec_centralized_native_target(self, vst2_home: PathView) -> PathView {
        under_home(vst2_home, opt_view(self.subdirectory)).push(
            crate::path::name_with_extension(self.path@.file_name(), "so"@),
        )
    }

    pub open spec fn spec_centralized_windows_target(self, vst2_home: PathView) -> PathView {
        under_home(vst2_home, opt_view(self.subdirectory)).push(self.path@.file_name())
    }

    /// The native library in the VST2 home (centralized setup).
    pub fn centralized_native_target(&self, vst2_home: &FsPath) -> (r: FsPath)
        requires
            self.path@.has_file_name(),
        ensures
            r@ == self.spec_centralized_native_target(vst2_home@),
    {
        let name = crate::path::replace_extension(last_name(&self.path).as_str(), "so");
        home_target(vst2_home, &self.subdirectory, name.as_str())
    }

    /// The link to the Windows `.dll` beside that native library (centralized setup).
    pub fn centralized_windows_target(&self, vst2_home: &FsPath) -> (r: FsPath)
        requires
            self.path@.has_file_name(),
        ensures
            r@ == self.spec_centralized_windows_target(vst2_home@),
    {
        home_target(vst2_home, &self.subdirectory, last_name(&self.path).as_str())
    }

    /// The native library right beside the Windows `.dll` (inline setup).
    pub fn inline_native_target(&self) -> (r: FsPath)
        ensures
            r@ == self.path@.with_extension("so"@),
    {
        self.path.with_extension("so")
    }
}

impl Vst3ModuleType {
    pub open spec fn spec_path(self) -> FsPath {
        match self {
            Vst3ModuleType::Legacy(p) => p,
            Vst3ModuleType::Bundle(p) => p,
        }
    }
}

impl Vst3Module {
    pub open spec fn spec_module_name(self) -> Seq<char> {
        self.module.spec_path()@.file_name()
    }

    pub open spec fn spec_original_module_path(self) -> PathView {
        match self.module {
            Vst3ModuleType::Legacy(p) => p@,
            Vst3ModuleType::Bundle(b) => b@.push("Contents"@).push(
                vst_arch_name(self.architecture),
            ).push(b@.file_name()),
        }
    }

    pub open spec fn spec_target_bundle_home(self, vst3_home: PathView) -> PathView {
        under_home(vst3_home, opt_view(self.subdirectory)).push(self.spec_module_name())
    }

    /// The native library's place in the merged bundle: its directory follows the
    /// architecture of the native library (64-bit where it is not known).
    pub open spec fn spec_target_native_module_path(
        self,
        vst3_home: PathView,
        native_arch: Option<LibArchitecture>,
    ) -> PathView {
        let arch = match native_arch {
            Some(a) => a,
            None => LibArchitecture::Lib64,
        };
        self.spec_target_bundle_home(vst3_home).push("Contents"@).push(linux_arch_name(arch)).push(
            crate::path::name_with_extension(self.spec_module_name(), "so"@),
        )
    }

    /// The Windows module's place in the merged bundle: its directory follows the
    /// architecture of the Windows module.
    pub open spec fn spec_target_windows_module_path(self, vst3_home: PathView) -> PathView {
        self.spec_target_bundle_home(vst3_home).push("Contents"@).push(
            vst_arch_name(self.architecture),
        ).push(self.spec_module_name())
    }

    /// The Windows module's file or bundle.
    pub fn original_path(&self) -> (r: &FsPath)
        ensures
            *r == self.module.spec_path(),
    {
        match &self.module {
            Vst3ModuleType::Legacy(p) => p,
            Vst3ModuleType::Bundle(p) => p,
        }
    }

    /// The module's name, such as `Plugin.vst3`.
    pub fn original_module_name(&self) -> (r: &String)
        requires
            self.module.spec_path()@.has_file_name(),
        ensures
            r@ == self.spec_module_name(),
    {
        last_name(self.original_path())
    }

    /// The `.vst3` library itself.
    pub fn original_module_path(&self) -> (r: FsPath)
        requires
            self.module.spec_path()@.has_file_name(),
        ensures
            r@ == self.spec_original_module_path(),
    {
        match &self.module {
            Vst3ModuleType::Legacy(p) => p.duplicate(),
            Vst3ModuleType::Bundle(b) => {
                let mut r = b.duplicate();
                r.push("Contents");
                r.push(self.architecture.vst_arch());
                r.push(last_name(b).as_str());
                r
            },
        }
    }

    /// Where a bundle keeps its resources, if the module is a bundle. Whether the
    /// directory exists is for the caller to find out.
    pub fn original_resources_dir(&self) -> (r: Option<FsPath>)
        ensures
            r is Some <==> self.module is Bundle,
            r matches Some(p) ==> p@ == self.module.spec_path()@.push("Contents"@).push(
                "Resources"@,
            ),
    {
        match &self.module {
            Vst3ModuleType::Bundle(b) => {
                let mut r = b.duplicate();
                r.push("Contents");
                r.push("Resources");
                Some(r)
            },
            Vst3ModuleType::Legacy(_) => None,
        }
    }

    /// Where a bundle keeps its `moduleinfo.json`, if the module is a bundle. Whether
    /// the file exists is for the caller to find out.
    pub fn original_moduleinfo_path(&self) -> (r: Option<FsPath>)
        ensures
            r is Some <==> self.module is Bundle,
            r matches Some(p) ==> p@ == self.module.spec_path()@.push("Contents"@).push(
                "moduleinfo.json"@,
            ),
    {
        match &self.module {
            Vst3ModuleType::Bundle(b) => {
                let mut r = b.duplicate();
                r.push("Contents");
                r.push("moduleinfo.json");
                Some(r)
            },
            Vst3ModuleType::Legacy(_) => None,
        }
    }

    /// The merged bundle in the VST3 home.
    pub fn target_bundle_home(&self, vst3_home: &FsPath) -> (r: FsPath)
        requires
            self.module.spec_path()@.has_file_name(),
        ensures
            r@ == self.spec_target_bundle_home(vst3_home@),
    {
        home_target(vst3_home, &self.subdirectory, self.original_module_name().as_str())
    }

    /// The copy of the native library inside the merged bundle; `native_arch` is the
    /// architecture of that native library.
    pub fn target_native_module_path(
        &self,
        vst3_home: &FsPath,
        native_arch: Option<LibArchitecture>,
    ) -> (r: FsPath)
        requires
            self.module.spec_path()@.has_file_name(),
        ensures
            r@ == self.spec_target_native_module_path(vst3_home@, native_arch),
    {
        let native_name = crate::path::replace_extension(
            self.original_module_name().as_str(),
            "so",
        );
        let mut r = self.target_bundle_home(vst3_home);
        r.push("Contents");
        match native_arch {
            Some(LibArchitecture::Lib32) => r.push(LibArchitecture::Lib32.linux_arch()),
            _ => r.push(LibArchitecture::Lib64.linux_arch()),
        }
        r.push(native_name.as_str());
        r
    }

    /// The link to the Windows module inside the merged bundle.
    pub fn target_windows_module_path(&self, vst3_home: &FsPath) -> (r: FsPath)
        requires
            self.module.spec_path()@.has_file_name(),
        ensures
            r@ == self.spec_target_windows_module_path(vst3_home@),
    {
        let mut r = self.target_bundle_home(vst3_home);
        r.push("Contents");
        r.push(self.architecture.vst_arch());
        r.push(self.original_module_name().as_str());
        r
    }

    /// The link to the bundle's resources inside the merged bundle.
    pub fn target_resources_dir(&self, vst3_home: &FsPath) -> (r: FsPath)
        requires
            self.module.spec_path()@.has_file_name(),
        ensures
            r@ == self.spec_target_bundle_home(vst3_home@).push("Contents"@).push("Resources"@),
    {
        let mut r = self.target_bundle_home(vst3_home);
        r.push("Contents");
        r.push("Resources");
        r
    }

    /// The rewritten `moduleinfo.json` inside the merged bundle.
    pub fn target_moduleinfo_path(&self, vst3_home: &FsPath) -> (r: FsPath)
        requires
            self.module.spec_path()@.has_file_name(),
        ensures
            r@ == self.spec_target_bundle_home(vst3_home@).push("Contents"@).push(
                "moduleinfo.json"@,
            ),
    {
        let mut r = self.target_bundle_home(vst3_home);
        r.push("Contents");
        r.push("moduleinfo.json");
        r
    }

    /// `legacy` or `bundle`, for status output.
    pub fn type_str(&self) -> (r: &'static str)
        ensures
            self.module is Legacy ==> r@ == "legacy"@,
            self.module is Bundle ==> r@ == "bundle"@,
    {
        match &self.module {
            Vst3ModuleType::Legacy(_) => "legacy",
            Vst3ModuleType::Bundle(_) => "bundle",
        }
    }
}

impl ClapPlugin {
    pub open spec fn spec_native_target(self, clap_home: PathView) -> PathView {
        under_home(clap_home, opt_view(self.subdirectory)).push(
            crate::path::name_with_extension(self.path@.file_name(), "clap"@),
        )
    }

    pub open spec fn spec_windows_target(self, clap_home: PathView) -> PathView {
        under_home(clap_home, opt_view(self.subdirectory)).push(
            crate::path::name_with_extension(self.path@.file_name(), "clap-win"@),
        )
    }

    /// The native library in the CLAP home.
    pub fn native_target(&self, clap_home: &FsPath) -> (r: FsPath)
        requires
            self.path@.has_file_name(),
        ensures
            r@ == self.spec_native_target(clap_home@),
    {
        let name = crate::path::replace_extension(last_name(&self.path).as_str(), "clap");
        home_target(clap_home, &self.subdirectory, name.as_str())
    }

    /// The link to the Windows library beside it, under an extension that hosts do not load.
    pub fn windows_target(&self, clap_home: &FsPath) -> (r: FsPath)
        requires
            self.path@.has_file_name(),
        ensures
            r@ == self.spec_windows_target(clap_home@),
    {
        let name = crate::path::replace_extension(last_name(&self.path).as_str(), "clap-win");
        home_target(clap_home, &self.subdirectory, name.as_str())
    }
}

} // verus!
