//! Sorting the files of a plugin directory into candidates, and the candidates
//! into plugins of each format and skipped files.
use vstd::prelude::*;

use crate::path::{file_extension, string_views, FsPath, PathView};
use crate::plugin::{
    opt_view, vst_arch_name, ClapPlugin, LibArchitecture, NativeFile, Plugin, Vst2Plugin,
    Vst3Module, Vst3ModuleType,
};
use crate::symbols::Pe32Info;

verus! {

/// A plugin format, each with its own entry points.
#[derive(Debug, Clone, Copy, PartialEq, Eq, Structural)]
pub enum PluginFormat {
    Vst2,
    Vst3,
    Clap,
}

/// The exported symbols that mark a library as a plugin of the format.
pub open spec fn entry_points(format: PluginFormat) -> Seq<Seq<char>> {
    match format {
        PluginFormat::Vst2 => seq!["VSTPluginMain"@, "main"@],
        PluginFormat::Vst3 => seq!["GetPluginFactory"@],
        PluginFormat::Clap => seq!["clap_entry"@],
    }
}

pub open spec fn exports_symbol(exports: Seq<Seq<char>>, name: Seq<char>) -> bool {
    exists|i: int| 0 <= i < exports.len() && exports[i] == name
}

/// Whether a library with these exports is a plugin of the format.
pub open spec fn is_plugin_of(exports: Seq<Seq<char>>, format: PluginFormat) -> bool {
    exists|j: int|
        0 <= j < entry_points(format).len() && exports_symbol(exports, #[trigger] entry_points(format)[j])
}

pub open spec fn architecture_of(is_64_bit: bool) -> LibArchitecture {
    if is_64_bit {
        LibArchitecture::Lib64
    } else {
        LibArchitecture::Lib32
    }
}

/// The path without its last `k` names.
pub open spec fn ancestor(p: PathView, k: nat) -> PathView {
    PathView { absolute: p.absolute, parts: p.parts.subrange(0, p.parts.len() - k) }
}

/// Where a module of this architecture would lie if it were part of a bundle whose root is
/// three levels up: `<root>/<name>/Contents/<arch>-win/<name>`.
pub open spec fn reconstructed_module_path(p: PathView, arch: LibArchitecture) -> PathView {
    ancestor(p, 4).push(p.file_name()).push("Contents"@).push(vst_arch_name(arch)).push(
        p.file_name(),
    )
}

/// A module is part of a bundle where it lies exactly where the bundle layout puts it.
pub open spec fn module_is_in_bundle(p: PathView, arch: LibArchitecture) -> bool {
    p.parts.len() >= 4 && reconstructed_module_path(p, arch) == p
}

/// The subdirectory of a bundle: that of its module, without the three names that lead
/// from the bundle's root to the module's directory.
pub open spec fn bundle_subdirectory(sub: Option<PathView>) -> Option<PathView> {
    match sub {
        Some(d) => if d.parts.len() >= 3 {
            Some(ancestor(d, 3))
        } else {
            None
        },
        None => None,
    }
}

/// A VST3 module at `path`, of architecture `arch`, found in subdirectory `sub`.
pub open spec fn is_vst3_placement(
    path: PathView,
    sub: Option<PathView>,
    arch: LibArchitecture,
    m: Vst3Module,
) -> bool {
    &&& m.architecture == arch
    &&& if module_is_in_bundle(path, arch) {
        &&& m.module matches Vst3ModuleType::Bundle(root)
        &&& root@ == ancestor(path, 3)
        &&& opt_view(m.subdirectory) == bundle_subdirectory(sub)
    } else {
        &&& m.module matches Vst3ModuleType::Legacy(p)
        &&& p@ == path
        &&& opt_view(m.subdirectory) == sub
    }
}

/// How a candidate with readable exports comes out of the search: a plugin of the format,
/// or its path among the skipped files.
pub open spec fn is_classified(
    format: PluginFormat,
    path: PathView,
    sub: Option<PathView>,
    info: Pe32Info,
    outcome: Result<Plugin, FsPath>,
) -> bool {
    let arch = architecture_of(info.is_64_bit);
    if !is_plugin_of(string_views(info.exports@), format) {
        outcome matches Err(p) && p@ == path
    } else {
        match format {
            PluginFormat::Vst2 => outcome matches Ok(Plugin::Vst2(v)) && v.path@ == path
                && v.architecture == arch && opt_view(v.subdirectory) == sub,
            PluginFormat::Clap => outcome matches Ok(Plugin::Clap(v)) && v.path@ == path
                && v.architecture == arch && opt_view(v.subdirectory) == sub,
            PluginFormat::Vst3 => outcome matches Ok(Plugin::Vst3(m)) && is_vst3_placement(
                path,
                sub,
                arch,
                m,
            ),
        }
    }
}

/// Whether a library exports a symbol of this name.
pub fn has_export(exports: &Vec<String>, name: &str) -> (r: bool)
    ensures
        r == exports_symbol(string_views(exports@), name@),
{
    let wanted = String::from_str(name);
    let mut i: usize = 0;
    while i < exports.len()
        invariant
            wanted@ == name@,
            i <= exports@.len(),
            forall|k: int| 0 <= k < i ==> string_views(exports@)[k] != name@,
        decreases exports@.len() - i,
    {
        if exports[i] == wanted {
            assert(string_views(exports@)[i as int] == name@);
            return true;
        }
        i = i + 1;
    }
    false
}

/// Whether a library is a plugin of the format: whether it exports one of its entry points.
pub fn exports_entry_point(info: &Pe32Info, format: PluginFormat) -> (r: bool)
    ensures
        r == is_plugin_of(string_views(info.exports@), format),
{
    let ghost ex = string_views(info.exports@);
    let ghost eps = entry_points(format);
    match format {
        PluginFormat::Vst2 => {
            let a = has_export(&info.exports, "VSTPluginMain");
            let b = has_export(&info.exports, "main");
            if a {
                assert(exports_symbol(ex, eps[0]));
            }
            if b {
                assert(exports_symbol(ex, eps[1]));
            }
            a || b
        },
        PluginFormat::Vst3 => {
            let a = has_export(&info.exports, "GetPluginFactory");
            if a {
                assert(exports_symbol(ex, eps[0]));
            }
            a
        },
        PluginFormat::Clap => {
            let a = has_export(&info.exports, "clap_entry");
            if a {
                assert(exports_symbol(ex, eps[0]));
            }
            a
        },
    }
}

/// The first `n - k` names of a path of `n` names.
pub fn ancestor_path(p: &FsPath, k: usize) -> (r: FsPath)
    requires
        k <= p@.parts.len(),
    ensures
        r@ == ancestor(p@, k as nat),
{
    let mut r = if p.absolute {
        FsPath::root()
    } else {
        FsPath::empty()
    };
    let n = p.parts.len();
    assert(n == p@.parts.len());
    let mut i: usize = 0;
    while i < n - k
        invariant
            k <= n,
            n == p.parts@.len(),
            i <= n - k,
            r@.absolute == p@.absolute,
            r@.parts =~= p@.parts.subrange(0, i as int),
        decreases n - k - i,
    {
        r.push(p.parts[i].as_str());
        i = i + 1;
    }
    r
}

/// Where a VST3 module lies: in a bundle (with the bundle's subdirectory) or on its own.
pub fn vst3_module_placement(
    path: FsPath,
    subdirectory: Option<FsPath>,
    architecture: LibArchitecture,
) -> (r: Vst3Module)
    ensures
        is_vst3_placement(path@, opt_view(subdirectory), architecture, r),
{
    let n = path.parts.len();
    assert(n == path@.parts.len());
    if n >= 4 {
        let name = path.parts[n - 1].as_str();
        let mut reconstructed = ancestor_path(&path, 4);
        reconstructed.push(name);
        reconstructed.push("Contents");
        reconstructed.push(architecture.vst_arch());
        reconstructed.push(name);
        if reconstructed.same_as(&path) {
            let root = ancestor_path(&path, 3);
            let sub = match &subdirectory {
                Some(d) => {
                    if d.parts.len() >= 3 {
                        assert(d.parts@.len() == d@.parts.len());
                        Some(ancestor_path(d, 3))
                    } else {
                        None
                    }
                },
                None => None,
            };
            return Vst3Module { module: Vst3ModuleType::Bundle(root), architecture, subdirectory: sub };
        }
    }
    Vst3Module { module: Vst3ModuleType::Legacy(path), architecture, subdirectory }
}

/// Sorts one candidate of the format: a plugin, or its path where it exports none of the
/// format's entry points.
pub fn classify_candidate(
    format: PluginFormat,
    path: FsPath,
    subdirectory: Option<FsPath>,
    info: &Pe32Info,
) -> (r: Result<Plugin, FsPath>)
    ensures
        is_classified(format, path@, opt_view(subdirectory), *info, r),
{
    let architecture = if info.is_64_bit {
        LibArchitecture::Lib64
    } else {
        LibArchitecture::Lib32
    };
    if !exports_entry_point(info, format) {
        return Err(path);
    }
    match format {
        PluginFormat::Vst2 => Ok(Plugin::Vst2(Vst2Plugin { path, architecture, subdirectory })),
        PluginFormat::Vst3 => Ok(Plugin::Vst3(vst3_module_placement(path, subdirectory, architecture))),
        PluginFormat::Clap => Ok(Plugin::Clap(ClapPlugin { path, architecture, subdirectory })),
    }
}

} // verus!

verus! {

/// A file met while walking a plugin directory (directories are not listed).
#[derive(Debug, Clone)]
pub struct ScannedFile {
    pub path: FsPath,
    /// Whether the entry is a symbolic link.
    pub is_symlink: bool,
}

/// The files of a plugin directory that may matter: each candidate with its
/// subdirectory below the searched directory, and the native libraries found there.
#[derive(Debug, Clone)]
pub struct SearchIndex {
    /// The `.dll` files.
    pub dll_files: Vec<(FsPath, Option<FsPath>)>,
    /// The `.vst3` files. For a module in a bundle the subdirectory still holds the
    /// `<name>.vst3/Contents/<arch>-win` part.
    pub vst3_files: Vec<(FsPath, Option<FsPath>)>,
    /// The `.clap` files.
    pub clap_files: Vec<(FsPath, Option<FsPath>)>,
    /// The `.so` files.
    pub so_files: Vec<NativeFile>,
}

/// The outcome of a search of one plugin directory.
#[derive(Debug, Clone)]
pub struct SearchResults {
    /// The VST2 plugins, then the VST3 modules, then the CLAP plugins.
    pub plugins: Vec<Plugin>,
    /// The candidates that export no entry point of their format.
    pub skipped_files: Vec<FsPath>,
    /// The native libraries found in the directory.
    pub so_files: Vec<NativeFile>,
}

/// The search was handed a different number of readings than there are candidates.
#[derive(Debug, Clone, Copy, PartialEq, Eq, Structural)]
pub enum SearchError {
    ReadingsMismatch,
}

pub open spec fn path_extension(p: PathView) -> Option<Seq<char>> {
    if p.has_file_name() {
        file_extension(p.file_name())
    } else {
        None
    }
}

/// Where a file lies below `dir`: its directory, relative to `dir`.
pub open spec fn subdirectory_in(dir: PathView, p: PathView) -> Option<PathView> {
    if p.has_file_name() && p.parent().starts_with(dir) {
        Some(p.parent().strip_prefix(dir))
    } else {
        None
    }
}

pub open spec fn candidate_views(v: Seq<(FsPath, Option<FsPath>)>) -> Seq<(PathView, Option<PathView>)> {
    v.map_values(|c: (FsPath, Option<FsPath>)| (c.0@, opt_view(c.1)))
}

pub open spec fn path_views(v: Seq<FsPath>) -> Seq<PathView> {
    v.map_values(|p: FsPath| p@)
}

/// The files with extension `ext`, in order, each with its subdirectory.
pub open spec fn indexed_with_extension(
    dir: PathView,
    files: Seq<ScannedFile>,
    ext: Seq<char>,
) -> Seq<(PathView, Option<PathView>)>
    decreases files.len(),
{
    if files.len() == 0 {
        Seq::empty()
    } else {
        let rest = indexed_with_extension(dir, files.drop_last(), ext);
        let f = files.last();
        if path_extension(f.path@) == Some(ext) {
            rest.push((f.path@, subdirectory_in(dir, f.path@)))
        } else {
            rest
        }
    }
}

/// The `.so` files, in order, as links or regular files.
pub open spec fn indexed_native(files: Seq<ScannedFile>) -> Seq<(crate::plugin::FileKind, PathView)>
    decreases files.len(),
{
    if files.len() == 0 {
        Seq::empty()
    } else {
        let rest = indexed_native(files.drop_last());
        let f = files.last();
        if path_extension(f.path@) == Some("so"@) {
            rest.push(
                (
                    if f.is_symlink {
                        crate::plugin::FileKind::Symlink
                    } else {
                        crate::plugin::FileKind::Regular
                    },
                    f.path@,
                ),
            )
        } else {
            rest
        }
    }
}

impl SearchIndex {
    /// Every candidate has a file name.
    pub open spec fn wf(self) -> bool {
        &&& forall|i: int|
            0 <= i < self.dll_files@.len() ==> (#[trigger] self.dll_files@[i]).0@.has_file_name()
        &&& forall|i: int|
            0 <= i < self.vst3_files@.len() ==> (#[trigger] self.vst3_files@[i]).0@.has_file_name()
        &&& forall|i: int|
            0 <= i < self.clap_files@.len() ==> (#[trigger] self.clap_files@[i]).0@.has_file_name()
    }
}

impl SearchResults {
    /// Every plugin has a file name.
    pub open spec fn wf(self) -> bool {
        forall|i: int| 0 <= i < self.plugins@.len() ==> (#[trigger] self.plugins@[i]).spec_named()
    }
}

fn extension_is(p: &FsPath, ext: &str) -> (r: bool)
    ensures
        r == (path_extension(p@) == Some(ext@)),
{
    match p.file_name() {
        None => false,
        Some(name) => match crate::path::name_extension(name.as_str()) {
            Some(e) => e == String::from_str(ext),
            None => false,
        },
    }
}

fn subdirectory_of(dir: &FsPath, p: &FsPath) -> (r: Option<FsPath>)
    ensures
        opt_view(r) == subdirectory_in(dir@, p@),
{
    match p.parent() {
        Some(parent) => parent.strip_prefix(dir),
        None => None,
    }
}

/// Sorts the files of a plugin directory `directory` by extension: `.dll`, `.vst3` and
/// `.clap` files become candidates, `.so` files native libraries.
pub fn index(directory: &FsPath, files: &Vec<ScannedFile>) -> (r: SearchIndex)
    ensures
        candidate_views(r.dll_files@) == indexed_with_extension(directory@, files@, "dll"@),
        candidate_views(r.vst3_files@) == indexed_with_extension(directory@, files@, "vst3"@),
        candidate_views(r.clap_files@) == indexed_with_extension(directory@, files@, "clap"@),
        crate::plugin::native_views(r.so_files@) == indexed_native(files@),
        r.wf(),
{
    let mut r = SearchIndex {
        dll_files: Vec::new(),
        vst3_files: Vec::new(),
        clap_files: Vec::new(),
        so_files: Vec::new(),
    };
    let mut i: usize = 0;
    assert(candidate_views(r.dll_files@) =~= Seq::<(PathView, Option<PathView>)>::empty());
    assert(candidate_views(r.vst3_files@) =~= Seq::<(PathView, Option<PathView>)>::empty());
    assert(candidate_views(r.clap_files@) =~= Seq::<(PathView, Option<PathView>)>::empty());
    assert(crate::plugin::native_views(r.so_files@) =~= Seq::<(crate::plugin::FileKind, PathView)>::empty());
    while i < files.len()
        invariant
            i <= files@.len(),
            candidate_views(r.dll_files@) == indexed_with_extension(
                directory@,
                files@.subrange(0, i as int),
                "dll"@,
            ),
            candidate_views(r.vst3_files@) == indexed_with_extension(
                directory@,
                files@.subrange(0, i as int),
                "vst3"@,
            ),
            candidate_views(r.clap_files@) == indexed_with_extension(
                directory@,
                files@.subrange(0, i as int),
                "clap"@,
            ),
            crate::plugin::native_views(r.so_files@) == indexed_native(files@.subrange(0, i as int)),
            r.wf(),
        decreases files@.len() - i,
    {
        let f = &files[i];
        let ghost prefix = files@.subrange(0, i + 1);
        assert(prefix.drop_last() =~= files@.subrange(0, i as int));
        assert(prefix.last() == *f);
        let ghost dll0 = r.dll_files@;
        let ghost vst30 = r.vst3_files@;
        let ghost clap0 = r.clap_files@;
        let ghost so0 = r.so_files@;
        proof {
            reveal_strlit("dll");
            reveal_strlit("vst3");
            reveal_strlit("clap");
            reveal_strlit("so");
            assert("dll"@.len() == 3 && "vst3"@.len() == 4 && "clap"@.len() == 4 && "so"@.len() == 2);
            assert("vst3"@[0] != "clap"@[0]);
        }
        if extension_is(&f.path, "dll") {
            let c = (f.path.duplicate(), subdirectory_of(directory, &f.path));
            r.dll_files.push(c);
            assert(candidate_views(r.dll_files@) =~= candidate_views(dll0).push((c.0@, opt_view(c.1))));
        } else if extension_is(&f.path, "vst3") {
            let c = (f.path.duplicate(), subdirectory_of(directory, &f.path));
            r.vst3_files.push(c);
            assert(candidate_views(r.vst3_files@) =~= candidate_views(vst30).push((c.0@, opt_view(c.1))));
        } else if extension_is(&f.path, "clap") {
            let c = (f.path.duplicate(), subdirectory_of(directory, &f.path));
            r.clap_files.push(c);
            assert(candidate_views(r.clap_files@) =~= candidate_views(clap0).push((c.0@, opt_view(c.1))));
        } else if extension_is(&f.path, "so") {
            let nf = if f.is_symlink {
                NativeFile::Symlink(f.path.duplicate())
            } else {
                NativeFile::Regular(f.path.duplicate())
            };
            r.so_files.push(nf);
            assert(crate::plugin::native_views(r.so_files@) =~= crate::plugin::native_views(so0).push(nf@));
        }
        i = i + 1;
    }
    assert(files@.subrange(0, files@.len() as int) =~= files@);
    r
}

} // verus!

verus! {

/// The plugins and skipped paths that the candidates of one format give, in order, where
/// `infos` holds each candidate's reading (`None`: unreadable, left out).
pub open spec fn search_outcomes(
    format: PluginFormat,
    cands: Seq<(PathView, Option<PathView>)>,
    infos: Seq<Option<Pe32Info>>,
    plugins: Seq<Plugin>,
    skipped: Seq<PathView>,
) -> bool
    decreases cands.len(),
{
    if cands.len() == 0 {
        plugins.len() == 0 && skipped.len() == 0
    } else {
        let c = cands.last();
        match infos.last() {
            None => search_outcomes(format, cands.drop_last(), infos.drop_last(), plugins, skipped),
            Some(info) => if is_plugin_of(string_views(info.exports@), format) {
                &&& plugins.len() > 0
                &&& is_classified(format, c.0, c.1, info, Ok(plugins.last()))
                &&& search_outcomes(
                    format,
                    cands.drop_last(),
                    infos.drop_last(),
                    plugins.drop_last(),
                    skipped,
                )
            } else {
                &&& skipped.len() > 0
                &&& skipped.last() == c.0
                &&& search_outcomes(
                    format,
                    cands.drop_last(),
                    infos.drop_last(),
                    plugins,
                    skipped.drop_last(),
                )
            },
        }
    }
}

proof fn lemma_classified_named(
    format: PluginFormat,
    path: PathView,
    sub: Option<PathView>,
    info: Pe32Info,
    p: Plugin,
)
    requires
        path.has_file_name(),
        is_classified(format, path, sub, info, Ok(p)),
    ensures
        p.spec_named(),
{
}

/// Sorts the candidates of one format into plugins and skipped paths.
pub fn classify_candidates(
    format: PluginFormat,
    cands: &Vec<(FsPath, Option<FsPath>)>,
    infos: &Vec<Option<Pe32Info>>,
) -> (r: (Vec<Plugin>, Vec<FsPath>))
    requires
        cands@.len() == infos@.len(),
        forall|i: int| 0 <= i < cands@.len() ==> (#[trigger] cands@[i]).0@.has_file_name(),
    ensures
        search_outcomes(format, candidate_views(cands@), infos@, r.0@, path_views(r.1@)),
        forall|i: int| 0 <= i < r.0@.len() ==> (#[trigger] r.0@[i]).spec_named(),
{
    let mut plugins: Vec<Plugin> = Vec::new();
    let mut skipped: Vec<FsPath> = Vec::new();
    let mut i: usize = 0;
    assert(path_views(skipped@) =~= Seq::<PathView>::empty());
    while i < cands.len()
        invariant
            cands@.len() == infos@.len(),
            i <= cands@.len(),
            forall|i: int| 0 <= i < cands@.len() ==> (#[trigger] cands@[i]).0@.has_file_name(),
            search_outcomes(
                format,
                candidate_views(cands@).subrange(0, i as int),
                infos@.subrange(0, i as int),
                plugins@,
                path_views(skipped@),
            ),
            forall|k: int| 0 <= k < plugins@.len() ==> (#[trigger] plugins@[k]).spec_named(),
        decreases cands@.len() - i,
    {
        let ghost cv = candidate_views(cands@).subrange(0, i + 1);
        let ghost iv = infos@.subrange(0, i + 1);
        assert(cv.drop_last() =~= candidate_views(cands@).subrange(0, i as int));
        assert(iv.drop_last() =~= infos@.subrange(0, i as int));
        assert(cv.last() == (cands@[i as int].0@, opt_view(cands@[i as int].1)));
        match &infos[i] {
            None => {},
            Some(info) => {
                let path = cands[i].0.duplicate();
                let sub = match &cands[i].1 {
                    Some(d) => Some(d.duplicate()),
                    None => None,
                };
                let ghost p0 = plugins@;
                let ghost s0 = path_views(skipped@);
                match classify_candidate(format, path, sub, info) {
                    Ok(p) => {
                        proof {
                            lemma_classified_named(format, cv.last().0, cv.last().1, *info, p);
                        }
                        plugins.push(p);
                        assert(plugins@.drop_last() =~= p0);
                    },
                    Err(p) => {
                        skipped.push(p);
                        assert(path_views(skipped@).drop_last() =~= s0);
                    },
                }
            },
        }
        i = i + 1;
    }
    assert(candidate_views(cands@).subrange(0, cands@.len() as int) =~= candidate_views(cands@));
    assert(infos@.subrange(0, infos@.len() as int) =~= infos@);
    (plugins, skipped)
}

impl SearchIndex {
    /// Sorts the candidates into plugins and skipped files, given the reading of each
    /// candidate's exports in the same order (`None` for a file that could not be read,
    /// which is left out). The readings must match the candidates in number.
    pub fn search(
        self,
        dll_infos: &Vec<Option<Pe32Info>>,
        vst3_infos: &Vec<Option<Pe32Info>>,
        clap_infos: &Vec<Option<Pe32Info>>,
    ) -> (r: Result<SearchResults, SearchError>)
        requires
            self.wf(),
        ensures
            r is Err <==> (dll_infos@.len() != self.dll_files@.len() || vst3_infos@.len()
                != self.vst3_files@.len() || clap_infos@.len() != self.clap_files@.len()),
            r matches Ok(res) ==> {
                &&& res.wf()
                &&& res.so_files == self.so_files
                &&& exists|found_vst2: Seq<Plugin>, found_vst3: Seq<Plugin>, found_clap: Seq<Plugin>, skipped_vst2: Seq<PathView>, skipped_vst3: Seq<PathView>, skipped_clap: Seq<PathView>|
                    {
                        &&& res.plugins@ == found_vst2 + found_vst3 + found_clap
                        &&& path_views(res.skipped_files@) == skipped_vst2 + skipped_vst3 + skipped_clap
                        &&& search_outcomes(
                            PluginFormat::Vst2,
                            candidate_views(self.dll_files@),
                            dll_infos@,
                            found_vst2,
                            skipped_vst2,
                        )
                        &&& search_outcomes(
                            PluginFormat::Vst3,
                            candidate_views(self.vst3_files@),
                            vst3_infos@,
                            found_vst3,
                            skipped_vst3,
                        )
                        &&& search_outcomes(
                            PluginFormat::Clap,
                            candidate_views(self.clap_files@),
                            clap_infos@,
                            found_clap,
                            skipped_clap,
                        )
                    }
            },
    {
        if dll_infos.len() != self.dll_files.len() || vst3_infos.len() != self.vst3_files.len()
            || clap_infos.len() != self.clap_files.len() {
            return Err(SearchError::ReadingsMismatch);
        }
        let (mut plugins, mut skipped) = classify_candidates(PluginFormat::Vst2, &self.dll_files, dll_infos);
        let (mut found_vst3, mut skipped_vst3) = classify_candidates(PluginFormat::Vst3, &self.vst3_files, vst3_infos);
        let (mut found_clap, mut skipped_clap) = classify_candidates(PluginFormat::Clap, &self.clap_files, clap_infos);
        let ghost ghost_found_vst2 = plugins@;
        let ghost ghost_found_vst3 = found_vst3@;
        let ghost ghost_found_clap = found_clap@;
        let ghost ghost_skipped_vst2 = path_views(skipped@);
        let ghost ghost_skipped_vst3 = path_views(skipped_vst3@);
        let ghost ghost_skipped_clap = path_views(skipped_clap@);
        let ghost raw_skipped_vst2 = skipped@;
        let ghost raw_skipped_vst3 = skipped_vst3@;
        let ghost raw_skipped_clap = skipped_clap@;
        plugins.append(&mut found_vst3);
        plugins.append(&mut found_clap);
        skipped.append(&mut skipped_vst3);
        skipped.append(&mut skipped_clap);
        assert(plugins@ =~= ghost_found_vst2 + ghost_found_vst3 + ghost_found_clap);
        assert(skipped@ =~= raw_skipped_vst2 + raw_skipped_vst3 + raw_skipped_clap);
        assert(path_views(skipped@) =~= ghost_skipped_vst2 + ghost_skipped_vst3 + ghost_skipped_clap);
        assert forall|i: int| 0 <= i < plugins@.len() implies (#[trigger] plugins@[i]).spec_named() by {
            if i < ghost_found_vst2.len() {
                assert(plugins@[i] == ghost_found_vst2[i]);
            } else if i < ghost_found_vst2.len() + ghost_found_vst3.len() {
                assert(plugins@[i] == ghost_found_vst3[i - ghost_found_vst2.len()]);
            } else {
                assert(plugins@[i] == ghost_found_clap[i - ghost_found_vst2.len() - ghost_found_vst3.len()]);
            }
        }
        Ok(SearchResults { plugins, skipped_files: skipped, so_files: self.so_files })
    }
}

} // verus!

verus! {

/// Where VST2 plugins are set up: in the VST2 home, or right beside each `.dll`.
#[derive(Debug, Clone, Copy, PartialEq, Eq, Structural)]
pub enum Vst2InstallationLocation {
    Centralized,
    Inline,
}

impl Default for Vst2InstallationLocation {
    fn default() -> (r: Self)
        ensures
            r == Vst2InstallationLocation::Centralized,
    {
        Vst2InstallationLocation::Centralized
    }
}

/// The home directories of the bridged plugins, one per format.
#[derive(Debug, Clone)]
pub struct BridgeHomes {
    pub vst2: FsPath,
    pub vst3: FsPath,
    pub clap: FsPath,
}

impl Plugin {
    /// The Windows file (or bundle) that the plugin was found as.
    pub open spec fn spec_original_path(self) -> FsPath {
        match self {
            Plugin::Vst2(p) => p.path,
            Plugin::Vst3(m) => m.module.spec_path(),
            Plugin::Clap(p) => p.path,
        }
    }

    /// Where the native library of a set-up plugin lies, to be looked at on disk; `None`
    /// for an inline VST2 plugin, whose library is looked for among the directory's `.so`
    /// files instead.
    pub open spec fn spec_status_target(
        self,
        location: Vst2InstallationLocation,
        homes: BridgeHomes,
        vst3_native_arch: Option<LibArchitecture>,
    ) -> Option<PathView> {
        match self {
            Plugin::Vst2(p) => match location {
                Vst2InstallationLocation::Centralized => Some(
                    p.spec_centralized_native_target(homes.vst2@),
                ),
                Vst2InstallationLocation::Inline => None,
            },
            Plugin::Vst3(m) => Some(m.spec_target_native_module_path(homes.vst3@, vst3_native_arch)),
            Plugin::Clap(p) => Some(p.spec_native_target(homes.clap@)),
        }
    }

    /// The plugin's Windows file (or bundle).
    pub fn original_path(&self) -> (r: &FsPath)
        ensures
            *r == self.spec_original_path(),
    {
        match self {
            Plugin::Vst2(p) => &p.path,
            Plugin::Vst3(m) => m.original_path(),
            Plugin::Clap(p) => &p.path,
        }
    }

    /// See `spec_status_target`.
    pub fn status_target(
        &self,
        location: Vst2InstallationLocation,
        homes: &BridgeHomes,
        vst3_native_arch: Option<LibArchitecture>,
    ) -> (r: Option<FsPath>)
        requires
            self.spec_named(),
        ensures
            opt_view(r) == self.spec_status_target(location, *homes, vst3_native_arch),
    {
        match self {
            Plugin::Vst2(p) => match location {
                Vst2InstallationLocation::Centralized => Some(p.centralized_native_target(&homes.vst2)),
                Vst2InstallationLocation::Inline => None,
            },
            Plugin::Vst3(m) => Some(m.target_native_module_path(&homes.vst3, vst3_native_arch)),
            Plugin::Clap(p) => Some(p.native_target(&homes.clap)),
        }
    }
}

pub open spec fn opt_native_view(f: Option<NativeFile>) -> Option<(crate::plugin::FileKind, PathView)> {
    match f {
        Some(x) => Some(x@),
        None => None,
    }
}

/// The first of the files at `path`.
pub open spec fn first_at(files: Seq<(crate::plugin::FileKind, PathView)>, path: PathView) -> Option<
    (crate::plugin::FileKind, PathView),
>
    decreases files.len(),
{
    if files.len() == 0 {
        None
    } else if files[0].1 == path {
        Some(files[0])
    } else {
        first_at(files.drop_first(), path)
    }
}

/// A native library in a plugin directory belongs to no plugin: in the centralized setup
/// every one of them, in the inline setup one that no VST2 plugin's `.dll` has beside it
/// under the same name.
pub open spec fn is_inline_orphan(
    path: PathView,
    plugins: Seq<Plugin>,
    location: Vst2InstallationLocation,
) -> bool {
    location == Vst2InstallationLocation::Centralized || !exists|i: int|
        0 <= i < plugins.len() && (#[trigger] plugins[i] matches Plugin::Vst2(p)
            && p.path@.with_extension("so"@) == path)
}

pub open spec fn inline_orphans(
    files: Seq<(crate::plugin::FileKind, PathView)>,
    plugins: Seq<Plugin>,
    location: Vst2InstallationLocation,
) -> Seq<(crate::plugin::FileKind, PathView)>
    decreases files.len(),
{
    if files.len() == 0 {
        Seq::empty()
    } else {
        let rest = inline_orphans(files.drop_last(), plugins, location);
        if is_inline_orphan(files.last().1, plugins, location) {
            rest.push(files.last())
        } else {
            rest
        }
    }
}

impl SearchResults {
    /// For each plugin, in order: its Windows path and what stands where its native library
    /// belongs. `on_disk[i]` is what lies at plugin `i`'s status target (see
    /// `Plugin::status_target`); an inline VST2 plugin is looked up among `so_files`.
    pub fn installation_status(
        &self,
        location: Vst2InstallationLocation,
        on_disk: &Vec<Option<NativeFile>>,
    ) -> (r: Vec<(FsPath, Option<NativeFile>)>)
        requires
            on_disk@.len() == self.plugins@.len(),
        ensures
            r@.len() == self.plugins@.len(),
            forall|i: int|
                0 <= i < r@.len() ==> {
                    let p = self.plugins@[i];
                    &&& (#[trigger] r@[i]).0@ == p.spec_original_path()@
                    &&& opt_native_view(r@[i].1) == match p {
                        Plugin::Vst2(v) => if location == Vst2InstallationLocation::Inline {
                            first_at(
                                crate::plugin::native_views(self.so_files@),
                                v.path@.with_extension("so"@),
                            )
                        } else {
                            opt_native_view(on_disk@[i])
                        },
                        _ => opt_native_view(on_disk@[i]),
                    }
                },
    {
        let mut r: Vec<(FsPath, Option<NativeFile>)> = Vec::new();
        let mut i: usize = 0;
        while i < self.plugins.len()
            invariant
                on_disk@.len() == self.plugins@.len(),
                i <= self.plugins@.len(),
                r@.len() == i,
                forall|k: int|
                    0 <= k < i ==> {
                        let p = self.plugins@[k];
                        &&& (#[trigger] r@[k]).0@ == p.spec_original_path()@
                        &&& opt_native_view(r@[k].1) == match p {
                            Plugin::Vst2(v) => if location == Vst2InstallationLocation::Inline {
                                first_at(
                                    crate::plugin::native_views(self.so_files@),
                                    v.path@.with_extension("so"@),
                                )
                            } else {
                                opt_native_view(on_disk@[k])
                            },
                            _ => opt_native_view(on_disk@[k]),
                        }
                    },
            decreases self.plugins@.len() - i,
        {
            let p = &self.plugins[i];
            let found = match p {
                Plugin::Vst2(v) => match location {
                    Vst2InstallationLocation::Inline => find_at(&self.so_files, &v.inline_native_target()),
                    Vst2InstallationLocation::Centralized => duplicate_opt(&on_disk[i]),
                },
                _ => duplicate_opt(&on_disk[i]),
            };
            r.push((p.original_path().duplicate(), found));
            i = i + 1;
        }
        r
    }

    /// The native libraries of the searched directory that belong to no plugin (see
    /// `is_inline_orphan`), in the order found.
    pub fn vst2_inline_orphans(&self, location: Vst2InstallationLocation) -> (r: Vec<NativeFile>)
        ensures
            crate::plugin::native_views(r@) == inline_orphans(
                crate::plugin::native_views(self.so_files@),
                self.plugins@,
                location,
            ),
    {
        let ghost all = crate::plugin::native_views(self.so_files@);
        let mut r: Vec<NativeFile> = Vec::new();
        let mut i: usize = 0;
        assert(crate::plugin::native_views(r@) =~= Seq::<(crate::plugin::FileKind, PathView)>::empty());
        while i < self.so_files.len()
            invariant
                all == crate::plugin::native_views(self.so_files@),
                i <= self.so_files@.len(),
                crate::plugin::native_views(r@) == inline_orphans(
                    all.subrange(0, i as int),
                    self.plugins@,
                    location,
                ),
            decreases self.so_files@.len() - i,
        {
            let f = &self.so_files[i];
            let ghost prefix = all.subrange(0, i + 1);
            assert(prefix.drop_last() =~= all.subrange(0, i as int));
            assert(prefix.last() == f@);
            let ghost r0 = r@;
            let orphan = match location {
                Vst2InstallationLocation::Centralized => true,
                Vst2InstallationLocation::Inline => !has_inline_owner(&self.plugins, f.path()),
            };
            if orphan {
                r.push(f.duplicate());
                assert(crate::plugin::native_views(r@) =~= crate::plugin::native_views(r0).push(f@));
            }
            i = i + 1;
        }
        assert(all.subrange(0, all.len() as int) =~= all);
        r
    }
}

fn duplicate_opt(f: &Option<NativeFile>) -> (r: Option<NativeFile>)
    ensures
        opt_native_view(r) == opt_native_view(*f),
{
    match f {
        Some(x) => Some(x.duplicate()),
        None => None,
    }
}

/// The first of `files` at `path`.
fn find_at(files: &Vec<NativeFile>, path: &FsPath) -> (r: Option<NativeFile>)
    ensures
        opt_native_view(r) == first_at(crate::plugin::native_views(files@), path@),
{
    let ghost all = crate::plugin::native_views(files@);
    let mut i: usize = 0;
    assert(all.subrange(0, all.len() as int) =~= all);
    while i < files.len()
        invariant
            all == crate::plugin::native_views(files@),
            i <= files@.len(),
            first_at(all, path@) == first_at(all.subrange(i as int, all.len() as int), path@),
        decreases files@.len() - i,
    {
        let ghost rest = all.subrange(i as int, all.len() as int);
        assert(rest[0] == files@[i as int]@);
        if files[i].path().same_as(path) {
            return Some(files[i].duplicate());
        }
        assert(rest.drop_first() =~= all.subrange(i + 1, all.len() as int));
        i = i + 1;
    }
    None
}

/// Whether some VST2 plugin's `.dll` has the native library `path` beside it.
fn has_inline_owner(plugins: &Vec<Plugin>, path: &FsPath) -> (r: bool)
    ensures
        r == exists|i: int|
            0 <= i < plugins@.len() && (#[trigger] plugins@[i] matches Plugin::Vst2(p)
                && p.path@.with_extension("so"@) == path@),
{
    let mut i: usize = 0;
    while i < plugins.len()
        invariant
            i <= plugins@.len(),
            forall|k: int|
                0 <= k < i ==> !(#[trigger] plugins@[k] matches Plugin::Vst2(p)
                    && p.path@.with_extension("so"@) == path@),
        decreases plugins@.len() - i,
    {
        match &plugins[i] {
            Plugin::Vst2(p) => {
                if p.inline_native_target().same_as(path) {
                    return true;
                }
            },
            _ => {},
        }
        i = i + 1;
    }
    false
}

} // verus!

verus! {

/// A library that exports `GetPluginFactory` is a VST3 module, whatever else it exports.
pub proof fn lemma_plugin_factory_makes_vst3(exports: Seq<Seq<char>>)
    requires
        exports_symbol(exports, "GetPluginFactory"@),
    ensures
        is_plugin_of(exports, PluginFormat::Vst3),
{
    assert(entry_points(PluginFormat::Vst3)[0] == "GetPluginFactory"@);
}

/// A module laid out as `<root>/<name>/Contents/<arch>-win/<name>` is part of a bundle,
/// and the bundle's root is `<root>/<name>`.
pub proof fn lemma_bundle_layout(root: PathView, name: Seq<char>, arch: LibArchitecture)
    ensures
        module_is_in_bundle(
            root.push(name).push("Contents"@).push(vst_arch_name(arch)).push(name),
            arch,
        ),
        ancestor(root.push(name).push("Contents"@).push(vst_arch_name(arch)).push(name), 3)
            == root.push(name),
{
    let p = root.push(name).push("Contents"@).push(vst_arch_name(arch)).push(name);
    assert(ancestor(p, 4).parts =~= root.parts);
    assert(reconstructed_module_path(p, arch).parts =~= p.parts);
    assert(ancestor(p, 3).parts =~= root.push(name).parts);
}

/// A module that does not lie at the end of the bundle layout for its architecture is a
/// legacy module: in particular one with fewer than four names in its path.
pub proof fn lemma_short_path_is_legacy(p: PathView, arch: LibArchitecture)
    requires
        p.parts.len() < 4,
    ensures
        !module_is_in_bundle(p, arch),
{
}

proof fn lemma_inline_orphans_are_orphans(
    files: Seq<(crate::plugin::FileKind, PathView)>,
    plugins: Seq<Plugin>,
)
    ensures
        forall|k: int|
            0 <= k < inline_orphans(files, plugins, Vst2InstallationLocation::Inline).len()
                ==> is_inline_orphan(
                #[trigger] inline_orphans(files, plugins, Vst2InstallationLocation::Inline)[k].1,
                plugins,
                Vst2InstallationLocation::Inline,
            ),
    decreases files.len(),
{
    if files.len() > 0 {
        lemma_inline_orphans_are_orphans(files.drop_last(), plugins);
        let rest = inline_orphans(files.drop_last(), plugins, Vst2InstallationLocation::Inline);
        assert forall|k: int|
            0 <= k < inline_orphans(files, plugins, Vst2InstallationLocation::Inline).len()
                implies is_inline_orphan(
            #[trigger] inline_orphans(files, plugins, Vst2InstallationLocation::Inline)[k].1,
            plugins,
            Vst2InstallationLocation::Inline,
        ) by {
            if k < rest.len() {
                assert(inline_orphans(files, plugins, Vst2InstallationLocation::Inline)[k] == rest[k]);
            }
        }
    }
}

/// In the inline setup, a native library in a plugin directory is reported as a leftover
/// exactly when no VST2 plugin's `.dll` there has the same name but for the extension.
pub proof fn lemma_inline_orphan_membership(
    files: Seq<(crate::plugin::FileKind, PathView)>,
    plugins: Seq<Plugin>,
    i: int,
)
    requires
        0 <= i < files.len(),
    ensures
        inline_orphans(files, plugins, Vst2InstallationLocation::Inline).contains(files[i])
            <==> is_inline_orphan(files[i].1, plugins, Vst2InstallationLocation::Inline),
    decreases files.len(),
{
    lemma_inline_orphans_are_orphans(files, plugins);
    let rest = inline_orphans(files.drop_last(), plugins, Vst2InstallationLocation::Inline);
    if i < files.len() - 1 {
        lemma_inline_orphan_membership(files.drop_last(), plugins, i);
        assert(files.drop_last()[i] == files[i]);
        if is_inline_orphan(files[i].1, plugins, Vst2InstallationLocation::Inline) {
            let k = choose|k: int| 0 <= k < rest.len() && rest[k] == files[i];
            if is_inline_orphan(files.last().1, plugins, Vst2InstallationLocation::Inline) {
                assert(rest.push(files.last())[k] == files[i]);
            }
        }
    } else if is_inline_orphan(files[i].1, plugins, Vst2InstallationLocation::Inline) {
        assert(rest.push(files.last())[rest.len() as int] == files[i]);
    }
}

} // verus!
