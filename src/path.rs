//! File system paths as a list of names, the way `std::path` compares them.
use vstd::prelude::*;

verus! {

/// A path: whether it starts at the root, and the names that follow, in order.
/// Repeated separators and `.` parts do not appear, so two paths that name the
/// same place the same way are equal.
#[derive(Debug, Clone, PartialEq, Eq, Hash, PartialOrd, Ord)]
pub struct FsPath {
    pub absolute: bool,
    pub parts: Vec<String>,
}

/// What a path means: its root flag and its names as character sequences.
pub struct PathView {
    pub absolute: bool,
    pub parts: Seq<Seq<char>>,
}

pub open spec fn string_views(v: Seq<String>) -> Seq<Seq<char>> {
    v.map_values(|s: String| s@)
}

impl View for FsPath {
    type V = PathView;

    open spec fn view(&self) -> PathView {
        PathView { absolute: self.absolute, parts: string_views(self.parts@) }
    }
}

/// The position of the dot that starts a name's extension: the last dot, where
/// something comes before it. `None` where the name has no extension.
pub open spec fn extension_dot(name: Seq<char>) -> Option<int> {
    if name =~= seq!['.', '.'] {
        None
    } else if exists|k: int| 0 < k < name.len() && name[k] == '.' {
        let k = choose|k: int|
            0 < k < name.len() && name[k] == '.' && forall|j: int|
                k < j < name.len() ==> name[j] != '.';
        Some(k)
    } else {
        None
    }
}

/// A name without its extension.
pub open spec fn file_stem(name: Seq<char>) -> Seq<char> {
    match extension_dot(name) {
        Some(k) => name.subrange(0, k),
        None => name,
    }
}

/// A name's extension, without the dot.
pub open spec fn file_extension(name: Seq<char>) -> Option<Seq<char>> {
    match extension_dot(name) {
        Some(k) => Some(name.subrange(k + 1, name.len() as int)),
        None => None,
    }
}

/// A name with its extension replaced by `ext` (or removed, for an empty `ext`).
pub open spec fn name_with_extension(name: Seq<char>, ext: Seq<char>) -> Seq<char> {
    if ext.len() == 0 {
        file_stem(name)
    } else {
        file_stem(name) + seq!['.'] + ext
    }
}

impl PathView {
    pub open spec fn has_file_name(self) -> bool {
        self.parts.len() > 0
    }

    pub open spec fn file_name(self) -> Seq<char> {
        self.parts.last()
    }

    pub open spec fn push(self, name: Seq<char>) -> PathView {
        PathView { absolute: self.absolute, parts: self.parts.push(name) }
    }

    /// `Path::join`: a path that starts at the root replaces the first one.
    pub open spec fn join(self, other: PathView) -> PathView {
        if other.absolute {
            other
        } else {
            PathView { absolute: self.absolute, parts: self.parts + other.parts }
        }
    }

    pub open spec fn parent(self) -> PathView {
        PathView { absolute: self.absolute, parts: self.parts.drop_last() }
    }

    pub open spec fn with_extension(self, ext: Seq<char>) -> PathView {
        if self.parts.len() == 0 {
            self
        } else {
            PathView {
                absolute: self.absolute,
                parts: self.parts.update(
                    self.parts.len() - 1,
                    name_with_extension(self.parts.last(), ext),
                ),
            }
        }
    }

    /// `other` extended by the names in `self` past its own.
    pub open spec fn starts_with(self, other: PathView) -> bool {
        &&& self.absolute == other.absolute
        &&& other.parts.len() <= self.parts.len()
        &&& self.parts.subrange(0, other.parts.len() as int) == other.parts
    }

    pub open spec fn strip_prefix(self, other: PathView) -> PathView {
        PathView {
            absolute: false,
            parts: self.parts.subrange(other.parts.len() as int, self.parts.len() as int),
        }
    }
}

proof fn lemma_string_views_push(v: Seq<String>, s: String)
    ensures
        string_views(v.push(s)) == string_views(v).push(s@),
{
    assert(string_views(v.push(s)) =~= string_views(v).push(s@));
}

/// The position of the last dot after the first character, found by a scan from the end.
fn find_extension_dot(name: &str) -> (r: Option<usize>)
    ensures
        r matches Some(k) ==> extension_dot(name@) == Some(k as int) && 0 < k < name@.len(),
        r is None ==> extension_dot(name@) is None,
{
    let n = name.unicode_len();
    let ghost s = name@;
    if n == 2 && name.get_char(0) == '.' && name.get_char(1) == '.' {
        assert(s =~= seq!['.', '.']);
        return None;
    }
    assert(!(s =~= seq!['.', '.'])) by {
        if s =~= seq!['.', '.'] {
            assert(s[0] == '.' && s[1] == '.');
        }
    }
    let mut k: usize = n;
    while k > 1
        invariant
            s == name@,
            n == s.len(),
            !(s =~= seq!['.', '.']),
            k <= n,
            forall|j: int| k <= j < n ==> s[j] != '.',
        decreases k,
    {
        if name.get_char(k - 1) == '.' {
            let ghost w = (k - 1) as int;
            assert(0 < w < s.len() && s[w] == '.' && forall|j: int| w < j < s.len() ==> s[j] != '.');
            assert(exists|c: int| 0 < c < s.len() && s[c] == '.');
            assert(exists|c: int|
                0 < c < s.len() && s[c] == '.' && forall|j: int| c < j < s.len() ==> s[j] != '.');
            let ghost c = choose|c: int|
                0 < c < s.len() && s[c] == '.' && forall|j: int| c < j < s.len() ==> s[j] != '.';
            assert(c == w) by {
                if c < w {
                    assert(s[w] != '.');
                } else if c > w {
                    assert(s[c] != '.');
                }
            }
            return Some(k - 1);
        }
        k = k - 1;
    }
    assert(!exists|c: int| 0 < c < s.len() && s[c] == '.');
    None
}

/// `Path::file_stem` of a single name.
pub fn name_stem(name: &str) -> (r: String)
    ensures
        r@ == file_stem(name@),
{
    match find_extension_dot(name) {
        Some(k) => String::from_str(name.substring_char(0, k)),
        None => String::from_str(name),
    }
}

/// `Path::extension` of a single name.
pub fn name_extension(name: &str) -> (r: Option<String>)
    ensures
        r matches Some(e) ==> file_extension(name@) == Some(e@),
        r is None ==> file_extension(name@) is None,
{
    match find_extension_dot(name) {
        Some(k) => {
            let n = name.unicode_len();
            Some(String::from_str(name.substring_char(k + 1, n)))
        },
        None => None,
    }
}

/// `Path::with_extension` of a single name.
pub fn replace_extension(name: &str, ext: &str) -> (r: String)
    ensures
        r@ == name_with_extension(name@, ext@),
{
    let stem = name_stem(name);
    if ext.unicode_len() == 0 {
        stem
    } else {
        let with_dot = stem.concat(".");
        proof {
            reveal_strlit(".");
        }
        assert(with_dot@ =~= file_stem(name@) + seq!['.']);
        with_dot.concat(ext)
    }
}

impl FsPath {
    /// The empty relative path.
    pub fn empty() -> (r: FsPath)
        ensures
            r@.absolute == false,
            r@.parts == Seq::<Seq<char>>::empty(),
    {
        let r = FsPath { absolute: false, parts: Vec::new() };
        assert(r@.parts =~= Seq::<Seq<char>>::empty());
        r
    }

    /// The root directory.
    pub fn root() -> (r: FsPath)
        ensures
            r@.absolute == true,
            r@.parts == Seq::<Seq<char>>::empty(),
    {
        let r = FsPath { absolute: true, parts: Vec::new() };
        assert(r@.parts =~= Seq::<Seq<char>>::empty());
        r
    }

    pub fn duplicate(&self) -> (r: FsPath)
        ensures
            r@ == self@,
    {
        let mut parts: Vec<String> = Vec::new();
        let mut i: usize = 0;
        while i < self.parts.len()
            invariant
                i <= self.parts@.len(),
                string_views(parts@) =~= string_views(self.parts@.subrange(0, i as int)),
            decreases self.parts@.len() - i,
        {
            proof {
                lemma_string_views_push(parts@, self.parts@[i as int]);
            }
            parts.push(self.parts[i].clone());
            assert(self.parts@.subrange(0, i + 1) =~= self.parts@.subrange(0, i as int).push(
                self.parts@[i as int],
            ));
            proof {
                lemma_string_views_push(self.parts@.subrange(0, i as int), self.parts@[i as int]);
            }
            i = i + 1;
        }
        assert(self.parts@.subrange(0, self.parts@.len() as int) =~= self.parts@);
        FsPath { absolute: self.absolute, parts }
    }

    /// Appends one name.
    pub fn push(&mut self, name: &str)
        ensures
            final(self)@ == old(self)@.push(name@),
    {
        let s = String::from_str(name);
        proof {
            lemma_string_views_push(self.parts@, s);
        }
        self.parts.push(s);
    }

    /// `Path::join`.
    pub fn join(&self, other: &FsPath) -> (r: FsPath)
        ensures
            r@ == self@.join(other@),
    {
        if other.absolute {
            return other.duplicate();
        }
        let mut r = self.duplicate();
        let mut i: usize = 0;
        while i < other.parts.len()
            invariant
                !other@.absolute,
                i <= other.parts@.len(),
                r@.absolute == self@.absolute,
                r@.parts =~= self@.parts + other@.parts.subrange(0, i as int),
            decreases other.parts@.len() - i,
        {
            r.push(other.parts[i].as_str());
            i = i + 1;
        }
        assert(other@.parts.subrange(0, other@.parts.len() as int) =~= other@.parts);
        r
    }

    /// The last name, if there is one.
    pub fn file_name(&self) -> (r: Option<&String>)
        ensures
            r is Some <==> self@.has_file_name(),
            r matches Some(n) ==> n@ == self@.file_name(),
    {
        if self.parts.len() == 0 {
            None
        } else {
            Some(&self.parts[self.parts.len() - 1])
        }
    }

    /// The path without its last name, if it has one.
    pub fn parent(&self) -> (r: Option<FsPath>)
        ensures
            r is Some <==> self@.has_file_name(),
            r matches Some(p) ==> p@ == self@.parent(),
    {
        if self.parts.len() == 0 {
            return None;
        }
        let mut r = self.duplicate();
        r.parts.pop();
        assert(r@.parts =~= self@.parts.drop_last());
        Some(r)
    }

    /// `Path::with_extension`.
    pub fn with_extension(&self, ext: &str) -> (r: FsPath)
        ensures
            r@ == self@.with_extension(ext@),
    {
        let mut r = self.duplicate();
        assert(r.parts@.len() == r@.parts.len() && self.parts@.len() == self@.parts.len());
        let n = self.parts.len();
        if n == 0 {
            return r;
        }
        let renamed = replace_extension(self.parts[n - 1].as_str(), ext);
        r.parts.set(n - 1, renamed);
        assert(r@.parts =~= self@.parts.update(
            n - 1,
            name_with_extension(self@.parts.last(), ext@),
        ));
        r
    }

    /// Whether the two paths are equal.
    pub fn same_as(&self, other: &FsPath) -> (r: bool)
        ensures
            r == (self@ == other@),
    {
        if self.absolute != other.absolute || self.parts.len() != other.parts.len() {
            assert(self.parts@.len() == self@.parts.len() && other.parts@.len() == other@.parts.len());
            return false;
        }
        let mut i: usize = 0;
        while i < self.parts.len()
            invariant
                self.parts@.len() == other.parts@.len(),
                i <= self.parts@.len(),
                forall|j: int| 0 <= j < i ==> self@.parts[j] == other@.parts[j],
            decreases self.parts@.len() - i,
        {
            if self.parts[i] != other.parts[i] {
                assert(self@.parts[i as int] != other@.parts[i as int]);
                return false;
            }
            i = i + 1;
        }
        assert(self@.parts =~= other@.parts);
        true
    }

    /// The path relative to `base`, where it lies under `base`.
    pub fn strip_prefix(&self, base: &FsPath) -> (r: Option<FsPath>)
        ensures
            r is Some <==> self@.starts_with(base@),
            r matches Some(p) ==> p@ == self@.strip_prefix(base@),
    {
        if self.absolute != base.absolute || base.parts.len() > self.parts.len() {
            return None;
        }
        let mut i: usize = 0;
        while i < base.parts.len()
            invariant
                base.parts@.len() <= self.parts@.len(),
                i <= base.parts@.len(),
                forall|j: int| 0 <= j < i ==> self@.parts[j] == base@.parts[j],
            decreases base.parts@.len() - i,
        {
            if self.parts[i] != base.parts[i] {
                assert(self@.parts.subrange(0, base@.parts.len() as int)[i as int]
                    != base@.parts[i as int]);
                return None;
            }
            i = i + 1;
        }
        assert(self@.parts.subrange(0, base@.parts.len() as int) =~= base@.parts);
        let mut r = FsPath::empty();
        let mut k: usize = base.parts.len();
        while k < self.parts.len()
            invariant
                base.parts@.len() <= k <= self.parts@.len(),
                r@.absolute == false,
                r@.parts =~= self@.parts.subrange(base@.parts.len() as int, k as int),
            decreases self.parts@.len() - k,
        {
            r.push(self.parts[k].as_str());
            k = k + 1;
        }
        Some(r)
    }
}

} // verus!
