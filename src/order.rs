//! The order in which leftover files are removed: paths in reverse
//! lexicographic order of their names, so that the files inside a directory go
//! before the directory itself.
use vstd::multiset::Multiset;
use vstd::prelude::*;

use crate::path::FsPath;
use crate::plugin::NativeFile;

verus! {

broadcast use vstd::seq_lib::group_to_multiset_ensures;

/// Names in lexicographic order of their characters' code points; a name comes before the
/// longer names that it starts.
pub open spec fn name_lt(a: Seq<char>, b: Seq<char>) -> bool
    decreases a.len(),
{
    if a.len() == 0 {
        b.len() > 0
    } else if b.len() == 0 {
        false
    } else if a[0] != b[0] {
        (a[0] as u32) < (b[0] as u32)
    } else {
        name_lt(a.drop_first(), b.drop_first())
    }
}

/// Lists of names in lexicographic order, names compared by `name_lt`.
pub open spec fn parts_lt(a: Seq<Seq<char>>, b: Seq<Seq<char>>) -> bool
    decreases a.len(),
{
    if a.len() == 0 {
        b.len() > 0
    } else if b.len() == 0 {
        false
    } else if a[0] != b[0] {
        name_lt(a[0], b[0])
    } else {
        parts_lt(a.drop_first(), b.drop_first())
    }
}

/// `a` names a directory that holds `b`.
pub open spec fn is_proper_prefix(a: Seq<Seq<char>>, b: Seq<Seq<char>>) -> bool {
    a.len() < b.len() && b.subrange(0, a.len() as int) == a
}

pub open spec fn native_parts(f: NativeFile) -> Seq<Seq<char>> {
    f.spec_path()@.parts
}

proof fn lemma_name_lt_trans(a: Seq<char>, b: Seq<char>, c: Seq<char>)
    requires
        name_lt(a, b),
        name_lt(b, c),
    ensures
        name_lt(a, c),
    decreases a.len(),
{
    if a.len() > 0 && b.len() > 0 && c.len() > 0 && a[0] == b[0] && b[0] == c[0] {
        lemma_name_lt_trans(a.drop_first(), b.drop_first(), c.drop_first());
    }
}

proof fn lemma_name_lt_irreflexive(a: Seq<char>)
    ensures
        !name_lt(a, a),
    decreases a.len(),
{
    if a.len() > 0 {
        lemma_name_lt_irreflexive(a.drop_first());
    }
}

proof fn lemma_parts_lt_trans(a: Seq<Seq<char>>, b: Seq<Seq<char>>, c: Seq<Seq<char>>)
    requires
        parts_lt(a, b),
        parts_lt(b, c),
    ensures
        parts_lt(a, c),
    decreases a.len(),
{
    if a.len() > 0 && b.len() > 0 && c.len() > 0 {
        if a[0] == b[0] && b[0] == c[0] {
            lemma_parts_lt_trans(a.drop_first(), b.drop_first(), c.drop_first());
        } else if a[0] != b[0] && b[0] != c[0] {
            lemma_name_lt_trans(a[0], b[0], c[0]);
            if a[0] == c[0] {
                lemma_name_lt_irreflexive(a[0]);
            }
        }
    }
}

/// A directory comes before everything inside it.
pub proof fn lemma_prefix_is_less(a: Seq<Seq<char>>, b: Seq<Seq<char>>)
    requires
        is_proper_prefix(a, b),
    ensures
        parts_lt(a, b),
    decreases a.len(),
{
    if a.len() > 0 {
        assert(b[0] == b.subrange(0, a.len() as int)[0]);
        assert(b.drop_first().subrange(0, a.len() - 1) =~= a.drop_first());
        lemma_prefix_is_less(a.drop_first(), b.drop_first());
    }
}

fn name_less(a: &String, b: &String) -> (r: bool)
    ensures
        r == name_lt(a@, b@),
{
    let n = a.as_str().unicode_len();
    let m = b.as_str().unicode_len();
    let mut i: usize = 0;
    assert(a@.subrange(0, n as int) =~= a@ && b@.subrange(0, m as int) =~= b@);
    while i < n && i < m
        invariant
            n == a@.len(),
            m == b@.len(),
            i <= n,
            i <= m,
            name_lt(a@, b@) == name_lt(a@.subrange(i as int, n as int), b@.subrange(i as int, m as int)),
        decreases n - i,
    {
        let x = a.as_str().get_char(i);
        let y = b.as_str().get_char(i);
        let ghost sa = a@.subrange(i as int, n as int);
        let ghost sb = b@.subrange(i as int, m as int);
        assert(sa[0] == x && sb[0] == y);
        if x != y {
            return (x as u32) < (y as u32);
        }
        assert(sa.drop_first() =~= a@.subrange(i + 1, n as int));
        assert(sb.drop_first() =~= b@.subrange(i + 1, m as int));
        i = i + 1;
    }
    i == n && i < m
}

fn parts_less(a: &FsPath, b: &FsPath) -> (r: bool)
    ensures
        r == parts_lt(a@.parts, b@.parts),
{
    let n = a.parts.len();
    let m = b.parts.len();
    let ghost pa = a@.parts;
    let ghost pb = b@.parts;
    assert(pa.len() == n && pb.len() == m);
    let mut i: usize = 0;
    assert(pa.subrange(0, n as int) =~= pa && pb.subrange(0, m as int) =~= pb);
    while i < n && i < m
        invariant
            pa == a@.parts,
            pb == b@.parts,
            n == pa.len(),
            m == pb.len(),
            i <= n,
            i <= m,
            parts_lt(pa, pb) == parts_lt(pa.subrange(i as int, n as int), pb.subrange(i as int, m as int)),
        decreases n - i,
    {
        let ghost sa = pa.subrange(i as int, n as int);
        let ghost sb = pb.subrange(i as int, m as int);
        assert(sa[0] == a.parts@[i as int]@ && sb[0] == b.parts@[i as int]@);
        if a.parts[i] != b.parts[i] {
            return name_less(&a.parts[i], &b.parts[i]);
        }
        assert(sa.drop_first() =~= pa.subrange(i + 1, n as int));
        assert(sb.drop_first() =~= pb.subrange(i + 1, m as int));
        i = i + 1;
    }
    i == n && i < m
}

/// The position of an entry that no other entry of `v` follows in the order.
fn position_of_last(v: &Vec<NativeFile>) -> (r: usize)
    requires
        v@.len() > 0,
    ensures
        r < v@.len(),
        forall|j: int| 0 <= j < v@.len() ==> !parts_lt(native_parts(v@[r as int]), #[trigger] native_parts(v@[j])),
{
    let mut best: usize = 0;
    let mut i: usize = 1;
    assert(!parts_lt(native_parts(v@[0]), native_parts(v@[0]))) by {
        lemma_parts_lt_irreflexive(native_parts(v@[0]));
    }
    while i < v.len()
        invariant
            1 <= i <= v@.len(),
            best < i,
            forall|j: int| 0 <= j < i ==> !parts_lt(native_parts(v@[best as int]), #[trigger] native_parts(v@[j])),
        decreases v@.len() - i,
    {
        if parts_less(v[best].path(), v[i].path()) {
            assert forall|j: int| 0 <= j <= i implies !parts_lt(
                native_parts(v@[i as int]),
                #[trigger] native_parts(v@[j]),
            ) by {
                if j == i {
                    lemma_parts_lt_irreflexive(native_parts(v@[i as int]));
                } else if parts_lt(native_parts(v@[i as int]), native_parts(v@[j])) {
                    lemma_parts_lt_trans(
                        native_parts(v@[best as int]),
                        native_parts(v@[i as int]),
                        native_parts(v@[j]),
                    );
                }
            }
            best = i;
        }
        i = i + 1;
    }
    best
}

proof fn lemma_parts_lt_irreflexive(a: Seq<Seq<char>>)
    ensures
        !parts_lt(a, a),
    decreases a.len(),
{
    if a.len() > 0 {
        lemma_parts_lt_irreflexive(a.drop_first());
    }
}

/// The entries in reverse lexicographic order of their paths' names: no entry comes before
/// one that it precedes in that order, so what lies inside a directory comes first.
pub fn removal_order(files: Vec<NativeFile>) -> (r: Vec<NativeFile>)
    ensures
        r@.to_multiset() == files@.to_multiset(),
        forall|i: int, j: int|
            0 <= i < j < r@.len() ==> !parts_lt(native_parts(r@[i]), native_parts(r@[j])),
        forall|i: int, j: int|
            0 <= i < j < r@.len() ==> !is_proper_prefix(native_parts(r@[i]), native_parts(r@[j])),
{
    let ghost orig = files@;
    let mut rest = files;
    let mut out: Vec<NativeFile> = Vec::new();
    while rest.len() > 0
        invariant
            out@.to_multiset().add(rest@.to_multiset()) == orig.to_multiset(),
            forall|i: int, j: int|
                0 <= i < j < out@.len() ==> !parts_lt(native_parts(out@[i]), native_parts(out@[j])),
            forall|i: int, j: int|
                0 <= i < out@.len() && 0 <= j < rest@.len() ==> !parts_lt(
                    native_parts(out@[i]),
                    native_parts(rest@[j]),
                ),
        decreases rest@.len(),
    {
        let m = position_of_last(&rest);
        let ghost rest0 = rest@;
        let ghost out0 = out@;
        let f = rest.remove(m);
        out.push(f);
        assert(rest@ == rest0.remove(m as int));
        assert(out@.to_multiset().add(rest@.to_multiset()) =~= out0.to_multiset().add(
            rest0.to_multiset(),
        ));
        assert forall|i: int, j: int| 0 <= i < out@.len() && 0 <= j < rest@.len() implies !parts_lt(
            native_parts(out@[i]),
            native_parts(rest@[j]),
        ) by {
            let jj = if j < m { j } else { j + 1 };
            assert(rest@[j] == rest0[jj]);
        }
        assert forall|i: int, j: int| 0 <= i < j < out@.len() implies !parts_lt(
            native_parts(out@[i]),
            native_parts(out@[j]),
        ) by {
            if j == out@.len() - 1 {
                assert(out@[j] == rest0[m as int]);
            }
        }
    }
    assert(rest@.to_multiset() =~= Multiset::empty());
    assert(out@.to_multiset().add(Multiset::empty()) =~= out@.to_multiset());
    assert forall|i: int, j: int| 0 <= i < j < out@.len() implies !is_proper_prefix(
        native_parts(out@[i]),
        native_parts(out@[j]),
    ) by {
        if is_proper_prefix(native_parts(out@[i]), native_parts(out@[j])) {
            lemma_prefix_is_less(native_parts(out@[i]), native_parts(out@[j]));
        }
    }
    out
}

} // verus!
