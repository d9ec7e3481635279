//! The parts of a VST3 `moduleinfo.json` that hold class IDs, and their
//! rewrite to the other byte order. Every other field is carried along as it was.
use vstd::prelude::*;

use crate::uid::{
    decode_hex_uid, decoded_uid, encode_hex_uid, encoded_uid, rewrite_uid_byte_order,
    rewritten_uid, valid_hex_uid, UidError,
};

verus! {

/// The JSON object type of `serde_jsonrc`, carried through unread.
#[verifier::external_type_specification]
#[verifier::external_body]
#[verifier::reject_recursive_types(K)]
#[verifier::reject_recursive_types(V)]
pub struct ExJsonMap<K, V>(serde_jsonrc::Map<K, V>);

/// The JSON value type of `serde_jsonrc`, carried through unread.
#[verifier::external_type_specification]
#[verifier::external_body]
pub struct ExJsonValue(serde_jsonrc::Value);

/// A `moduleinfo.json` document.
pub struct ModuleInfo {
    /// The `Classes` array.
    pub classes: Vec<Class>,
    /// The `Compatibility` array, where there is one.
    pub compatibility_mappings: Option<Vec<CompatibilityMapping>>,
    /// All other top-level fields.
    pub other: serde_jsonrc::Map<String, serde_jsonrc::Value>,
}

/// One entry of `Classes`.
pub struct Class {
    /// The `CID` field.
    pub cid: String,
    /// All other fields.
    pub other: serde_jsonrc::Map<String, serde_jsonrc::Value>,
}

/// One entry of `Compatibility`: the class ID that replaces the old ones.
pub struct CompatibilityMapping {
    /// The `New` field.
    pub new: String,
    /// The `Old` field.
    pub old: Vec<String>,
    /// All other fields.
    pub other: serde_jsonrc::Map<String, serde_jsonrc::Value>,
}

/// A class ID string in the other byte order (upper case).
pub open spec fn rewritten_cid(s: Seq<char>) -> Seq<char> {
    encoded_uid(rewritten_uid(decoded_uid(s)))
}

/// The error that decoding a class ID string gives.
pub open spec fn cid_error(s: Seq<char>) -> UidError {
    if s.len() != 32 {
        UidError::WrongLength
    } else {
        UidError::InvalidDigit
    }
}

pub open spec fn mapping_cids(m: Seq<CompatibilityMapping>) -> Seq<Seq<char>>
    decreases m.len(),
{
    if m.len() == 0 {
        Seq::empty()
    } else {
        mapping_cids(m.drop_last()) + seq![m.last().new@] + crate::path::string_views(
            m.last().old@,
        )
    }
}

/// Every class ID of the document, in order: those of `Classes`, then for each entry of
/// `Compatibility` its `New` and its `Old` ones.
pub open spec fn all_cids(info: ModuleInfo) -> Seq<Seq<char>> {
    let classes = info.classes@.map_values(|c: Class| c.cid@);
    match info.compatibility_mappings {
        Some(m) => classes + mapping_cids(m@),
        None => classes,
    }
}

/// The error of the first class ID string that does not decode, if any.
pub open spec fn first_cid_error(cids: Seq<Seq<char>>) -> Option<UidError>
    decreases cids.len(),
{
    if cids.len() == 0 {
        None
    } else if !valid_hex_uid(cids[0]) {
        Some(cid_error(cids[0]))
    } else {
        first_cid_error(cids.drop_first())
    }
}

/// `old` with each class ID rewritten, everything else kept.
pub open spec fn rewrote_classes(old: Seq<Class>, new: Seq<Class>) -> bool {
    &&& new.len() == old.len()
    &&& forall|i: int|
        0 <= i < old.len() ==> (#[trigger] new[i]).cid@ == rewritten_cid(old[i].cid@) && new[i].other
            == old[i].other
}

pub open spec fn rewrote_strings(old: Seq<String>, new: Seq<String>) -> bool {
    &&& new.len() == old.len()
    &&& forall|i: int| 0 <= i < old.len() ==> (#[trigger] new[i])@ == rewritten_cid(old[i]@)
}

pub open spec fn rewrote_mappings(old: Seq<CompatibilityMapping>, new: Seq<CompatibilityMapping>) -> bool {
    &&& new.len() == old.len()
    &&& forall|i: int|
        0 <= i < old.len() ==> {
            &&& (#[trigger] new[i]).new@ == rewritten_cid(old[i].new@)
            &&& rewrote_strings(old[i].old@, new[i].old@)
            &&& new[i].other == old[i].other
        }
}

/// A class ID string in the other byte order.
fn rewrite_cid(cid: &String) -> (r: String)
    requires
        valid_hex_uid(cid@),
    ensures
        r@ == rewritten_cid(cid@),
{
    match decode_hex_uid(cid.as_str()) {
        Ok(uid) => encode_hex_uid(&rewrite_uid_byte_order(&uid)),
        Err(_) => {
            assert(false);
            String::new()
        },
    }
}

/// The error of the first class ID string that does not decode.
fn first_error(cids: &Vec<String>) -> (r: Option<UidError>)
    ensures
        r == first_cid_error(crate::path::string_views(cids@)),
{
    let ghost all = crate::path::string_views(cids@);
    let mut i: usize = 0;
    assert(all.subrange(0, all.len() as int) =~= all);
    while i < cids.len()
        invariant
            all == crate::path::string_views(cids@),
            i <= cids@.len(),
            first_cid_error(all) == first_cid_error(all.subrange(i as int, all.len() as int)),
        decreases cids@.len() - i,
    {
        let ghost rest = all.subrange(i as int, all.len() as int);
        assert(rest[0] == cids@[i as int]@);
        match decode_hex_uid(cids[i].as_str()) {
            Err(e) => {
                return Some(e);
            },
            Ok(_) => {},
        }
        assert(rest.drop_first() =~= all.subrange(i + 1, all.len() as int));
        i = i + 1;
    }
    None
}

proof fn lemma_no_error_all_valid(cids: Seq<Seq<char>>)
    requires
        first_cid_error(cids) is None,
    ensures
        forall|i: int| 0 <= i < cids.len() ==> valid_hex_uid(#[trigger] cids[i]),
    decreases cids.len(),
{
    if cids.len() > 0 {
        lemma_no_error_all_valid(cids.drop_first());
        assert forall|i: int| 0 <= i < cids.len() implies valid_hex_uid(#[trigger] cids[i]) by {
            if i > 0 {
                assert(cids[i] == cids.drop_first()[i - 1]);
            }
        }
    }
}

impl ModuleInfo {
    /// All class ID strings of the document, in the order of `all_cids`.
    fn cids(&self) -> (r: Vec<String>)
        ensures
            crate::path::string_views(r@) == all_cids(*self),
    {
        let mut r: Vec<String> = Vec::new();
        let mut i: usize = 0;
        while i < self.classes.len()
            invariant
                i <= self.classes@.len(),
                crate::path::string_views(r@) =~= self.classes@.subrange(0, i as int).map_values(
                    |c: Class| c.cid@,
                ),
            decreases self.classes@.len() - i,
        {
            let ghost r0 = r@;
            r.push(self.classes[i].cid.clone());
            assert(crate::path::string_views(r@) =~= crate::path::string_views(r0).push(
                self.classes@[i as int].cid@,
            ));
            assert(self.classes@.subrange(0, i + 1).map_values(|c: Class| c.cid@) =~= self.classes@.subrange(
                0,
                i as int,
            ).map_values(|c: Class| c.cid@).push(self.classes@[i as int].cid@));
            i = i + 1;
        }
        assert(self.classes@.subrange(0, self.classes@.len() as int) =~= self.classes@);
        match &self.compatibility_mappings {
            None => {},
            Some(m) => {
                let ghost base = crate::path::string_views(r@);
                let mut j: usize = 0;
                while j < m.len()
                    invariant
                        j <= m@.len(),
                        crate::path::string_views(r@) =~= base + mapping_cids(m@.subrange(0, j as int)),
                    decreases m@.len() - j,
                {
                    let ghost before = crate::path::string_views(r@);
                    assert(m@.subrange(0, j + 1).drop_last() =~= m@.subrange(0, j as int));
                    r.push(m[j].new.clone());
                    let mut k: usize = 0;
                    while k < m[j].old.len()
                        invariant
                            j < m@.len(),
                            k <= m@[j as int].old@.len(),
                            crate::path::string_views(r@) =~= before + seq![m@[j as int].new@]
                                + crate::path::string_views(m@[j as int].old@.subrange(0, k as int)),
                        decreases m@[j as int].old@.len() - k,
                    {
                        let ghost r0 = r@;
                        r.push(m[j].old[k].clone());
                        assert(crate::path::string_views(r@) =~= crate::path::string_views(r0).push(
                            m@[j as int].old@[k as int]@,
                        ));
                        assert(crate::path::string_views(m@[j as int].old@.subrange(0, k + 1))
                            =~= crate::path::string_views(m@[j as int].old@.subrange(0, k as int)).push(
                            m@[j as int].old@[k as int]@,
                        ));
                        k = k + 1;
                    }
                    assert(m@[j as int].old@.subrange(0, m@[j as int].old@.len() as int) =~= m@[j as int].old@);
                    j = j + 1;
                }
                assert(m@.subrange(0, m@.len() as int) =~= m@);
            },
        }
        r
    }

    /// Rewrites every class ID of the document to the other byte order, leaving all other
    /// fields as they were. Where a class ID does not decode, the document stays as it was
    /// and the error of the first such ID comes back.
    pub fn rewrite_uid_byte_orders(&mut self) -> (r: Result<(), UidError>)
        ensures
            r is Err <==> first_cid_error(all_cids(*old(self))) is Some,
            r matches Err(e) ==> first_cid_error(all_cids(*old(self))) == Some(e) && *final(self)
                == *old(self),
            r is Ok ==> {
                &&& rewrote_classes(old(self).classes@, final(self).classes@)
                &&& final(self).other == old(self).other
                &&& match (old(self).compatibility_mappings, final(self).compatibility_mappings) {
                    (Some(a), Some(b)) => rewrote_mappings(a@, b@),
                    (None, None) => true,
                    _ => false,
                }
            },
    {
        let cids = self.cids();
        match first_error(&cids) {
            Some(e) => {
                return Err(e);
            },
            None => {},
        }
        proof {
            lemma_no_error_all_valid(all_cids(*self));
        }
        let ghost old_classes = self.classes@;
        assert(forall|i: int|
            0 <= i < old_classes.len() ==> valid_hex_uid(#[trigger] old_classes[i].cid@)) by {
            assert forall|i: int| 0 <= i < old_classes.len() implies valid_hex_uid(
                #[trigger] old_classes[i].cid@,
            ) by {
                let cl = old_classes.map_values(|c: Class| c.cid@);
                assert(cl[i] == old_classes[i].cid@);
                match self.compatibility_mappings {
                    Some(m) => {
                        assert((cl + mapping_cids(m@))[i] == cl[i]);
                    },
                    None => {},
                }
            }
        }
        let mut classes: Vec<Class> = Vec::new();
        core::mem::swap(&mut classes, &mut self.classes);
        self.classes = rewrite_classes(classes);
        let mut mappings: Option<Vec<CompatibilityMapping>> = None;
        core::mem::swap(&mut mappings, &mut self.compatibility_mappings);
        self.compatibility_mappings = match mappings {
            Some(m) => {
                proof {
                    let cl = old_classes.map_values(|c: Class| c.cid@);
                    let all = cl + mapping_cids(m@);
                    assert forall|k: int| 0 <= k < mapping_cids(m@).len() implies valid_hex_uid(
                        #[trigger] mapping_cids(m@)[k],
                    ) by {
                        assert(all[cl.len() + k] == mapping_cids(m@)[k]);
                    }
                    lemma_mapping_cids_valid(m@);
                }
                Some(rewrite_mappings(m))
            },
            None => None,
        };
        Ok(())
    }
}

proof fn lemma_mapping_cids_valid(m: Seq<CompatibilityMapping>)
    requires
        forall|k: int| 0 <= k < mapping_cids(m).len() ==> valid_hex_uid(#[trigger] mapping_cids(m)[k]),
    ensures
        forall|i: int| 0 <= i < m.len() ==> valid_mapping(#[trigger] m[i]),
    decreases m.len(),
{
    if m.len() > 0 {
        let front = mapping_cids(m.drop_last());
        let last = m.last();
        let olds = crate::path::string_views(last.old@);
        let all = mapping_cids(m);
        assert(all == front + seq![last.new@] + olds);
        assert forall|k: int| 0 <= k < front.len() implies valid_hex_uid(#[trigger] front[k]) by {
            assert(all[k] == front[k]);
        }
        lemma_mapping_cids_valid(m.drop_last());
        assert(all[front.len() as int] == last.new@);
        assert forall|k: int| 0 <= k < last.old@.len() implies valid_hex_uid(
            #[trigger] last.old@[k]@,
        ) by {
            assert(all[front.len() + 1 + k] == olds[k]);
        }
        assert forall|i: int| 0 <= i < m.len() implies valid_mapping(#[trigger] m[i]) by {
            if i < m.len() - 1 {
                assert(m[i] == m.drop_last()[i]);
            }
        }
    }
}

pub open spec fn valid_mapping(m: CompatibilityMapping) -> bool {
    &&& valid_hex_uid(m.new@)
    &&& forall|k: int| 0 <= k < m.old@.len() ==> valid_hex_uid(#[trigger] m.old@[k]@)
}

fn rewrite_strings(old: &Vec<String>) -> (r: Vec<String>)
    requires
        forall|k: int| 0 <= k < old@.len() ==> valid_hex_uid(#[trigger] old@[k]@),
    ensures
        rewrote_strings(old@, r@),
{
    let mut r: Vec<String> = Vec::new();
    let mut i: usize = 0;
    while i < old.len()
        invariant
            i <= old@.len(),
            forall|k: int| 0 <= k < old@.len() ==> valid_hex_uid(#[trigger] old@[k]@),
            r@.len() == i,
            forall|k: int| 0 <= k < i ==> (#[trigger] r@[k])@ == rewritten_cid(old@[k]@),
        decreases old@.len() - i,
    {
        r.push(rewrite_cid(&old[i]));
        i = i + 1;
    }
    r
}

fn rewrite_mappings(mappings: Vec<CompatibilityMapping>) -> (r: Vec<CompatibilityMapping>)
    requires
        forall|i: int| 0 <= i < mappings@.len() ==> valid_mapping(#[trigger] mappings@[i]),
    ensures
        rewrote_mappings(mappings@, r@),
{
    let ghost orig = mappings@;
    let mut rest = mappings;
    let mut out: Vec<CompatibilityMapping> = Vec::new();
    while rest.len() > 0
        invariant
            rest@ == orig.subrange(0, rest@.len() as int),
            rest@.len() <= orig.len(),
            forall|i: int| 0 <= i < orig.len() ==> valid_mapping(#[trigger] orig[i]),
            rewrote_mappings(orig.subrange(rest@.len() as int, orig.len() as int), out@),
        decreases rest@.len(),
    {
        let n = rest.len();
        let m = match rest.pop() {
            Some(m) => m,
            None => {
                assert(false);
                return out;
            },
        };
        assert(m == orig[n - 1]);
        assert(valid_mapping(orig[n - 1]));
        let new = rewrite_cid(&m.new);
        let old = rewrite_strings(&m.old);
        let ghost out0 = out@;
        out.insert(0, CompatibilityMapping { new, old, other: m.other });
        assert forall|i: int| 0 <= i < orig.len() - (n - 1) implies {
            &&& (#[trigger] out@[i]).new@ == rewritten_cid(orig.subrange(n - 1, orig.len() as int)[i].new@)
            &&& rewrote_strings(orig.subrange(n - 1, orig.len() as int)[i].old@, out@[i].old@)
            &&& out@[i].other == orig.subrange(n - 1, orig.len() as int)[i].other
        } by {
            if i > 0 {
                assert(out@[i] == out0[i - 1]);
                assert(orig.subrange(n - 1, orig.len() as int)[i] == orig.subrange(
                    n as int,
                    orig.len() as int,
                )[i - 1]);
            }
        }
    }
    assert(orig.subrange(0, orig.len() as int) =~= orig);
    out
}

fn rewrite_classes(classes: Vec<Class>) -> (r: Vec<Class>)
    requires
        forall|i: int| 0 <= i < classes@.len() ==> valid_hex_uid(#[trigger] classes@[i].cid@),
    ensures
        rewrote_classes(classes@, r@),
{
    let ghost orig = classes@;
    let mut rest = classes;
    let mut out: Vec<Class> = Vec::new();
    while rest.len() > 0
        invariant
            rest@ == orig.subrange(0, rest@.len() as int),
            rest@.len() <= orig.len(),
            forall|i: int| 0 <= i < orig.len() ==> valid_hex_uid(#[trigger] orig[i].cid@),
            rewrote_classes(orig.subrange(rest@.len() as int, orig.len() as int), out@),
        decreases rest@.len(),
    {
        let n = rest.len();
        let c = match rest.pop() {
            Some(c) => c,
            None => {
                assert(false);
                return out;
            },
        };
        assert(c == orig[n - 1]);
        let cid = rewrite_cid(&c.cid);
        let ghost out0 = out@;
        out.insert(0, Class { cid, other: c.other });
        assert forall|i: int| 0 <= i < orig.len() - (n - 1) implies (#[trigger] out@[i]).cid@
            == rewritten_cid(orig.subrange(n - 1, orig.len() as int)[i].cid@) && out@[i].other
            == orig.subrange(n - 1, orig.len() as int)[i].other by {
            if i > 0 {
                assert(out@[i] == out0[i - 1]);
                assert(orig.subrange(n - 1, orig.len() as int)[i] == orig.subrange(
                    n as int,
                    orig.len() as int,
                )[i - 1]);
            }
        }
    }
    assert(orig.subrange(0, orig.len() as int) =~= orig);
    out
}

} // verus!
