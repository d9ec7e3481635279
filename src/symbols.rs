//! What a Windows PE32(+) library exports, and whether it is 64-bit: read by
//! goblin, or else from the text that `winedump` prints for the library.
use vstd::prelude::*;
use vstd::utf8::{decode_utf8, valid_utf8};

use crate::path::string_views;
use crate::text::{bytes_views, lines, split_words, split_lines, starts_with, trim, trim_bytes, trim_start, words, has_prefix};

verus! {

/// The exported names and the word size of a PE32(+) library.
#[derive(Debug, Clone)]
pub struct Pe32Info {
    /// The names of the exported symbols.
    pub exports: Vec<String>,
    /// Whether this is a PE32+ (64-bit) library.
    pub is_64_bit: bool,
}

/// Why `winedump`'s output could not be read.
#[derive(Debug, Clone, Copy, PartialEq, Eq, Structural)]
pub enum WinedumpError {
    /// No `Machine:` line in the header listing.
    NoMachineLine,
    /// A row of the export table has fewer than three words.
    MalformedExportLine,
    /// A line of the export listing is not UTF-8.
    InvalidText,
}

/// Why a library could not be read.
#[derive(Debug, Clone, PartialEq, Eq)]
pub enum Pe32Error {
    /// goblin could not parse it (its message), and no `winedump` output was given.
    NotParsed { goblin: String },
    /// goblin could not parse it (its message), and neither could `winedump`'s output be read.
    BothFailed { goblin: String, winedump: WinedumpError },
}

/// What goblin's PE parser makes of some bytes: the names of the export table's entries
/// (where an entry has one) and the PE32+ flag, or `None` where it refuses them.
pub uninterp spec fn goblin_pe_exports(bytes: Seq<u8>) -> Option<(Seq<Option<Seq<char>>>, bool)>;

pub open spec fn opt_string_views(v: Seq<Option<String>>) -> Seq<Option<Seq<char>>> {
    v.map_values(
        |o: Option<String>|
            match o {
                Some(s) => Some(s@),
                None => None,
            },
    )
}

/// The entries that have a name, in order.
pub open spec fn named_exports(names: Seq<Option<Seq<char>>>) -> Seq<Seq<char>>
    decreases names.len(),
{
    if names.len() == 0 {
        Seq::empty()
    } else {
        let rest = named_exports(names.drop_last());
        match names.last() {
            Some(n) => rest.push(n),
            None => rest,
        }
    }
}

/// Relies on `goblin::pe::PE::parse`: whether it accepts the bytes, the names in the
/// export table and the `is_64` flag depend on the bytes alone.
#[verifier::external_body]
fn goblin_parse(bytes: &[u8]) -> (r: Result<(Vec<Option<String>>, bool), String>)
    ensures
        r is Ok <==> goblin_pe_exports(bytes@) is Some,
        r matches Ok((names, is_64)) ==> goblin_pe_exports(bytes@) == Some(
            (opt_string_views(names@), is_64),
        ),
{
    match goblin::pe::PE::parse(bytes) {
        Ok(pe) => Ok((pe.exports.iter().map(|e| e.name.map(String::from)).collect(), pe.is_64)),
        Err(e) => Err(e.to_string()),
    }
}

/// Relies on `std::str::from_utf8`: it accepts exactly the valid UTF-8 byte strings, and
/// the text it returns is what they encode.
#[verifier::external_body]
fn utf8_text(bytes: &[u8]) -> (r: Option<&str>)
    ensures
        r is Some <==> valid_utf8(bytes@),
        r matches Some(s) ==> s@ == decode_utf8(bytes@),
{
    std::str::from_utf8(bytes).ok()
}

/// Reads a library with goblin.
pub fn parse_pe32_goblin(bytes: &[u8]) -> (r: Result<Pe32Info, String>)
    ensures
        r is Ok <==> goblin_pe_exports(bytes@) is Some,
        goblin_pe_exports(bytes@) matches Some((names, is_64)) ==> (r matches Ok(info)
            && string_views(info.exports@) == named_exports(names) && info.is_64_bit == is_64),
{
    match goblin_parse(bytes) {
        Ok((names, is_64_bit)) => {
            let ghost all = opt_string_views(names@);
            let mut exports: Vec<String> = Vec::new();
            let mut i: usize = 0;
            while i < names.len()
                invariant
                    all == opt_string_views(names@),
                    i <= names@.len(),
                    string_views(exports@) == named_exports(all.subrange(0, i as int)),
                decreases names@.len() - i,
            {
                let ghost before = exports@;
                assert(all.subrange(0, i + 1).drop_last() =~= all.subrange(0, i as int));
                match &names[i] {
                    Some(n) => {
                        exports.push(n.clone());
                        assert(string_views(exports@) =~= string_views(before).push(n@));
                    },
                    None => {},
                }
                i = i + 1;
            }
            assert(all.subrange(0, names@.len() as int) =~= all);
            Ok(Pe32Info { exports, is_64_bit })
        },
        Err(e) => Err(e),
    }
}

/// `Machine:`
pub open spec fn machine_label() -> Seq<u8> {
    seq![77u8, 97u8, 99u8, 104u8, 105u8, 110u8, 101u8, 58u8]
}

/// `014C`, the machine type of 32-bit x86.
pub open spec fn i386_machine() -> Seq<u8> {
    seq![48u8, 49u8, 52u8, 67u8]
}

/// `Entry Pt`, the start of the header line of the export table.
pub open spec fn export_table_header() -> Seq<u8> {
    seq![69u8, 110u8, 116u8, 114u8, 121u8, 32u8, 80u8, 116u8]
}

/// From the first UTF-8 line whose text starts with `Machine:`: whether the machine
/// type after the label is anything but `014C`. `None` where no line starts so.
pub open spec fn machine_is_64_bit(ls: Seq<Seq<u8>>) -> Option<bool>
    decreases ls.len(),
{
    if ls.len() == 0 {
        None
    } else {
        let t = trim_start(ls[0]);
        if valid_utf8(ls[0]) && starts_with(t, machine_label()) {
            Some(!starts_with(trim(t.subrange(8, t.len() as int)), i386_machine()))
        } else {
            machine_is_64_bit(ls.drop_first())
        }
    }
}

/// The symbol names of an export listing, read from the given lines on. Before the
/// table (`in_table` false) a line that starts with `Entry Pt` starts it; in the table each
/// row gives its third word, and the first empty line ends it. Every line read must be
/// UTF-8.
pub open spec fn export_rows(ls: Seq<Seq<u8>>, in_table: bool) -> Result<Seq<Seq<char>>, WinedumpError>
    decreases ls.len(),
{
    if ls.len() == 0 {
        Ok(Seq::empty())
    } else if !valid_utf8(ls[0]) {
        Err(WinedumpError::InvalidText)
    } else {
        let t = trim(ls[0]);
        if in_table {
            if t.len() == 0 {
                Ok(Seq::empty())
            } else if words(t).len() < 3 {
                Err(WinedumpError::MalformedExportLine)
            } else if !valid_utf8(words(t)[2]) {
                Err(WinedumpError::InvalidText)
            } else {
                prepend_rows(seq![decode_utf8(words(t)[2])], export_rows(ls.drop_first(), true))
            }
        } else {
            export_rows(ls.drop_first(), starts_with(t, export_table_header()))
        }
    }
}

pub open spec fn prepend_rows(
    first: Seq<Seq<char>>,
    rest: Result<Seq<Seq<char>>, WinedumpError>,
) -> Result<Seq<Seq<char>>, WinedumpError> {
    match rest {
        Ok(r) => Ok(first + r),
        Err(e) => Err(e),
    }
}

/// What `winedump`'s two listings say of a library: the header listing gives the word
/// size, the export listing the names.
pub open spec fn winedump_info(
    header: Seq<u8>,
    exports: Seq<u8>,
) -> Result<(Seq<Seq<char>>, bool), WinedumpError> {
    match machine_is_64_bit(split_lines(header)) {
        None => Err(WinedumpError::NoMachineLine),
        Some(is_64) => match export_rows(split_lines(exports), false) {
            Ok(names) => Ok((names, is_64)),
            Err(e) => Err(e),
        },
    }
}

/// Reads the word size from `winedump`'s header listing.
pub fn winedump_machine(header: &[u8]) -> (r: Option<bool>)
    ensures
        r == machine_is_64_bit(split_lines(header@)),
{
    let ls = lines(header);
    let ghost all = bytes_views(ls@);
    let label: [u8; 8] = [77, 97, 99, 104, 105, 110, 101, 58];
    let i386: [u8; 4] = [48, 49, 52, 67];
    assert(label@ =~= machine_label());
    assert(i386@ =~= i386_machine());
    let mut i: usize = 0;
    assert(all.subrange(0, all.len() as int) =~= all);
    while i < ls.len()
        invariant
            all == bytes_views(ls@),
            all == split_lines(header@),
            i <= ls@.len(),
            label@ == machine_label(),
            i386@ == i386_machine(),
            machine_is_64_bit(all) == machine_is_64_bit(all.subrange(i as int, all.len() as int)),
        decreases ls@.len() - i,
    {
        let line = &ls[i];
        let ghost rest = all.subrange(i as int, all.len() as int);
        assert(rest[0] == line@);
        if utf8_text(line.as_slice()).is_some() {
            let t = trim_start_bytes(line.as_slice());
            if has_prefix(t.as_slice(), label.as_slice()) {
                let value = copy_tail(t.as_slice(), 8);
                let value = trim_bytes(value.as_slice());
                return Some(!has_prefix(value.as_slice(), i386.as_slice()));
            }
        }
        assert(rest.drop_first() =~= all.subrange(i + 1, all.len() as int));
        i = i + 1;
    }
    None
}

fn copy_tail(s: &[u8], from: usize) -> (r: Vec<u8>)
    requires
        from <= s@.len(),
    ensures
        r@ == s@.subrange(from as int, s@.len() as int),
{
    let mut r: Vec<u8> = Vec::new();
    let mut k = from;
    while k < s.len()
        invariant
            from <= k <= s@.len(),
            r@ =~= s@.subrange(from as int, k as int),
        decreases s@.len() - k,
    {
        r.push(s[k]);
        k = k + 1;
    }
    r
}

fn trim_start_bytes(s: &[u8]) -> (r: Vec<u8>)
    ensures
        r@ == trim_start(s@),
{
    let n = s.len();
    let mut a: usize = 0;
    while a < n && (s[a] == 9 || s[a] == 10 || s[a] == 12 || s[a] == 13 || s[a] == 32)
        invariant
            a <= n,
            n == s@.len(),
            forall|k: int| 0 <= k < a ==> crate::text::is_ascii_ws(s@[k]),
        decreases n - a,
    {
        a = a + 1;
    }
    proof {
        crate::text::lemma_lead_ws(s@, a as int);
    }
    copy_tail(s, a)
}

/// Reads the exported names from `winedump`'s export listing.
pub fn winedump_exports(listing: &[u8]) -> (r: Result<Vec<String>, WinedumpError>)
    ensures
        match r {
            Ok(names) => export_rows(split_lines(listing@), false) == Ok::<
                Seq<Seq<char>>,
                WinedumpError,
            >(string_views(names@)),
            Err(e) => export_rows(split_lines(listing@), false) == Err::<
                Seq<Seq<char>>,
                WinedumpError,
            >(e),
        },
{
    let ls = lines(listing);
    let ghost all = bytes_views(ls@);
    let header: [u8; 8] = [69, 110, 116, 114, 121, 32, 80, 116];
    assert(header@ =~= export_table_header());
    let mut in_table = false;
    let mut names: Vec<String> = Vec::new();
    let mut i: usize = 0;
    assert(all.subrange(0, all.len() as int) =~= all);
    assert(string_views(names@) =~= Seq::<Seq<char>>::empty());
    while i < ls.len()
        invariant
            all == bytes_views(ls@),
            all == split_lines(listing@),
            i <= ls@.len(),
            header@ == export_table_header(),
            export_rows(all, false) == prepend_rows(
                string_views(names@),
                export_rows(all.subrange(i as int, all.len() as int), in_table),
            ),
        decreases ls@.len() - i,
    {
        let line = &ls[i];
        let ghost rest = all.subrange(i as int, all.len() as int);
        assert(rest[0] == line@);
        assert(rest.drop_first() =~= all.subrange(i + 1, all.len() as int));
        if utf8_text(line.as_slice()).is_none() {
            return Err(WinedumpError::InvalidText);
        }
        let t = trim_bytes(line.as_slice());
        if in_table {
            if t.len() == 0 {
                assert(string_views(names@) + Seq::<Seq<char>>::empty() =~= string_views(names@));
                return Ok(names);
            }
            let ws = split_words(t.as_slice());
            if ws.len() < 3 {
                return Err(WinedumpError::MalformedExportLine);
            }
            assert(bytes_views(ws@)[2] == ws@[2]@);
            match utf8_text(ws[2].as_slice()) {
                Some(name) => {
                    let ghost before = string_views(names@);
                    let ghost tail = export_rows(all.subrange(i + 1, all.len() as int), true);
                    names.push(String::from_str(name));
                    assert(string_views(names@) =~= before + seq![name@]);
                    assert(prepend_rows(before, prepend_rows(seq![name@], tail)) == prepend_rows(
                        string_views(names@),
                        tail,
                    )) by {
                        match tail {
                            Ok(x) => {
                                assert(before + (seq![name@] + x) =~= string_views(names@) + x);
                            },
                            Err(_) => {},
                        }
                    }
                },
                None => {
                    return Err(WinedumpError::InvalidText);
                },
            }
        } else {
            in_table = has_prefix(t.as_slice(), header.as_slice());
        }
        i = i + 1;
    }
    assert(string_views(names@) + Seq::<Seq<char>>::empty() =~= string_views(names@));
    Ok(names)
}

/// Reads `winedump`'s two listings of a library.
pub fn parse_pe32_winedump(header: &[u8], exports: &[u8]) -> (r: Result<Pe32Info, WinedumpError>)
    ensures
        match r {
            Ok(info) => winedump_info(header@, exports@) == Ok::<
                (Seq<Seq<char>>, bool),
                WinedumpError,
            >((string_views(info.exports@), info.is_64_bit)),
            Err(e) => winedump_info(header@, exports@) == Err::<
                (Seq<Seq<char>>, bool),
                WinedumpError,
            >(e),
        },
{
    let is_64_bit = match winedump_machine(header) {
        Some(b) => b,
        None => {
            return Err(WinedumpError::NoMachineLine);
        },
    };
    let names = winedump_exports(exports)?;
    Ok(Pe32Info { exports: names, is_64_bit })
}

/// The outcome of a reading that fell back on `winedump`, against what its listings say.
pub open spec fn fallback_agrees(
    r: Result<Pe32Info, Pe32Error>,
    w: Result<(Seq<Seq<char>>, bool), WinedumpError>,
) -> bool {
    match r {
        Ok(info) => w == Ok::<(Seq<Seq<char>>, bool), WinedumpError>(
            (string_views(info.exports@), info.is_64_bit),
        ),
        Err(Pe32Error::BothFailed { winedump, .. }) => w == Err::<
            (Seq<Seq<char>>, bool),
            WinedumpError,
        >(winedump),
        Err(Pe32Error::NotParsed { .. }) => false,
    }
}

/// Reads a library with goblin, and where goblin refuses it, from the `winedump`
/// listings (header, exports) where they are given. The first reading that succeeds wins.
pub fn parse_pe32_binary(bytes: &[u8], winedump: Option<(&[u8], &[u8])>) -> (r: Result<
    Pe32Info,
    Pe32Error,
>)
    ensures
        goblin_pe_exports(bytes@) matches Some((names, is_64)) ==> (r matches Ok(info)
            && string_views(info.exports@) == named_exports(names) && info.is_64_bit == is_64),
        goblin_pe_exports(bytes@) is None && winedump is None ==> r matches Err(
            Pe32Error::NotParsed { .. },
        ),
        winedump matches Some((h, e)) ==> (goblin_pe_exports(bytes@) is None ==> fallback_agrees(
            r,
            winedump_info(h@, e@),
        )),
{
    match parse_pe32_goblin(bytes) {
        Ok(info) => Ok(info),
        Err(goblin) => match winedump {
            None => Err(Pe32Error::NotParsed { goblin }),
            Some((header, exports)) => match parse_pe32_winedump(header, exports) {
                Ok(info) => Ok(info),
                Err(winedump) => Err(Pe32Error::BothFailed { goblin, winedump }),
            },
        },
    }
}

} // verus!
