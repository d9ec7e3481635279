//! What the bridge learns from files and programs around it: the word size of
//! its own native libraries and of the default Wine prefix, and whether the Wine
//! host program runs.
use vstd::prelude::*;

use crate::plugin::LibArchitecture;
use crate::text::{bytes_views, has_prefix, lines, split_lines, starts_with};

verus! {

/// Why an ELF header gives no architecture.
#[derive(Debug, Clone, Copy, PartialEq, Eq, Structural)]
pub enum ElfError {
    /// Fewer than the 20 bytes that hold the machine field.
    TooShort,
    /// A machine field other than x86 (3) or x86-64 (62), with its value.
    UnknownMachine(u16),
}

/// The `e_machine` field: two bytes at offset 18, little endian where byte 5
/// (`EI_DATA`) is 1, big endian otherwise.
pub open spec fn elf_machine(b: Seq<u8>) -> int {
    if b[5] == 1 {
        b[18] as int + 256 * b[19] as int
    } else {
        256 * b[18] as int + b[19] as int
    }
}

/// Reads the architecture from the start of an ELF file.
pub fn get_elf_architecture(header: &[u8]) -> (r: Result<LibArchitecture, ElfError>)
    ensures
        header@.len() < 20 ==> r == Err::<LibArchitecture, ElfError>(ElfError::TooShort),
        header@.len() >= 20 ==> match r {
            Ok(LibArchitecture::Lib32) => elf_machine(header@) == 3,
            Ok(LibArchitecture::Lib64) => elf_machine(header@) == 62,
            Err(ElfError::UnknownMachine(m)) => m as int == elf_machine(header@)
                && m != 3 && m != 62,
            Err(ElfError::TooShort) => false,
        },
{
    if header.len() < 20 {
        return Err(ElfError::TooShort);
    }
    let machine: u16 = if header[5] == 1 {
        header[18] as u16 + 256 * header[19] as u16
    } else {
        256 * header[18] as u16 + header[19] as u16
    };
    if machine == 3 {
        Ok(LibArchitecture::Lib32)
    } else if machine == 62 {
        Ok(LibArchitecture::Lib64)
    } else {
        Err(ElfError::UnknownMachine(machine))
    }
}

/// `#arch=win32`
pub open spec fn win32_marker() -> Seq<u8> {
    seq![35u8, 97u8, 114u8, 99u8, 104u8, 61u8, 119u8, 105u8, 110u8, 51u8, 50u8]
}

/// `#arch=win64`
pub open spec fn win64_marker() -> Seq<u8> {
    seq![35u8, 97u8, 114u8, 99u8, 104u8, 61u8, 119u8, 105u8, 110u8, 54u8, 52u8]
}

/// The word size a prefix's `system.reg` declares, read from the given lines on: 32-bit
/// where a `#arch=win32` line comes before any `#arch=win64` line, 64-bit otherwise.
pub open spec fn prefix_arch(ls: Seq<Seq<u8>>) -> LibArchitecture
    decreases ls.len(),
{
    if ls.len() == 0 {
        LibArchitecture::Lib64
    } else if ls[0] == win32_marker() {
        LibArchitecture::Lib32
    } else if ls[0] == win64_marker() {
        LibArchitecture::Lib64
    } else {
        prefix_arch(ls.drop_first())
    }
}

fn same_bytes(a: &[u8], b: &[u8]) -> (r: bool)
    ensures
        r == (a@ == b@),
{
    if a.len() != b.len() {
        return false;
    }
    let mut i: usize = 0;
    while i < a.len()
        invariant
            a@.len() == b@.len(),
            i <= a@.len(),
            forall|k: int| 0 <= k < i ==> a@[k] == b@[k],
        decreases a@.len() - i,
    {
        if a[i] != b[i] {
            return false;
        }
        i = i + 1;
    }
    assert(a@ =~= b@);
    true
}

/// Reads the word size of a Wine prefix from the contents of its `system.reg`.
pub fn wine_prefix_arch(system_reg: &[u8]) -> (r: LibArchitecture)
    ensures
        r == prefix_arch(split_lines(system_reg@)),
{
    let ls = lines(system_reg);
    let ghost all = bytes_views(ls@);
    let win32: [u8; 11] = [35, 97, 114, 99, 104, 61, 119, 105, 110, 51, 50];
    let win64: [u8; 11] = [35, 97, 114, 99, 104, 61, 119, 105, 110, 54, 52];
    assert(win32@ =~= win32_marker());
    assert(win64@ =~= win64_marker());
    let mut i: usize = 0;
    assert(all.subrange(0, all.len() as int) =~= all);
    while i < ls.len()
        invariant
            all == bytes_views(ls@),
            all == split_lines(system_reg@),
            i <= ls@.len(),
            win32@ == win32_marker(),
            win64@ == win64_marker(),
            prefix_arch(all) == prefix_arch(all.subrange(i as int, all.len() as int)),
        decreases ls@.len() - i,
    {
        let ghost rest = all.subrange(i as int, all.len() as int);
        assert(rest[0] == ls@[i as int]@);
        if same_bytes(ls[i].as_slice(), win32.as_slice()) {
            return LibArchitecture::Lib32;
        }
        if same_bytes(ls[i].as_slice(), win64.as_slice()) {
            return LibArchitecture::Lib64;
        }
        assert(rest.drop_first() =~= all.subrange(i + 1, all.len() as int));
        i = i + 1;
    }
    LibArchitecture::Lib64
}

/// `Usage: yabridge-`, the start of what the host prints when it runs.
pub open spec fn usage_prefix() -> Seq<u8> {
    seq![85u8, 115u8, 97u8, 103u8, 101u8, 58u8, 32u8, 121u8, 97u8, 98u8, 114u8, 105u8, 100u8, 103u8, 101u8, 45u8]
}

/// `fixme`
pub open spec fn fixme_marker() -> Seq<u8> {
    seq![102u8, 105u8, 120u8, 109u8, 101u8]
}

/// A Wine `fixme` message: bytes 5 to 10 of the line spell `fixme`.
pub open spec fn is_fixme_line(l: Seq<u8>) -> bool {
    l.len() >= 10 && l.subrange(5, 10) == fixme_marker()
}

/// Reading the host's error output from the given lines on, with `last` the last line
/// that was not a `fixme` message: whether a line starts with the usage text (the host
/// ran), and the last such line before it.
pub open spec fn host_check(ls: Seq<Seq<u8>>, last: Option<Seq<u8>>) -> (bool, Option<Seq<u8>>)
    decreases ls.len(),
{
    if ls.len() == 0 {
        (false, last)
    } else if starts_with(ls[0], usage_prefix()) {
        (true, last)
    } else {
        host_check(ls.drop_first(), if is_fixme_line(ls[0]) { last } else { Some(ls[0]) })
    }
}

/// What the host program printed to its error output.
pub struct HostOutput {
    /// It printed its usage text: it runs.
    pub success: bool,
    /// The last line before that (or at all) that is not a `fixme` message.
    pub last_error: Option<Vec<u8>>,
}

pub open spec fn opt_bytes_view(o: Option<Vec<u8>>) -> Option<Seq<u8>> {
    match o {
        Some(v) => Some(v@),
        None => None,
    }
}

fn copy_bytes(s: &[u8]) -> (r: Vec<u8>)
    ensures
        r@ == s@,
{
    let mut r: Vec<u8> = Vec::new();
    let mut i: usize = 0;
    while i < s.len()
        invariant
            i <= s@.len(),
            r@ =~= s@.subrange(0, i as int),
        decreases s@.len() - i,
    {
        r.push(s[i]);
        i = i + 1;
    }
    r
}

/// Reads the error output of a run of the Wine host program.
pub fn check_host_output(stderr: &[u8]) -> (r: HostOutput)
    ensures
        (r.success, opt_bytes_view(r.last_error)) == host_check(split_lines(stderr@), None),
{
    let ls = lines(stderr);
    let ghost all = bytes_views(ls@);
    let usage: [u8; 16] = [85, 115, 97, 103, 101, 58, 32, 121, 97, 98, 114, 105, 100, 103, 101, 45];
    assert(usage@ =~= usage_prefix());
    let mut last: Option<Vec<u8>> = None;
    let mut i: usize = 0;
    assert(all.subrange(0, all.len() as int) =~= all);
    while i < ls.len()
        invariant
            all == bytes_views(ls@),
            all == split_lines(stderr@),
            i <= ls@.len(),
            usage@ == usage_prefix(),
            host_check(all, None) == host_check(all.subrange(i as int, all.len() as int), opt_bytes_view(last)),
        decreases ls@.len() - i,
    {
        let ghost rest = all.subrange(i as int, all.len() as int);
        let line = ls[i].as_slice();
        assert(rest[0] == line@);
        if has_prefix(line, usage.as_slice()) {
            return HostOutput { success: true, last_error: last };
        }
        let fixme = line.len() >= 10 && line[5] == 102 && line[6] == 105 && line[7] == 120
            && line[8] == 109 && line[9] == 101;
        assert(fixme == is_fixme_line(line@)) by {
            if line@.len() >= 10 {
                if fixme {
                    assert(line@.subrange(5, 10) =~= fixme_marker());
                } else {
                    assert(line@.subrange(5, 10) != fixme_marker()) by {
                        if line@.subrange(5, 10) == fixme_marker() {
                            assert(line@.subrange(5, 10)[0] == line@[5]);
                            assert(line@.subrange(5, 10)[1] == line@[6]);
                            assert(line@.subrange(5, 10)[2] == line@[7]);
                            assert(line@.subrange(5, 10)[3] == line@[8]);
                            assert(line@.subrange(5, 10)[4] == line@[9]);
                        }
                    }
                }
            }
        }
        if !fixme {
            last = Some(copy_bytes(line));
        }
        assert(rest.drop_first() =~= all.subrange(i + 1, all.len() as int));
        i = i + 1;
    }
    HostOutput { success: false, last_error: last }
}

} // verus!
