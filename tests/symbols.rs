use yabridgectl::probe::{check_host_output, get_elf_architecture, wine_prefix_arch, ElfError};
use yabridgectl::plugin::LibArchitecture;
use yabridgectl::symbols::{parse_pe32_binary, parse_pe32_goblin, parse_pe32_winedump, Pe32Error, WinedumpError};

const HEADER_64: &str = "Contents of test.dll: 1000 bytes\n\nFile Header\n  Machine:                      8664 (AMD64)\n  Number of Sections:           6\n";
const HEADER_32: &str = "File Header\r\n  Machine:                      014C (i386)\r\n";
const EXPORTS: &str = "Exports table:\n\n  Name:            test.dll\n  Entry Pt  Ordn  Name\n  00001000     1 VSTPluginMain\n  00001010     2 main\n\nDone dumping\n  00002000     3 NotAnExport\n";

#[test]
fn winedump_listings_are_read() {
    let info = parse_pe32_winedump(HEADER_64.as_bytes(), EXPORTS.as_bytes()).unwrap();
    assert!(info.is_64_bit);
    assert_eq!(info.exports, vec![String::from("VSTPluginMain"), String::from("main")]);
    let info32 = parse_pe32_winedump(HEADER_32.as_bytes(), EXPORTS.as_bytes()).unwrap();
    assert!(!info32.is_64_bit);
}

#[test]
fn winedump_errors() {
    assert_eq!(
        parse_pe32_winedump(b"no header here\n", EXPORTS.as_bytes()).unwrap_err(),
        WinedumpError::NoMachineLine
    );
    assert_eq!(
        parse_pe32_winedump(HEADER_64.as_bytes(), b"Entry Pt  Ordn  Name\n  00001000 1\n").unwrap_err(),
        WinedumpError::MalformedExportLine
    );
    assert_eq!(
        parse_pe32_winedump(HEADER_64.as_bytes(), b"Entry Pt\n  00001000 1 \xff\xfe\n").unwrap_err(),
        WinedumpError::InvalidText
    );
    // No table at all: no exports.
    assert_eq!(parse_pe32_winedump(HEADER_64.as_bytes(), b"nothing\n").unwrap().exports.len(), 0);
}

#[test]
fn goblin_refuses_garbage() {
    let garbage = b"this is not a PE32 image at all".to_vec();
    assert!(parse_pe32_goblin(&garbage).is_err());
    match parse_pe32_binary(&garbage, None) {
        Err(Pe32Error::NotParsed { .. }) => {}
        other => panic!("unexpected {:?}", other),
    }
    let fallback = parse_pe32_binary(&garbage, Some((HEADER_64.as_bytes(), EXPORTS.as_bytes()))).unwrap();
    assert_eq!(fallback.exports.len(), 2);
    match parse_pe32_binary(&garbage, Some((b"".as_slice(), b"".as_slice()))) {
        Err(Pe32Error::BothFailed { winedump, .. }) => assert_eq!(winedump, WinedumpError::NoMachineLine),
        other => panic!("unexpected {:?}", other),
    }
}

#[test]
fn elf_architectures() {
    let mut header = vec![0u8; 64];
    header[5] = 1;
    header[18] = 0x3e;
    assert_eq!(get_elf_architecture(&header), Ok(LibArchitecture::Lib64));
    header[18] = 0x03;
    assert_eq!(get_elf_architecture(&header), Ok(LibArchitecture::Lib32));
    header[5] = 2;
    header[18] = 0;
    header[19] = 0x3e;
    assert_eq!(get_elf_architecture(&header), Ok(LibArchitecture::Lib64));
    header[19] = 0x28;
    assert_eq!(get_elf_architecture(&header), Err(ElfError::UnknownMachine(0x28)));
    assert_eq!(get_elf_architecture(&header[..10]), Err(ElfError::TooShort));
}

#[test]
fn wine_prefix_architecture() {
    assert_eq!(wine_prefix_arch(b"WINE REGISTRY Version 2\n#arch=win32\n"), LibArchitecture::Lib32);
    assert_eq!(wine_prefix_arch(b"WINE REGISTRY Version 2\n#arch=win64\n#arch=win32\n"), LibArchitecture::Lib64);
    assert_eq!(wine_prefix_arch(b""), LibArchitecture::Lib64);
}

#[test]
fn host_output_is_checked() {
    let ok = check_host_output(b"0024:fixme:ntdll:something\nerr: first\nUsage: yabridge-host.exe <socket>\nerr: later\n");
    assert!(ok.success);
    assert_eq!(ok.last_error, Some(b"err: first".to_vec()));
    let failed = check_host_output(b"002b:err:module:__wine_process_init failed\n0024:fixme:x\n");
    assert!(!failed.success);
    assert_eq!(failed.last_error, Some(b"002b:err:module:__wine_process_init failed".to_vec()));
    let empty = check_host_output(b"");
    assert!(!empty.success);
    assert_eq!(empty.last_error, None);
}

fn put_u16(b: &mut [u8], at: usize, v: u16) {
    b[at..at + 2].copy_from_slice(&v.to_le_bytes());
}

fn put_u32(b: &mut [u8], at: usize, v: u32) {
    b[at..at + 4].copy_from_slice(&v.to_le_bytes());
}

/// A minimal 32-bit PE library with one section that holds an export table of one name.
fn tiny_pe32_library(export: &str) -> Vec<u8> {
    let mut b = vec![0u8; 0x400];
    b[0] = b'M';
    b[1] = b'Z';
    put_u32(&mut b, 0x3c, 0x40);
    b[0x40..0x44].copy_from_slice(b"PE\0\0");
    // COFF header
    put_u16(&mut b, 0x44, 0x14c);
    put_u16(&mut b, 0x46, 1);
    put_u16(&mut b, 0x54, 0xe0);
    put_u16(&mut b, 0x56, 0x2102);
    // Optional header (PE32)
    let opt = 0x58;
    put_u16(&mut b, opt, 0x10b);
    put_u32(&mut b, opt + 28, 0x1000_0000);
    put_u32(&mut b, opt + 32, 0x1000);
    put_u32(&mut b, opt + 36, 0x200);
    put_u16(&mut b, opt + 40, 4);
    put_u16(&mut b, opt + 48, 4);
    put_u32(&mut b, opt + 56, 0x2000);
    put_u32(&mut b, opt + 60, 0x200);
    put_u16(&mut b, opt + 68, 2);
    put_u32(&mut b, opt + 92, 16);
    // Export table directory entry
    put_u32(&mut b, opt + 96, 0x1000);
    put_u32(&mut b, opt + 100, 0x80);
    // Section table
    let sec = opt + 0xe0;
    b[sec..sec + 6].copy_from_slice(b".edata");
    put_u32(&mut b, sec + 8, 0x200);
    put_u32(&mut b, sec + 12, 0x1000);
    put_u32(&mut b, sec + 16, 0x200);
    put_u32(&mut b, sec + 20, 0x200);
    put_u32(&mut b, sec + 36, 0x4000_0040);
    // Export directory at RVA 0x1000, file offset 0x200
    let ed = 0x200;
    put_u32(&mut b, ed + 12, 0x1040);
    put_u32(&mut b, ed + 16, 1);
    put_u32(&mut b, ed + 20, 1);
    put_u32(&mut b, ed + 24, 1);
    put_u32(&mut b, ed + 28, 0x1028);
    put_u32(&mut b, ed + 32, 0x102c);
    put_u32(&mut b, ed + 36, 0x1030);
    put_u32(&mut b, 0x228, 0x1100);
    put_u32(&mut b, 0x22c, 0x1050);
    put_u16(&mut b, 0x230, 0);
    b[0x240..0x249].copy_from_slice(b"test.dll\0");
    b[0x250..0x250 + export.len()].copy_from_slice(export.as_bytes());
    b
}

#[test]
fn goblin_reads_export_names() {
    let bytes = tiny_pe32_library("VSTPluginMain");
    let info = parse_pe32_binary(&bytes, None).unwrap();
    assert!(!info.is_64_bit);
    assert_eq!(info.exports, vec![String::from("VSTPluginMain")]);
    let other = parse_pe32_goblin(&tiny_pe32_library("clap_entry")).unwrap();
    assert_eq!(other.exports, vec![String::from("clap_entry")]);
}
