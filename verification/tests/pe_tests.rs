use hoontr::scan::{scan_file, ScanRequest};
use hoontr::ArchFilter;

fn put_u16(b: &mut Vec<u8>, off: usize, v: u16) {
    b[off..off + 2].copy_from_slice(&v.to_le_bytes());
}

fn put_u32(b: &mut Vec<u8>, off: usize, v: u32) {
    b[off..off + 4].copy_from_slice(&v.to_le_bytes());
}

/// A minimal 64-bit PE image with one `.text` section whose raw data
/// starts at 0x1A0 and holds the bytes DE AD.
fn minimal_pe64() -> Vec<u8> {
    let mut b = vec![0u8; 0x200];
    b[0] = b'M';
    b[1] = b'Z';
    put_u32(&mut b, 0x3C, 0x40);
    b[0x40..0x44].copy_from_slice(b"PE\0\0");
    let coff = 0x44;
    put_u16(&mut b, coff, 0x8664);
    put_u16(&mut b, coff + 2, 1);
    put_u16(&mut b, coff + 16, 240);
    put_u16(&mut b, coff + 18, 0x2022);
    let opt = coff + 20;
    put_u16(&mut b, opt, 0x20B);
    put_u32(&mut b, opt + 32, 0x1000);
    put_u32(&mut b, opt + 36, 0x200);
    put_u32(&mut b, opt + 56, 0x2000);
    put_u32(&mut b, opt + 60, 0x200);
    put_u16(&mut b, opt + 70, 0x4000);
    put_u32(&mut b, opt + 108, 16);
    let sect = opt + 240;
    b[sect..sect + 8].copy_from_slice(b".text\0\0\0");
    put_u32(&mut b, sect + 8, 0x10);
    put_u32(&mut b, sect + 12, 0x1000);
    put_u32(&mut b, sect + 16, 0x10);
    put_u32(&mut b, sect + 20, 0x1A0);
    b[0x1A0] = 0xDE;
    b[0x1A1] = 0xAD;
    b
}

#[test]
fn parse_image_extracts_metadata() {
    let bytes = minimal_pe64();
    let rec = hoontr::parse::parse_image(&bytes).unwrap();
    assert_eq!(rec.machine, 0x8664);
    let opt = rec.optional.as_ref().unwrap();
    assert_eq!(opt.dll_characteristics, 0x4000);
    assert_eq!(opt.directories.len(), 16);
    assert!(opt.directories.iter().all(|d| !d));
    assert_eq!(rec.sections.len(), 1);
    assert_eq!(rec.sections[0].name, b".text\0\0\0".to_vec());
    assert_eq!(rec.sections[0].raw_offset, 0x1A0);
    assert_eq!(rec.sections[0].raw_size, 0x10);
    assert_eq!(rec.sections[0].virtual_size, 0x10);
    assert!(rec.imports.is_empty());
    assert!(rec.exports.is_empty());
}

#[test]
fn parsed_image_byte_scan_finds_pattern() {
    let bytes = minimal_pe64();
    let req = ScanRequest::Opcode { pattern: vec![0xDE, 0xAD] };
    let reports = scan_file("mini.dll", &bytes, &req, ArchFilter::All);
    assert_eq!(reports.len(), 1);
    assert!(reports[0].contains("mini.dll"));
    assert!(reports[0].contains("Arch: x64"));
    assert!(reports[0].contains("0x0000"));
    assert!(reports[0].contains("Total matches found: 1"));
}

#[test]
fn parsed_image_respects_arch_filter() {
    let bytes = minimal_pe64();
    let req = ScanRequest::Opcode { pattern: vec![0xDE, 0xAD] };
    let reports = scan_file("mini.dll", &bytes, &req, ArchFilter::X86);
    assert!(reports.is_empty());
}

#[test]
fn parsed_image_stomp_row_reads_virtual_size_and_cfg() {
    let bytes = minimal_pe64();
    let req = ScanRequest::Stomp { min_size: 0x10, require_no_cfg: false };
    let reports = scan_file("mini.dll", &bytes, &req, ArchFilter::All);
    assert_eq!(reports.len(), 1);
    assert!(reports[0].contains("ENABLED"));
    assert!(reports[0].contains("mini.dll (16)"));
    let req = ScanRequest::Stomp { min_size: 0x11, require_no_cfg: false };
    assert!(scan_file("mini.dll", &bytes, &req, ArchFilter::All).is_empty());
    let req = ScanRequest::Stomp { min_size: 0x10, require_no_cfg: true };
    assert!(scan_file("mini.dll", &bytes, &req, ArchFilter::All).is_empty());
}

#[test]
fn garbage_bytes_are_skipped_silently() {
    let bytes = vec![0x21u8; 64];
    let req = ScanRequest::Imports { pattern: "kernel32".to_string(), match_case: false };
    let reports = scan_file("junk.bin", &bytes, &req, ArchFilter::All);
    assert!(reports.is_empty());
}

#[test]
fn truncated_section_in_real_image_is_skipped() {
    let mut bytes = minimal_pe64();
    // Declare a raw extent that runs past the end of the file.
    let sect = 0x44 + 20 + 240;
    put_u32(&mut bytes, sect + 16, 0x10000);
    let req = ScanRequest::Opcode { pattern: vec![0xDE, 0xAD] };
    let reports = scan_file("mini.dll", &bytes, &req, ArchFilter::All);
    assert!(reports.is_empty());
}
