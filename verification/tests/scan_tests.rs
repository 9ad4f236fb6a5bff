use hoontr::image::{ImageRecord, OptionalInfo, Section};
use hoontr::scan::{scan_exports, scan_imports, scan_opcode, scan_stomp};
use hoontr::ArchFilter;

fn plain_optional() -> OptionalInfo {
    OptionalInfo { dll_characteristics: 0, directories: vec![false; 16] }
}

fn managed_optional() -> OptionalInfo {
    let mut directories: Vec<bool> = vec![false; 16];
    directories[14] = true;
    OptionalInfo { dll_characteristics: 0, directories }
}

fn text_section(raw_offset: u32, raw_size: u32, virtual_size: u32) -> Section {
    Section {
        name: vec![0x2e, b't', b'e', b'x', b't', 0, 0, 0],
        raw_offset,
        raw_size,
        virtual_size,
    }
}

fn record_with_imports(imports: Vec<String>) -> ImageRecord {
    ImageRecord {
        machine: 0x8664,
        optional: Some(plain_optional()),
        sections: vec![],
        imports,
        exports: vec![],
    }
}

fn record_with_exports(exports: Vec<Option<String>>) -> ImageRecord {
    ImageRecord {
        machine: 0x8664,
        optional: Some(plain_optional()),
        sections: vec![],
        imports: vec![],
        exports,
    }
}

#[test]
fn import_scan_counts_repeated_name_once() {
    let rec = record_with_imports(vec![
        "kernel32.dll".to_string(),
        "kernel32.dll".to_string(),
        "kernel32.dll".to_string(),
        "user32.dll".to_string(),
    ]);
    let r = scan_imports("a.dll", &rec, "kernel32", true, ArchFilter::All).unwrap();
    assert!(r.contains("Total matches found: 1"));
    assert_eq!(r.matches("kernel32.dll").count(), 1);
}

#[test]
fn import_scan_match_case_rejects_other_case() {
    let rec = record_with_imports(vec!["foo.dll".to_string()]);
    assert!(scan_imports("a.dll", &rec, "Foo", true, ArchFilter::All).is_none());
}

#[test]
fn import_scan_case_insensitive_matches_both() {
    let rec = record_with_imports(vec!["foo.dll".to_string(), "FOO2.DLL".to_string()]);
    let r = scan_imports("a.dll", &rec, "Foo", false, ArchFilter::All).unwrap();
    assert!(r.contains("foo.dll"));
    assert!(r.contains("FOO2.DLL"));
    assert!(r.contains("Total matches found: 2"));
}

#[test]
fn import_scan_exact_report_text() {
    let rec = record_with_imports(vec!["kernel32.dll".to_string(), "user32.dll".to_string()]);
    let r = scan_imports("c:\\t\\a.dll", &rec, "32", true, ArchFilter::All).unwrap();
    assert_eq!(
        r,
        "\n[+] Matches found in: c:\\t\\a.dll (ARCH: x64 | Is Managed DLL: NO)\n\n\tkernel32.dll, user32.dll, \n\n\tTotal matches found: 2"
    );
}

#[test]
fn import_scan_wraps_after_five_names() {
    let imports: Vec<String> = (0..6).map(|i| format!("lib{}.dll", i)).collect();
    let r = scan_imports("a.dll", &record_with_imports(imports), "lib", true, ArchFilter::All)
        .unwrap();
    assert!(r.contains("lib4.dll, \n\tlib5.dll"));
    assert!(r.ends_with("\n\tTotal matches found: 6"));
}

#[test]
fn import_scan_footer_at_exactly_five_names() {
    let imports: Vec<String> = (0..5).map(|i| format!("lib{}.dll", i)).collect();
    let r = scan_imports("a.dll", &record_with_imports(imports), "lib", true, ArchFilter::All)
        .unwrap();
    assert!(r.ends_with("lib4.dll, \n\t\n\tTotal matches found: 5"));
    assert!(!r.contains("\n\n\tTotal"));
}

#[test]
fn import_scan_skips_on_arch_mismatch() {
    let mut rec = record_with_imports(vec!["kernel32.dll".to_string()]);
    rec.machine = 0x14c;
    assert!(scan_imports("a.dll", &rec, "kernel32", true, ArchFilter::X64).is_none());
    assert!(scan_imports("a.dll", &rec, "kernel32", true, ArchFilter::X86).is_some());
}

#[test]
fn import_scan_skips_without_optional_header() {
    let mut rec = record_with_imports(vec!["kernel32.dll".to_string()]);
    rec.optional = None;
    assert!(scan_imports("a.dll", &rec, "kernel32", true, ArchFilter::All).is_none());
}

#[test]
fn export_scan_reports_managed_flag() {
    let mut rec = record_with_exports(vec![Some("MyProc".to_string())]);
    rec.optional = Some(managed_optional());
    let r = scan_exports("a.dll", &rec, "myproc", false, ArchFilter::All).unwrap();
    assert!(r.contains("Is Managed DLL: YES"));
    assert!(r.contains("MyProc"));
}

#[test]
fn export_scan_skips_nameless_exports() {
    let rec = record_with_exports(vec![None, Some("Helper".to_string()), None]);
    let r = scan_exports("a.dll", &rec, "Helper", true, ArchFilter::All).unwrap();
    assert!(r.contains("Total matches found: 1"));
}

#[test]
fn export_scan_end_to_end_one_of_three() {
    let targets = [
        record_with_exports(vec![Some("LoadLibraryHelper".to_string())]),
        record_with_exports(vec![Some("GetProcAddress".to_string())]),
        record_with_exports(vec![]),
    ];
    let mut reports = Vec::new();
    for (i, rec) in targets.iter().enumerate() {
        let name = format!("t{}.dll", i);
        if let Some(r) = scan_exports(&name, rec, "loadlibrary", false, ArchFilter::All) {
            reports.push(r);
        }
    }
    assert_eq!(reports.len(), 1);
    assert!(reports[0].contains("t0.dll"));
    assert!(reports[0].contains("LoadLibraryHelper"));
    assert!(reports[0].contains("Total matches found: 1"));
}

#[test]
fn opcode_scan_zero_matches_when_pattern_longer_than_section() {
    let bytes: Vec<u8> = vec![0x90, 0x90];
    let rec = ImageRecord {
        machine: 0x8664,
        optional: Some(plain_optional()),
        sections: vec![text_section(0, 2, 2)],
        imports: vec![],
        exports: vec![],
    };
    let pattern: Vec<u8> = vec![0x90, 0x90, 0x90];
    let reports = scan_opcode("a.dll", &rec, &bytes, &pattern, ArchFilter::All);
    assert!(reports.is_empty());
}

#[test]
fn opcode_scan_exact_report_text() {
    let bytes: Vec<u8> = vec![0xAA, 0x00, 0xAA];
    let rec = ImageRecord {
        machine: 0x8664,
        optional: Some(plain_optional()),
        sections: vec![text_section(0, 3, 3)],
        imports: vec![],
        exports: vec![],
    };
    let pattern: Vec<u8> = vec![0xAA];
    let reports = scan_opcode("a.dll", &rec, &bytes, &pattern, ArchFilter::All);
    assert_eq!(reports.len(), 1);
    assert_eq!(
        reports[0],
        "\n\n[+] Opcode matches found in a.dll (Arch: x64 | Managed DLL: NO) at the following offsets:\n\n\t0x0000, 0x0002, \n\n\tTotal matches found: 2"
    );
}

#[test]
fn opcode_scan_never_reads_oversized_section() {
    let bytes: Vec<u8> = vec![0xAA, 0xAA, 0xAA, 0xAA];
    let rec = ImageRecord {
        machine: 0x8664,
        optional: Some(plain_optional()),
        sections: vec![text_section(2, 3, 3), text_section(0, 4, 4)],
        imports: vec![],
        exports: vec![],
    };
    let pattern: Vec<u8> = vec![0xAA];
    let reports = scan_opcode("a.dll", &rec, &bytes, &pattern, ArchFilter::All);
    assert_eq!(reports.len(), 1);
    assert!(reports[0].contains("Total matches found: 4"));
}

#[test]
fn opcode_scan_matches_section_name_case_insensitively() {
    let bytes: Vec<u8> = vec![0xAA];
    let mut rec = ImageRecord {
        machine: 0x8664,
        optional: Some(plain_optional()),
        sections: vec![text_section(0, 1, 1)],
        imports: vec![],
        exports: vec![],
    };
    rec.sections[0].name = vec![0x2e, b'T', b'E', b'X', b'T', 0, 0, 0];
    let pattern: Vec<u8> = vec![0xAA];
    let reports = scan_opcode("a.dll", &rec, &bytes, &pattern, ArchFilter::All);
    assert_eq!(reports.len(), 1);
}

#[test]
fn stomp_scan_boundary_is_inclusive() {
    let rec = ImageRecord {
        machine: 0x8664,
        optional: Some(plain_optional()),
        sections: vec![text_section(0, 0x400, 0x1000)],
        imports: vec![],
        exports: vec![],
    };
    assert!(scan_stomp("a.dll", &rec, 0x1000, false, ArchFilter::All).is_some());
    assert!(scan_stomp("a.dll", &rec, 0x1001, false, ArchFilter::All).is_none());
}

#[test]
fn stomp_scan_size_one_below_is_excluded() {
    let rec = ImageRecord {
        machine: 0x8664,
        optional: Some(plain_optional()),
        sections: vec![text_section(0, 0x400, 0xFFF)],
        imports: vec![],
        exports: vec![],
    };
    assert!(scan_stomp("a.dll", &rec, 0x1000, false, ArchFilter::All).is_none());
}

#[test]
fn stomp_scan_cfg_filter() {
    let mut rec = ImageRecord {
        machine: 0x14c,
        optional: Some(OptionalInfo { dll_characteristics: 0x4000, directories: vec![false; 16] }),
        sections: vec![text_section(0, 0x400, 0x2000)],
        imports: vec![],
        exports: vec![],
    };
    assert!(scan_stomp("a.dll", &rec, 0x1000, true, ArchFilter::All).is_none());
    let with_cfg = scan_stomp("a.dll", &rec, 0x1000, false, ArchFilter::All).unwrap();
    assert!(with_cfg.contains("ENABLED"));
    assert!(with_cfg.contains("x86"));
    rec.optional = Some(plain_optional());
    let row = scan_stomp("a.dll", &rec, 0x1000, true, ArchFilter::All).unwrap();
    assert!(row.contains("DISABLED"));
    assert!(row.contains("a.dll (8192)"));
}
