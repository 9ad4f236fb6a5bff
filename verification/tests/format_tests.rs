use hoontr::textfmt::{append_dec, append_hex, append_hex_padded4, dec_string};
use hoontr::names::add_if_missing;
use hoontr::{resolve_arch, ArchFilter};

#[test]
fn decimal_rendering_exact_values() {
    assert_eq!(dec_string(0), "0");
    assert_eq!(dec_string(7), "7");
    assert_eq!(dec_string(12345), "12345");
    assert_eq!(dec_string(u64::MAX), "18446744073709551615");
}

#[test]
fn append_dec_appends_in_place() {
    let mut s = String::from("count=");
    append_dec(&mut s, 42);
    assert_eq!(s, "count=42");
}

#[test]
fn hex_rendering_exact_values() {
    let mut s = String::new();
    append_hex(&mut s, 0x1A2B);
    assert_eq!(s, "1A2B");
    let mut s = String::new();
    append_hex_padded4(&mut s, 0);
    assert_eq!(s, "0000");
    let mut s = String::new();
    append_hex_padded4(&mut s, 0xFF);
    assert_eq!(s, "00FF");
    let mut s = String::new();
    append_hex_padded4(&mut s, 0x12345);
    assert_eq!(s, "12345");
}

#[test]
fn arch_resolver_labels() {
    assert_eq!(resolve_arch(ArchFilter::All, 0x8664), Some("x64"));
    assert_eq!(resolve_arch(ArchFilter::All, 0x14c), Some("x86"));
    assert_eq!(resolve_arch(ArchFilter::All, 0x1c0), Some("Unknown"));
    assert_eq!(resolve_arch(ArchFilter::X86, 0x14c), Some("x86"));
    assert_eq!(resolve_arch(ArchFilter::X86, 0x8664), None);
    assert_eq!(resolve_arch(ArchFilter::X64, 0x8664), Some("x64"));
    assert_eq!(resolve_arch(ArchFilter::X64, 0x14c), None);
}

#[test]
fn add_if_missing_dedups() {
    let mut v: Vec<String> = Vec::new();
    assert!(add_if_missing(&mut v, "a.dll"));
    assert!(add_if_missing(&mut v, "b.dll"));
    assert!(!add_if_missing(&mut v, "a.dll"));
    assert_eq!(v, vec!["a.dll".to_string(), "b.dll".to_string()]);
}
