use vstd::prelude::*;
use vstd::string::StringExecFns;
use crate::{arch_label_spec, resolve_arch, ArchFilter};
use crate::image::{
    cfg_enabled, cfg_enabled_spec, check_extent, extent_ok, find_text_section, first_text_section,
    is_text_name, managed_label_spec, resolve_managed, section_is_text, ImageRecord,
    ImageRecordView, SectionView,
};
use crate::names::{add_if_missing, check_name, dedup_matches, seq_has_name};
use crate::parse::{image_of, parse_image};
use crate::search::{find_offsets, match_offsets, section_bytes};
use crate::textfmt::{append_dec, append_hex_padded4, dec_seq, hex_padded4};

verus! {

/// Heading of an export- or import-scan report.
pub open spec fn name_report_header(target: Seq<char>, arch: Seq<char>, managed: Seq<char>) -> Seq<
    char,
> {
    "\n[+] Matches found in: "@ + target + " (ARCH: "@ + arch + " | Is Managed DLL: "@ + managed
        + ")\n\n\t"@
}

/// The matched names joined by commas, wrapped onto a fresh indented
/// line after every fifth name.
pub open spec fn names_block(ns: Seq<Seq<char>>) -> Seq<char>
    decreases ns.len(),
{
    if ns.len() == 0 {
        Seq::empty()
    } else {
        names_block(ns.drop_last()) + ns.last() + ", "@ + (if ns.len() % 5 == 0 {
            "\n\t"@
        } else {
            Seq::<char>::empty()
        })
    }
}

/// A whole export- or import-scan report: heading, the matched names
/// five per line, and the distinct match count.
pub open spec fn name_scan_report(
    target: Seq<char>,
    arch: Seq<char>,
    managed: Seq<char>,
    ns: Seq<Seq<char>>,
) -> Seq<char> {
    name_report_header(target, arch, managed) + names_block(ns) + (if ns.len() < 5 {
        "\n\n\tTotal matches found: "@
    } else {
        "\n\tTotal matches found: "@
    }) + dec_seq(ns.len())
}

/// The import scan's outcome for one file: no report when the filter
/// excludes the image, when the optional header is absent, or when no
/// imported DLL name matches; otherwise the full report over the
/// distinct matching names in first-seen order.
pub open spec fn import_scan_spec(
    target: Seq<char>,
    rec: ImageRecordView,
    pattern: Seq<char>,
    match_case: bool,
    filter: ArchFilter,
) -> Option<Seq<char>> {
    match arch_label_spec(filter, rec.machine) {
        Some(arch) => match managed_label_spec(rec) {
            Some(managed) => {
                let ns = dedup_matches(rec.imports, pattern, match_case);
                if ns.len() == 0 {
                    None
                } else {
                    Some(name_scan_report(target, arch, managed, ns))
                }
            },
            None => None,
        },
        None => None,
    }
}

fn build_name_report(target: &str, arch: &str, managed: &str, names: &Vec<String>) -> (r: String)
    ensures
        r@ == name_scan_report(target@, arch@, managed@, names.deep_view()),
{
    let ghost ns = names.deep_view();
    let mut msg = String::new();
    msg.append("\n[+] Matches found in: ");
    msg.append(target);
    msg.append(" (ARCH: ");
    msg.append(arch);
    msg.append(" | Is Managed DLL: ");
    msg.append(managed);
    msg.append(")\n\n\t");
    proof {
        assert(msg@ =~= name_report_header(target@, arch@, managed@));
        assert(ns.take(0) =~= Seq::<Seq<char>>::empty());
    }
    let mut i: usize = 0;
    while i < names.len()
        invariant
            ns == names.deep_view(),
            0 <= i <= names@.len(),
            msg@ == name_report_header(target@, arch@, managed@) + names_block(ns.take(i as int)),
        decreases names@.len() - i,
    {
        msg.append(names[i].as_str());
        msg.append(", ");
        if (i + 1) % 5 == 0 {
            msg.append("\n\t");
        }
        proof {
            assert(ns.take(i + 1).drop_last() =~= ns.take(i as int));
            assert(ns.take(i + 1).last() == ns[i as int]);
            assert((i + 1) % 5 == ns.take(i + 1).len() % 5);
            assert(msg@ =~= name_report_header(target@, arch@, managed@) + names_block(
                ns.take(i + 1),
            ));
        }
        i += 1;
    }
    proof {
        assert(ns.take(names@.len() as int) =~= ns);
    }
    if names.len() < 5 {
        msg.append("\n\n\tTotal matches found: ");
    } else {
        msg.append("\n\tTotal matches found: ");
    }
    append_dec(&mut msg, names.len() as u64);
    proof {
        assert(msg@ =~= name_scan_report(target@, arch@, managed@, ns));
    }
    msg
}

/// Collect the distinct pattern-matching names of `table` in
/// first-seen order.
fn collect_matches(table: &Vec<String>, pattern: &str, match_case: bool) -> (found: Vec<String>)
    ensures
        found.deep_view() == dedup_matches(table.deep_view(), pattern@, match_case),
{
    let ghost all = table.deep_view();
    let mut found: Vec<String> = Vec::new();
    proof {
        assert(all.take(0) =~= Seq::<Seq<char>>::empty());
    }
    let mut i: usize = 0;
    while i < table.len()
        invariant
            all == table.deep_view(),
            0 <= i <= table@.len(),
            found.deep_view() == dedup_matches(all.take(i as int), pattern@, match_case),
        decreases table@.len() - i,
    {
        let ghost prev = found.deep_view();
        let name = &table[i];
        if check_name(name.as_str(), pattern, match_case) {
            proof {
                assert(prev.contains(name@) <==> seq_has_name(found@, name@)) by {
                    if prev.contains(name@) {
                        let w = choose|w: int| 0 <= w < prev.len() && prev[w] == name@;
                        assert(found@[w]@ == name@);
                    }
                    if seq_has_name(found@, name@) {
                        let w = choose|w: int| 0 <= w < found@.len() && found@[w]@ == name@;
                        assert(prev[w] == name@);
                    }
                }
            }
            let added = add_if_missing(&mut found, name.as_str());
            proof {
                if added {
                    assert(found.deep_view() =~= prev.push(name@));
                } else {
                    assert(found.deep_view() =~= prev);
                }
            }
        }
        proof {
            assert(all.take(i + 1).drop_last() =~= all.take(i as int));
            assert(all.take(i + 1).last() == all[i as int]);
            assert(all[i as int] == name@);
        }
        i += 1;
    }
    proof {
        assert(all.take(table@.len() as int) =~= all);
    }
    found
}

/// Import-name scan of one parsed image: report the imported DLL
/// names that contain the pattern, each distinct name once, or
/// nothing at all when there is no match or the image is skipped.
pub fn scan_imports(
    target: &str,
    rec: &ImageRecord,
    pattern: &str,
    match_case: bool,
    filter: ArchFilter,
) -> (r: Option<String>)
    requires
        rec@.wf(),
    ensures
        match r {
            Some(m) => import_scan_spec(target@, rec@, pattern@, match_case, filter) == Some(m@),
            None => import_scan_spec(target@, rec@, pattern@, match_case, filter) is None,
        },
{
    let arch = match resolve_arch(filter, rec.machine) {
        Some(a) => a,
        None => {
            return None;
        },
    };
    let managed = match resolve_managed(rec) {
        Some(m) => m,
        None => {
            return None;
        },
    };
    let found = collect_matches(&rec.imports, pattern, match_case);
    if found.len() == 0 {
        return None;
    }
    Some(build_name_report(target, arch, managed, &found))
}

/// The names an export table actually carries, in table order;
/// nameless exports (exported by ordinal only) contribute nothing.
pub open spec fn present_names(es: Seq<Option<Seq<char>>>) -> Seq<Seq<char>>
    decreases es.len(),
{
    if es.len() == 0 {
        Seq::empty()
    } else {
        present_names(es.drop_last()) + (match es.last() {
            Some(n) => seq![n],
            None => Seq::<Seq<char>>::empty(),
        })
    }
}

/// The export scan's outcome for one file: as the import scan, but
/// over the names of the export table.
pub open spec fn export_scan_spec(
    target: Seq<char>,
    rec: ImageRecordView,
    pattern: Seq<char>,
    match_case: bool,
    filter: ArchFilter,
) -> Option<Seq<char>> {
    match arch_label_spec(filter, rec.machine) {
        Some(arch) => match managed_label_spec(rec) {
            Some(managed) => {
                let ns = dedup_matches(present_names(rec.exports), pattern, match_case);
                if ns.len() == 0 {
                    None
                } else {
                    Some(name_scan_report(target, arch, managed, ns))
                }
            },
            None => None,
        },
        None => None,
    }
}

/// Export-name scan of one parsed image: report the export names that
/// contain the pattern, each distinct name once, or nothing at all
/// when there is no match or the image is skipped.
pub fn scan_exports(
    target: &str,
    rec: &ImageRecord,
    pattern: &str,
    match_case: bool,
    filter: ArchFilter,
) -> (r: Option<String>)
    requires
        rec@.wf(),
    ensures
        match r {
            Some(m) => export_scan_spec(target@, rec@, pattern@, match_case, filter) == Some(m@),
            None => export_scan_spec(target@, rec@, pattern@, match_case, filter) is None,
        },
{
    let arch = match resolve_arch(filter, rec.machine) {
        Some(a) => a,
        None => {
            return None;
        },
    };
    let managed = match resolve_managed(rec) {
        Some(m) => m,
        None => {
            return None;
        },
    };
    let ghost all = rec.exports.deep_view();
    let mut named: Vec<String> = Vec::new();
    proof {
        assert(all.take(0) =~= Seq::<Option<Seq<char>>>::empty());
        assert(named.deep_view() =~= present_names(all.take(0)));
    }
    let mut i: usize = 0;
    while i < rec.exports.len()
        invariant
            all == rec.exports.deep_view(),
            0 <= i <= rec.exports@.len(),
            named.deep_view() == present_names(all.take(i as int)),
        decreases rec.exports@.len() - i,
    {
        let ghost prev = named.deep_view();
        match &rec.exports[i] {
            Some(name) => {
                named.push(name.clone());
                proof {
                    assert(named.deep_view() =~= prev.push(name@));
                }
            },
            None => {
            },
        }
        proof {
            assert(all.take(i + 1).drop_last() =~= all.take(i as int));
            assert(all.take(i + 1).last() == all[i as int]);
        }
        i += 1;
    }
    proof {
        assert(all.take(rec.exports@.len() as int) =~= all);
    }
    let found = collect_matches(&named, pattern, match_case);
    if found.len() == 0 {
        return None;
    }
    Some(build_name_report(target, arch, managed, &found))
}

/// One row of the stomp-candidate table. The size shown and compared
/// is the code section's declared virtual size, the field the table
/// heading announces.
pub open spec fn stomp_row_spec(
    target: Seq<char>,
    arch: Seq<char>,
    managed: Seq<char>,
    cfg_on: bool,
    virtual_size: nat,
) -> Seq<char> {
    "\t| "@ + arch + "\t| "@ + managed + "\t\t| "@ + (if cfg_on {
        "ENABLED"@
    } else {
        "DISABLED"@
    }) + "\t| "@ + target + " ("@ + dec_seq(virtual_size) + ")"@
}

/// The stomp scan's outcome for one file: a table row when the first
/// code section's virtual size reaches `min_size` (the bound is
/// inclusive) and, if `require_no_cfg` is set, Control-Flow Guard is
/// disabled; no row otherwise, nor when the image is skipped or has
/// no code section.
pub open spec fn stomp_scan_spec(
    target: Seq<char>,
    rec: ImageRecordView,
    min_size: u32,
    require_no_cfg: bool,
    filter: ArchFilter,
) -> Option<Seq<char>> {
    match arch_label_spec(filter, rec.machine) {
        Some(arch) => match managed_label_spec(rec) {
            Some(managed) => match first_text_section(rec.sections) {
                Some(s) => if s.virtual_size >= min_size && (!require_no_cfg || !cfg_enabled_spec(
                    rec,
                )) {
                    Some(
                        stomp_row_spec(
                            target,
                            arch,
                            managed,
                            cfg_enabled_spec(rec),
                            s.virtual_size as nat,
                        ),
                    )
                } else {
                    None
                },
                None => None,
            },
            None => None,
        },
        None => None,
    }
}

fn build_stomp_row(target: &str, arch: &str, managed: &str, cfg_on: bool, virtual_size: u32) -> (r:
    String)
    ensures
        r@ == stomp_row_spec(target@, arch@, managed@, cfg_on, virtual_size as nat),
{
    let mut msg = String::new();
    msg.append("\t| ");
    msg.append(arch);
    msg.append("\t| ");
    msg.append(managed);
    msg.append("\t\t| ");
    if cfg_on {
        msg.append("ENABLED");
    } else {
        msg.append("DISABLED");
    }
    msg.append("\t| ");
    msg.append(target);
    msg.append(" (");
    append_dec(&mut msg, virtual_size as u64);
    msg.append(")");
    proof {
        assert(msg@ =~= stomp_row_spec(target@, arch@, managed@, cfg_on, virtual_size as nat));
    }
    msg
}

/// Stomp-candidate scan of one parsed image: emit a table row when
/// the code section is large enough to host the payload and the
/// Control-Flow-Guard condition holds.
pub fn scan_stomp(
    target: &str,
    rec: &ImageRecord,
    min_size: u32,
    require_no_cfg: bool,
    filter: ArchFilter,
) -> (r: Option<String>)
    requires
        rec@.wf(),
    ensures
        match r {
            Some(m) => stomp_scan_spec(target@, rec@, min_size, require_no_cfg, filter) == Some(
                m@,
            ),
            None => stomp_scan_spec(target@, rec@, min_size, require_no_cfg, filter) is None,
        },
{
    let arch = match resolve_arch(filter, rec.machine) {
        Some(a) => a,
        None => {
            return None;
        },
    };
    let managed = match resolve_managed(rec) {
        Some(m) => m,
        None => {
            return None;
        },
    };
    let i = match find_text_section(&rec.sections) {
        Some(i) => i,
        None => {
            return None;
        },
    };
    let cfg_on = cfg_enabled(rec);
    let virtual_size = rec.sections[i].virtual_size;
    if virtual_size >= min_size && (!require_no_cfg || !cfg_on) {
        Some(build_stomp_row(target, arch, managed, cfg_on, virtual_size))
    } else {
        None
    }
}

/// Heading of a byte-sequence report.
pub open spec fn opcode_header(target: Seq<char>, arch: Seq<char>, managed: Seq<char>) -> Seq<
    char,
> {
    "\n\n[+] Opcode matches found in "@ + target + " (Arch: "@ + arch + " | Managed DLL: "@
        + managed + ") at the following offsets:\n\n\t"@
}

/// The match offsets rendered in hexadecimal, wrapped onto a fresh
/// indented line after every eighth offset.
pub open spec fn offsets_block(offs: Seq<int>) -> Seq<char>
    decreases offs.len(),
{
    if offs.len() == 0 {
        Seq::empty()
    } else {
        offsets_block(offs.drop_last()) + "0x"@ + hex_padded4(offs.last() as nat) + ", "@ + (
        if offs.len() % 8 == 0 {
            "\n\t"@
        } else {
            Seq::<char>::empty()
        })
    }
}

/// A whole byte-sequence report: heading, the ascending match offsets
/// eight per line, and the match count.
pub open spec fn opcode_report(
    target: Seq<char>,
    arch: Seq<char>,
    managed: Seq<char>,
    offs: Seq<int>,
) -> Seq<char> {
    opcode_header(target, arch, managed) + offsets_block(offs) + "\n\n\tTotal matches found: "@
        + dec_seq(offs.len())
}

/// The raw bytes of one section within the file image.
pub open spec fn section_slice(bytes: Seq<u8>, s: SectionView) -> Seq<u8> {
    bytes.subrange(s.raw_offset as int, s.raw_offset + s.raw_size)
}

/// The byte-sequence reports contributed by a section table, in table
/// order: one report per code section whose declared raw extent lies
/// within the file and whose raw bytes contain the pattern at least
/// once. A section whose declared extent exceeds the file length is
/// never read and contributes nothing.
pub open spec fn opcode_section_reports(
    target: Seq<char>,
    arch: Seq<char>,
    managed: Seq<char>,
    sections: Seq<SectionView>,
    bytes: Seq<u8>,
    pat: Seq<u8>,
) -> Seq<Seq<char>>
    decreases sections.len(),
{
    if sections.len() == 0 {
        Seq::empty()
    } else {
        let prev = opcode_section_reports(
            target,
            arch,
            managed,
            sections.drop_last(),
            bytes,
            pat,
        );
        let s = sections.last();
        if is_text_name(s.name) && extent_ok(s, bytes.len()) && match_offsets(
            section_slice(bytes, s),
            pat,
        ).len() > 0 {
            prev.push(
                opcode_report(target, arch, managed, match_offsets(section_slice(bytes, s), pat)),
            )
        } else {
            prev
        }
    }
}

/// An oversized section yields nothing: appending a section whose
/// declared raw extent exceeds the file length leaves the
/// byte-sequence reports unchanged, whatever the section holds.
pub proof fn lemma_oversized_section_not_scanned(
    target: Seq<char>,
    arch: Seq<char>,
    managed: Seq<char>,
    sections: Seq<SectionView>,
    s: SectionView,
    bytes: Seq<u8>,
    pat: Seq<u8>,
)
    requires
        !extent_ok(s, bytes.len()),
    ensures
        opcode_section_reports(target, arch, managed, sections.push(s), bytes, pat)
            == opcode_section_reports(target, arch, managed, sections, bytes, pat),
{
    assert(sections.push(s).drop_last() =~= sections);
}

/// The byte-sequence scan's outcome for one file: nothing when the
/// filter excludes the image or the optional header is absent, else
/// one report per code section that contains the pattern.
pub open spec fn opcode_scan_spec(
    target: Seq<char>,
    rec: ImageRecordView,
    bytes: Seq<u8>,
    pat: Seq<u8>,
    filter: ArchFilter,
) -> Seq<Seq<char>> {
    match arch_label_spec(filter, rec.machine) {
        Some(arch) => match managed_label_spec(rec) {
            Some(managed) => opcode_section_reports(target, arch, managed, rec.sections, bytes, pat),
            None => Seq::empty(),
        },
        None => Seq::empty(),
    }
}

fn build_opcode_report(target: &str, arch: &str, managed: &str, offs: &Vec<usize>) -> (r: String)
    ensures
        r@ == opcode_report(target@, arch@, managed@, offs@.map_values(|u: usize| u as int)),
{
    let ghost os = offs@.map_values(|u: usize| u as int);
    let mut msg = String::new();
    msg.append("\n\n[+] Opcode matches found in ");
    msg.append(target);
    msg.append(" (Arch: ");
    msg.append(arch);
    msg.append(" | Managed DLL: ");
    msg.append(managed);
    msg.append(") at the following offsets:\n\n\t");
    proof {
        assert(msg@ =~= opcode_header(target@, arch@, managed@));
        assert(os.take(0) =~= Seq::<int>::empty());
    }
    let mut i: usize = 0;
    while i < offs.len()
        invariant
            os == offs@.map_values(|u: usize| u as int),
            0 <= i <= offs@.len(),
            msg@ == opcode_header(target@, arch@, managed@) + offsets_block(os.take(i as int)),
        decreases offs@.len() - i,
    {
        msg.append("0x");
        append_hex_padded4(&mut msg, offs[i] as u64);
        msg.append(", ");
        if (i + 1) % 8 == 0 {
            msg.append("\n\t");
        }
        proof {
            assert(os.take(i + 1).drop_last() =~= os.take(i as int));
            assert(os.take(i + 1).last() == os[i as int]);
            assert(msg@ =~= opcode_header(target@, arch@, managed@) + offsets_block(
                os.take(i + 1),
            ));
        }
        i += 1;
    }
    proof {
        assert(os.take(offs@.len() as int) =~= os);
    }
    msg.append("\n\n\tTotal matches found: ");
    append_dec(&mut msg, offs.len() as u64);
    proof {
        assert(msg@ =~= opcode_report(target@, arch@, managed@, os));
    }
    msg
}

/// Byte-sequence scan of one parsed image: search every code section
/// whose raw extent lies within the file for the pattern, and report
/// each section that contains it, with all match offsets.
pub fn scan_opcode(
    target: &str,
    rec: &ImageRecord,
    bytes: &Vec<u8>,
    pattern: &Vec<u8>,
    filter: ArchFilter,
) -> (r: Vec<String>)
    requires
        rec@.wf(),
        pattern@.len() >= 1,
    ensures
        r.deep_view() == opcode_scan_spec(target@, rec@, bytes@, pattern@, filter),
{
    let mut reports: Vec<String> = Vec::new();
    let arch = match resolve_arch(filter, rec.machine) {
        Some(a) => a,
        None => {
            proof {
                assert(reports.deep_view() =~= Seq::<Seq<char>>::empty());
            }
            return reports;
        },
    };
    let managed = match resolve_managed(rec) {
        Some(m) => m,
        None => {
            proof {
                assert(reports.deep_view() =~= Seq::<Seq<char>>::empty());
            }
            return reports;
        },
    };
    let ghost ss = rec@.sections;
    proof {
        assert(ss.take(0) =~= Seq::<SectionView>::empty());
        assert(reports.deep_view() =~= Seq::<Seq<char>>::empty());
    }
    let mut i: usize = 0;
    while i < rec.sections.len()
        invariant
            rec@.wf(),
            pattern@.len() >= 1,
            ss == rec@.sections,
            0 <= i <= rec.sections@.len(),
            arch_label_spec(filter, rec@.machine) == Some(arch@),
            managed_label_spec(rec@) == Some(managed@),
            reports.deep_view() == opcode_section_reports(
                target@,
                arch@,
                managed@,
                ss.take(i as int),
                bytes@,
                pattern@,
            ),
        decreases rec.sections@.len() - i,
    {
        let ghost prev = reports.deep_view();
        let sect = &rec.sections[i];
        proof {
            assert(ss[i as int] == sect@);
        }
        if section_is_text(&sect.name) && check_extent(sect.raw_offset, sect.raw_size, bytes.len())
        {
            let data = section_bytes(bytes, sect.raw_offset as usize, sect.raw_size as usize);
            proof {
                assert(data@ == section_slice(bytes@, ss[i as int]));
            }
            let offs = find_offsets(&data, pattern);
            if offs.len() > 0 {
                let report = build_opcode_report(target, arch, managed, &offs);
                reports.push(report);
                proof {
                    assert(reports.deep_view() =~= prev.push(
                        opcode_report(
                            target@,
                            arch@,
                            managed@,
                            match_offsets(section_slice(bytes@, ss[i as int]), pattern@),
                        ),
                    ));
                }
            }
        }
        proof {
            assert(ss.take(i + 1).drop_last() =~= ss.take(i as int));
            assert(ss.take(i + 1).last() == ss[i as int]);
        }
        i += 1;
    }
    proof {
        assert(ss.take(rec.sections@.len() as int) =~= ss);
    }
    reports
}

/// The scan strategy chosen for a run, with its mode-specific
/// parameters; one instance is shared read-only by every worker.
pub enum ScanRequest {
    Opcode { pattern: Vec<u8> },
    Stomp { min_size: u32, require_no_cfg: bool },
    Exports { pattern: String, match_case: bool },
    Imports { pattern: String, match_case: bool },
}

pub enum ScanRequestView {
    Opcode { pattern: Seq<u8> },
    Stomp { min_size: u32, require_no_cfg: bool },
    Exports { pattern: Seq<char>, match_case: bool },
    Imports { pattern: Seq<char>, match_case: bool },
}

impl View for ScanRequest {
    type V = ScanRequestView;

    open spec fn view(&self) -> ScanRequestView {
        match self {
            ScanRequest::Opcode { pattern } => ScanRequestView::Opcode { pattern: pattern@ },
            ScanRequest::Stomp { min_size, require_no_cfg } => ScanRequestView::Stomp {
                min_size: *min_size,
                require_no_cfg: *require_no_cfg,
            },
            ScanRequest::Exports { pattern, match_case } => ScanRequestView::Exports {
                pattern: pattern@,
                match_case: *match_case,
            },
            ScanRequest::Imports { pattern, match_case } => ScanRequestView::Imports {
                pattern: pattern@,
                match_case: *match_case,
            },
        }
    }
}

impl ScanRequest {
    /// A byte-sequence request must carry a pattern of at least one
    /// byte; the other modes need nothing further.
    pub open spec fn wf(self) -> bool {
        match self@ {
            ScanRequestView::Opcode { pattern } => pattern.len() >= 1,
            _ => true,
        }
    }
}

/// A scanned option as a report list: one report or none.
pub open spec fn report_seq(o: Option<Seq<char>>) -> Seq<Seq<char>> {
    match o {
        Some(m) => seq![m],
        None => Seq::empty(),
    }
}

/// Every report the chosen strategy emits for one file's bytes: none
/// at all when the bytes are not a well-formed image (a corrupt file
/// is skipped, never an error), else what the strategy yields for the
/// parsed metadata.
pub open spec fn scan_file_spec(
    target: Seq<char>,
    bytes: Seq<u8>,
    req: ScanRequestView,
    filter: ArchFilter,
) -> Seq<Seq<char>> {
    match image_of(bytes) {
        None => Seq::empty(),
        Some(rec) => match req {
            ScanRequestView::Opcode { pattern } => opcode_scan_spec(
                target,
                rec,
                bytes,
                pattern,
                filter,
            ),
            ScanRequestView::Stomp { min_size, require_no_cfg } => report_seq(
                stomp_scan_spec(target, rec, min_size, require_no_cfg, filter),
            ),
            ScanRequestView::Exports { pattern, match_case } => report_seq(
                export_scan_spec(target, rec, pattern, match_case, filter),
            ),
            ScanRequestView::Imports { pattern, match_case } => report_seq(
                import_scan_spec(target, rec, pattern, match_case, filter),
            ),
        },
    }
}

/// The shared per-file driver: parse the file's bytes, skip the file
/// when they are not a well-formed image, and hand the metadata to
/// the chosen scan strategy; each returned report is one atomic block
/// for the output channel.
pub fn scan_file(target: &str, bytes: &Vec<u8>, req: &ScanRequest, filter: ArchFilter) -> (r: Vec<
    String,
>)
    requires
        req.wf(),
    ensures
        r.deep_view() == scan_file_spec(target@, bytes@, req@, filter),
{
    let rec = match parse_image(bytes) {
        Some(rec) => rec,
        None => {
            let reports: Vec<String> = Vec::new();
            proof {
                assert(reports.deep_view() =~= Seq::<Seq<char>>::empty());
            }
            return reports;
        },
    };
    match req {
        ScanRequest::Opcode { pattern } => scan_opcode(target, &rec, bytes, pattern, filter),
        ScanRequest::Stomp { min_size, require_no_cfg } => {
            let mut reports: Vec<String> = Vec::new();
            let ghost expected = stomp_scan_spec(target@, rec@, *min_size, *require_no_cfg, filter);
            match scan_stomp(target, &rec, *min_size, *require_no_cfg, filter) {
                Some(m) => {
                    reports.push(m);
                    proof {
                        assert(reports.deep_view() =~= report_seq(expected));
                    }
                },
                None => {
                    proof {
                        assert(reports.deep_view() =~= report_seq(expected));
                    }
                },
            }
            reports
        },
        ScanRequest::Exports { pattern, match_case } => {
            let mut reports: Vec<String> = Vec::new();
            let ghost expected = export_scan_spec(target@, rec@, pattern@, *match_case, filter);
            match scan_exports(target, &rec, pattern.as_str(), *match_case, filter) {
                Some(m) => {
                    reports.push(m);
                    proof {
                        assert(reports.deep_view() =~= report_seq(expected));
                    }
                },
                None => {
                    proof {
                        assert(reports.deep_view() =~= report_seq(expected));
                    }
                },
            }
            reports
        },
        ScanRequest::Imports { pattern, match_case } => {
            let mut reports: Vec<String> = Vec::new();
            let ghost expected = import_scan_spec(target@, rec@, pattern@, *match_case, filter);
            match scan_imports(target, &rec, pattern.as_str(), *match_case, filter) {
                Some(m) => {
                    reports.push(m);
                    proof {
                        assert(reports.deep_view() =~= report_seq(expected));
                    }
                },
                None => {
                    proof {
                        assert(reports.deep_view() =~= report_seq(expected));
                    }
                },
            }
            reports
        },
    }
}

} // verus!
