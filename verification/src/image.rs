use vstd::prelude::*;

verus! {

/// Index of the data-directory slot reserved for the CLR/COM
/// descriptor, whose presence marks a managed image.
pub const COM_DESCRIPTOR_SLOT: usize = 14;

/// Number of slots in the data-directory table of an optional header.
pub const DIRECTORY_COUNT: usize = 16;

/// Bit of the DLL-characteristics word set when Control-Flow Guard is
/// enabled for the image.
pub const GUARD_CF_FLAG: u16 = 0x4000;

/// One entry of an image's section table: fixed-width name and the
/// declared raw and virtual extents.
pub struct Section {
    pub name: Vec<u8>,
    pub raw_offset: u32,
    pub raw_size: u32,
    pub virtual_size: u32,
}

pub struct SectionView {
    pub name: Seq<u8>,
    pub raw_offset: u32,
    pub raw_size: u32,
    pub virtual_size: u32,
}

impl View for Section {
    type V = SectionView;

    open spec fn view(&self) -> SectionView {
        SectionView {
            name: self.name@,
            raw_offset: self.raw_offset,
            raw_size: self.raw_size,
            virtual_size: self.virtual_size,
        }
    }
}

/// What the optional header contributes: the DLL-characteristics word
/// and, per data-directory slot, whether the slot is filled.
pub struct OptionalInfo {
    pub dll_characteristics: u16,
    pub directories: Vec<bool>,
}

pub struct OptionalInfoView {
    pub dll_characteristics: u16,
    pub directories: Seq<bool>,
}

impl View for OptionalInfo {
    type V = OptionalInfoView;

    open spec fn view(&self) -> OptionalInfoView {
        OptionalInfoView {
            dll_characteristics: self.dll_characteristics,
            directories: self.directories@,
        }
    }
}

/// The metadata of one image as the scan strategies read it: machine
/// tag, optional-header data when present, section table, imported
/// DLL names (one entry per imported symbol, so names repeat), and
/// export names (an export may be nameless, exported by ordinal only).
pub struct ImageRecord {
    pub machine: u16,
    pub optional: Option<OptionalInfo>,
    pub sections: Vec<Section>,
    pub imports: Vec<String>,
    pub exports: Vec<Option<String>>,
}

pub struct ImageRecordView {
    pub machine: u16,
    pub optional: Option<OptionalInfoView>,
    pub sections: Seq<SectionView>,
    pub imports: Seq<Seq<char>>,
    pub exports: Seq<Option<Seq<char>>>,
}

impl View for ImageRecord {
    type V = ImageRecordView;

    open spec fn view(&self) -> ImageRecordView {
        ImageRecordView {
            machine: self.machine,
            optional: match self.optional {
                Some(o) => Some(o@),
                None => None,
            },
            sections: self.sections@.map_values(|s: Section| s@),
            imports: self.imports.deep_view(),
            exports: self.exports.deep_view(),
        }
    }
}

impl ImageRecordView {
    /// A record is well formed when its directory table, if present,
    /// has the full complement of slots.
    pub open spec fn wf(self) -> bool {
        match self.optional {
            Some(o) => o.directories.len() == DIRECTORY_COUNT,
            None => true,
        }
    }
}

/// The managed-image label: "YES" when the CLR-descriptor slot is
/// filled, "NO" when it is empty, and no label at all when the image
/// has no optional header (such an image is skipped by every mode).
pub open spec fn managed_label_spec(rec: ImageRecordView) -> Option<Seq<char>> {
    match rec.optional {
        Some(o) => Some(
            if o.directories[COM_DESCRIPTOR_SLOT as int] {
                "YES"@
            } else {
                "NO"@
            },
        ),
        None => None,
    }
}

/// Report whether the image is managed by inspecting the CLR
/// descriptor slot; `None` means the optional header is absent.
pub fn resolve_managed(rec: &ImageRecord) -> (r: Option<&'static str>)
    requires
        rec@.wf(),
    ensures
        match r {
            Some(l) => managed_label_spec(rec@) == Some(l@),
            None => managed_label_spec(rec@) is None,
        },
{
    match &rec.optional {
        Some(o) => {
            if o.directories[COM_DESCRIPTOR_SLOT] {
                Some("YES")
            } else {
                Some("NO")
            }
        },
        None => None,
    }
}

/// Whether Control-Flow Guard is enabled: the guard bit of the
/// DLL-characteristics word is set.
pub open spec fn cfg_enabled_spec(rec: ImageRecordView) -> bool {
    match rec.optional {
        Some(o) => o.dll_characteristics & GUARD_CF_FLAG != 0,
        None => false,
    }
}

/// Test the Control-Flow Guard bit of the image's characteristics.
pub fn cfg_enabled(rec: &ImageRecord) -> (r: bool)
    ensures
        r == cfg_enabled_spec(rec@),
{
    match &rec.optional {
        Some(o) => o.dll_characteristics & GUARD_CF_FLAG != 0,
        None => false,
    }
}

/// ASCII lowercase folding of one byte.
pub open spec fn lower_byte(b: u8) -> u8 {
    if 65 <= b <= 90 {
        (b + 32) as u8
    } else {
        b
    }
}

/// The canonical fixed-width name of the code section, `.text`
/// padded with NUL bytes to eight bytes.
pub open spec fn text_name_bytes() -> Seq<u8> {
    seq![46u8, 116u8, 101u8, 120u8, 116u8, 0u8, 0u8, 0u8]
}

/// Whether a section name equals the canonical code-section name,
/// compared byte-wise without regard to ASCII case.
pub open spec fn is_text_name(name: Seq<u8>) -> bool {
    name.len() == 8 && forall|k: int| 0 <= k < 8 ==> lower_byte(#[trigger] name[k]) == text_name_bytes()[k]
}

/// Decide whether a section is the code section.
pub fn section_is_text(name: &Vec<u8>) -> (r: bool)
    ensures
        r == is_text_name(name@),
{
    if name.len() != 8 {
        return false;
    }
    let expected: [u8; 8] = [46u8, 116u8, 101u8, 120u8, 116u8, 0u8, 0u8, 0u8];
    let mut k: usize = 0;
    while k < 8
        invariant
            0 <= k <= 8,
            name@.len() == 8,
            forall|j: int| 0 <= j < k ==> lower_byte(#[trigger] name@[j]) == text_name_bytes()[j],
            forall|j: int| 0 <= j < 8 ==> expected[j] == text_name_bytes()[j],
        decreases 8 - k,
    {
        let b = name[k];
        let low: u8 = if 65 <= b && b <= 90 {
            b + 32
        } else {
            b
        };
        if low != expected[k] {
            return false;
        }
        k += 1;
    }
    true
}

/// A section may be read only when its declared raw extent lies
/// within the file: reading it can then never go out of bounds.
pub open spec fn extent_ok(s: SectionView, file_len: nat) -> bool {
    s.raw_offset + s.raw_size <= file_len
}

/// Bounds check for a section's declared raw extent against the
/// actual file length.
pub fn check_extent(raw_offset: u32, raw_size: u32, file_len: usize) -> (r: bool)
    ensures
        r == (raw_offset + raw_size <= file_len),
{
    raw_offset as u64 + raw_size as u64 <= file_len as u64
}

/// The first section whose name is the canonical code-section name.
pub open spec fn first_text_section(sections: Seq<SectionView>) -> Option<SectionView>
    decreases sections.len(),
{
    if sections.len() == 0 {
        None
    } else if is_text_name(sections[0].name) {
        Some(sections[0])
    } else {
        first_text_section(sections.drop_first())
    }
}

/// Locate the code section, returning its index.
pub fn find_text_section(sections: &Vec<Section>) -> (r: Option<usize>)
    ensures
        match r {
            Some(i) => i < sections@.len() && first_text_section(
                sections@.map_values(|s: Section| s@),
            ) == Some(sections@[i as int]@),
            None => first_text_section(sections@.map_values(|s: Section| s@)) is None,
        },
{
    let ghost all = sections@.map_values(|s: Section| s@);
    proof {
        assert(all.skip(0) =~= all);
    }
    let mut i: usize = 0;
    while i < sections.len()
        invariant
            0 <= i <= sections@.len(),
            all == sections@.map_values(|s: Section| s@),
            first_text_section(all) == first_text_section(all.skip(i as int)),
        decreases sections@.len() - i,
    {
        if section_is_text(&sections[i].name) {
            proof {
                assert(all.skip(i as int)[0] == all[i as int]);
            }
            return Some(i);
        }
        proof {
            assert(all.skip(i as int)[0] == all[i as int]);
            assert(all.skip(i as int).drop_first() =~= all.skip(i as int + 1));
        }
        i += 1;
    }
    proof {
        assert(all.skip(i as int).len() == 0);
    }
    None
}

} // verus!
