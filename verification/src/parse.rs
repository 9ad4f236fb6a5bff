use vstd::prelude::*;
use goblin::pe::PE;
use crate::image::{ImageRecord, ImageRecordView, OptionalInfo, Section};

verus! {

/// What goblin's PE parser yields for given file bytes, reduced to
/// the metadata the scan strategies read; `None` for bytes that are
/// not a well-formed image. The parse depends on the bytes alone.
pub uninterp spec fn image_of(bytes: Seq<u8>) -> Option<ImageRecordView>;

/// Relies on goblin::pe::PE::parse: parses file bytes into image
/// metadata. The conversion keeps the machine tag, the
/// DLL-characteristics word, the fill state of every data-directory
/// slot (there are always sixteen), the section table, the imported
/// DLL name of every imported symbol, and the export names.
#[verifier::external_body]
pub fn parse_image(bytes: &Vec<u8>) -> (r: Option<ImageRecord>)
    ensures
        match r {
            Some(rec) => image_of(bytes@) == Some(rec@) && rec@.wf(),
            None => image_of(bytes@) is None,
        },
{
    let pe = PE::parse(bytes).ok()?;
    Some(ImageRecord {
        machine: pe.header.coff_header.machine,
        optional: pe.header.optional_header.map(|o| OptionalInfo {
            dll_characteristics: o.windows_fields.dll_characteristics,
            directories: o.data_directories.data_directories.iter().map(|d| d.is_some()).collect(),
        }),
        sections: pe.sections.iter().map(|s| Section {
            name: s.name.to_vec(), raw_offset: s.pointer_to_raw_data,
            raw_size: s.size_of_raw_data, virtual_size: s.virtual_size,
        }).collect(),
        imports: pe.imports.iter().map(|i| i.dll.to_string()).collect(),
        exports: pe.exports.iter().map(|e| e.name.map(str::to_string)).collect(),
    })
}

} // verus!
