//! Announced patches and the rules by which patches are applied.
use litebox::lvbs::error::VsmError;
use litebox::lvbs::heki::ModMemType;
use litebox::lvbs::kernel_info::Vtl0KernelInfo;
use litebox::lvbs::module::{ModuleMemoryMetadata, ModuleMemoryRange};
use litebox::lvbs::patch::{
    apply_vtl0_text_patch, copy_heki_patch_from_vtl0, HekiPatch, PatchDataMap, PatchDataMapError,
    PatchDataReader, PatchRecordSizes, PatchSource, TextWrite,
};

const SIZES: PatchRecordSizes = PatchRecordSizes { info: 16, patch: 64 };

fn patch(pa_0: u64, pa_1: u64) -> HekiPatch {
    HekiPatch { pa_0, pa_1, code: vec![0x90; 5] }
}

/// A header: the number of patches behind it, and a mark.
fn header(count: u64) -> Vec<u8> {
    [count.to_le_bytes(), [1; 8]].concat()
}

/// A record of a patch, with a mark.
fn record(pa_0: u64, pa_1: u64) -> Vec<u8> {
    let mut bytes = [pa_0.to_le_bytes(), pa_1.to_le_bytes()].concat();
    bytes.resize(SIZES.patch, 1);
    bytes
}

fn word(bytes: &[u8], at: usize) -> u64 {
    u64::from_le_bytes(bytes[at..at + 8].try_into().unwrap())
}

fn read_header(bytes: &[u8]) -> Option<u64> {
    assert_eq!(bytes.len(), SIZES.info);
    (bytes[8] == 1).then_some(word(bytes, 0))
}

fn read_patch(bytes: &[u8]) -> Option<HekiPatch> {
    assert_eq!(bytes.len(), SIZES.patch);
    (bytes[16] == 1).then(|| patch(word(bytes, 0), word(bytes, 8)))
}

fn store(
    map: &mut PatchDataMap,
    records: &[Vec<u8>],
    module: Option<&mut ModuleMemoryMetadata>,
) -> Result<(), PatchDataMapError> {
    map.insert_patch_data_from_bytes(&records.concat(), SIZES, &read_header, &read_patch, module)
}

#[test]
fn kernel_patches_are_found_under_their_targets() {
    let mut map = PatchDataMap::new();
    let records = [
        header(1),
        record(0x1000, 0),
        header(0),
        header(2),
        record(0x2fff, 0x9000),
        record(0x3ffe, 0xa000),
        vec![0; 7],
    ];
    assert_eq!(store(&mut map, &records, None), Ok(()));
    assert_eq!(map.get(0x1000).unwrap().code, vec![0x90; 5]);
    assert_eq!(map.get(0x2fff).unwrap().pa_1, 0x9000);
    assert_eq!(map.get(0x9000).unwrap().pa_0, 0x2fff);
    assert!(map.get(0x3ffe).is_some());
    assert!(map.get(0xa000).is_none());
    map.remove_patch_data(&vec![0x2fff, 0x9000]);
    assert!(map.get(0x2fff).is_none());
    assert!(map.get(0x9000).is_none());
    assert!(map.get(0x1000).is_some());
}

#[test]
fn module_patches_must_target_its_text() {
    let mut module = ModuleMemoryMetadata::new();
    let base = 0xffff_8880_0000_0000;
    module.insert_memory_range(ModuleMemoryRange::new(base, 0x1000, 0x3000, ModMemType::Text));
    module.insert_memory_range(ModuleMemoryRange::new(base, 0x8000, 0x9000, ModMemType::Data));
    let records = [
        header(4),
        record(0x1010, 0),
        record(0x8010, 0),
        record(0x1fff, 0x2000),
        record(0x2fff, 0x3000),
    ];
    let mut map = PatchDataMap::default();
    assert_eq!(store(&mut map, &records, Some(&mut module)), Ok(()));
    assert!(map.get(0x1010).is_some());
    assert!(map.get(0x8010).is_none());
    assert!(map.get(0x2fff).is_none());
    assert_eq!(module.get_patch_targets(), &vec![0x1010, 0x1fff, 0x2000]);
    map.remove_patch_data(module.get_patch_targets());
    assert!(map.get(0x1010).is_none());
    assert!(map.get(0x2000).is_none());
}

#[test]
fn malformed_announcements_are_refused() {
    let mut map = PatchDataMap::new();
    assert_eq!(store(&mut map, &[vec![0; 15]], None), Err(PatchDataMapError::InvalidHekiPatchInfo));
    let too_many = [header(2), record(0x7000, 0)];
    assert_eq!(store(&mut map, &too_many, None), Err(PatchDataMapError::InvalidHekiPatchInfo));
    assert!(map.get(0x7000).is_none());
    let invalid = [header(3), record(0x1000, 0), vec![0; SIZES.patch], record(0x8000, 0)];
    assert_eq!(store(&mut map, &invalid, None), Err(PatchDataMapError::InvalidHekiPatch));
    assert!(map.get(0x1000).is_some() && map.get(0x8000).is_none());
    // Behind bytes that are no header nothing is read.
    let padded = [header(1), record(0x2000, 0), vec![0; SIZES.info], header(1), record(0x3000, 0)];
    assert_eq!(store(&mut map, &padded, None), Ok(()));
    assert!(map.get(0x2000).is_some() && map.get(0x3000).is_none());
}

#[test]
fn reader_steps_over_records() {
    let mut reader = PatchDataReader::new(16 + 128 + 20, SIZES).unwrap();
    assert_eq!(reader.next_info(), Some(0));
    assert_eq!(reader.accept_info(2), Ok((16, 144)));
    assert_eq!(reader.next_info(), Some(144));
    assert_eq!(reader.accept_info(1), Err(PatchDataMapError::InvalidHekiPatchInfo));
    assert_eq!(reader.accept_info(u64::MAX), Err(PatchDataMapError::InvalidHekiPatchInfo));
    assert_eq!(reader.accept_info(0), Ok((160, 160)));
    assert_eq!(reader.next_info(), None);
}

#[test]
fn announced_patch_is_found_for_later_steps() {
    let mut info = Vtl0KernelInfo::default();
    let records = [header(2), record(0x2fff, 0x9000), record(0x1000, 0)];
    assert_eq!(store(&mut info.precomputed_patches, &records, None), Ok(()));
    assert_eq!(info.find_precomputed_patch(0x1000, 0).unwrap().pa_0, 0x1000);
    assert_eq!(info.find_precomputed_patch(0x1001, 0).unwrap().pa_0, 0x1000);
    assert_eq!(info.find_precomputed_patch(0x9000, 0).unwrap().pa_0, 0x2fff);
    assert_eq!(info.find_precomputed_patch(0x7000, 0x9000).unwrap().pa_0, 0x2fff);
    assert!(info.find_precomputed_patch(0x1002, 0).is_none());
}

#[test]
fn patch_description_lies_in_one_or_two_pages() {
    assert!(matches!(
        copy_heki_patch_from_vtl0(0x1000, 0, 64),
        Ok(PatchSource::OneRun { pa: 0x1000 })
    ));
    assert!(matches!(
        copy_heki_patch_from_vtl0(0x1ff0, 0x2000, 64),
        Ok(PatchSource::OneRun { pa: 0x1ff0 })
    ));
    assert!(matches!(
        copy_heki_patch_from_vtl0(0x1ff0, 0x9000, 64),
        Ok(PatchSource::TwoPages { pa_0: 0x1ff0, first_len: 16, pa_1: 0x9000 })
    ));
    let bad = [(0, 0), (0x1000, 0x1000), (0x1ff0, 0x9001), (0x1ff0, 0), (0x1000, 0x2000)];
    for (pa_0, pa_1) in bad {
        assert!(matches!(
            copy_heki_patch_from_vtl0(pa_0, pa_1, 64),
            Err(VsmError::InvalidInputAddress)
        ));
    }
    assert!(matches!(
        copy_heki_patch_from_vtl0(1 << 52, 0, 64),
        Err(VsmError::InvalidPhysicalAddress)
    ));
}

#[test]
fn patch_is_written_page_by_page() {
    assert_eq!(
        apply_vtl0_text_patch(&patch(0x1010, 0)),
        vec![TextWrite { pa: 0x1010, from: 0, to: 5 }]
    );
    assert_eq!(
        apply_vtl0_text_patch(&patch(0x1ffe, 0x2000)),
        vec![TextWrite { pa: 0x1ffe, from: 0, to: 5 }]
    );
    assert_eq!(
        apply_vtl0_text_patch(&patch(0x1ffe, 0x9000)),
        vec![
            TextWrite { pa: 0x1ffe, from: 0, to: 2 },
            TextWrite { pa: 0x9000, from: 2, to: 5 },
        ]
    );
}
