use boot_handoff::memmap::{
    classify, range_overlaps_non_conventional, reclaimable, register_reclaimable,
    scratch_buffer_size, translate, type_code, FrameAllocatorHandle, MemoryMapSnapshot,
    MemoryRegionDescriptor, MemoryRegionType, RawMemoryEntry,
};

fn entry(raw_type: u32, physical_start: u64, page_count: u64) -> RawMemoryEntry {
    RawMemoryEntry {
        physical_start,
        virtual_start: 0,
        page_count,
        raw_type,
        attribute_bits: 0,
    }
}

fn descriptor(t: MemoryRegionType, physical_start: u64, page_count: u64) -> MemoryRegionDescriptor {
    MemoryRegionDescriptor {
        physical_start,
        virtual_start: 0,
        page_count,
        normalized_type: t,
        attribute_bits: 0,
    }
}

#[test]
fn classify_maps_every_known_code() {
    let expected = [
        MemoryRegionType::Reserved,
        MemoryRegionType::LoaderCode,
        MemoryRegionType::LoaderData,
        MemoryRegionType::BootServicesCode,
        MemoryRegionType::BootServicesData,
        MemoryRegionType::RuntimeServicesCode,
        MemoryRegionType::RuntimeServicesData,
        MemoryRegionType::Conventional,
        MemoryRegionType::Unusable,
        MemoryRegionType::AcpiReclaim,
        MemoryRegionType::AcpiNonVolatile,
        MemoryRegionType::Mmio,
        MemoryRegionType::MmioPortSpace,
        MemoryRegionType::PalCode,
        MemoryRegionType::PersistentMemory,
    ];
    for (raw, want) in expected.iter().enumerate() {
        assert_eq!(classify(raw as u32), *want);
        assert_eq!(type_code(*want), raw as u32);
    }
}

#[test]
fn classify_sends_unrecognized_codes_to_unknown() {
    assert_eq!(classify(15), MemoryRegionType::Unknown);
    assert_eq!(classify(0x8000_0000), MemoryRegionType::Unknown);
    assert_eq!(classify(u32::MAX), MemoryRegionType::Unknown);
    assert_eq!(type_code(MemoryRegionType::Unknown), 0xFFFF_FFFF);
}

#[test]
fn reclaimable_is_exactly_the_five_boot_time_types() {
    for t in [
        MemoryRegionType::Conventional,
        MemoryRegionType::LoaderCode,
        MemoryRegionType::LoaderData,
        MemoryRegionType::BootServicesCode,
        MemoryRegionType::BootServicesData,
    ] {
        assert!(reclaimable(t));
    }
    for t in [
        MemoryRegionType::Reserved,
        MemoryRegionType::RuntimeServicesCode,
        MemoryRegionType::RuntimeServicesData,
        MemoryRegionType::Unusable,
        MemoryRegionType::AcpiReclaim,
        MemoryRegionType::AcpiNonVolatile,
        MemoryRegionType::Mmio,
        MemoryRegionType::MmioPortSpace,
        MemoryRegionType::PalCode,
        MemoryRegionType::PersistentMemory,
        MemoryRegionType::Unknown,
    ] {
        assert!(!reclaimable(t));
    }
}

#[test]
fn translate_normalizes_and_keeps_fields() {
    let snapshot = MemoryMapSnapshot {
        buffer_size: 4096,
        map_key: 7,
        entries: vec![
            RawMemoryEntry {
                physical_start: 0x1000,
                virtual_start: 0x2000,
                page_count: 3,
                raw_type: 7,
                attribute_bits: 0xf,
            },
            entry(99, 0x8000, 1),
        ],
    };
    let descs = translate(&snapshot);
    assert_eq!(descs.len(), 2);
    assert_eq!(descs[0].physical_start, 0x1000);
    assert_eq!(descs[0].virtual_start, 0x2000);
    assert_eq!(descs[0].page_count, 3);
    assert_eq!(descs[0].normalized_type, MemoryRegionType::Conventional);
    assert_eq!(descs[0].attribute_bits, 0xf);
    assert_eq!(descs[1].normalized_type, MemoryRegionType::Unknown);
}

#[test]
fn conventional_range_registers_free_after_bias() {
    // Raw type Conventional, physical_start 0x0, 16 pages of 4096 bytes.
    let snapshot = MemoryMapSnapshot {
        buffer_size: 4096,
        map_key: 1,
        entries: vec![entry(7, 0x0, 16)],
    };
    let descs = translate(&snapshot);
    assert_eq!(descs[0].normalized_type, MemoryRegionType::Conventional);
    let mut allocator = FrameAllocatorHandle::new(0);
    register_reclaimable(&descs, &mut allocator);
    assert_eq!(allocator.range_count(), 1);
    // Registered free range is [0x0, 0x10000).
    assert_eq!(allocator.range_at(0), (0x0, 0x10000));
}

#[test]
fn bias_shifts_registered_ranges() {
    let descs = vec![descriptor(MemoryRegionType::Conventional, 0x4000, 2)];
    let mut allocator = FrameAllocatorHandle::new(0x1000);
    register_reclaimable(&descs, &mut allocator);
    assert_eq!(allocator.range_count(), 1);
    assert_eq!(allocator.range_at(0), (0x5000, 0x2000));
}

#[test]
fn non_reclaimable_ranges_are_never_registered() {
    let descs = vec![
        descriptor(MemoryRegionType::Conventional, 0x0, 1),
        descriptor(MemoryRegionType::Mmio, 0x10000, 4),
        descriptor(MemoryRegionType::Reserved, 0x20000, 4),
        descriptor(MemoryRegionType::BootServicesData, 0x30000, 2),
        descriptor(MemoryRegionType::Unknown, 0x40000, 8),
    ];
    let mut allocator = FrameAllocatorHandle::new(0);
    register_reclaimable(&descs, &mut allocator);
    assert_eq!(allocator.range_count(), 2);
    assert_eq!(allocator.range_at(0), (0x0, 0x1000));
    assert_eq!(allocator.range_at(1), (0x30000, 0x2000));
}

#[test]
fn load_region_overlap_sees_only_non_conventional_ranges() {
    let descs = vec![
        descriptor(MemoryRegionType::Conventional, 0x100000, 256),
        descriptor(MemoryRegionType::Mmio, 0x300000, 16),
    ];
    // Inside the conventional range only: no conflict.
    assert!(!range_overlaps_non_conventional(&descs, 0x100000, 0x10000));
    // Reaching into the reserved range: conflict.
    assert!(range_overlaps_non_conventional(&descs, 0x2f0000, 0x20000));
    assert!(range_overlaps_non_conventional(&descs, 0x300000, 0x1000));
    // Touching only the reserved range's end boundary: no conflict.
    assert!(!range_overlaps_non_conventional(&descs, 0x310000, 0x1000));
}

#[test]
fn scratch_buffer_size_rounds_up_to_pages() {
    assert_eq!(scratch_buffer_size(0), 0);
    assert_eq!(scratch_buffer_size(1), 4096);
    assert_eq!(scratch_buffer_size(4096), 4096);
    assert_eq!(scratch_buffer_size(4097), 8192);
    assert_eq!(scratch_buffer_size(0x3a00), 0x4000);
}
