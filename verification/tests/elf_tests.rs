use boot_handoff::elf::{load, page_count_for, parse_header, ElfError};
use boot_handoff::region::PhysicalLoadRegion;

const LOAD_BASE: u64 = 0x100000;

fn put_le(buf: &mut Vec<u8>, off: usize, value: u64, n: usize) {
    for k in 0..n {
        buf[off + k] = ((value >> (8 * k)) & 0xff) as u8;
    }
}

/// Build a 64-bit little-endian ELF image with the given entry address
/// and program headers `(type, file_offset, vaddr, file_size, mem_size)`,
/// padded with a counting byte pattern up to `total_len`.
fn build_image(entry: u64, segments: &[(u32, u64, u64, u64, u64)], total_len: usize) -> Vec<u8> {
    let ph_off = 64usize;
    let needed = ph_off + segments.len() * 56;
    let len = total_len.max(needed);
    let mut img = vec![0u8; len];
    for (i, b) in img.iter_mut().enumerate() {
        *b = (i % 251) as u8;
    }
    img[0] = 0x7f;
    img[1] = 0x45;
    img[2] = 0x4c;
    img[3] = 0x46;
    img[4] = 2;
    img[5] = 1;
    put_le(&mut img, 24, entry, 8);
    put_le(&mut img, 32, ph_off as u64, 8);
    put_le(&mut img, 54, 56, 2);
    put_le(&mut img, 56, segments.len() as u64, 2);
    for (i, &(ty, off, vaddr, fsz, msz)) in segments.iter().enumerate() {
        let base = ph_off + i * 56;
        put_le(&mut img, base, ty as u64, 4);
        put_le(&mut img, base + 8, off, 8);
        put_le(&mut img, base + 16, vaddr, 8);
        put_le(&mut img, base + 32, fsz, 8);
        put_le(&mut img, base + 40, msz, 8);
    }
    img
}

fn region_bytes(region: &PhysicalLoadRegion, from: usize, to: usize) -> Vec<u8> {
    (from..to).map(|k| region.byte_at(k)).collect()
}

#[test]
fn parse_header_reads_declared_fields() {
    let img = build_image(0xdead_beef, &[(1, 0, LOAD_BASE, 8, 8)], 0);
    let h = parse_header(&img).unwrap();
    assert_eq!(h.entry, 0xdead_beef);
    assert_eq!(h.ph_offset, 64);
    assert_eq!(h.ph_entry_size, 56);
    assert_eq!(h.ph_count, 1);
}

#[test]
fn parse_header_rejects_bad_magic() {
    let mut img = build_image(LOAD_BASE, &[(1, 0, LOAD_BASE, 8, 8)], 0);
    img[1] = 0x00;
    assert_eq!(parse_header(&img), Err(ElfError::BadHeader));
    assert!(matches!(load(&img, LOAD_BASE), Err(ElfError::BadHeader)));
}

#[test]
fn parse_header_rejects_short_file() {
    let img = vec![0x7f, 0x45, 0x4c, 0x46, 2, 1];
    assert_eq!(parse_header(&img), Err(ElfError::BadHeader));
}

#[test]
fn single_segment_copies_and_zero_fills() {
    // One loadable segment: vaddr 0x100000, file_size 0x10, mem_size 0x20.
    let img = build_image(LOAD_BASE, &[(1, 0, LOAD_BASE, 0x10, 0x20)], 0);
    let (entry, region) = load(&img, LOAD_BASE).unwrap();
    assert_eq!(entry, LOAD_BASE);
    assert_eq!(region.base_address(), LOAD_BASE);
    assert_eq!(region.page_count(), 1);
    // Bytes of [load_base, load_base + 0x10) equal the source bytes.
    assert_eq!(region_bytes(&region, 0, 0x10), img[0..0x10].to_vec());
    // Bytes of [load_base + 0x10, load_base + 0x20) are all zero.
    assert_eq!(region_bytes(&region, 0x10, 0x20), vec![0u8; 0x10]);
}

#[test]
fn two_segments_load_independently() {
    let segs = [
        (1u32, 0x80u64, LOAD_BASE + 0x80, 0x20u64, 0x30u64),
        (1u32, 0x200u64, LOAD_BASE + 0x1000, 0x10u64, 0x10u64),
    ];
    let img = build_image(LOAD_BASE + 0x80, &segs, 0x400);
    let (entry, region) = load(&img, LOAD_BASE).unwrap();
    assert_eq!(entry, LOAD_BASE + 0x80);
    assert_eq!(region.page_count(), 2);
    assert_eq!(region_bytes(&region, 0x80, 0xa0), img[0x80..0xa0].to_vec());
    assert_eq!(region_bytes(&region, 0xa0, 0xb0), vec![0u8; 0x10]);
    assert_eq!(region_bytes(&region, 0x200, 0x210), img[0x200..0x210].to_vec());
}

#[test]
fn non_loadable_segments_are_skipped() {
    // Type 2 (non-loadable) alone: nothing to place.
    let img = build_image(LOAD_BASE, &[(2, 0, LOAD_BASE, 0x10, 0x20)], 0);
    assert!(matches!(load(&img, LOAD_BASE), Err(ElfError::NoLoadableSegments)));
}

#[test]
fn empty_table_has_no_loadable_segments() {
    let img = build_image(LOAD_BASE, &[], 128);
    assert!(matches!(load(&img, LOAD_BASE), Err(ElfError::NoLoadableSegments)));
}

#[test]
fn file_size_above_mem_size_is_malformed() {
    let img = build_image(LOAD_BASE, &[(1, 0, LOAD_BASE, 0x20, 0x10)], 0);
    assert!(matches!(load(&img, LOAD_BASE), Err(ElfError::MalformedSegment)));
}

#[test]
fn span_below_load_base_is_empty() {
    let img = build_image(0, &[(1, 0, 0, 0x10, 0x20)], 0);
    assert!(matches!(load(&img, LOAD_BASE), Err(ElfError::EmptySpan)));
}

#[test]
fn segment_reaching_past_file_is_out_of_bounds() {
    // file_size runs past the end of the 184-byte file.
    let img = build_image(LOAD_BASE, &[(1, 0, LOAD_BASE, 0x1000, 0x1000)], 0);
    assert!(matches!(load(&img, LOAD_BASE), Err(ElfError::SegmentOutOfBounds)));
}

#[test]
fn entry_outside_region_is_rejected() {
    let img = build_image(0x900000, &[(1, 0, LOAD_BASE, 0x10, 0x20)], 0);
    assert!(matches!(load(&img, LOAD_BASE), Err(ElfError::EntryOutsideRegion)));
}

#[test]
fn entry_below_load_base_is_rejected() {
    let img = build_image(0x1000, &[(1, 0, LOAD_BASE, 0x10, 0x20)], 0);
    assert!(matches!(load(&img, LOAD_BASE), Err(ElfError::EntryOutsideRegion)));
}

#[test]
fn unexpected_table_entry_size_is_rejected() {
    let mut img = build_image(LOAD_BASE, &[(1, 0, LOAD_BASE, 0x10, 0x20)], 0);
    // Declare 64-byte program-header entries.
    img[54] = 64;
    assert!(matches!(load(&img, LOAD_BASE), Err(ElfError::BadProgramHeaderTable)));
}

#[test]
fn table_running_past_the_file_is_rejected() {
    let mut img = build_image(LOAD_BASE, &[(1, 0, LOAD_BASE, 0x10, 0x20)], 0);
    // Declare more entries than the file holds.
    img[56] = 0xff;
    img[57] = 0xff;
    assert!(matches!(load(&img, LOAD_BASE), Err(ElfError::BadProgramHeaderTable)));
}

#[test]
fn span_wider_than_the_address_space_is_rejected() {
    // A loadable segment ending at the top of the 64-bit space: the page
    // cover cannot also hold the load base.
    let img = build_image(LOAD_BASE, &[(1, 0, 0xFFFF_FFFF_FFFF_F000, 0, 0xFFF)], 0);
    assert!(matches!(load(&img, LOAD_BASE), Err(ElfError::RegionTooLarge)));
}

#[test]
fn page_count_is_minimal_cover() {
    // One byte above the base still takes a whole page.
    assert_eq!(page_count_for(LOAD_BASE + 1, LOAD_BASE), 1);
    // Exactly one page.
    assert_eq!(page_count_for(LOAD_BASE + 4096, LOAD_BASE), 1);
    // One byte more spills into a second page.
    assert_eq!(page_count_for(LOAD_BASE + 4097, LOAD_BASE), 2);
    assert_eq!(page_count_for(LOAD_BASE + 0x20, LOAD_BASE), 1);
    // page_count * page_size covers the span; one page fewer would not.
    let pages = page_count_for(LOAD_BASE + 0x5000, LOAD_BASE);
    assert_eq!(pages, 5);
    assert!(pages * 4096 >= 0x5000);
    assert!((pages - 1) * 4096 < 0x5000);
}

#[test]
fn loaded_region_pages_cover_span() {
    // Span of 0x2010 bytes above the base: three pages.
    let img = build_image(LOAD_BASE, &[(1, 0, LOAD_BASE + 0x2000, 0x08, 0x10)], 0);
    let (_, region) = load(&img, LOAD_BASE).unwrap();
    assert_eq!(region.page_count(), 3);
    assert_eq!(region.size(), 3 * 4096);
}
