//! The kernel image loader.
//!
//! The kernel arrives as a flat 64-bit little-endian ELF file. This
//! module parses the header and the program-header table directly from
//! the bytes, computes the span and page count of the loadable segments,
//! copies each loadable segment into the physical load region — padding
//! the in-memory tail of a segment with zeros — and resolves the entry
//! address from the header's declared entry field.

use vstd::prelude::*;

use crate::region::PhysicalLoadRegion;
use crate::PAGE_SIZE;

verus! {

/// Length of the 64-bit ELF file header.
pub const ELF_HEADER_LEN: usize = 64;
/// Length of one 64-bit ELF program-header entry.
pub const PROGRAM_HEADER_LEN: usize = 56;
/// Program-header type tag of a loadable segment.
pub const SEGMENT_TYPE_LOAD: u32 = 1;

/// The little-endian value of the `n` bytes of `s` starting at `off`:
/// the byte at `off` is least significant.
pub open spec fn le_value(s: Seq<u8>, off: int, n: nat) -> nat
    decreases n,
{
    if n == 0 {
        0
    } else {
        (s[off] + 256 * le_value(s, off + 1, (n - 1) as nat)) as nat
    }
}

/// `256 ^ n`, the exclusive upper bound of an `n`-byte value.
pub open spec fn pow256(n: nat) -> nat
    decreases n,
{
    if n == 0 {
        1
    } else {
        256 * pow256((n - 1) as nat)
    }
}

/// An `n`-byte little-endian value is below `256 ^ n`.
pub proof fn lemma_le_value_bound(s: Seq<u8>, off: int, n: nat)
    requires
        0 <= off,
        off + n <= s.len(),
    ensures
        le_value(s, off, n) < pow256(n),
    decreases n,
{
    if n > 0 {
        lemma_le_value_bound(s, off + 1, (n - 1) as nat);
    }
}

/// Read the `n`-byte little-endian value at `off`; `n` is at most 8, so
/// the value fits in 64 bits.
pub fn read_le(bytes: &Vec<u8>, off: usize, n: usize) -> (r: u64)
    requires
        n <= 8,
        off + n <= bytes@.len(),
    ensures
        r == le_value(bytes@, off as int, n as nat),
{
    let blen = bytes.len();
    let mut r: u64 = 0;
    let mut k: usize = n;
    while k > 0
        invariant
            k <= n <= 8,
            off + n <= blen,
            blen == bytes@.len(),
            r == le_value(bytes@, off + k, (n - k) as nat),
            r < pow256((n - k) as nat),
        decreases k,
    {
        proof {
            lemma_le_value_bound(bytes@, off + k - 1, (n - k + 1) as nat);
            assert(pow256((n - k + 1) as nat) == 256 * pow256((n - k) as nat));
            assert(pow256((n - k) as nat) <= pow256(7)) by {
                lemma_pow256_increases((n - k) as nat, 7);
            }
            assert(pow256(7) == 0x100000000000000) by {
                reveal_with_fuel(pow256, 8);
            }
        }
        let b = bytes[off + k - 1];
        r = r * 256 + (b as u64);
        k = k - 1;
    }
    r
}

/// `pow256` grows with its argument.
pub proof fn lemma_pow256_increases(a: nat, b: nat)
    requires
        a <= b,
    ensures
        pow256(a) <= pow256(b),
    decreases b,
{
    if a < b {
        lemma_pow256_increases(a, (b - 1) as nat);
        assert(pow256(b) == 256 * pow256((b - 1) as nat));
        assert(pow256((b - 1) as nat) >= 1) by {
            lemma_pow256_pos((b - 1) as nat);
        }
    }
}

/// `pow256` is positive.
pub proof fn lemma_pow256_pos(n: nat)
    ensures
        pow256(n) >= 1,
    decreases n,
{
    if n > 0 {
        lemma_pow256_pos((n - 1) as nat);
    }
}

/// Failure of the loader. Every failure is fatal to the boot: the caller
/// halts, because no recovery exists before the kernel runs.
#[derive(Clone, Copy, Debug, PartialEq, Eq, Structural)]
pub enum ElfError {
    /// The file is too short or not a 64-bit little-endian ELF image.
    BadHeader,
    /// The program-header table has an unexpected entry size or runs
    /// past the end of the file.
    BadProgramHeaderTable,
    /// A loadable segment's own arithmetic is inconsistent: a size or
    /// address combination leaves the 64-bit space, or the in-memory
    /// size is smaller than the file size.
    MalformedSegment,
    /// No program header describes a loadable segment.
    NoLoadableSegments,
    /// The loadable segments end at or below the load base: nothing
    /// would be placed in the region.
    EmptySpan,
    /// The span of the loadable segments needs more memory than the
    /// platform can address.
    RegionTooLarge,
    /// A loadable segment reaches outside its source file or outside
    /// the allocated region.
    SegmentOutOfBounds,
    /// The header's entry address lies outside the loaded region.
    EntryOutsideRegion,
}

/// The fields of the ELF header that the loader uses.
#[derive(Clone, Copy, Debug, PartialEq, Eq, Structural)]
pub struct ElfHeader {
    pub entry: u64,
    pub ph_offset: u64,
    pub ph_entry_size: u16,
    pub ph_count: u16,
}

/// One program-header entry, reduced to the fields that placement needs.
#[derive(Clone, Copy, Debug, PartialEq, Eq, Structural)]
pub struct ProgramSegment {
    pub segment_type: u32,
    pub file_offset: u64,
    pub virtual_address: u64,
    pub file_size: u64,
    pub mem_size: u64,
}

/// The file starts with the ELF magic and declares a 64-bit,
/// little-endian layout, and is long enough to hold the header.
pub open spec fn magic_ok(s: Seq<u8>) -> bool {
    &&& s.len() >= ELF_HEADER_LEN
    &&& s[0] == 0x7f
    &&& s[1] == 0x45
    &&& s[2] == 0x4c
    &&& s[3] == 0x46
    &&& s[4] == 2
    &&& s[5] == 1
}

/// The header's declared entry address.
pub open spec fn header_entry(s: Seq<u8>) -> nat {
    le_value(s, 24, 8)
}

/// The header's declared program-header table offset.
pub open spec fn header_ph_offset(s: Seq<u8>) -> nat {
    le_value(s, 32, 8)
}

/// The header's declared size of one program-header entry.
pub open spec fn header_ph_entry_size(s: Seq<u8>) -> nat {
    le_value(s, 54, 2)
}

/// The header's declared number of program-header entries.
pub open spec fn header_ph_count(s: Seq<u8>) -> nat {
    le_value(s, 56, 2)
}

/// Parse the file header. Fails exactly when `magic_ok` does not hold.
pub fn parse_header(image: &Vec<u8>) -> (r: Result<ElfHeader, ElfError>)
    ensures
        r is Ok <==> magic_ok(image@),
        r matches Ok(h) ==> {
            &&& h.entry == header_entry(image@)
            &&& h.ph_offset == header_ph_offset(image@)
            &&& h.ph_entry_size == header_ph_entry_size(image@)
            &&& h.ph_count == header_ph_count(image@)
        },
        r matches Err(e) ==> e == ElfError::BadHeader,
{
    if image.len() < ELF_HEADER_LEN {
        return Err(ElfError::BadHeader);
    }
    if image[0] != 0x7f || image[1] != 0x45 || image[2] != 0x4c || image[3] != 0x46 {
        return Err(ElfError::BadHeader);
    }
    if image[4] != 2 || image[5] != 1 {
        return Err(ElfError::BadHeader);
    }
    let entry = read_le(image, 24, 8);
    let ph_offset = read_le(image, 32, 8);
    let ph_entry_size = read_le(image, 54, 2);
    let ph_count = read_le(image, 56, 2);
    proof {
        lemma_le_value_bound(image@, 54, 2);
        lemma_le_value_bound(image@, 56, 2);
        assert(pow256(2) == 65536) by {
            reveal_with_fuel(pow256, 3);
        }
    }
    Ok(
        ElfHeader {
            entry,
            ph_offset,
            ph_entry_size: ph_entry_size as u16,
            ph_count: ph_count as u16,
        },
    )
}

/// The program segment described at byte offset `base` of the file.
pub open spec fn segment_at(s: Seq<u8>, base: int) -> ProgramSegment {
    ProgramSegment {
        segment_type: le_value(s, base, 4) as u32,
        file_offset: le_value(s, base + 8, 8) as u64,
        virtual_address: le_value(s, base + 16, 8) as u64,
        file_size: le_value(s, base + 32, 8) as u64,
        mem_size: le_value(s, base + 40, 8) as u64,
    }
}

/// The header is sound and its program-header table lies within the
/// file, with the entry size this parser understands.
pub open spec fn ph_table_ok(s: Seq<u8>) -> bool {
    &&& magic_ok(s)
    &&& header_ph_entry_size(s) == PROGRAM_HEADER_LEN
    &&& header_ph_offset(s) + header_ph_count(s) * PROGRAM_HEADER_LEN <= s.len()
}

/// All program segments of the file, in table order.
pub open spec fn segments_of(s: Seq<u8>) -> Seq<ProgramSegment> {
    Seq::new(
        header_ph_count(s),
        |i: int| segment_at(s, header_ph_offset(s) + i * PROGRAM_HEADER_LEN),
    )
}

/// Parse the program-header table. Fails exactly when the header or the
/// table is unsound, naming which.
pub fn parse_program_headers(image: &Vec<u8>) -> (r: Result<Vec<ProgramSegment>, ElfError>)
    ensures
        r is Ok <==> ph_table_ok(image@),
        r matches Ok(v) ==> v@ == segments_of(image@),
        r matches Err(e) ==> e == (if !magic_ok(image@) {
            ElfError::BadHeader
        } else {
            ElfError::BadProgramHeaderTable
        }),
{
    let h = match parse_header(image) {
        Ok(h) => h,
        Err(e) => {
            return Err(e);
        },
    };
    if (h.ph_entry_size as usize) != PROGRAM_HEADER_LEN {
        return Err(ElfError::BadProgramHeaderTable);
    }
    let count = h.ph_count as usize;
    let table_len = count * PROGRAM_HEADER_LEN;
    let image_len = image.len();
    if (table_len as u64) > (image_len as u64) {
        return Err(ElfError::BadProgramHeaderTable);
    }
    if h.ph_offset > (image_len as u64) - (table_len as u64) {
        return Err(ElfError::BadProgramHeaderTable);
    }
    let ph_offset = h.ph_offset as usize;
    let mut segs: Vec<ProgramSegment> = Vec::new();
    let mut i: usize = 0;
    proof {
        assert(pow256(4) == 0x100000000) by {
            reveal_with_fuel(pow256, 5);
        }
    }
    while i < count
        invariant
            i <= count,
            ph_table_ok(image@),
            count == header_ph_count(image@),
            ph_offset == header_ph_offset(image@),
            ph_offset + count * PROGRAM_HEADER_LEN <= image@.len() <= usize::MAX,
            pow256(4) == 0x100000000,
            segs@.len() == i,
            forall|j: int| 0 <= j < i ==> segs@[j] == segments_of(image@)[j],
        decreases count - i,
    {
        let base = ph_offset + i * PROGRAM_HEADER_LEN;
        let seg = ProgramSegment {
            segment_type: read_le(image, base, 4) as u32,
            file_offset: read_le(image, base + 8, 8),
            virtual_address: read_le(image, base + 16, 8),
            file_size: read_le(image, base + 32, 8),
            mem_size: read_le(image, base + 40, 8),
        };
        proof {
            lemma_le_value_bound(image@, base as int, 4);
            assert(seg == segment_at(image@, base as int));
            assert(segments_of(image@)[i as int] == segment_at(
                image@,
                header_ph_offset(image@) + i * PROGRAM_HEADER_LEN,
            ));
        }
        segs.push(seg);
        i = i + 1;
    }
    proof {
        assert(segs@ =~= segments_of(image@));
    }
    Ok(segs)
}

/// Only segments of the loadable type participate in placement.
pub open spec fn is_loadable(seg: ProgramSegment) -> bool {
    seg.segment_type == SEGMENT_TYPE_LOAD
}

/// At least one segment is loadable.
pub open spec fn has_loadable(segs: Seq<ProgramSegment>) -> bool {
    exists|i: int| 0 <= i < segs.len() && is_loadable(segs[i])
}

/// End of the highest loadable segment in virtual memory; 0 with no
/// loadable segment.
pub open spec fn max_load_end(segs: Seq<ProgramSegment>) -> int
    decreases segs.len(),
{
    if segs.len() == 0 {
        0
    } else {
        let rest = max_load_end(segs.drop_last());
        let s = segs.last();
        if is_loadable(s) && s.virtual_address + s.mem_size > rest {
            s.virtual_address + s.mem_size
        } else {
            rest
        }
    }
}

/// Start of the lowest loadable segment in virtual memory; the search
/// runs down from `u64::MAX`, which stands with no loadable segment.
pub open spec fn min_load_start(segs: Seq<ProgramSegment>) -> int
    decreases segs.len(),
{
    if segs.len() == 0 {
        u64::MAX as int
    } else {
        let rest = min_load_start(segs.drop_last());
        let s = segs.last();
        if is_loadable(s) && s.virtual_address < rest {
            s.virtual_address as int
        } else {
            rest
        }
    }
}

/// `max_load_end` is what its name says: no loadable segment ends above
/// it, and one loadable segment ends exactly there.
pub proof fn lemma_max_load_end_is_max(segs: Seq<ProgramSegment>)
    requires
        has_loadable(segs),
    ensures
        forall|i: int|
            0 <= i < segs.len() && is_loadable(#[trigger] segs[i]) ==> segs[i].virtual_address
                + segs[i].mem_size <= max_load_end(segs),
        exists|i: int|
            0 <= i < segs.len() && is_loadable(#[trigger] segs[i]) && segs[i].virtual_address
                + segs[i].mem_size == max_load_end(segs),
    decreases segs.len(),
{
    let prefix = segs.drop_last();
    let s = segs.last();
    if has_loadable(prefix) {
        lemma_max_load_end_is_max(prefix);
        assert forall|i: int|
            0 <= i < segs.len() && is_loadable(#[trigger] segs[i]) implies segs[i].virtual_address
            + segs[i].mem_size <= max_load_end(segs) by {
            if i < segs.len() - 1 {
                assert(segs[i] == prefix[i]);
            }
        }
        if !(is_loadable(s) && s.virtual_address + s.mem_size > max_load_end(prefix)) {
            let j = choose|j: int|
                0 <= j < prefix.len() && is_loadable(#[trigger] prefix[j]) && prefix[j].virtual_address
                    + prefix[j].mem_size == max_load_end(prefix);
            assert(segs[j] == prefix[j]);
        }
    } else {
        assert forall|i: int| 0 <= i < segs.len() && is_loadable(#[trigger] segs[i]) implies i
            == segs.len() - 1 by {
            if i < segs.len() - 1 {
                assert(segs[i] == prefix[i]);
            }
        }
        assert(is_loadable(s));
        assert(max_load_end(prefix) == 0) by {
            lemma_max_load_end_no_loadable(prefix);
        }
    }
}

/// With no loadable segment the end of the span is the zero sentinel.
pub proof fn lemma_max_load_end_no_loadable(segs: Seq<ProgramSegment>)
    requires
        !has_loadable(segs),
    ensures
        max_load_end(segs) == 0,
    decreases segs.len(),
{
    if segs.len() > 0 {
        let prefix = segs.drop_last();
        assert(forall|i: int|
            0 <= i < prefix.len() ==> #[trigger] prefix[i] == segs[i]);
        lemma_max_load_end_no_loadable(prefix);
        assert(!is_loadable(segs.last()));
    }
}

/// `min_load_start` is what its name says: no loadable segment starts
/// below it, and one loadable segment starts exactly there.
pub proof fn lemma_min_load_start_is_min(segs: Seq<ProgramSegment>)
    requires
        has_loadable(segs),
    ensures
        forall|i: int|
            0 <= i < segs.len() && is_loadable(#[trigger] segs[i]) ==> min_load_start(segs)
                <= segs[i].virtual_address,
        exists|i: int|
            0 <= i < segs.len() && is_loadable(#[trigger] segs[i]) && segs[i].virtual_address
                == min_load_start(segs),
    decreases segs.len(),
{
    let prefix = segs.drop_last();
    let s = segs.last();
    if has_loadable(prefix) {
        lemma_min_load_start_is_min(prefix);
        assert forall|i: int|
            0 <= i < segs.len() && is_loadable(#[trigger] segs[i]) implies min_load_start(segs)
            <= segs[i].virtual_address by {
            if i < segs.len() - 1 {
                assert(segs[i] == prefix[i]);
            }
        }
        if !(is_loadable(s) && s.virtual_address < min_load_start(prefix)) {
            let j = choose|j: int|
                0 <= j < prefix.len() && is_loadable(#[trigger] prefix[j]) && prefix[j].virtual_address
                    == min_load_start(prefix);
            assert(segs[j] == prefix[j]);
        }
    } else {
        assert forall|i: int| 0 <= i < segs.len() && is_loadable(#[trigger] segs[i]) implies i
            == segs.len() - 1 by {
            if i < segs.len() - 1 {
                assert(segs[i] == prefix[i]);
            }
        }
        assert(is_loadable(s));
        assert(min_load_start(prefix) == u64::MAX as int) by {
            lemma_min_load_start_no_loadable(prefix);
        }
        assert(s.virtual_address <= u64::MAX);
    }
}

/// With no loadable segment the start of the span is the sentinel.
pub proof fn lemma_min_load_start_no_loadable(segs: Seq<ProgramSegment>)
    requires
        !has_loadable(segs),
    ensures
        min_load_start(segs) == u64::MAX as int,
    decreases segs.len(),
{
    if segs.len() > 0 {
        let prefix = segs.drop_last();
        assert(forall|i: int|
            0 <= i < prefix.len() ==> #[trigger] prefix[i] == segs[i]);
        lemma_min_load_start_no_loadable(prefix);
        assert(!is_loadable(segs.last()));
    }
}

/// The sums a loadable segment's placement computes stay in 64 bits,
/// and its in-memory size covers its file size.
pub open spec fn segment_arith_ok(seg: ProgramSegment) -> bool {
    &&& seg.virtual_address + seg.mem_size <= u64::MAX
    &&& seg.file_offset + seg.mem_size <= u64::MAX
    &&& seg.file_size <= seg.mem_size
}

/// Every loadable segment passes `segment_arith_ok`.
pub open spec fn all_loadable_arith_ok(segs: Seq<ProgramSegment>) -> bool {
    forall|i: int|
        0 <= i < segs.len() && is_loadable(#[trigger] segs[i]) ==> segment_arith_ok(segs[i])
}

/// Check `all_loadable_arith_ok` over a parsed table.
pub fn check_segment_arith(segs: &Vec<ProgramSegment>) -> (r: bool)
    ensures
        r == all_loadable_arith_ok(segs@),
{
    let n = segs.len();
    let mut i: usize = 0;
    while i < n
        invariant
            i <= n,
            n == segs@.len(),
            forall|j: int|
                0 <= j < i && is_loadable(#[trigger] segs@[j]) ==> segment_arith_ok(segs@[j]),
        decreases n - i,
    {
        let s = segs[i];
        if s.segment_type == SEGMENT_TYPE_LOAD {
            if s.mem_size > u64::MAX - s.virtual_address {
                return false;
            }
            if s.mem_size > u64::MAX - s.file_offset {
                return false;
            }
            if s.file_size > s.mem_size {
                return false;
            }
        }
        i = i + 1;
    }
    true
}

/// Scan the table for the span `[first, last)` of its loadable
/// segments in virtual memory: `first` the lowest start, `last` the
/// highest end. `None` exactly when no segment is loadable.
pub fn loadable_span(segs: &Vec<ProgramSegment>) -> (r: Option<(u64, u64)>)
    requires
        all_loadable_arith_ok(segs@),
    ensures
        r is Some <==> has_loadable(segs@),
        r matches Some((first, last)) ==> {
            &&& first == min_load_start(segs@)
            &&& last == max_load_end(segs@)
        },
{
    let n = segs.len();
    let mut first: u64 = u64::MAX;
    let mut last: u64 = 0;
    let mut found = false;
    let mut i: usize = 0;
    proof {
        assert(segs@.take(0) =~= Seq::<ProgramSegment>::empty());
    }
    while i < n
        invariant
            i <= n,
            n == segs@.len(),
            all_loadable_arith_ok(segs@),
            first == min_load_start(segs@.take(i as int)),
            last == max_load_end(segs@.take(i as int)),
            found == has_loadable(segs@.take(i as int)),
        decreases n - i,
    {
        let s = segs[i];
        proof {
            assert(segs@.take(i + 1).drop_last() =~= segs@.take(i as int));
            assert(segs@.take(i + 1).last() == segs@[i as int]);
            if is_loadable(segs@[i as int]) {
                assert(has_loadable(segs@.take(i + 1)));
            } else {
                assert(forall|j: int|
                    0 <= j < i + 1 && is_loadable(#[trigger] segs@.take(i + 1)[j])
                        ==> is_loadable(segs@.take(i as int)[j]));
            }
        }
        if s.segment_type == SEGMENT_TYPE_LOAD {
            let end = s.virtual_address + s.mem_size;
            if end > last {
                last = end;
            }
            if s.virtual_address < first {
                first = s.virtual_address;
            }
            found = true;
        }
        i = i + 1;
    }
    proof {
        assert(segs@.take(n as int) =~= segs@);
    }
    if found {
        Some((first, last))
    } else {
        None
    }
}

/// Number of pages that cover `span_end - base` bytes: the ceiling of
/// the span over the page size, computed without leaving 64 bits.
pub open spec fn pages_for(span_end: int, base: int) -> int
    recommends
        base < span_end,
{
    (span_end - base - 1) / (PAGE_SIZE as int) + 1
}

/// The page count is the minimal whole-page cover of the span: its
/// pages reach the span's end, and one page fewer would not.
pub proof fn lemma_page_count_minimal(span_end: int, base: int)
    requires
        base < span_end,
    ensures
        pages_for(span_end, base) * PAGE_SIZE >= span_end - base,
        (pages_for(span_end, base) - 1) * PAGE_SIZE < span_end - base,
{
    let x = span_end - base;
    let q = (x - 1) / (PAGE_SIZE as int);
    let r = (x - 1) % (PAGE_SIZE as int);
    vstd::arithmetic::div_mod::lemma_fundamental_div_mod(x - 1, PAGE_SIZE as int);
    vstd::arithmetic::div_mod::lemma_mod_bound(x - 1, PAGE_SIZE as int);
    assert(x - 1 == (PAGE_SIZE as int) * q + r);
    assert(pages_for(span_end, base) == q + 1);
    assert((q + 1) * PAGE_SIZE == q * PAGE_SIZE + PAGE_SIZE) by (nonlinear_arith);
    assert(q * PAGE_SIZE == (PAGE_SIZE as int) * q) by (nonlinear_arith);
}

/// Compute the page count of a span.
pub fn page_count_for(span_end: u64, base: u64) -> (pages: u64)
    requires
        base < span_end,
    ensures
        pages == pages_for(span_end as int, base as int),
        pages >= 1,
{
    (span_end - base - 1) / PAGE_SIZE + 1
}

/// Byte size of the region that receives the image: the page cover of
/// the loadable span above the load base.
pub open spec fn region_size_of(s: Seq<u8>, load_base: u64) -> int {
    pages_for(max_load_end(segments_of(s)), load_base as int) * PAGE_SIZE
}

/// The region stays addressable: its page count keeps the byte size
/// within a `usize`, and its end within 64 bits.
pub open spec fn region_bounds_ok(s: Seq<u8>, load_base: u64) -> bool {
    let pages = pages_for(max_load_end(segments_of(s)), load_base as int);
    &&& pages <= usize::MAX as int / PAGE_SIZE as int
    &&& load_base + pages * PAGE_SIZE <= u64::MAX
}

/// A loadable segment's source lies within the file and its destination
/// within the region.
pub open spec fn segment_fits(seg: ProgramSegment, image_len: int, region_size: int) -> bool {
    &&& seg.file_offset + seg.file_size <= image_len
    &&& seg.file_offset + seg.mem_size <= region_size
}

/// Every loadable segment passes `segment_fits`.
pub open spec fn all_loadable_fit(
    segs: Seq<ProgramSegment>,
    image_len: int,
    region_size: int,
) -> bool {
    forall|i: int|
        0 <= i < segs.len() && is_loadable(#[trigger] segs[i]) ==> segment_fits(
            segs[i],
            image_len,
            region_size,
        )
}

/// Check `all_loadable_fit` over a parsed table.
pub fn check_segments_fit(segs: &Vec<ProgramSegment>, image_len: usize, region_size: u64) -> (r:
    bool)
    requires
        all_loadable_arith_ok(segs@),
    ensures
        r == all_loadable_fit(segs@, image_len as int, region_size as int),
{
    let n = segs.len();
    let mut i: usize = 0;
    while i < n
        invariant
            i <= n,
            n == segs@.len(),
            all_loadable_arith_ok(segs@),
            forall|j: int|
                0 <= j < i && is_loadable(#[trigger] segs@[j]) ==> segment_fits(
                    segs@[j],
                    image_len as int,
                    region_size as int,
                ),
        decreases n - i,
    {
        let s = segs[i];
        if s.segment_type == SEGMENT_TYPE_LOAD {
            if s.file_offset > image_len as u64 || s.file_size > (image_len as u64)
                - s.file_offset {
                return false;
            }
            if s.file_offset + s.mem_size > region_size {
                return false;
            }
        }
        i = i + 1;
    }
    true
}

/// The header's entry address falls within the loaded region.
pub open spec fn entry_in_region(s: Seq<u8>, load_base: u64) -> bool {
    load_base <= header_entry(s) < load_base + region_size_of(s, load_base)
}

/// The destination byte ranges of two segments do not overlap.
pub open spec fn segments_disjoint(a: ProgramSegment, b: ProgramSegment) -> bool {
    ||| a.file_offset + a.mem_size <= b.file_offset
    ||| b.file_offset + b.mem_size <= a.file_offset
}

/// No two loadable segments overlap in their destination ranges.
pub open spec fn loadables_disjoint(segs: Seq<ProgramSegment>) -> bool {
    forall|a: int, b: int|
        0 <= a < b < segs.len() && is_loadable(#[trigger] segs[a]) && is_loadable(
            #[trigger] segs[b],
        ) ==> segments_disjoint(segs[a], segs[b])
}

/// A segment's placement, seen in the finished region: the bytes at
/// offsets `[file_offset, file_offset + file_size)` from the base equal
/// the file's bytes at the same offsets, and the in-memory tail up to
/// `mem_size` is zero.
pub open spec fn segment_loaded(mem: Seq<u8>, image: Seq<u8>, seg: ProgramSegment) -> bool {
    &&& forall|k: int|
        seg.file_offset <= k < seg.file_offset + seg.file_size ==> mem[k] == image[k]
    &&& forall|k: int|
        seg.file_offset + seg.file_size <= k < seg.file_offset + seg.mem_size ==> mem[k] == 0
}

/// Why a load fails, or `None` when it succeeds: the checks in the
/// order the loader makes them.
pub open spec fn load_failure(s: Seq<u8>, load_base: u64) -> Option<ElfError> {
    let segs = segments_of(s);
    if !magic_ok(s) {
        Some(ElfError::BadHeader)
    } else if !ph_table_ok(s) {
        Some(ElfError::BadProgramHeaderTable)
    } else if !all_loadable_arith_ok(segs) {
        Some(ElfError::MalformedSegment)
    } else if !has_loadable(segs) {
        Some(ElfError::NoLoadableSegments)
    } else if max_load_end(segs) <= load_base {
        Some(ElfError::EmptySpan)
    } else if !region_bounds_ok(s, load_base) {
        Some(ElfError::RegionTooLarge)
    } else if !all_loadable_fit(segs, s.len() as int, region_size_of(s, load_base)) {
        Some(ElfError::SegmentOutOfBounds)
    } else if !entry_in_region(s, load_base) {
        Some(ElfError::EntryOutsideRegion)
    } else {
        None
    }
}

/// Load the image into a fresh physical region at `load_base`.
///
/// On success the pair holds the entry address resolved from the
/// header's declared entry field, and the region: every loadable
/// segment's file bytes copied to `load_base + file_offset`, the tail up
/// to its in-memory size zero-filled — provided the loadable segments do
/// not overlap; the page count is the minimal whole-page cover of the
/// loadable span. Each failure comes exactly when `load_failure` says.
pub fn load(image: &Vec<u8>, load_base: u64) -> (r: Result<(u64, PhysicalLoadRegion), ElfError>)
    ensures
        r is Ok <==> load_failure(image@, load_base) is None,
        r matches Err(e) ==> Some(e) == load_failure(image@, load_base),
        r matches Ok(p) ==> {
            let segs = segments_of(image@);
            &&& p.1.wf()
            &&& p.1.base() == load_base
            &&& p.1.pages() == pages_for(max_load_end(segs), load_base as int)
            &&& p.1.mem().len() == region_size_of(image@, load_base)
            &&& p.0 == header_entry(image@)
            &&& load_base <= p.0
            &&& p.0 - load_base < p.1.mem().len()
            &&& (loadables_disjoint(segs) ==> forall|i: int|
                0 <= i < segs.len() && is_loadable(#[trigger] segs[i]) ==> segment_loaded(
                    p.1.mem(),
                    image@,
                    segs[i],
                ))
        },
{
    let h = match parse_header(image) {
        Ok(h) => h,
        Err(e) => {
            return Err(e);
        },
    };
    let segs = match parse_program_headers(image) {
        Ok(v) => v,
        Err(e) => {
            return Err(e);
        },
    };
    if !check_segment_arith(&segs) {
        return Err(ElfError::MalformedSegment);
    }
    let last = match loadable_span(&segs) {
        Some(span) => span.1,
        None => {
            return Err(ElfError::NoLoadableSegments);
        },
    };
    if last <= load_base {
        return Err(ElfError::EmptySpan);
    }
    let pages = page_count_for(last, load_base);
    if pages > usize::MAX as u64 / PAGE_SIZE {
        return Err(ElfError::RegionTooLarge);
    }
    proof {
        vstd::arithmetic::div_mod::lemma_fundamental_div_mod(usize::MAX as int, PAGE_SIZE as int);
        vstd::arithmetic::div_mod::lemma_mod_bound(usize::MAX as int, PAGE_SIZE as int);
        assert(pages * PAGE_SIZE <= (usize::MAX as int / PAGE_SIZE as int) * PAGE_SIZE);
    }
    let region_size = pages * PAGE_SIZE;
    if load_base > u64::MAX - region_size {
        return Err(ElfError::RegionTooLarge);
    }
    if !check_segments_fit(&segs, image.len(), region_size) {
        return Err(ElfError::SegmentOutOfBounds);
    }
    if h.entry < load_base || h.entry - load_base >= region_size {
        return Err(ElfError::EntryOutsideRegion);
    }
    let mut region = PhysicalLoadRegion::new(load_base, pages);
    let n = segs.len();
    let mut i: usize = 0;
    while i < n
        invariant
            i <= n,
            n == segs@.len(),
            segs@ == segments_of(image@),
            all_loadable_arith_ok(segs@),
            all_loadable_fit(segs@, image@.len() as int, region_size as int),
            region.wf(),
            region.base() == load_base,
            region.pages() == pages,
            region.mem().len() == region_size,
            region_size <= usize::MAX,
            loadables_disjoint(segs@) ==> forall|j: int|
                0 <= j < i && is_loadable(#[trigger] segs@[j]) ==> segment_loaded(
                    region.mem(),
                    image@,
                    segs@[j],
                ),
        decreases n - i,
    {
        let s = segs[i];
        if s.segment_type == SEGMENT_TYPE_LOAD {
            let ghost pre = region.mem();
            let fo = s.file_offset as usize;
            let fs = s.file_size as usize;
            let ms = s.mem_size as usize;
            let copied = region.copy_from(image, fo, fo, fs);
            let ghost mid = region.mem();
            assert(copied);
            let zeroed = region.zero_fill(fo + fs, ms - fs);
            assert(zeroed);
            proof {
                assert(segment_loaded(region.mem(), image@, segs@[i as int]));
                if loadables_disjoint(segs@) {
                    assert forall|j: int|
                        0 <= j < i + 1 && is_loadable(#[trigger] segs@[j]) implies segment_loaded(
                        region.mem(),
                        image@,
                        segs@[j],
                    ) by {
                        if j < i {
                            assert(segments_disjoint(segs@[j], segs@[i as int]));
                            assert(segment_loaded(pre, image@, segs@[j]));
                            assert forall|k: int|
                                segs@[j].file_offset <= k < segs@[j].file_offset
                                    + segs@[j].mem_size implies region.mem()[k] == pre[k] by {
                                assert(mid[k] == pre[k]);
                            }
                        }
                    }
                }
            }
        }
        i = i + 1;
    }
    Ok((h.entry, region))
}

} // verus!
