//! Firmware memory-map translation.
//!
//! The firmware hands the loader an enumeration of raw memory regions,
//! each tagged with a numeric type. This module normalizes those tags
//! into a closed set of portable region types, decides which regions are
//! reclaimable as free physical memory, and registers the reclaimable
//! ranges with a frame allocator.

use vstd::prelude::*;

use crate::PAGE_SIZE;

verus! {

/// Raw type code the firmware uses for reserved memory.
pub const RAW_RESERVED: u32 = 0;
/// Largest raw type code with a dedicated normalized region type.
pub const RAW_MAX_KNOWN: u32 = 14;
/// Sentinel code reported for raw types outside the known set.
pub const UNKNOWN_SENTINEL: u32 = 0xFFFF_FFFF;

/// Normalized memory region type: the closed, portable set that the
/// kernel-facing descriptors use. Every firmware type code maps to
/// exactly one of these; unrecognized codes map to `Unknown`.
#[derive(Clone, Copy, Debug, PartialEq, Eq, Structural)]
pub enum MemoryRegionType {
    Reserved,
    LoaderCode,
    LoaderData,
    BootServicesCode,
    BootServicesData,
    RuntimeServicesCode,
    RuntimeServicesData,
    Conventional,
    Unusable,
    AcpiReclaim,
    AcpiNonVolatile,
    Mmio,
    MmioPortSpace,
    PalCode,
    PersistentMemory,
    Unknown,
}

/// One raw entry of the firmware memory map, as plain values.
#[derive(Clone, Copy, Debug, PartialEq, Eq, Structural)]
pub struct RawMemoryEntry {
    pub physical_start: u64,
    pub virtual_start: u64,
    pub page_count: u64,
    pub raw_type: u32,
    pub attribute_bits: u64,
}

/// Normalized descriptor for one memory region; produced once,
/// never mutated afterwards.
#[derive(Clone, Copy, Debug, PartialEq, Eq, Structural)]
pub struct MemoryRegionDescriptor {
    pub physical_start: u64,
    pub virtual_start: u64,
    pub page_count: u64,
    pub normalized_type: MemoryRegionType,
    pub attribute_bits: u64,
}

/// The total mapping from firmware type codes to normalized types.
pub open spec fn classify_spec(raw: u32) -> MemoryRegionType {
    if raw == 0 {
        MemoryRegionType::Reserved
    } else if raw == 1 {
        MemoryRegionType::LoaderCode
    } else if raw == 2 {
        MemoryRegionType::LoaderData
    } else if raw == 3 {
        MemoryRegionType::BootServicesCode
    } else if raw == 4 {
        MemoryRegionType::BootServicesData
    } else if raw == 5 {
        MemoryRegionType::RuntimeServicesCode
    } else if raw == 6 {
        MemoryRegionType::RuntimeServicesData
    } else if raw == 7 {
        MemoryRegionType::Conventional
    } else if raw == 8 {
        MemoryRegionType::Unusable
    } else if raw == 9 {
        MemoryRegionType::AcpiReclaim
    } else if raw == 10 {
        MemoryRegionType::AcpiNonVolatile
    } else if raw == 11 {
        MemoryRegionType::Mmio
    } else if raw == 12 {
        MemoryRegionType::MmioPortSpace
    } else if raw == 13 {
        MemoryRegionType::PalCode
    } else if raw == 14 {
        MemoryRegionType::PersistentMemory
    } else {
        MemoryRegionType::Unknown
    }
}

/// The numeric code of a normalized type, with the sentinel for `Unknown`.
pub open spec fn type_code_spec(t: MemoryRegionType) -> u32 {
    match t {
        MemoryRegionType::Reserved => 0,
        MemoryRegionType::LoaderCode => 1,
        MemoryRegionType::LoaderData => 2,
        MemoryRegionType::BootServicesCode => 3,
        MemoryRegionType::BootServicesData => 4,
        MemoryRegionType::RuntimeServicesCode => 5,
        MemoryRegionType::RuntimeServicesData => 6,
        MemoryRegionType::Conventional => 7,
        MemoryRegionType::Unusable => 8,
        MemoryRegionType::AcpiReclaim => 9,
        MemoryRegionType::AcpiNonVolatile => 10,
        MemoryRegionType::Mmio => 11,
        MemoryRegionType::MmioPortSpace => 12,
        MemoryRegionType::PalCode => 13,
        MemoryRegionType::PersistentMemory => 14,
        MemoryRegionType::Unknown => 0xFFFF_FFFF,
    }
}

/// Normalize one firmware type code.
pub fn classify(raw: u32) -> (t: MemoryRegionType)
    ensures
        t == classify_spec(raw),
{
    match raw {
        0 => MemoryRegionType::Reserved,
        1 => MemoryRegionType::LoaderCode,
        2 => MemoryRegionType::LoaderData,
        3 => MemoryRegionType::BootServicesCode,
        4 => MemoryRegionType::BootServicesData,
        5 => MemoryRegionType::RuntimeServicesCode,
        6 => MemoryRegionType::RuntimeServicesData,
        7 => MemoryRegionType::Conventional,
        8 => MemoryRegionType::Unusable,
        9 => MemoryRegionType::AcpiReclaim,
        10 => MemoryRegionType::AcpiNonVolatile,
        11 => MemoryRegionType::Mmio,
        12 => MemoryRegionType::MmioPortSpace,
        13 => MemoryRegionType::PalCode,
        14 => MemoryRegionType::PersistentMemory,
        _ => MemoryRegionType::Unknown,
    }
}

/// The numeric code of a normalized type.
pub fn type_code(t: MemoryRegionType) -> (c: u32)
    ensures
        c == type_code_spec(t),
{
    match t {
        MemoryRegionType::Reserved => 0,
        MemoryRegionType::LoaderCode => 1,
        MemoryRegionType::LoaderData => 2,
        MemoryRegionType::BootServicesCode => 3,
        MemoryRegionType::BootServicesData => 4,
        MemoryRegionType::RuntimeServicesCode => 5,
        MemoryRegionType::RuntimeServicesData => 6,
        MemoryRegionType::Conventional => 7,
        MemoryRegionType::Unusable => 8,
        MemoryRegionType::AcpiReclaim => 9,
        MemoryRegionType::AcpiNonVolatile => 10,
        MemoryRegionType::Mmio => 11,
        MemoryRegionType::MmioPortSpace => 12,
        MemoryRegionType::PalCode => 13,
        MemoryRegionType::PersistentMemory => 14,
        MemoryRegionType::Unknown => 0xFFFF_FFFF,
    }
}

/// Classification is total and deterministic: every known code round-trips
/// through its normalized type, and every code outside the known set
/// yields `Unknown`, whose reported code is the sentinel.
pub proof fn lemma_classify_total(raw: u32)
    ensures
        raw <= RAW_MAX_KNOWN ==> type_code_spec(classify_spec(raw)) == raw,
        raw > RAW_MAX_KNOWN ==> classify_spec(raw) == MemoryRegionType::Unknown,
        raw > RAW_MAX_KNOWN ==> type_code_spec(classify_spec(raw)) == UNKNOWN_SENTINEL,
{
}

/// A region may be handed to the frame allocator as free exactly when its
/// normalized type is one of these five; every other type stays off-limits
/// to the kernel.
pub open spec fn is_reclaimable(t: MemoryRegionType) -> bool {
    ||| t == MemoryRegionType::Conventional
    ||| t == MemoryRegionType::LoaderCode
    ||| t == MemoryRegionType::LoaderData
    ||| t == MemoryRegionType::BootServicesCode
    ||| t == MemoryRegionType::BootServicesData
}

/// Decide whether a normalized type marks a reclaimable region.
pub fn reclaimable(t: MemoryRegionType) -> (r: bool)
    ensures
        r == is_reclaimable(t),
{
    match t {
        MemoryRegionType::Conventional => true,
        MemoryRegionType::LoaderCode => true,
        MemoryRegionType::LoaderData => true,
        MemoryRegionType::BootServicesCode => true,
        MemoryRegionType::BootServicesData => true,
        _ => false,
    }
}

/// The descriptor produced for one raw entry: the numeric type is
/// normalized, everything else is carried over unchanged.
pub open spec fn translate_entry_spec(e: RawMemoryEntry) -> MemoryRegionDescriptor {
    MemoryRegionDescriptor {
        physical_start: e.physical_start,
        virtual_start: e.virtual_start,
        page_count: e.page_count,
        normalized_type: classify_spec(e.raw_type),
        attribute_bits: e.attribute_bits,
    }
}

/// A snapshot of the firmware memory map, already read out of the
/// firmware's scratch buffer into plain values. The `map_key` is the
/// freshness token of the moment the snapshot was taken; it is consumed
/// by the exit call and stale as soon as anything allocates.
pub struct MemoryMapSnapshot {
    pub buffer_size: usize,
    pub map_key: u64,
    pub entries: Vec<RawMemoryEntry>,
}

/// Normalize every entry of a snapshot into a descriptor, in order.
pub fn translate(snapshot: &MemoryMapSnapshot) -> (descs: Vec<MemoryRegionDescriptor>)
    ensures
        descs@.len() == snapshot.entries@.len(),
        forall|i: int|
            0 <= i < descs@.len() ==> descs@[i] == translate_entry_spec(snapshot.entries@[i]),
{
    let mut descs: Vec<MemoryRegionDescriptor> = Vec::new();
    let n = snapshot.entries.len();
    let mut i: usize = 0;
    while i < n
        invariant
            i <= n,
            n == snapshot.entries@.len(),
            descs@.len() == i,
            forall|j: int|
                0 <= j < i ==> descs@[j] == translate_entry_spec(snapshot.entries@[j]),
        decreases n - i,
    {
        let e = snapshot.entries[i];
        let d = MemoryRegionDescriptor {
            physical_start: e.physical_start,
            virtual_start: e.virtual_start,
            page_count: e.page_count,
            normalized_type: classify(e.raw_type),
            attribute_bits: e.attribute_bits,
        };
        descs.push(d);
        i = i + 1;
    }
    descs
}

/// Handle onto the external frame allocator, modeled by what the loader
/// is allowed to observe of it: the additive address bias it was
/// configured with and the sequence of free ranges registered so far,
/// each a `(start, size)` pair in the allocator's biased address space.
pub struct FrameAllocatorHandle {
    bias: u64,
    free_ranges: Vec<(u64, u64)>,
}

impl FrameAllocatorHandle {
    /// The additive offset converting raw firmware addresses to the
    /// allocator's internal representation.
    pub closed spec fn bias(self) -> u64 {
        self.bias
    }

    /// The free `(start, size)` ranges registered so far, oldest first.
    pub closed spec fn ranges(self) -> Seq<(u64, u64)> {
        self.free_ranges@
    }

    /// Create a handle with a fixed address bias and nothing registered.
    pub fn new(bias: u64) -> (a: FrameAllocatorHandle)
        ensures
            a.bias() == bias,
            a.ranges() == Seq::<(u64, u64)>::empty(),
    {
        FrameAllocatorHandle { bias, free_ranges: Vec::new() }
    }

    /// Register `[start, start + size)` of the raw firmware address space
    /// as free physical memory; the bias is applied on the way in.
    pub fn free_range(&mut self, start: u64, size: u64)
        requires
            start + old(self).bias() + size <= u64::MAX,
        ensures
            final(self).bias() == old(self).bias(),
            final(self).ranges() == old(self).ranges().push(
                ((start + old(self).bias()) as u64, size),
            ),
    {
        let biased = start + self.bias;
        self.free_ranges.push((biased, size));
    }

    /// How many free ranges have been registered.
    pub fn range_count(&self) -> (n: usize)
        ensures
            n == self.ranges().len(),
    {
        self.free_ranges.len()
    }

    /// The `i`-th registered free range.
    pub fn range_at(&self, i: usize) -> (r: (u64, u64))
        requires
            i < self.ranges().len(),
        ensures
            r == self.ranges()[i as int],
    {
        self.free_ranges[i]
    }
}

/// A descriptor whose registration arithmetic stays within the address
/// space: its end address, biased, still fits in 64 bits.
pub open spec fn desc_registrable(d: MemoryRegionDescriptor, bias: u64) -> bool {
    d.physical_start + bias + d.page_count * PAGE_SIZE <= u64::MAX
}

/// The free ranges that registering a descriptor sequence appends:
/// one `(physical_start + bias, page_count * PAGE_SIZE)` pair per
/// reclaimable descriptor, in order.
pub open spec fn registered_ranges_spec(
    descs: Seq<MemoryRegionDescriptor>,
    bias: u64,
) -> Seq<(u64, u64)>
    decreases descs.len(),
{
    if descs.len() == 0 {
        Seq::empty()
    } else {
        let d = descs.last();
        let rest = registered_ranges_spec(descs.drop_last(), bias);
        if is_reclaimable(d.normalized_type) {
            rest.push(
                (
                    (d.physical_start + bias) as u64,
                    (d.page_count * PAGE_SIZE) as u64,
                ),
            )
        } else {
            rest
        }
    }
}

/// Feed every reclaimable descriptor's physical range to the frame
/// allocator as free memory; non-reclaimable descriptors are skipped.
pub fn register_reclaimable(
    descs: &Vec<MemoryRegionDescriptor>,
    allocator: &mut FrameAllocatorHandle,
)
    requires
        forall|i: int|
            0 <= i < descs@.len() && is_reclaimable(#[trigger] descs@[i].normalized_type)
                ==> desc_registrable(descs@[i], old(allocator).bias()),
    ensures
        final(allocator).bias() == old(allocator).bias(),
        final(allocator).ranges() == old(allocator).ranges() + registered_ranges_spec(
            descs@,
            old(allocator).bias(),
        ),
{
    let n = descs.len();
    let mut i: usize = 0;
    proof {
        assert(descs@.take(0) =~= Seq::<MemoryRegionDescriptor>::empty());
        assert(allocator.ranges() =~= allocator.ranges() + registered_ranges_spec(
            descs@.take(0),
            allocator.bias(),
        ));
    }
    while i < n
        invariant
            i <= n,
            n == descs@.len(),
            allocator.bias() == old(allocator).bias(),
            forall|k: int|
                0 <= k < descs@.len() && is_reclaimable(#[trigger] descs@[k].normalized_type)
                    ==> desc_registrable(descs@[k], old(allocator).bias()),
            allocator.ranges() == old(allocator).ranges() + registered_ranges_spec(
                descs@.take(i as int),
                old(allocator).bias(),
            ),
        decreases n - i,
    {
        let d = descs[i];
        proof {
            assert(descs@.take(i + 1).drop_last() =~= descs@.take(i as int));
            assert(descs@.take(i + 1).last() == descs@[i as int]);
        }
        if reclaimable(d.normalized_type) {
            let size = d.page_count * PAGE_SIZE;
            allocator.free_range(d.physical_start, size);
        }
        i = i + 1;
    }
    proof {
        assert(descs@.take(n as int) =~= descs@);
    }
}

/// A candidate physical range `[start, start + size)` intersects a
/// descriptor's range.
pub open spec fn range_overlaps_desc(d: MemoryRegionDescriptor, start: int, size: int) -> bool {
    &&& start < d.physical_start + d.page_count * PAGE_SIZE
    &&& d.physical_start < start + size
}

/// Whether `[start, start + size)` intersects any region the firmware
/// classified as other than conventional memory: the check a fixed load
/// region must pass before it is allocated, since such regions are
/// already spoken for.
pub fn range_overlaps_non_conventional(
    descs: &Vec<MemoryRegionDescriptor>,
    start: u64,
    size: u64,
) -> (r: bool)
    ensures
        r == exists|i: int|
            0 <= i < descs@.len() && #[trigger] descs@[i].normalized_type
                != MemoryRegionType::Conventional && range_overlaps_desc(
                descs@[i],
                start as int,
                size as int,
            ),
{
    let n = descs.len();
    let mut i: usize = 0;
    while i < n
        invariant
            i <= n,
            n == descs@.len(),
            forall|j: int|
                0 <= j < i ==> !(#[trigger] descs@[j].normalized_type
                    != MemoryRegionType::Conventional && range_overlaps_desc(
                    descs@[j],
                    start as int,
                    size as int,
                )),
        decreases n - i,
    {
        let d = descs[i];
        let d_end: u128 = (d.physical_start as u128) + (d.page_count as u128) * (PAGE_SIZE
            as u128);
        let c_end: u128 = (start as u128) + (size as u128);
        if !(matches!(d.normalized_type, MemoryRegionType::Conventional)) && (start as u128) < d_end
            && (d.physical_start as u128) < c_end {
            return true;
        }
        i = i + 1;
    }
    false
}

/// The scratch-buffer size requested for a memory map of `map_size`
/// bytes: the size rounded up to a whole number of pages, so that the
/// buffer can later be registered as free page-granular memory.
pub open spec fn scratch_buffer_size_spec(map_size: int) -> int {
    ((map_size + 4095) / 4096) * 4096
}

/// Compute the scratch-buffer size to allocate for the memory map.
pub fn scratch_buffer_size(map_size: usize) -> (r: usize)
    requires
        map_size + 4095 <= usize::MAX,
    ensures
        r == scratch_buffer_size_spec(map_size as int),
        r >= map_size,
        r % 4096 == 0,
{
    ((map_size + 4095) / 4096) * 4096
}

} // verus!
