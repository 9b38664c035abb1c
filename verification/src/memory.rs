//! Virtual-memory manager: physical frame allocation from the boot-time
//! memory map, and a four-level page-mapping structure.
//!
//! The boot-time memory map is the list of physical memory regions handed
//! over by the bootstrap loader. Frames are the 4096-byte physical
//! allocation units; the allocator walks the usable regions in order and
//! hands each usable frame out at most once.

use vstd::prelude::*;

use bootloader::bootinfo::MemoryMap;
use bootloader::bootinfo::MemoryRegionType;
use std::collections::HashMap;

verus! {

broadcast use vstd::std_specs::hash::group_hash_axioms;

/// Size in bytes of a physical frame and of a virtual page.
pub const PAGE_SIZE: u64 = 4096;

/// Exclusive upper bound on frame numbers: frame number 2^40 is the first
/// one whose start address would lie beyond the 52-bit physical address
/// space.
pub const FRAME_NUMBER_LIMIT: u64 = 0x100_0000_0000;

/// A 4096-byte-aligned physical memory frame, identified by its start
/// address.
#[derive(Debug, Clone, Copy, PartialEq, Eq)]
pub struct PhysFrame {
    pub start_address: u64,
}

/// Translates a physical address through the linear offset at which all
/// physical memory is mirrored into virtual memory.
pub fn physical_to_virtual(physical_memory_offset: u64, phys: u64) -> (virt: u64)
    requires
        physical_memory_offset + phys <= u64::MAX,
    ensures
        virt == physical_memory_offset + phys,
{
    physical_memory_offset + phys
}

/// The boot-time memory map type of the bootstrap loader, carried opaquely:
/// the contracts speak of its entries only through `regions_of`.
#[verifier::external_type_specification]
#[verifier::external_body]
pub struct ExMemoryMap(MemoryMap);

/// One entry of the boot-time memory map, carried opaquely.
#[verifier::external_type_specification]
#[verifier::external_body]
pub struct ExMemoryRegion(bootloader::bootinfo::MemoryRegion);

/// The entries of a boot-time memory map: for each region, in order, its
/// first frame number, its exclusive end frame number, and whether the
/// region is usable by the kernel.
pub uninterp spec fn regions_of(m: MemoryMap) -> Seq<(u64, u64, bool)>;

/// Relies on `bootloader::bootinfo::MemoryMap`'s deref to the slice of its
/// entries: the number of regions in the map. The map is a fixed array of at
/// most 64 entries.
#[verifier::external_body]
fn region_count(m: &MemoryMap) -> (n: usize)
    ensures
        n == regions_of(*m).len(),
        n <= 64,
{
    m.len()
}

/// Relies on `bootloader::bootinfo::MemoryRegion`: each entry carries a
/// frame-number range (`FrameRange`, exclusive end) and a region type, of
/// which exactly `Usable` marks memory the kernel may take.
#[verifier::external_body]
fn region_at(m: &MemoryMap, i: usize) -> (r: (u64, u64, bool))
    requires
        i < regions_of(*m).len(),
    ensures
        r == regions_of(*m)[i as int],
{
    let region = &m[i];
    let usable = region.region_type == MemoryRegionType::Usable;
    (region.range.start_frame_number, region.range.end_frame_number, usable)
}

/// The frame numbers a single region contributes: every frame number from
/// its start (inclusive) to its end (exclusive), if the region is usable,
/// and nothing otherwise.
pub open spec fn region_frames(region: (u64, u64, bool)) -> Seq<u64> {
    if region.2 && region.0 < region.1 {
        Seq::new((region.1 - region.0) as nat, |k: int| (region.0 + k) as u64)
    } else {
        Seq::empty()
    }
}

/// All usable frame numbers of a region list, region by region in order.
pub open spec fn usable_frames_seq(regions: Seq<(u64, u64, bool)>) -> Seq<u64>
    decreases regions.len(),
{
    if regions.len() == 0 {
        Seq::empty()
    } else {
        region_frames(regions[0]) + usable_frames_seq(regions.drop_first())
    }
}

/// Every usable region ends below the frame-number limit, so every usable
/// frame has a start address within the physical address space.
pub open spec fn frames_bounded(regions: Seq<(u64, u64, bool)>) -> bool {
    forall|i: int| 0 <= i < regions.len() && (#[trigger] regions[i]).2 ==> regions[i].1 <= FRAME_NUMBER_LIMIT
}

/// A supplier of physical frames. An allocator promises which frames it
/// will hand out, in order, through `available`; `allocate_frame` pops the
/// first of them, or reports exhaustion.
pub trait FrameAllocator: Sized {
    /// The allocator's internal consistency.
    spec fn wf(&self) -> bool;

    /// The frame numbers this allocator will hand out, in order.
    spec fn available(&self) -> Seq<u64>;

    /// Returns the next frame, or `None` once the allocator is exhausted.
    fn allocate_frame(&mut self) -> (r: Option<PhysFrame>)
        requires
            old(self).wf(),
        ensures
            final(self).wf(),
            old(self).available().len() == 0 ==> r is None && final(self).available()
                == old(self).available(),
            old(self).available().len() > 0 ==> {
                &&& old(self).available()[0] * PAGE_SIZE <= u64::MAX
                &&& r == Some(PhysFrame { start_address: (old(self).available()[0] * PAGE_SIZE) as u64 })
                &&& final(self).available() == old(self).available().drop_first()
            },
    ;
}

/// A frame allocator that has nothing to give: every request reports
/// exhaustion.
pub struct EmptyFrameAllocator;

impl FrameAllocator for EmptyFrameAllocator {
    open spec fn wf(&self) -> bool {
        true
    }

    open spec fn available(&self) -> Seq<u64> {
        Seq::empty()
    }

    fn allocate_frame(&mut self) -> (r: Option<PhysFrame>) {
        None
    }
}

/// A frame allocator over the usable regions of the boot-time memory map.
/// Its cursor only ever advances: a frame handed out once is never handed
/// out again, and once the map is exhausted every request reports
/// exhaustion.
pub struct BootInfoFrameAllocator {
    memory_map: &'static MemoryMap,
    next: u64,
}

impl BootInfoFrameAllocator {
    /// All usable frame numbers of this allocator's memory map, in the
    /// order they are handed out.
    pub closed spec fn usable_frames(self) -> Seq<u64> {
        usable_frames_seq(regions_of(*self.memory_map))
    }

    /// How many frames have already been handed out.
    pub closed spec fn cursor(self) -> nat {
        self.next as nat
    }

    /// Creates a frame allocator from the passed memory map, with its
    /// cursor at the first usable frame. Returns nothing if some usable
    /// region of the map reaches beyond the physical address space, which a
    /// memory map describing real memory never does.
    pub fn init(memory_map: &'static MemoryMap) -> (r: Option<BootInfoFrameAllocator>)
        ensures
            match r {
                Some(a) => {
                    &&& a.wf()
                    &&& frames_bounded(regions_of(*memory_map))
                    &&& a.cursor() == 0
                    &&& a.usable_frames() == usable_frames_seq(regions_of(*memory_map))
                    &&& a.available() == usable_frames_seq(regions_of(*memory_map))
                },
                None => !frames_bounded(regions_of(*memory_map)),
            },
    {
        let n = region_count(memory_map);
        for i in 0..n
            invariant
                n == regions_of(*memory_map).len(),
                forall|j: int| 0 <= j < i && (#[trigger] regions_of(*memory_map)[j]).2
                    ==> regions_of(*memory_map)[j].1 <= FRAME_NUMBER_LIMIT,
        {
            let region = region_at(memory_map, i);
            if region.2 && region.1 > FRAME_NUMBER_LIMIT {
                return None;
            }
        }
        let a = BootInfoFrameAllocator { memory_map, next: 0 };
        proof {
            assert(a.available() =~= usable_frames_seq(regions_of(*memory_map)));
        }
        Some(a)
    }
}

/// The usable-region list is ascending: of two usable regions, the earlier
/// one ends no later than the later one starts. The bootstrap loader hands
/// the memory map over sorted, so its usable regions do not overlap.
pub open spec fn regions_ascending(regions: Seq<(u64, u64, bool)>) -> bool {
    forall|i: int, j: int|
        0 <= i < j < regions.len() && (#[trigger] regions[i]).2 && (#[trigger] regions[j]).2
            ==> regions[i].1 <= regions[j].0
}

/// Every usable frame number lies inside some usable region of the map.
pub proof fn lemma_usable_frames_in_regions(regions: Seq<(u64, u64, bool)>)
    ensures
        forall|k: int|
            0 <= k < usable_frames_seq(regions).len() ==> exists|i: int|
                0 <= i < regions.len() && (#[trigger] regions[i]).2 && regions[i].0
                    <= #[trigger] usable_frames_seq(regions)[k] && usable_frames_seq(regions)[k]
                    < regions[i].1,
    decreases regions.len(),
{
    if regions.len() > 0 {
        let first = region_frames(regions[0]);
        let rest = usable_frames_seq(regions.drop_first());
        lemma_usable_frames_in_regions(regions.drop_first());
        assert forall|k: int| 0 <= k < usable_frames_seq(regions).len() implies exists|i: int|
            0 <= i < regions.len() && (#[trigger] regions[i]).2 && regions[i].0
                <= #[trigger] usable_frames_seq(regions)[k] && usable_frames_seq(regions)[k]
                < regions[i].1 by {
            if k < first.len() {
                assert(regions[0].2 && regions[0].0 <= usable_frames_seq(regions)[k]
                    && usable_frames_seq(regions)[k] < regions[0].1);
            } else {
                let kr = k - first.len();
                assert(usable_frames_seq(regions)[k] == rest[kr]);
                let i = choose|i: int|
                    0 <= i < regions.drop_first().len() && (#[trigger] regions.drop_first()[i]).2
                        && regions.drop_first()[i].0 <= rest[kr] && rest[kr]
                        < regions.drop_first()[i].1;
                assert(regions[i + 1].2 && regions[i + 1].0 <= usable_frames_seq(regions)[k]
                    && usable_frames_seq(regions)[k] < regions[i + 1].1);
            }
        }
    }
}

/// Over an ascending region list, the usable frame numbers come out in
/// strictly increasing order, so no frame is ever handed out twice.
pub proof fn lemma_usable_frames_increasing(regions: Seq<(u64, u64, bool)>)
    requires
        regions_ascending(regions),
    ensures
        forall|a: int, b: int|
            0 <= a < b < usable_frames_seq(regions).len()
                ==> #[trigger] usable_frames_seq(regions)[a]
                < #[trigger] usable_frames_seq(regions)[b],
    decreases regions.len(),
{
    if regions.len() > 0 {
        let first = region_frames(regions[0]);
        let rest_regions = regions.drop_first();
        let rest = usable_frames_seq(rest_regions);
        assert(regions_ascending(rest_regions)) by {
            assert forall|i: int, j: int|
                0 <= i < j < rest_regions.len() && (#[trigger] rest_regions[i]).2
                    && (#[trigger] rest_regions[j]).2 implies rest_regions[i].1
                <= rest_regions[j].0 by {
                assert(rest_regions[i] == regions[i + 1]);
                assert(rest_regions[j] == regions[j + 1]);
            }
        }
        lemma_usable_frames_increasing(rest_regions);
        lemma_usable_frames_in_regions(rest_regions);
        assert forall|a: int, b: int|
            0 <= a < b < usable_frames_seq(regions).len() implies #[trigger] usable_frames_seq(
            regions,
        )[a] < #[trigger] usable_frames_seq(regions)[b] by {
            if b < first.len() {
                assert(usable_frames_seq(regions)[a] == (regions[0].0 + a) as u64);
                assert(usable_frames_seq(regions)[b] == (regions[0].0 + b) as u64);
            } else if a < first.len() {
                let e = rest[b - first.len()];
                assert(usable_frames_seq(regions)[b] == e);
                let i = choose|i: int|
                    0 <= i < rest_regions.len() && (#[trigger] rest_regions[i]).2
                        && rest_regions[i].0 <= e && e < rest_regions[i].1;
                assert(rest_regions[i] == regions[i + 1]);
                assert(regions[0].1 <= regions[i + 1].0);
                assert(usable_frames_seq(regions)[a] < regions[0].1);
            } else {
                assert(usable_frames_seq(regions)[a] == rest[a - first.len()]);
                assert(usable_frames_seq(regions)[b] == rest[b - first.len()]);
            }
        }
    }
}

/// Every frame the allocator hands out is 4096-byte aligned and lies, with
/// its full 4096 bytes, inside a usable region of the memory map.
pub proof fn lemma_frame_addresses_usable(regions: Seq<(u64, u64, bool)>)
    requires
        frames_bounded(regions),
    ensures
        forall|k: int|
            0 <= k < usable_frames_seq(regions).len()
                ==> (#[trigger] usable_frames_seq(regions)[k] * PAGE_SIZE) % (PAGE_SIZE as int)
                == 0,
        forall|k: int|
            0 <= k < usable_frames_seq(regions).len() ==> exists|i: int|
                0 <= i < regions.len() && (#[trigger] regions[i]).2 && regions[i].0 * PAGE_SIZE
                    <= (#[trigger] usable_frames_seq(regions)[k]) * PAGE_SIZE
                    && usable_frames_seq(regions)[k] * PAGE_SIZE + PAGE_SIZE
                    <= regions[i].1 * PAGE_SIZE,
    decreases regions.len(),
{
    lemma_usable_frames_in_regions(regions);
    assert forall|k: int| 0 <= k < usable_frames_seq(regions).len() implies (
    #[trigger] usable_frames_seq(regions)[k] * PAGE_SIZE) % (PAGE_SIZE as int) == 0 by {
        vstd::arithmetic::mul::lemma_mul_is_commutative(
            usable_frames_seq(regions)[k] as int,
            PAGE_SIZE as int,
        );
        vstd::arithmetic::div_mod::lemma_mod_multiples_basic(
            usable_frames_seq(regions)[k] as int,
            PAGE_SIZE as int,
        );
    }
    assert forall|k: int| 0 <= k < usable_frames_seq(regions).len() implies exists|i: int|
        0 <= i < regions.len() && (#[trigger] regions[i]).2 && regions[i].0 * PAGE_SIZE
            <= (#[trigger] usable_frames_seq(regions)[k]) * PAGE_SIZE
            && usable_frames_seq(regions)[k] * PAGE_SIZE + PAGE_SIZE
            <= regions[i].1 * PAGE_SIZE by {
        let f = usable_frames_seq(regions)[k];
        let i = choose|i: int|
            0 <= i < regions.len() && (#[trigger] regions[i]).2 && regions[i].0 <= f && f
                < regions[i].1;
        assert(regions[i].0 * PAGE_SIZE <= f * PAGE_SIZE && f * PAGE_SIZE + PAGE_SIZE <= regions[i].1
            * PAGE_SIZE) by (nonlinear_arith)
            requires
                regions[i].0 <= f && f < regions[i].1 && PAGE_SIZE == 4096,
        ;
        assert(regions[i].2 && regions[i].0 * PAGE_SIZE <= f * PAGE_SIZE && f * PAGE_SIZE
            + PAGE_SIZE <= regions[i].1 * PAGE_SIZE);
    }
}

/// A memory map of bounded regions yields boundedly many usable frames:
/// each region contributes fewer than the frame-number limit.
proof fn lemma_usable_frames_len(regions: Seq<(u64, u64, bool)>)
    requires
        frames_bounded(regions),
    ensures
        usable_frames_seq(regions).len() <= regions.len() * (FRAME_NUMBER_LIMIT as int),
    decreases regions.len(),
{
    if regions.len() > 0 {
        assert(region_frames(regions[0]).len() <= FRAME_NUMBER_LIMIT);
        assert(frames_bounded(regions.drop_first()));
        lemma_usable_frames_len(regions.drop_first());
        assert((regions.len() - 1) * (FRAME_NUMBER_LIMIT as int) + FRAME_NUMBER_LIMIT
            == regions.len() * (FRAME_NUMBER_LIMIT as int)) by (nonlinear_arith);
    }
}

impl FrameAllocator for BootInfoFrameAllocator {
    /// Every usable region of the map lies within the physical address
    /// space.
    closed spec fn wf(&self) -> bool {
        frames_bounded(regions_of(*self.memory_map))
    }

    /// The usable frames not yet handed out.
    closed spec fn available(&self) -> Seq<u64> {
        if self.next as int <= self.usable_frames().len() {
            self.usable_frames().skip(self.next as int)
        } else {
            Seq::empty()
        }
    }

    fn allocate_frame(&mut self) -> (r: Option<PhysFrame>)
        ensures
            final(self).usable_frames() == old(self).usable_frames(),
    {
        let ghost regions = regions_of(*self.memory_map);
        let ghost frames = usable_frames_seq(regions);
        let target: u64 = self.next;
        if self.next != u64::MAX {
            self.next = self.next + 1;
        }

        let n = region_count(self.memory_map);
        let mut skipped: u64 = 0;
        let ghost mut consumed: Seq<u64> = Seq::empty();
        proof {
            assert(regions.skip(0) =~= regions);
        }
        for i in 0..n
            invariant
                self.memory_map == old(self).memory_map,
                old(self).next == target,
                self.next as int == if target == u64::MAX { target as int } else { target + 1 },
                regions == regions_of(*self.memory_map),
                frames == usable_frames_seq(regions),
                frames_bounded(regions),
                n == regions.len(),
                n <= 64,
                skipped <= target,
                consumed.len() == skipped,
                frames =~= consumed + usable_frames_seq(regions.skip(i as int)),
        {
            let region = region_at(self.memory_map, i);
            let ghost rest = regions.skip(i as int);
            proof {
                assert(rest.len() > 0);
                assert(rest[0] == regions[i as int]);
                assert(rest.drop_first() =~= regions.skip(i + 1));
                assert(usable_frames_seq(rest)
                    == region_frames(region) + usable_frames_seq(regions.skip(i + 1)));
            }
            let count: u64 = if region.2 && region.0 < region.1 {
                region.1 - region.0
            } else {
                0
            };
            let remaining = target - skipped;
            if remaining < count {
                let frame_number = region.0 + remaining;
                proof {
                    assert(region_frames(region).len() == count);
                    assert(region_frames(region)[remaining as int] == frame_number);
                    assert(frames[target as int] == frame_number);
                    assert((target as int) < frames.len());
                    assert(frame_number < region.1);
                    assert(regions[i as int].2 && regions[i as int].1 <= FRAME_NUMBER_LIMIT);
                    assert(frame_number < FRAME_NUMBER_LIMIT);
                    lemma_usable_frames_len(regions);
                    assert(frames.len() <= 64 * (FRAME_NUMBER_LIMIT as int));
                    assert(target < u64::MAX);
                    assert(old(self).available() == frames.skip(target as int));
                    assert(old(self).available()[0] == frame_number);
                    assert(self.available() =~= old(self).available().drop_first());
                }
                return Some(PhysFrame { start_address: frame_number * PAGE_SIZE });
            }
            skipped = skipped + count;
            proof {
                let stepped = consumed + region_frames(region);
                assert(frames =~= stepped + usable_frames_seq(regions.skip(i + 1)));
                consumed = stepped;
            }
        }
        proof {
            assert(regions.skip(n as int) =~= Seq::<(u64, u64, bool)>::empty());
            assert(usable_frames_seq(regions.skip(n as int)) == Seq::<u64>::empty());
            assert(frames =~= consumed);
            assert(frames.len() <= target);
            assert(old(self).available() =~= Seq::<u64>::empty());
            assert(self.available() =~= Seq::<u64>::empty());
        }
        None
    }
}

/// Page-table entry flag: the mapping is present.
pub const FLAG_PRESENT: u64 = 1;

/// Page-table entry flag: the mapping is writable.
pub const FLAG_WRITABLE: u64 = 2;

/// A virtual-to-physical mapping: the target frame and its permission
/// flags.
#[derive(Debug, Clone, Copy, PartialEq, Eq)]
pub struct Mapping {
    pub frame: PhysFrame,
    pub flags: u64,
}

/// Why a mapping operation failed: no frame was left for an intermediate
/// page table, or the page was already mapped.
#[derive(Debug, Clone, Copy, PartialEq, Eq)]
pub enum MapToError {
    FrameAllocationFailed,
    PageAlreadyMapped,
}

/// Witness of a fresh mapping: carries the page whose translation-cache
/// entry must be invalidated before the mapping is relied on.
#[must_use]
pub struct MapperFlush {
    page: u64,
}

impl MapperFlush {
    /// The page this flush token is for.
    pub closed spec fn spec_page(self) -> u64 {
        self.page
    }

    /// The page whose translation-cache entry is to be invalidated.
    pub fn page(&self) -> (p: u64)
        ensures
            p == self.spec_page(),
    {
        self.page
    }
}

/// The entry index of a page in the top-level (fourth-level) table: bits
/// 39..48 of the virtual address.
pub open spec fn l4_index(page: u64) -> u64 {
    (page >> 39) & 0x1ff
}

/// The entry index of a page in its third-level table: bits 30..39.
pub open spec fn l3_index(page: u64) -> u64 {
    (page >> 30) & 0x1ff
}

/// The entry index of a page in its second-level table: bits 21..30.
pub open spec fn l2_index(page: u64) -> u64 {
    (page >> 21) & 0x1ff
}

/// The identity of the third-level table a page walks through: its slot in
/// the fourth-level table.
pub open spec fn l3_table_key(page: u64) -> u64 {
    l4_index(page)
}

/// The identity of the second-level table a page walks through.
pub open spec fn l2_table_key(page: u64) -> u64 {
    (l4_index(page) * 512 + l3_index(page)) as u64
}

/// The identity of the first-level table a page walks through.
pub open spec fn l1_table_key(page: u64) -> u64 {
    (l2_table_key(page) * 512 + l2_index(page)) as u64
}

/// The start address of the page containing an address.
pub open spec fn page_of(addr: u64) -> u64 {
    (addr - (addr % PAGE_SIZE)) as u64
}

/// The four-level page-mapping structure bound to the linear physical
/// memory mirror at `physical_memory_offset`. It records which
/// intermediate page tables exist on each level and which pages are
/// mapped; its view is the map from page start address to mapping.
pub struct OffsetPageTable {
    physical_memory_offset: u64,
    l3_tables: HashMap<u64, u64>,
    l2_tables: HashMap<u64, u64>,
    l1_tables: HashMap<u64, u64>,
    mappings: HashMap<u64, Mapping>,
}

impl View for OffsetPageTable {
    type V = Map<u64, Mapping>;

    closed spec fn view(&self) -> Map<u64, Mapping> {
        self.mappings@
    }
}

impl OffsetPageTable {
    /// The linear offset at which all physical memory is mirrored.
    pub closed spec fn offset(self) -> u64 {
        self.physical_memory_offset
    }

    /// Every mapped page has its chain of intermediate tables in place,
    /// and pages and frames are page-aligned.
    pub closed spec fn wf(self) -> bool {
        forall|p: u64| #[trigger] self.mappings@.contains_key(p) ==> {
            &&& self.l3_tables@.contains_key(l3_table_key(p))
            &&& self.l2_tables@.contains_key(l2_table_key(p))
            &&& self.l1_tables@.contains_key(l1_table_key(p))
            &&& p % PAGE_SIZE == 0
            &&& self.mappings@[p].frame.start_address % PAGE_SIZE == 0
        }
    }

    /// How many intermediate page tables are still missing on the walk to
    /// this page: each of the three levels contributes one if its table
    /// does not exist yet.
    pub closed spec fn missing_tables(self, page: u64) -> nat {
        (if self.l3_tables@.contains_key(l3_table_key(page)) {
            0nat
        } else {
            1nat
        }) + (if self.l2_tables@.contains_key(l2_table_key(page)) {
            0nat
        } else {
            1nat
        }) + (if self.l1_tables@.contains_key(l1_table_key(page)) {
            0nat
        } else {
            1nat
        })
    }

    /// The mirror offset, as a value.
    pub fn physical_memory_offset(&self) -> (o: u64)
        ensures
            o == self.offset(),
    {
        self.physical_memory_offset
    }

    /// Translates a virtual address: the mapped frame of its page, plus
    /// the offset within the page. Nothing is returned for an unmapped
    /// page.
    pub fn translate_addr(&self, addr: u64) -> (r: Option<u64>)
        requires
            self.wf(),
        ensures
            match r {
                Some(phys) => self@.contains_key(page_of(addr)) && phys == self@[page_of(
                    addr,
                )].frame.start_address + (addr % PAGE_SIZE),
                None => !self@.contains_key(page_of(addr)),
            },
    {
        let offset_in = addr % PAGE_SIZE;
        let page = addr - offset_in;
        match self.mappings.get(&page) {
            Some(mapping) => {
                proof {
                    let start = self.mappings@[page].frame.start_address;
                    assert(start % 4096 == 0 ==> start <= 0xffff_ffff_ffff_f000u64) by (bit_vector);
                }
                Some(mapping.frame.start_address + offset_in)
            },
            None => None,
        }
    }

    /// Creates a new mapping for the given page with present/writable
    /// flags, allocating any intermediate page tables that are still
    /// missing from the supplied allocator. Fails with a mapping conflict
    /// if the page is already mapped, and with allocation exhaustion if an
    /// intermediate table frame cannot be obtained; it succeeds exactly
    /// otherwise. On success, the returned token names the page whose
    /// translation-cache entry is to be invalidated.
    pub fn map<A: FrameAllocator>(
        &mut self,
        page: u64,
        frame: PhysFrame,
        flags: u64,
        frame_allocator: &mut A,
    ) -> (r: Result<MapperFlush, MapToError>)
        requires
            old(self).wf(),
            old(frame_allocator).wf(),
            page % PAGE_SIZE == 0,
            frame.start_address % PAGE_SIZE == 0,
        ensures
            final(self).wf(),
            final(frame_allocator).wf(),
            final(self).offset() == old(self).offset(),
            match r {
                Ok(flush) => {
                    &&& !old(self)@.contains_key(page)
                    &&& old(frame_allocator).available().len() >= old(self).missing_tables(page)
                    &&& flush.spec_page() == page
                    &&& final(self)@ == old(self)@.insert(page, Mapping { frame, flags })
                    &&& final(self).missing_tables(page) == 0
                    &&& final(frame_allocator).available() == old(frame_allocator).available()
                        .skip(old(self).missing_tables(page) as int)
                },
                Err(MapToError::PageAlreadyMapped) => {
                    &&& old(self)@.contains_key(page)
                    &&& *final(self) == *old(self)
                    &&& *final(frame_allocator) == *old(frame_allocator)
                },
                Err(MapToError::FrameAllocationFailed) => {
                    &&& !old(self)@.contains_key(page)
                    &&& old(frame_allocator).available().len() < old(self).missing_tables(page)
                    &&& final(self)@ == old(self)@
                    &&& final(frame_allocator).available().len() == 0
                },
            },
    {
        let ghost avail0 = old(frame_allocator).available();
        let ghost missing = old(self).missing_tables(page);
        let k4 = page_l4_index(page);
        let k34 = page_l2_table_key(page);
        let k234 = page_l1_table_key(page);
        let ghost m3: int = if old(self).l3_tables@.contains_key(k4) {
            0
        } else {
            1
        };
        let ghost m2: int = if old(self).l2_tables@.contains_key(k34) {
            0
        } else {
            1
        };
        let ghost m1: int = if old(self).l1_tables@.contains_key(k234) {
            0
        } else {
            1
        };
        proof {
            assert(missing == m3 + m2 + m1);
            assert(avail0.skip(0) =~= avail0);
        }

        if !self.l3_tables.contains_key(&k4) {
            match frame_allocator.allocate_frame() {
                Some(f) => {
                    self.l3_tables.insert(k4, f.start_address);
                },
                None => {
                    proof {
                        assert(avail0.len() == 0);
                        assert(m3 == 1);
                    }
                    return Err(MapToError::FrameAllocationFailed);
                },
            }
        }
        proof {
            assert(self.l3_tables@.contains_key(k4));
            if m3 == 1 {
                assert(avail0.len() > 0);
                assert(frame_allocator.available() =~= avail0.skip(m3));
            } else {
                assert(frame_allocator.available() =~= avail0.skip(m3));
            }
        }

        if !self.l2_tables.contains_key(&k34) {
            match frame_allocator.allocate_frame() {
                Some(f) => {
                    self.l2_tables.insert(k34, f.start_address);
                },
                None => {
                    proof {
                        assert(avail0.skip(m3).len() == 0);
                        assert(avail0.len() == m3);
                        assert(m2 == 1);
                        assert(frame_allocator.available().len() == 0);
                    }
                    return Err(MapToError::FrameAllocationFailed);
                },
            }
        }
        proof {
            assert(self.l2_tables@.contains_key(k34));
            if m2 == 1 {
                assert(avail0.skip(m3).len() > 0);
                assert(avail0.skip(m3).drop_first() =~= avail0.skip(m3 + m2));
            }
            assert(frame_allocator.available() =~= avail0.skip(m3 + m2));
        }

        if !self.l1_tables.contains_key(&k234) {
            match frame_allocator.allocate_frame() {
                Some(f) => {
                    self.l1_tables.insert(k234, f.start_address);
                },
                None => {
                    proof {
                        assert(avail0.skip(m3 + m2).len() == 0);
                        assert(avail0.len() == m3 + m2);
                        assert(m1 == 1);
                        assert(frame_allocator.available().len() == 0);
                    }
                    return Err(MapToError::FrameAllocationFailed);
                },
            }
        }
        proof {
            assert(self.l1_tables@.contains_key(k234));
            if m1 == 1 {
                assert(avail0.skip(m3 + m2).len() > 0);
                assert(avail0.skip(m3 + m2).drop_first() =~= avail0.skip(m3 + m2 + m1));
            }
            assert(frame_allocator.available() =~= avail0.skip(m3 + m2 + m1));
        }

        if self.mappings.contains_key(&page) {
            proof {
                assert(m3 == 0 && m2 == 0 && m1 == 0);
                assert(frame_allocator.available() =~= avail0);
            }
            return Err(MapToError::PageAlreadyMapped);
        }

        self.mappings.insert(page, Mapping { frame, flags });
        proof {
            assert(avail0.skip(missing as int).len() >= 0);
            assert(avail0.len() >= missing);
        }
        Ok(MapperFlush { page })
    }
}

/// The top-level entry index of a page.
fn page_l4_index(page: u64) -> (i: u64)
    ensures
        i == l4_index(page),
        i < 512,
{
    let i = (page >> 39) & 0x1ff;
    proof {
        assert((page >> 39) & 0x1ff < 512) by (bit_vector);
    }
    i
}

/// The identity of the second-level table a page walks through.
fn page_l2_table_key(page: u64) -> (k: u64)
    ensures
        k == l2_table_key(page),
        k < 512 * 512,
{
    let i4 = page_l4_index(page);
    let i3 = (page >> 30) & 0x1ff;
    proof {
        assert((page >> 30) & 0x1ff < 512) by (bit_vector);
    }
    i4 * 512 + i3
}

/// The identity of the first-level table a page walks through.
fn page_l1_table_key(page: u64) -> (k: u64)
    ensures
        k == l1_table_key(page),
        k < 512 * 512 * 512,
{
    let k34 = page_l2_table_key(page);
    let i2 = (page >> 21) & 0x1ff;
    proof {
        assert((page >> 21) & 0x1ff < 512) by (bit_vector);
    }
    k34 * 512 + i2
}

/// Builds the page-mapping structure for the active address space, bound
/// to the linear offset at which all physical memory is mirrored. No page
/// is recorded as mapped yet, and every intermediate table still counts as
/// missing.
pub fn init(physical_memory_offset: u64) -> (pt: OffsetPageTable)
    ensures
        pt.wf(),
        pt@ == Map::<u64, Mapping>::empty(),
        pt.offset() == physical_memory_offset,
        forall|page: u64| #[trigger] pt.missing_tables(page) == 3,
{
    OffsetPageTable {
        physical_memory_offset,
        l3_tables: HashMap::new(),
        l2_tables: HashMap::new(),
        l1_tables: HashMap::new(),
        mappings: HashMap::new(),
    }
}

/// Creates a mapping for the given page to the frame holding the
/// character-grid memory at `0xb8000`, with present and writable flags.
/// The caller supplies a page that is not yet mapped and an allocator with
/// enough frames for the missing intermediate tables.
pub fn create_example_mapping<A: FrameAllocator>(
    page: u64,
    mapper: &mut OffsetPageTable,
    frame_allocator: &mut A,
) -> (flush: MapperFlush)
    requires
        old(mapper).wf(),
        old(frame_allocator).wf(),
        page % PAGE_SIZE == 0,
        !old(mapper)@.contains_key(page),
        old(frame_allocator).available().len() >= old(mapper).missing_tables(page),
    ensures
        final(mapper).wf(),
        final(frame_allocator).wf(),
        flush.spec_page() == page,
        final(mapper)@ == old(mapper)@.insert(
            page,
            Mapping {
                frame: PhysFrame { start_address: 0xb8000 },
                flags: FLAG_PRESENT | FLAG_WRITABLE,
            },
        ),
        final(mapper).offset() == old(mapper).offset(),
{
    let frame = PhysFrame { start_address: 0xb8000 };
    let flags = FLAG_PRESENT | FLAG_WRITABLE;
    match mapper.map(page, frame, flags, frame_allocator) {
        Ok(flush) => flush,
        Err(_) => {
            proof {
                assert(false);
            }
            MapperFlush { page }
        },
    }
}

} // verus!

