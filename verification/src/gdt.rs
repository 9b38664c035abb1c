//! The descriptor table bundle: a global descriptor table with kernel code,
//! kernel data and task-state entries, and the task-state structure whose
//! interrupt stack table reserves a dedicated stack for the double-fault
//! handler.

use vstd::prelude::*;

verus! {

/// The interrupt-stack-table slot reserved for the double-fault stack.
pub const DOUBLE_FAULT_IST_INDEX: u16 = 0;

/// Size in bytes of the statically reserved double-fault stack.
pub const DOUBLE_FAULT_STACK_SIZE: u64 = 4096 * 5;

/// Number of slots in the interrupt stack table.
pub const IST_ENTRIES: usize = 7;

/// The task-state structure: its interrupt stack table holds, per slot,
/// the address just past the top of an alternate stack, or zero for an
/// unused slot.
pub struct TaskStateSegment {
    pub interrupt_stack_table: Vec<u64>,
}

impl TaskStateSegment {
    /// The interrupt stack table has its full seven slots.
    pub open spec fn wf(self) -> bool {
        self.interrupt_stack_table@.len() == 7
    }
}

/// Builds the task-state structure: the double-fault slot of the interrupt
/// stack table points just past the reserved stack, which grows downward
/// from there; every other slot is unused.
pub fn build_tss(double_fault_stack_start: u64) -> (tss: TaskStateSegment)
    requires
        double_fault_stack_start + DOUBLE_FAULT_STACK_SIZE <= u64::MAX,
    ensures
        tss.wf(),
        tss.interrupt_stack_table@[DOUBLE_FAULT_IST_INDEX as int] == double_fault_stack_start
            + DOUBLE_FAULT_STACK_SIZE,
        forall|i: int|
            0 <= i < 7 && i != DOUBLE_FAULT_IST_INDEX ==> tss.interrupt_stack_table@[i] == 0,
{
    let mut interrupt_stack_table: Vec<u64> = Vec::new();
    for i in 0..IST_ENTRIES
        invariant
            interrupt_stack_table@.len() == i,
            forall|j: int| 0 <= j < i ==> interrupt_stack_table@[j] == 0,
    {
        interrupt_stack_table.push(0);
    }
    let stack_end = double_fault_stack_start + DOUBLE_FAULT_STACK_SIZE;
    interrupt_stack_table[DOUBLE_FAULT_IST_INDEX as usize] = stack_end;
    TaskStateSegment { interrupt_stack_table }
}

/// A segment descriptor of the global descriptor table.
#[derive(Debug, Clone, Copy, PartialEq, Eq)]
pub enum Descriptor {
    KernelCode,
    KernelData,
    TssSegment,
}

impl Descriptor {
    /// How many table slots this descriptor occupies: a task-state
    /// descriptor is twice as wide as a segment descriptor.
    pub open spec fn spec_slots(self) -> u16 {
        match self {
            Descriptor::KernelCode => 1,
            Descriptor::KernelData => 1,
            Descriptor::TssSegment => 2,
        }
    }
}

/// A segment selector: the slot index of a descriptor, shifted past the
/// two-bit requested privilege level (always zero here: kernel privilege).
#[derive(Debug, Clone, Copy, PartialEq, Eq)]
pub struct SegmentSelector {
    value: u16,
}

impl SegmentSelector {
    /// The packed selector value.
    pub closed spec fn spec_value(self) -> u16 {
        self.value
    }

    /// Creates a selector for the descriptor in the given slot with the
    /// given privilege level.
    pub fn new(index: u16, rpl: u16) -> (s: SegmentSelector)
        requires
            index < 8192,
            rpl < 4,
        ensures
            s.spec_value() == index * 8 + rpl,
    {
        SegmentSelector { value: index * 8 + rpl }
    }

    /// The packed selector value.
    pub fn value(self) -> (v: u16)
        ensures
            v == self.spec_value(),
    {
        self.value
    }
}

/// The global descriptor table: an ordered list of descriptors. Slot zero
/// is the mandatory null descriptor; added descriptors fill the following
/// slots.
pub struct GlobalDescriptorTable {
    entries: Vec<Descriptor>,
    next_slot: u16,
}

impl GlobalDescriptorTable {
    /// The descriptors added so far, in order.
    pub closed spec fn entries(self) -> Seq<Descriptor> {
        self.entries@
    }

    /// The first free slot, after the null descriptor and everything
    /// added.
    pub closed spec fn spec_next_slot(self) -> u16 {
        self.next_slot
    }

    /// The free slot counter matches the slots the added descriptors
    /// occupy.
    pub open spec fn wf(self) -> bool {
        self.spec_next_slot() as int == 1 + slots_of(self.entries())
    }

    /// An empty table: only the null descriptor, so the first free slot is
    /// slot one.
    pub fn new() -> (gdt: GlobalDescriptorTable)
        ensures
            gdt.wf(),
            gdt.entries() == Seq::<Descriptor>::empty(),
            gdt.spec_next_slot() == 1,
    {
        GlobalDescriptorTable { entries: Vec::new(), next_slot: 1 }
    }

    /// Appends a descriptor and returns the kernel-privilege selector for
    /// the slot it landed in.
    pub fn add_entry(&mut self, descriptor: Descriptor) -> (selector: SegmentSelector)
        requires
            old(self).wf(),
            old(self).spec_next_slot() + descriptor.spec_slots() <= 8192,
        ensures
            final(self).wf(),
            final(self).entries() == old(self).entries().push(descriptor),
            final(self).spec_next_slot() == old(self).spec_next_slot() + descriptor.spec_slots(),
            selector.spec_value() == old(self).spec_next_slot() * 8,
    {
        let slot = self.next_slot;
        let slots: u16 = match descriptor {
            Descriptor::KernelCode => 1,
            Descriptor::KernelData => 1,
            Descriptor::TssSegment => 2,
        };
        self.entries.push(descriptor);
        self.next_slot = self.next_slot + slots;
        proof {
            lemma_slots_of_push(old(self).entries(), descriptor);
        }
        SegmentSelector::new(slot, 0)
    }
}

/// The total number of table slots a list of descriptors occupies.
pub open spec fn slots_of(entries: Seq<Descriptor>) -> int
    decreases entries.len(),
{
    if entries.len() == 0 {
        0
    } else {
        slots_of(entries.drop_last()) + entries.last().spec_slots()
    }
}

/// Appending a descriptor adds exactly its own slots to the total.
proof fn lemma_slots_of_push(entries: Seq<Descriptor>, descriptor: Descriptor)
    ensures
        slots_of(entries.push(descriptor)) == slots_of(entries) + descriptor.spec_slots(),
{
    assert(entries.push(descriptor).drop_last() =~= entries);
}

/// The selectors of the three descriptors the kernel loads.
pub struct Selectors {
    pub code_selector: SegmentSelector,
    pub data_selector: SegmentSelector,
    pub tss_selector: SegmentSelector,
}

/// Builds the descriptor table bundle: kernel code, kernel data and the
/// task-state descriptor, in that order, together with their selectors.
/// Loading the table and the selectors into the processor is the
/// privileged step that follows.
pub fn build_gdt() -> (r: (GlobalDescriptorTable, Selectors))
    ensures
        r.0.wf(),
        r.0.entries() =~= seq![Descriptor::KernelCode, Descriptor::KernelData, Descriptor::TssSegment],
        r.1.code_selector.spec_value() == 8,
        r.1.data_selector.spec_value() == 16,
        r.1.tss_selector.spec_value() == 24,
{
    let mut gdt = GlobalDescriptorTable::new();
    let code_selector = gdt.add_entry(Descriptor::KernelCode);
    let data_selector = gdt.add_entry(Descriptor::KernelData);
    let tss_selector = gdt.add_entry(Descriptor::TssSegment);
    (gdt, Selectors { code_selector, data_selector, tss_selector })
}

} // verus!
