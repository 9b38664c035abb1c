//! Interrupt dispatch: the 256-entry vector table, the dual chained
//! interrupt controller, and the handler logic for the exceptions and
//! hardware interrupts this kernel services.
//!
//! Vectors 0 to 31 are CPU exceptions; the controller pair is remapped to
//! vectors 32 and up. The handlers here are the decision and diagnostic
//! logic: they compute what is written to the character grid, whether
//! execution resumes or the processor halts, and which end-of-interrupt
//! acknowledgments go to which controller, in which order.

use vstd::prelude::*;
use vstd::string::StringSliceAdditionalSpecFns;

use crate::gdt::DOUBLE_FAULT_IST_INDEX;
use crate::vga_buffer::PLACEHOLDER_GLYPH;
use crate::vga_buffer::Writer;
use crate::vga_buffer::lemma_write_string_keeps_color;
use crate::vga_buffer::ScreenState;
use crate::vga_buffer::spec_write_byte;
use crate::vga_buffer::spec_write_string;
use vstd::utf8::encode_utf8;

verus! {

/// First vector of the primary interrupt controller, just past the CPU
/// exception range.
pub const PIC_1_OFFSET: u8 = 32;

/// First vector of the secondary interrupt controller.
pub const PIC_2_OFFSET: u8 = PIC_1_OFFSET + 8;

/// Command port of the primary interrupt controller.
pub const PRIMARY_COMMAND_PORT: u16 = 0x20;

/// Command port of the secondary interrupt controller.
pub const SECONDARY_COMMAND_PORT: u16 = 0xa0;

/// The end-of-interrupt command byte.
pub const EOI_COMMAND: u8 = 0x20;

/// The hardware interrupts this kernel services, by name.
#[derive(Debug, Clone, Copy)]
pub enum InterruptIndex {
    Timer,
    Keyboard,
}

impl InterruptIndex {
    /// The interrupt's vector number: the timer sits on the primary
    /// controller's first line, the keyboard on its second.
    pub open spec fn spec_as_u8(self) -> u8 {
        match self {
            InterruptIndex::Timer => PIC_1_OFFSET,
            InterruptIndex::Keyboard => (PIC_1_OFFSET + 1) as u8,
        }
    }

    /// The interrupt's vector number.
    pub fn as_u8(self) -> (v: u8)
        ensures
            v == self.spec_as_u8(),
    {
        match self {
            InterruptIndex::Timer => PIC_1_OFFSET,
            InterruptIndex::Keyboard => PIC_1_OFFSET + 1,
        }
    }

    /// The interrupt's vector number, as a table index.
    pub fn as_usize(self) -> (v: usize)
        ensures
            v == self.spec_as_u8() as usize,
    {
        self.as_u8() as usize
    }
}

/// A single write of one byte to one hardware port.
#[derive(Debug, Clone, Copy, PartialEq, Eq)]
pub struct PortWrite {
    pub port: u16,
    pub value: u8,
}

/// Whether a controller with the given vector offset raised the given
/// vector: each controller serves eight consecutive vectors.
pub open spec fn handles(offset: u8, vector: u8) -> bool {
    offset <= vector && vector < offset + 8
}

/// The port writes that acknowledge end-of-interrupt for a vector: the
/// secondary controller, when the vector came through it, is acknowledged
/// first, then the primary; a vector of the primary alone takes one
/// acknowledgment; a foreign vector takes none.
pub open spec fn eoi_commands(primary_offset: u8, secondary_offset: u8, vector: u8) -> Seq<
    PortWrite,
> {
    if handles(secondary_offset, vector) {
        seq![
            PortWrite { port: SECONDARY_COMMAND_PORT, value: EOI_COMMAND },
            PortWrite { port: PRIMARY_COMMAND_PORT, value: EOI_COMMAND },
        ]
    } else if handles(primary_offset, vector) {
        seq![PortWrite { port: PRIMARY_COMMAND_PORT, value: EOI_COMMAND }]
    } else {
        Seq::empty()
    }
}

/// The dual chained interrupt controller: two cascaded controllers with
/// non-overlapping vector offsets, both outside the CPU exception range.
pub struct ChainedPics {
    primary_offset: u8,
    secondary_offset: u8,
}

impl ChainedPics {
    /// The primary controller's first vector.
    pub closed spec fn spec_primary_offset(self) -> u8 {
        self.primary_offset
    }

    /// The secondary controller's first vector.
    pub closed spec fn spec_secondary_offset(self) -> u8 {
        self.secondary_offset
    }

    /// Creates the controller pair with the given vector offsets. The
    /// offsets must each leave room for eight vectors, stay clear of the
    /// CPU exception range, and not overlap each other.
    pub fn new(primary_offset: u8, secondary_offset: u8) -> (pics: ChainedPics)
        requires
            primary_offset >= 32,
            secondary_offset >= 32,
            primary_offset + 8 <= 256,
            secondary_offset + 8 <= 256,
            primary_offset + 8 <= secondary_offset || secondary_offset + 8 <= primary_offset,
        ensures
            pics.spec_primary_offset() == primary_offset,
            pics.spec_secondary_offset() == secondary_offset,
    {
        ChainedPics { primary_offset, secondary_offset }
    }

    /// Whether one of the two controllers raised the given vector.
    pub fn handles_interrupt(&self, vector: u8) -> (r: bool)
        ensures
            r == (handles(self.spec_primary_offset(), vector) || handles(
                self.spec_secondary_offset(),
                vector,
            )),
    {
        let p = self.primary_offset;
        let s = self.secondary_offset;
        (p <= vector && (vector as u16) < p as u16 + 8) || (s <= vector && (vector as u16) < s
            as u16 + 8)
    }

    /// The end-of-interrupt acknowledgments owed for the given vector, in
    /// the order they must be sent: the secondary controller, if it raised
    /// the vector, strictly before the primary.
    pub fn notify_end_of_interrupt(&self, vector: u8) -> (cmds: Vec<PortWrite>)
        ensures
            cmds@ == eoi_commands(self.spec_primary_offset(), self.spec_secondary_offset(), vector),
    {
        let mut cmds: Vec<PortWrite> = Vec::new();
        let s = self.secondary_offset;
        let p = self.primary_offset;
        if s <= vector && (vector as u16) < s as u16 + 8 {
            cmds.push(PortWrite { port: SECONDARY_COMMAND_PORT, value: EOI_COMMAND });
            cmds.push(PortWrite { port: PRIMARY_COMMAND_PORT, value: EOI_COMMAND });
            proof {
                assert(cmds@ =~= eoi_commands(p, s, vector));
            }
        } else if p <= vector && (vector as u16) < p as u16 + 8 {
            cmds.push(PortWrite { port: PRIMARY_COMMAND_PORT, value: EOI_COMMAND });
            proof {
                assert(cmds@ =~= eoi_commands(p, s, vector));
            }
        } else {
            proof {
                assert(cmds@ =~= eoi_commands(p, s, vector));
            }
        }
        cmds
    }
}

/// A vector raised by the secondary controller is acknowledged there
/// first: its acknowledgment precedes the primary controller's.
pub proof fn lemma_secondary_eoi_precedes_primary(
    primary_offset: u8,
    secondary_offset: u8,
    vector: u8,
)
    requires
        handles(secondary_offset, vector),
    ensures
        eoi_commands(primary_offset, secondary_offset, vector).len() == 2,
        eoi_commands(primary_offset, secondary_offset, vector)[0].port == SECONDARY_COMMAND_PORT,
        eoi_commands(primary_offset, secondary_offset, vector)[1].port == PRIMARY_COMMAND_PORT,
{
}

/// One entry of the interrupt dispatch table: which handler, if any, the
/// vector is routed to, and for the double fault, which alternate stack it
/// runs on.
#[derive(Debug, Clone, Copy, PartialEq, Eq)]
pub enum HandlerSlot {
    Missing,
    Breakpoint,
    PageFault,
    DoubleFault { stack_index: u16 },
    Timer,
    Keyboard,
}

/// The interrupt dispatch table: one handler slot for each of the 256
/// vectors.
pub struct InterruptDescriptorTable {
    entries: Vec<HandlerSlot>,
}

impl InterruptDescriptorTable {
    /// The table's handler slots, by vector.
    pub closed spec fn entries(self) -> Seq<HandlerSlot> {
        self.entries@
    }

    /// The table covers all 256 vectors.
    pub open spec fn wf(self) -> bool {
        self.entries().len() == 256
    }

    /// The handler slot of one vector.
    pub fn handler(&self, vector: u8) -> (h: HandlerSlot)
        requires
            self.wf(),
        ensures
            h == self.entries()[vector as int],
    {
        self.entries[vector as usize]
    }
}

/// Builds the interrupt dispatch table: the breakpoint trap on vector 3,
/// the double fault on vector 8 running on the reserved alternate stack,
/// the page fault on vector 14, and the timer and keyboard interrupts on
/// the remapped controller vectors. Every other vector stays unhandled.
pub fn init_idt() -> (idt: InterruptDescriptorTable)
    ensures
        idt.wf(),
        idt.entries()[3] == HandlerSlot::Breakpoint,
        idt.entries()[8] == (HandlerSlot::DoubleFault { stack_index: DOUBLE_FAULT_IST_INDEX }),
        idt.entries()[14] == HandlerSlot::PageFault,
        idt.entries()[InterruptIndex::Timer.spec_as_u8() as int] == HandlerSlot::Timer,
        idt.entries()[InterruptIndex::Keyboard.spec_as_u8() as int] == HandlerSlot::Keyboard,
        forall|v: int|
            0 <= v < 256 && v != 3 && v != 8 && v != 14 && v != InterruptIndex::Timer.spec_as_u8()
                && v != InterruptIndex::Keyboard.spec_as_u8() ==> idt.entries()[v]
                == HandlerSlot::Missing,
{
    let mut entries: Vec<HandlerSlot> = Vec::new();
    for i in 0..256usize
        invariant
            entries@.len() == i,
            forall|j: int| 0 <= j < i ==> entries@[j] == HandlerSlot::Missing,
    {
        entries.push(HandlerSlot::Missing);
    }
    entries[3] = HandlerSlot::Breakpoint;
    entries[8] = HandlerSlot::DoubleFault { stack_index: DOUBLE_FAULT_IST_INDEX };
    entries[14] = HandlerSlot::PageFault;
    entries[InterruptIndex::Timer.as_usize()] = HandlerSlot::Timer;
    entries[InterruptIndex::Keyboard.as_usize()] = HandlerSlot::Keyboard;
    InterruptDescriptorTable { entries }
}

/// The execution frame the processor saves when it vectors an interrupt
/// or exception.
#[derive(Debug, Clone, Copy, PartialEq, Eq)]
pub struct InterruptStackFrame {
    pub instruction_pointer: u64,
    pub code_segment: u64,
    pub cpu_flags: u64,
    pub stack_pointer: u64,
    pub stack_segment: u64,
}

/// What becomes of the interrupted instruction stream once a handler is
/// done: it resumes, or the processor halts.
#[derive(Debug, Clone, Copy, PartialEq, Eq)]
pub enum HandlerOutcome {
    Resume,
    Halt,
}

/// The byte spelling a hexadecimal digit.
pub open spec fn hex_digit_byte(d: u64) -> u8 {
    if d < 10 {
        (0x30 + d) as u8
    } else {
        (0x57 + d) as u8
    }
}

/// A value's sixteen hexadecimal digits, most significant first.
pub open spec fn spec_hex_bytes(v: u64) -> Seq<u8> {
    Seq::new(16, |i: int| hex_digit_byte((v >> ((60 - 4 * i) as u64)) & 0xf))
}

/// Appends a string's bytes.
fn push_str_bytes(out: &mut Vec<u8>, s: &str)
    ensures
        final(out)@ == old(out)@ + s.spec_bytes(),
{
    let bytes = s.as_bytes();
    let n = bytes.len();
    for i in 0..n
        invariant
            n == bytes@.len(),
            bytes@ == s.spec_bytes(),
            out@ == old(out)@ + bytes@.take(i as int),
    {
        out.push(bytes[i]);
        proof {
            assert(old(out)@ + bytes@.take(i + 1 as int) =~= (old(out)@ + bytes@.take(i as int)).push(
                bytes@[i as int],
            ));
        }
    }
    proof {
        assert(bytes@.take(n as int) =~= bytes@);
    }
}

/// Appends a value's sixteen hexadecimal digits, most significant first.
fn push_hex(out: &mut Vec<u8>, v: u64)
    ensures
        final(out)@ == old(out)@ + spec_hex_bytes(v),
{
    for i in 0..16usize
        invariant
            out@ == old(out)@ + spec_hex_bytes(v).take(i as int),
    {
        let shift: u64 = 60 - 4 * (i as u64);
        let d = (v >> shift) & 0xf;
        proof {
            assert((v >> shift) & 0xf < 16) by (bit_vector);
        }
        let b: u64 = if d < 10 {
            0x30 + d
        } else {
            0x57 + d
        };
        out.push(b as u8);
        proof {
            assert(spec_hex_bytes(v)[i as int] == hex_digit_byte((v >> ((60 - 4 * (i as int))
                as u64)) & 0xf));
            assert(shift == (60 - 4 * (i as int)) as u64);
            assert(b as u8 == hex_digit_byte(d));
            assert(old(out)@ + spec_hex_bytes(v).take(i + 1 as int) =~= (old(out)@ + spec_hex_bytes(
                v,
            ).take(i as int)).push(hex_digit_byte(d)));
        }
    }
    proof {
        assert(spec_hex_bytes(v).take(16) =~= spec_hex_bytes(v));
    }
}

/// The diagnostic rendering of a saved execution frame: one line per
/// field, each value in hexadecimal.
pub open spec fn frame_message(frame: InterruptStackFrame) -> Seq<u8> {
    "instruction_pointer: 0x".spec_bytes() + spec_hex_bytes(frame.instruction_pointer)
        + "\ncode_segment: 0x".spec_bytes() + spec_hex_bytes(frame.code_segment)
        + "\ncpu_flags: 0x".spec_bytes() + spec_hex_bytes(frame.cpu_flags)
        + "\nstack_pointer: 0x".spec_bytes() + spec_hex_bytes(frame.stack_pointer)
        + "\nstack_segment: 0x".spec_bytes() + spec_hex_bytes(frame.stack_segment)
        + "\n".spec_bytes()
}

/// Appends the diagnostic rendering of a saved execution frame.
fn push_frame(out: &mut Vec<u8>, frame: &InterruptStackFrame)
    ensures
        final(out)@ == old(out)@ + frame_message(*frame),
{
    push_str_bytes(out, "instruction_pointer: 0x");
    push_hex(out, frame.instruction_pointer);
    push_str_bytes(out, "\ncode_segment: 0x");
    push_hex(out, frame.code_segment);
    push_str_bytes(out, "\ncpu_flags: 0x");
    push_hex(out, frame.cpu_flags);
    push_str_bytes(out, "\nstack_pointer: 0x");
    push_hex(out, frame.stack_pointer);
    push_str_bytes(out, "\nstack_segment: 0x");
    push_hex(out, frame.stack_segment);
    push_str_bytes(out, "\n");
    proof {
        assert(out@ =~= old(out)@ + frame_message(*frame));
    }
}

/// What the breakpoint handler writes: the trap's name and the saved
/// frame.
pub open spec fn breakpoint_message(frame: InterruptStackFrame) -> Seq<u8> {
    "EXCEPTION: BREAKPOINT\n".spec_bytes() + frame_message(frame)
}

/// The breakpoint trap: logs the interrupted execution frame, then lets
/// execution resume at the next instruction. The only recoverable trap of
/// this kernel: it never halts and never panics.
pub fn breakpoint_handler(stack_frame: &InterruptStackFrame, writer: &mut Writer) -> (outcome:
    HandlerOutcome)
    requires
        old(writer).wf(),
    ensures
        final(writer).wf(),
        final(writer)@ == spec_write_string(old(writer)@, breakpoint_message(*stack_frame)),
        outcome == HandlerOutcome::Resume,
{
    let mut msg: Vec<u8> = Vec::new();
    push_str_bytes(&mut msg, "EXCEPTION: BREAKPOINT\n");
    push_frame(&mut msg, stack_frame);
    proof {
        assert(msg@ =~= breakpoint_message(*stack_frame));
    }
    writer.write_bytes(msg.as_slice());
    HandlerOutcome::Resume
}

/// Page-fault reason bit: the fault was a protection violation; unset, the
/// page was simply not present.
pub const PF_PROTECTION_VIOLATION: u64 = 1;

/// Page-fault reason bit: the faulting access was a write.
pub const PF_CAUSED_BY_WRITE: u64 = 2;

/// Page-fault reason bit: the fault happened in user mode.
pub const PF_USER_MODE: u64 = 4;

/// Page-fault reason bit: a reserved bit was set in a page-table entry.
pub const PF_MALFORMED_TABLE: u64 = 8;

/// Page-fault reason bit: the fault came from an instruction fetch.
pub const PF_INSTRUCTION_FETCH: u64 = 16;

/// The fault-reason bitmask the processor pushes with a page fault.
#[derive(Debug, Clone, Copy, PartialEq, Eq)]
pub struct PageFaultErrorCode {
    pub bits: u64,
}

impl PageFaultErrorCode {
    /// The fault was a protection violation rather than a missing page.
    pub fn protection_violation(&self) -> (r: bool)
        ensures
            r == (self.bits & PF_PROTECTION_VIOLATION != 0),
    {
        self.bits & PF_PROTECTION_VIOLATION != 0
    }

    /// The faulting access was a write.
    pub fn caused_by_write(&self) -> (r: bool)
        ensures
            r == (self.bits & PF_CAUSED_BY_WRITE != 0),
    {
        self.bits & PF_CAUSED_BY_WRITE != 0
    }

    /// The fault happened in user mode.
    pub fn user_mode(&self) -> (r: bool)
        ensures
            r == (self.bits & PF_USER_MODE != 0),
    {
        self.bits & PF_USER_MODE != 0
    }

    /// A reserved bit was set in a page-table entry.
    pub fn malformed_table(&self) -> (r: bool)
        ensures
            r == (self.bits & PF_MALFORMED_TABLE != 0),
    {
        self.bits & PF_MALFORMED_TABLE != 0
    }

    /// The fault came from an instruction fetch.
    pub fn instruction_fetch(&self) -> (r: bool)
        ensures
            r == (self.bits & PF_INSTRUCTION_FETCH != 0),
    {
        self.bits & PF_INSTRUCTION_FETCH != 0
    }
}

/// What the page-fault handler writes: the fault's name, the faulting
/// address, the reason bitmask, and the saved frame.
pub open spec fn page_fault_message(
    frame: InterruptStackFrame,
    faulting_address: u64,
    error_code: u64,
) -> Seq<u8> {
    "EXCEPTION: PAGE FAULT\nAccessed Address: 0x".spec_bytes() + spec_hex_bytes(faulting_address)
        + "\nError Code: 0x".spec_bytes() + spec_hex_bytes(error_code) + "\n".spec_bytes()
        + frame_message(frame)
}

/// The page fault: logs the faulting virtual address, the fault-reason
/// bitmask and the saved frame. This kernel treats every page fault as
/// fatal: the processor is halted, never resumed.
pub fn page_fault_handler(
    stack_frame: &InterruptStackFrame,
    faulting_address: u64,
    error_code: PageFaultErrorCode,
    writer: &mut Writer,
) -> (outcome: HandlerOutcome)
    requires
        old(writer).wf(),
    ensures
        final(writer).wf(),
        final(writer)@ == spec_write_string(
            old(writer)@,
            page_fault_message(*stack_frame, faulting_address, error_code.bits),
        ),
        outcome == HandlerOutcome::Halt,
{
    let mut msg: Vec<u8> = Vec::new();
    push_str_bytes(&mut msg, "EXCEPTION: PAGE FAULT\nAccessed Address: 0x");
    push_hex(&mut msg, faulting_address);
    push_str_bytes(&mut msg, "\nError Code: 0x");
    push_hex(&mut msg, error_code.bits);
    push_str_bytes(&mut msg, "\n");
    push_frame(&mut msg, stack_frame);
    proof {
        assert(msg@ =~= page_fault_message(*stack_frame, faulting_address, error_code.bits));
    }
    writer.write_bytes(msg.as_slice());
    HandlerOutcome::Halt
}

/// What the double-fault handler reports: the fault's name, its error
/// code, and the saved frame.
pub open spec fn double_fault_message(frame: InterruptStackFrame, error_code: u64) -> Seq<u8> {
    "EXCEPTION: DOUBLE FAULT(code: 0x".spec_bytes() + spec_hex_bytes(error_code) + ")\n".spec_bytes()
        + frame_message(frame)
}

/// The double fault: always fatal. It runs on the reserved alternate
/// stack and yields the report the kernel panics with; it never returns
/// control to the interrupted stream.
pub fn double_fault_handler(stack_frame: &InterruptStackFrame, error_code: u64) -> (msg: Vec<u8>)
    ensures
        msg@ == double_fault_message(*stack_frame, error_code),
{
    let mut msg: Vec<u8> = Vec::new();
    push_str_bytes(&mut msg, "EXCEPTION: DOUBLE FAULT(code: 0x");
    push_hex(&mut msg, error_code);
    push_str_bytes(&mut msg, ")\n");
    push_frame(&mut msg, stack_frame);
    proof {
        assert(msg@ =~= double_fault_message(*stack_frame, error_code));
    }
    msg
}

/// The timer interrupt: minimal diagnostic output, then exactly one
/// end-of-interrupt acknowledgment for the timer vector, owed before the
/// handler returns.
pub fn timer_interrupt_handler(writer: &mut Writer, pics: &ChainedPics) -> (eoi: Vec<PortWrite>)
    requires
        old(writer).wf(),
    ensures
        final(writer).wf(),
        final(writer)@ == spec_write_byte(old(writer)@, 0x2e),
        eoi@ == eoi_commands(
            pics.spec_primary_offset(),
            pics.spec_secondary_offset(),
            InterruptIndex::Timer.spec_as_u8(),
        ),
{
    writer.write_byte(0x2e);
    pics.notify_end_of_interrupt(InterruptIndex::Timer.as_u8())
}

/// A completed key event of the keyboard driver crate, carried opaquely
/// from the decode step to the layout step.
#[verifier::external_type_specification]
#[verifier::external_body]
pub struct ExKeyEvent(pc_keyboard::KeyEvent);

/// The stateful scancode decoder for the US-104 layout and scancode set
/// one. It holds partial multi-byte scancode sequences and modifier state
/// across interrupts; the driver crate's decoder sits in an opaque field,
/// reached only through the trusted methods below.
#[verifier::external_body]
pub struct Keyboard {
    inner: pc_keyboard::Keyboard<pc_keyboard::layouts::Us104Key, pc_keyboard::ScancodeSet1>,
}

/// A fully decoded key: a printable character, or a named key rendered as
/// text.
#[derive(Debug, PartialEq, Eq)]
pub enum DecodedKey {
    Unicode(char),
    RawKey(String),
}

/// Why a scancode byte was rejected by the decoder.
#[derive(Debug, Clone, Copy, PartialEq, Eq)]
pub enum DecodeError {
    BadStartBit,
    BadStopBit,
    ParityError,
    UnknownKeyCode,
    InvalidState,
}

impl Keyboard {
    /// Relies on `pc_keyboard::Keyboard::new`: a fresh decoder for the
    /// US-104 layout and scancode set one, with control keys left as they
    /// are.
    #[verifier::external_body]
    pub fn new() -> Keyboard {
        Keyboard {
            inner: pc_keyboard::Keyboard::new(
                pc_keyboard::layouts::Us104Key,
                pc_keyboard::ScancodeSet1,
                pc_keyboard::HandleControl::Ignore,
            ),
        }
    }

    /// Relies on `pc_keyboard::Keyboard::add_byte`: advances the scancode
    /// decode state machine by one byte; a completed multi-byte sequence
    /// yields a key event, an unfinished one yields nothing yet.
    #[verifier::external_body]
    fn add_byte(&mut self, scancode: u8) -> Result<Option<pc_keyboard::KeyEvent>, DecodeError> {
        match self.inner.add_byte(scancode) {
            Ok(event) => Ok(event),
            Err(pc_keyboard::Error::BadStartBit) => Err(DecodeError::BadStartBit),
            Err(pc_keyboard::Error::BadStopBit) => Err(DecodeError::BadStopBit),
            Err(pc_keyboard::Error::ParityError) => Err(DecodeError::ParityError),
            Err(pc_keyboard::Error::UnknownKeyCode) => Err(DecodeError::UnknownKeyCode),
            Err(pc_keyboard::Error::InvalidState) => Err(DecodeError::InvalidState),
        }
    }

    /// Relies on `pc_keyboard::Keyboard::process_keyevent`: applies the
    /// decoder's modifier state and the keyboard layout to a key event,
    /// yielding a decoded key where one is due (a character for printable
    /// keys, the key's name otherwise).
    #[verifier::external_body]
    fn process_keyevent(&mut self, event: pc_keyboard::KeyEvent) -> Option<DecodedKey> {
        match self.inner.process_keyevent(event) {
            Some(pc_keyboard::DecodedKey::Unicode(character)) => Some(
                DecodedKey::Unicode(character),
            ),
            Some(pc_keyboard::DecodedKey::RawKey(key)) => Some(
                DecodedKey::RawKey(format!("{:?}", key)),
            ),
            None => None,
        }
    }
}

/// The glyph a decoded character lands on the grid as: printable ASCII
/// and newline as themselves, everything else as the placeholder.
pub open spec fn glyph_for(c: char) -> u8 {
    if 0x20 <= c as u32 <= 0x7e {
        (c as u32) as u8
    } else if c as u32 == 0x0a {
        0x0a
    } else {
        PLACEHOLDER_GLYPH
    }
}

/// What emitting one decoded key does to the grid: a character is written
/// as its glyph, a named key as the bytes of its name.
pub open spec fn spec_emit_decoded_key(s: ScreenState, key: DecodedKey) -> ScreenState {
    match key {
        DecodedKey::Unicode(c) => spec_write_byte(s, glyph_for(c)),
        DecodedKey::RawKey(name) => spec_write_string(s, encode_utf8(name@)),
    }
}

/// What one keyboard interrupt does to the grid: nothing when no key
/// completed, and exactly one emitted key otherwise.
pub open spec fn spec_keyboard_output(s: ScreenState, decoded: Option<DecodedKey>) -> ScreenState {
    match decoded {
        Option::None => s,
        Option::Some(key) => spec_emit_decoded_key(s, key),
    }
}

/// Writes one decoded key to the grid: a character as its glyph, a named
/// key as its name.
pub fn emit_decoded_key(writer: &mut Writer, key: &DecodedKey)
    requires
        old(writer).wf(),
    ensures
        final(writer).wf(),
        final(writer)@ == spec_emit_decoded_key(old(writer)@, *key),
{
    match key {
        DecodedKey::Unicode(character) => {
            let code_point = *character as u32;
            let byte: u8 = if 0x20 <= code_point && code_point <= 0x7e {
                code_point as u8
            } else if code_point == 0x0a {
                0x0a
            } else {
                PLACEHOLDER_GLYPH
            };
            writer.write_byte(byte);
            proof {
                assert(byte == glyph_for(*character));
            }
        },
        DecodedKey::RawKey(name) => {
            let text = name.as_str();
            writer.write_string(text);
            proof {
                assert(text.spec_bytes() == encode_utf8(name@));
            }
        },
    }
}

/// The keyboard interrupt: feeds one scancode byte, read from the keyboard
/// data port, into the stateful decoder; when a key completes — and only
/// then — emits exactly that one key onto the grid (a character as its
/// glyph, a named key as its name). Whatever was decoded, exactly one
/// end-of-interrupt acknowledgment for the keyboard vector is owed before
/// the handler returns.
pub fn keyboard_interrupt_handler(
    keyboard: &mut Keyboard,
    writer: &mut Writer,
    pics: &ChainedPics,
    scancode: u8,
) -> (eoi: Vec<PortWrite>)
    requires
        old(writer).wf(),
    ensures
        final(writer).wf(),
        final(writer)@.color == old(writer)@.color,
        exists|decoded: Option<DecodedKey>|
            final(writer)@ == #[trigger] spec_keyboard_output(old(writer)@, decoded),
        eoi@ == eoi_commands(
            pics.spec_primary_offset(),
            pics.spec_secondary_offset(),
            InterruptIndex::Keyboard.spec_as_u8(),
        ),
{
    proof {
        assert(old(writer)@ == spec_keyboard_output(old(writer)@, Option::None));
    }
    if let Ok(Some(key_event)) = keyboard.add_byte(scancode) {
        if let Some(key) = keyboard.process_keyevent(key_event) {
            emit_decoded_key(writer, &key);
            proof {
                assert(writer@ == spec_keyboard_output(old(writer)@, Option::Some(key)));
                match &key {
                    DecodedKey::Unicode(_) => {},
                    DecodedKey::RawKey(name) => {
                        lemma_write_string_keeps_color(old(writer)@, encode_utf8(name@));
                    },
                }
            }
        }
    }
    pics.notify_end_of_interrupt(InterruptIndex::Keyboard.as_u8())
}

} // verus!
