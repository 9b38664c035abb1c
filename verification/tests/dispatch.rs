use korat_os::gdt::DOUBLE_FAULT_IST_INDEX;
use korat_os::interrupts::breakpoint_handler;
use korat_os::interrupts::double_fault_handler;
use korat_os::interrupts::emit_decoded_key;
use korat_os::interrupts::DecodedKey;
use korat_os::interrupts::init_idt;
use korat_os::interrupts::keyboard_interrupt_handler;
use korat_os::interrupts::page_fault_handler;
use korat_os::interrupts::timer_interrupt_handler;
use korat_os::interrupts::ChainedPics;
use korat_os::interrupts::HandlerOutcome;
use korat_os::interrupts::HandlerSlot;
use korat_os::interrupts::InterruptIndex;
use korat_os::interrupts::InterruptStackFrame;
use korat_os::interrupts::Keyboard;
use korat_os::interrupts::PageFaultErrorCode;
use korat_os::interrupts::PortWrite;
use korat_os::interrupts::EOI_COMMAND;
use korat_os::interrupts::PIC_1_OFFSET;
use korat_os::interrupts::PIC_2_OFFSET;
use korat_os::interrupts::PRIMARY_COMMAND_PORT;
use korat_os::interrupts::SECONDARY_COMMAND_PORT;
use korat_os::vga_buffer::color::Color;
use korat_os::vga_buffer::color::ColorCode;
use korat_os::vga_buffer::Writer;

fn fresh_writer() -> Writer {
    Writer::new(ColorCode::new(Color::Yellow, Color::Black))
}

fn row_string(w: &Writer, row: usize) -> String {
    let mut s = String::new();
    for col in 0..80 {
        s.push(w.char_at(row, col).ascii_character as char);
    }
    s
}

fn sample_frame() -> InterruptStackFrame {
    InterruptStackFrame {
        instruction_pointer: 0x1234,
        code_segment: 8,
        cpu_flags: 0x202,
        stack_pointer: 0x5678,
        stack_segment: 16,
    }
}

#[test]
fn idt_routes_every_installed_vector() {
    let idt = init_idt();
    assert_eq!(idt.handler(3), HandlerSlot::Breakpoint);
    assert_eq!(idt.handler(8), HandlerSlot::DoubleFault { stack_index: DOUBLE_FAULT_IST_INDEX });
    assert_eq!(idt.handler(14), HandlerSlot::PageFault);
    assert_eq!(idt.handler(32), HandlerSlot::Timer);
    assert_eq!(idt.handler(33), HandlerSlot::Keyboard);
    assert_eq!(idt.handler(0), HandlerSlot::Missing);
    assert_eq!(idt.handler(16), HandlerSlot::Missing);
    assert_eq!(idt.handler(255), HandlerSlot::Missing);
}

#[test]
fn interrupt_index_vectors() {
    assert_eq!(InterruptIndex::Timer.as_u8(), 32);
    assert_eq!(InterruptIndex::Keyboard.as_u8(), 33);
    assert_eq!(InterruptIndex::Timer.as_usize(), 32);
    assert_eq!(InterruptIndex::Keyboard.as_usize(), 33);
}

#[test]
fn pics_handle_their_vector_ranges() {
    let pics = ChainedPics::new(PIC_1_OFFSET, PIC_2_OFFSET);
    assert!(!pics.handles_interrupt(31));
    for v in 32..48 {
        assert!(pics.handles_interrupt(v));
    }
    assert!(!pics.handles_interrupt(48));
    assert!(!pics.handles_interrupt(3));
}

#[test]
fn secondary_acknowledgment_precedes_primary() {
    let pics = ChainedPics::new(PIC_1_OFFSET, PIC_2_OFFSET);
    let cmds = pics.notify_end_of_interrupt(PIC_2_OFFSET + 2);
    assert_eq!(cmds.len(), 2);
    assert_eq!(cmds[0], PortWrite { port: SECONDARY_COMMAND_PORT, value: EOI_COMMAND });
    assert_eq!(cmds[1], PortWrite { port: PRIMARY_COMMAND_PORT, value: EOI_COMMAND });
}

#[test]
fn primary_vector_takes_one_acknowledgment() {
    let pics = ChainedPics::new(PIC_1_OFFSET, PIC_2_OFFSET);
    let cmds = pics.notify_end_of_interrupt(33);
    assert_eq!(cmds.len(), 1);
    assert_eq!(cmds[0], PortWrite { port: PRIMARY_COMMAND_PORT, value: EOI_COMMAND });
    let none = pics.notify_end_of_interrupt(3);
    assert!(none.is_empty());
}

#[test]
fn timer_writes_a_dot_and_acknowledges() {
    let pics = ChainedPics::new(PIC_1_OFFSET, PIC_2_OFFSET);
    let mut w = fresh_writer();
    let eoi = timer_interrupt_handler(&mut w, &pics);
    assert_eq!(w.char_at(24, 0).ascii_character, b'.');
    assert_eq!(w.column_position(), 1);
    assert_eq!(eoi.len(), 1);
    assert_eq!(eoi[0], PortWrite { port: PRIMARY_COMMAND_PORT, value: EOI_COMMAND });
}

#[test]
fn breakpoint_resumes_and_logs_the_frame() {
    let mut w = fresh_writer();
    let outcome = breakpoint_handler(&sample_frame(), &mut w);
    assert_eq!(outcome, HandlerOutcome::Resume);
    assert_eq!(row_string(&w, 18).trim_end(), "EXCEPTION: BREAKPOINT");
    assert_eq!(
        row_string(&w, 19).trim_end(),
        "instruction_pointer: 0x0000000000001234"
    );
    assert_eq!(row_string(&w, 20).trim_end(), "code_segment: 0x0000000000000008");
}

#[test]
fn page_fault_halts_and_logs_address_and_reason() {
    let mut w = fresh_writer();
    let outcome = page_fault_handler(
        &sample_frame(),
        0xb8000,
        PageFaultErrorCode { bits: 0x3 },
        &mut w,
    );
    assert_eq!(outcome, HandlerOutcome::Halt);
    assert_eq!(row_string(&w, 16).trim_end(), "EXCEPTION: PAGE FAULT");
    assert_eq!(
        row_string(&w, 17).trim_end(),
        "Accessed Address: 0x00000000000b8000"
    );
    assert_eq!(row_string(&w, 18).trim_end(), "Error Code: 0x0000000000000003");
}

#[test]
fn double_fault_report_names_the_code_and_frame() {
    let msg = double_fault_handler(&sample_frame(), 5);
    let text = String::from_utf8(msg).unwrap();
    let expected = "EXCEPTION: DOUBLE FAULT(code: 0x0000000000000005)\n\
                    instruction_pointer: 0x0000000000001234\n\
                    code_segment: 0x0000000000000008\n\
                    cpu_flags: 0x0000000000000202\n\
                    stack_pointer: 0x0000000000005678\n\
                    stack_segment: 0x0000000000000010\n";
    assert_eq!(text, expected);
}

#[test]
fn page_fault_error_code_reads_its_bits() {
    let code = PageFaultErrorCode { bits: 0b10011 };
    assert!(code.protection_violation());
    assert!(code.caused_by_write());
    assert!(!code.user_mode());
    assert!(!code.malformed_table());
    assert!(code.instruction_fetch());
}

#[test]
fn keyboard_press_writes_the_character() {
    let pics = ChainedPics::new(PIC_1_OFFSET, PIC_2_OFFSET);
    let mut kb = Keyboard::new();
    let mut w = fresh_writer();
    let eoi = keyboard_interrupt_handler(&mut kb, &mut w, &pics, 0x1e);
    assert_eq!(w.char_at(24, 0).ascii_character, b'a');
    assert_eq!(w.column_position(), 1);
    assert_eq!(eoi.len(), 1);
    assert_eq!(eoi[0], PortWrite { port: PRIMARY_COMMAND_PORT, value: EOI_COMMAND });
    // Releasing the key decodes no character; the column stays put.
    keyboard_interrupt_handler(&mut kb, &mut w, &pics, 0x9e);
    assert_eq!(w.column_position(), 1);
    // The decoder keeps modifier state across interrupts: shift, then the
    // same key, yields the capital letter.
    keyboard_interrupt_handler(&mut kb, &mut w, &pics, 0x2a);
    keyboard_interrupt_handler(&mut kb, &mut w, &pics, 0x1e);
    assert_eq!(w.char_at(24, 1).ascii_character, b'A');
    assert_eq!(w.column_position(), 2);
}

#[test]
fn emit_decoded_key_renders_each_kind() {
    let mut w = fresh_writer();
    emit_decoded_key(&mut w, &DecodedKey::Unicode('a'));
    assert_eq!(w.char_at(24, 0).ascii_character, b'a');
    // A character outside printable ASCII lands as the placeholder glyph.
    emit_decoded_key(&mut w, &DecodedKey::Unicode('\u{e9}'));
    assert_eq!(w.char_at(24, 1).ascii_character, 0x3f);
    emit_decoded_key(&mut w, &DecodedKey::RawKey(String::from("F1")));
    assert_eq!(w.char_at(24, 2).ascii_character, b'F');
    assert_eq!(w.char_at(24, 3).ascii_character, b'1');
    assert_eq!(w.column_position(), 4);
    // A decoded newline scrolls like any other newline.
    emit_decoded_key(&mut w, &DecodedKey::Unicode('\n'));
    assert_eq!(w.column_position(), 0);
    assert_eq!(w.char_at(23, 0).ascii_character, b'a');
    assert_eq!(w.char_at(24, 0).ascii_character, b' ');
}

#[test]
fn keyboard_raw_key_writes_its_name() {
    let pics = ChainedPics::new(PIC_1_OFFSET, PIC_2_OFFSET);
    let mut kb = Keyboard::new();
    let mut w = fresh_writer();
    // An extended scancode arrives in two bytes; only the second completes
    // the event.
    keyboard_interrupt_handler(&mut kb, &mut w, &pics, 0xe0);
    assert_eq!(w.column_position(), 0);
    keyboard_interrupt_handler(&mut kb, &mut w, &pics, 0x48);
    assert_eq!(row_string(&w, 24).trim_end(), "ArrowUp");
}

#[test]
fn end_to_end_breakpoint_dispatch() {
    // Initialize the descriptor bundle, the dispatch table and the
    // controller pair, then dispatch a breakpoint trap through the table:
    // the handler logs a frame with the trapping instruction pointer and
    // execution is resumed, with nothing halted and nothing panicking.
    let (_gdt, selectors) = korat_os::gdt::build_gdt();
    assert_eq!(selectors.code_selector.value(), 8);
    let idt = init_idt();
    let _pics = ChainedPics::new(PIC_1_OFFSET, PIC_2_OFFSET);
    let frame = sample_frame();
    let mut w = fresh_writer();
    let outcome = match idt.handler(3) {
        HandlerSlot::Breakpoint => breakpoint_handler(&frame, &mut w),
        other => panic!("vector 3 routed to {:?}", other),
    };
    assert_eq!(outcome, HandlerOutcome::Resume);
    assert!(row_string(&w, 19).contains("0x0000000000001234"));
}
