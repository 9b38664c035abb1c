use std::cell::Cell;
use std::rc::Rc;

use korat_os::gdt::build_gdt;
use korat_os::gdt::build_tss;
use korat_os::gdt::DOUBLE_FAULT_IST_INDEX;
use korat_os::gdt::DOUBLE_FAULT_STACK_SIZE;
use korat_os::test_runner;
use korat_os::QemuExitCode;
use korat_os::Testable;

#[test]
fn tss_reserves_the_double_fault_stack() {
    let stack_start: u64 = 0x10_0000;
    let tss = build_tss(stack_start);
    assert_eq!(tss.interrupt_stack_table.len(), 7);
    assert_eq!(
        tss.interrupt_stack_table[DOUBLE_FAULT_IST_INDEX as usize],
        stack_start + DOUBLE_FAULT_STACK_SIZE
    );
    for (i, &entry) in tss.interrupt_stack_table.iter().enumerate() {
        if i != DOUBLE_FAULT_IST_INDEX as usize {
            assert_eq!(entry, 0);
        }
    }
}

#[test]
fn gdt_selectors_point_at_their_slots() {
    let (_gdt, selectors) = build_gdt();
    assert_eq!(selectors.code_selector.value(), 8);
    assert_eq!(selectors.data_selector.value(), 16);
    assert_eq!(selectors.tss_selector.value(), 24);
}

#[test]
fn exit_codes_match_the_exit_port_protocol() {
    assert_eq!(QemuExitCode::Success.as_u32(), 0x10);
    assert_eq!(QemuExitCode::Failed.as_u32(), 0x11);
}

struct Probe {
    hits: Rc<Cell<u32>>,
}

impl Testable for Probe {
    fn run(&self) {
        self.hits.set(self.hits.get() + 1);
    }
}

#[test]
fn test_runner_runs_every_test_and_requests_success() {
    let hits = Rc::new(Cell::new(0));
    let tests = vec![
        Probe { hits: hits.clone() },
        Probe { hits: hits.clone() },
        Probe { hits: hits.clone() },
    ];
    let code = test_runner(&tests);
    assert_eq!(hits.get(), 3);
    assert_eq!(code, QemuExitCode::Success);
}
