use curi_os::interrupts::{
    dispatch, init_idt, DispatchOutcome, HandlerKind, InterruptFrame, InterruptIndex,
    DOUBLE_FAULT_IST_INDEX,
};
use curi_os::pic::ControllerBridge;

fn sample_frame() -> InterruptFrame {
    InterruptFrame {
        instruction_pointer: 0x1000,
        code_segment: 0x8,
        cpu_flags: 0x202,
        stack_pointer: 0x9000,
        stack_segment: 0x10,
    }
}

const POLICY_VECTORS: [u8; 20] = [
    0, 1, 2, 3, 4, 5, 6, 7, 8, 10, 11, 12, 13, 14, 16, 17, 18, 19, 20, 30,
];

const ERROR_CODE_VECTORS: [u8; 8] = [8, 10, 11, 12, 13, 14, 17, 30];

#[test]
fn test_every_policy_vector_registered() {
    let table = init_idt();
    for &v in POLICY_VECTORS.iter() {
        let slot = table.slot(v);
        assert!(slot.is_some(), "vector {} has no registration", v);
    }
    // the timer and keyboard vectors are registered too
    assert!(table.slot(32).is_some());
    assert!(table.slot(33).is_some());
    // a reserved gap is left unregistered
    assert!(table.slot(9).is_none());
    assert!(table.slot(15).is_none());
}

#[test]
fn test_policy_vectors_have_distinct_handlers() {
    let table = init_idt();
    let handlers: Vec<HandlerKind> = POLICY_VECTORS
        .iter()
        .map(|&v| table.slot(v).unwrap().handler)
        .collect();
    for i in 0..handlers.len() {
        for j in 0..handlers.len() {
            if i != j {
                assert_ne!(
                    handlers[i], handlers[j],
                    "vectors {} and {} share a handler",
                    POLICY_VECTORS[i], POLICY_VECTORS[j]
                );
            }
        }
    }
}

#[test]
fn test_double_fault_stack_index_distinct() {
    let table = init_idt();
    assert_eq!(
        table.slot(8).unwrap().stack_index,
        Some(DOUBLE_FAULT_IST_INDEX)
    );
    for v in 0..=255u8 {
        if v != 8 {
            if let Some(reg) = table.slot(v) {
                assert_eq!(reg.stack_index, None, "vector {} left the default stack", v);
            }
        }
    }
}

#[test]
fn test_breakpoint_dispatch_returns_to_caller() {
    let table = init_idt();
    let frame = sample_frame();
    let mut log = Vec::new();
    let outcome = dispatch(&table, 3, &frame, None, 0, &mut log);
    // control comes back here, and the outcome says the CPU resumes
    assert_eq!(outcome, DispatchOutcome::Resumed);
    assert_eq!(log.len(), 1);
    assert_eq!(log[0].vector, 3);
    assert_eq!(log[0].instruction_pointer, 0x1000);
}

#[test]
fn test_fatal_vectors_halt() {
    let table = init_idt();
    let frame = sample_frame();
    for &v in ERROR_CODE_VECTORS.iter() {
        if v == 14 {
            continue;
        }
        let mut log = Vec::new();
        let outcome = dispatch(&table, v, &frame, Some(0xdead), 0, &mut log);
        assert_eq!(outcome, DispatchOutcome::Halted, "vector {}", v);
        assert_eq!(log.len(), 1);
        assert_eq!(log[0].vector, v);
        assert_eq!(log[0].detail, 0xdead);
    }
}

#[test]
fn test_page_fault_idles_and_logs_address() {
    let table = init_idt();
    let frame = sample_frame();
    let mut log = Vec::new();
    let outcome = dispatch(&table, 14, &frame, Some(0x2), 0xdeadbeef, &mut log);
    assert_eq!(outcome, DispatchOutcome::IdleHalted);
    assert_eq!(log.len(), 1);
    assert_eq!(log[0].vector, 14);
    assert_eq!(log[0].detail, 0xdeadbeef);
}

#[test]
fn test_unregistered_vector() {
    let table = init_idt();
    let frame = sample_frame();
    let mut log = Vec::new();
    let outcome = dispatch(&table, 9, &frame, None, 0, &mut log);
    assert_eq!(outcome, DispatchOutcome::Unregistered);
    assert!(log.is_empty());
}

#[test]
fn test_hardware_vectors_are_device_pending() {
    let table = init_idt();
    let frame = sample_frame();
    let mut log = Vec::new();
    assert_eq!(
        dispatch(&table, 32, &frame, None, 0, &mut log),
        DispatchOutcome::DevicePending
    );
    assert_eq!(
        dispatch(&table, 33, &frame, None, 0, &mut log),
        DispatchOutcome::DevicePending
    );
    assert!(log.is_empty());
}

#[test]
fn test_interrupt_index_vectors() {
    assert_eq!(InterruptIndex::Timer.as_u8(), 32);
    assert_eq!(InterruptIndex::Keyboard.as_u8(), 33);
    assert_eq!(InterruptIndex::Timer.as_usize(), 32);
    assert_eq!(InterruptIndex::Keyboard.as_usize(), 33);
}

#[test]
fn test_timer_handler_acknowledges_exactly_once() {
    let mut bridge = ControllerBridge::new(32, 40);
    bridge.initialize();
    curi_os::interrupts::timer_interrupt_handler(&mut bridge);
    assert_eq!(bridge.eoi_log().as_slice(), &[32]);
    curi_os::interrupts::timer_interrupt_handler(&mut bridge);
    assert_eq!(bridge.eoi_log().as_slice(), &[32, 32]);
}
