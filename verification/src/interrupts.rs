//! Construction of the trap vector table and the handlers it dispatches to.
//!
//! Every architecturally defined fault vector of the policy table gets an
//! explicit registration of its own handler, so no fault ever falls back to
//! the CPU's own double-fault escalation.  The double-fault registration is
//! the single one that carries a dedicated-stack index; every other vector
//! runs on the default stack.  Handlers are classified by recovery policy:
//! recoverable faults log a record and resume, fatal faults log and halt
//! permanently, and a page fault logs the faulting address and enters an
//! idle halt loop so the machine can still be inspected.
//!
//! Loading the finished table into the CPU, and the hardware frame capture
//! itself, are privileged operations that live outside this crate; the table
//! and the captured frame are modelled as plain values here, and `dispatch`
//! performs the table lookup and handler invocation that the CPU performs on
//! a raised vector.

use vstd::prelude::*;

use crate::pic::{ControllerBridge, PIC_1_OFFSET};

verus! {

/// Dedicated-stack slot reserved for the double-fault handler.
pub const DOUBLE_FAULT_IST_INDEX: u8 = 0;

/// Snapshot the CPU pushes when it raises a vector: instruction pointer,
/// code segment, flags, stack pointer and stack segment.  Read-only for
/// handlers.
#[derive(Debug, Clone, Copy, PartialEq, Eq)]
pub struct InterruptFrame {
    pub instruction_pointer: u64,
    pub code_segment: u64,
    pub cpu_flags: u64,
    pub stack_pointer: u64,
    pub stack_segment: u64,
}

/// The handler a table slot dispatches to; one per registered vector.
#[derive(Debug, Clone, Copy, PartialEq, Eq)]
pub enum HandlerKind {
    DivideError,
    Debug,
    NonMaskableInterrupt,
    Breakpoint,
    Overflow,
    BoundRangeExceeded,
    InvalidOpcode,
    DeviceNotAvailable,
    DoubleFault,
    InvalidTss,
    SegmentNotPresent,
    StackSegmentFault,
    GeneralProtectionFault,
    PageFault,
    X87FloatingPoint,
    AlignmentCheck,
    MachineCheck,
    SimdFloatingPoint,
    Virtualization,
    SecurityException,
    Timer,
    Keyboard,
}

/// Recovery policy of a fault handler.
#[derive(Debug, Clone, Copy, PartialEq, Eq)]
pub enum Policy {
    /// Log and return, so the CPU re-executes from the saved address.
    Resume,
    /// Log and halt permanently; returning is impossible or pointless.
    Fatal,
    /// Log and enter an idle halt loop that still allows inspection.
    IdleHalt,
}

/// What dispatching a vector did.
#[derive(Debug, Clone, Copy, PartialEq, Eq)]
pub enum DispatchOutcome {
    /// The handler returned; the CPU resumes the interrupted context.
    Resumed,
    /// The handler never returns; the machine halts permanently.
    Halted,
    /// The handler entered the idle halt loop.
    IdleHalted,
    /// The slot belongs to a hardware-interrupt handler, which needs device
    /// state and runs through its own entry point.
    DevicePending,
    /// No handler is registered for the vector.
    Unregistered,
}

/// One logged fault: the vector, the saved instruction pointer, and a
/// vector-specific detail (the error code where the vector pushes one, the
/// faulting address for a page fault, zero otherwise).
#[derive(Debug, Clone, Copy, PartialEq, Eq)]
pub struct FaultRecord {
    pub vector: u8,
    pub instruction_pointer: u64,
    pub detail: u64,
}

/// One table slot: the handler and an optional dedicated-stack index.
/// `None` means the handler runs on the default stack.
#[derive(Debug, Clone, Copy, PartialEq, Eq)]
pub struct Registration {
    pub handler: HandlerKind,
    pub stack_index: Option<u8>,
}

/// Whether the CPU pushes an error code before the frame when raising `v`.
/// Architecture-fixed; a mismatch would misread the stack.
pub open spec fn vector_has_error_code(v: int) -> bool {
    v == 8 || v == 10 || v == 11 || v == 12 || v == 13 || v == 14 || v == 17 || v == 30
}

/// The fault vectors of the policy table: every architecturally defined
/// exception vector outside the reserved gaps.
pub open spec fn is_policy_vector(v: int) -> bool {
    ||| v == 0 || v == 1 || v == 2 || v == 3 || v == 4
    ||| v == 5 || v == 6 || v == 7 || v == 8 || v == 10
    ||| v == 11 || v == 12 || v == 13 || v == 14 || v == 16
    ||| v == 17 || v == 18 || v == 19 || v == 20 || v == 30
}

/// The recovery policy of each handler.
pub open spec fn policy_of(k: HandlerKind) -> Policy {
    match k {
        HandlerKind::DivideError => Policy::Resume,
        HandlerKind::Debug => Policy::Resume,
        HandlerKind::NonMaskableInterrupt => Policy::Resume,
        HandlerKind::Breakpoint => Policy::Resume,
        HandlerKind::Overflow => Policy::Resume,
        HandlerKind::BoundRangeExceeded => Policy::Resume,
        HandlerKind::InvalidOpcode => Policy::Resume,
        HandlerKind::DeviceNotAvailable => Policy::Resume,
        HandlerKind::DoubleFault => Policy::Fatal,
        HandlerKind::InvalidTss => Policy::Fatal,
        HandlerKind::SegmentNotPresent => Policy::Fatal,
        HandlerKind::StackSegmentFault => Policy::Fatal,
        HandlerKind::GeneralProtectionFault => Policy::Fatal,
        HandlerKind::PageFault => Policy::IdleHalt,
        HandlerKind::X87FloatingPoint => Policy::Resume,
        HandlerKind::AlignmentCheck => Policy::Fatal,
        HandlerKind::MachineCheck => Policy::Resume,
        HandlerKind::SimdFloatingPoint => Policy::Resume,
        HandlerKind::Virtualization => Policy::Resume,
        HandlerKind::SecurityException => Policy::Fatal,
        HandlerKind::Timer => Policy::Resume,
        HandlerKind::Keyboard => Policy::Resume,
    }
}

/// The handler registered for each policy vector; each vector has its own.
pub open spec fn expected_handler(v: int) -> HandlerKind {
    if v == 0 {
        HandlerKind::DivideError
    } else if v == 1 {
        HandlerKind::Debug
    } else if v == 2 {
        HandlerKind::NonMaskableInterrupt
    } else if v == 3 {
        HandlerKind::Breakpoint
    } else if v == 4 {
        HandlerKind::Overflow
    } else if v == 5 {
        HandlerKind::BoundRangeExceeded
    } else if v == 6 {
        HandlerKind::InvalidOpcode
    } else if v == 7 {
        HandlerKind::DeviceNotAvailable
    } else if v == 8 {
        HandlerKind::DoubleFault
    } else if v == 10 {
        HandlerKind::InvalidTss
    } else if v == 11 {
        HandlerKind::SegmentNotPresent
    } else if v == 12 {
        HandlerKind::StackSegmentFault
    } else if v == 13 {
        HandlerKind::GeneralProtectionFault
    } else if v == 14 {
        HandlerKind::PageFault
    } else if v == 16 {
        HandlerKind::X87FloatingPoint
    } else if v == 17 {
        HandlerKind::AlignmentCheck
    } else if v == 18 {
        HandlerKind::MachineCheck
    } else if v == 19 {
        HandlerKind::SimdFloatingPoint
    } else if v == 20 {
        HandlerKind::Virtualization
    } else if v == 30 {
        HandlerKind::SecurityException
    } else if v == 32 {
        HandlerKind::Timer
    } else if v == 33 {
        HandlerKind::Keyboard
    } else {
        HandlerKind::DivideError
    }
}

/// The registration each slot of the built table holds: every policy vector,
/// plus the timer and keyboard interrupt vectors; only the double fault gets
/// a dedicated-stack index.
pub open spec fn table_layout(v: int) -> Option<Registration> {
    if is_policy_vector(v) || v == 32 || v == 33 {
        Some(
            Registration {
                handler: expected_handler(v),
                stack_index: if v == 8 {
                    Some(DOUBLE_FAULT_IST_INDEX)
                } else {
                    None
                },
            },
        )
    } else {
        None
    }
}

/// The fixed 256-slot trap vector table, indexed by vector number.
/// Built once at initialization and effectively immutable thereafter.
pub struct TrapVectorTable {
    slots: Vec<Option<Registration>>,
}

impl TrapVectorTable {
    /// The table's slots, by vector number.
    pub closed spec fn entries(self) -> Seq<Option<Registration>> {
        self.slots@
    }

    /// The table covers all 256 vectors.
    pub open spec fn wf(self) -> bool {
        self.entries().len() == 256
    }

    /// The table holds exactly the registrations of `table_layout`.
    pub open spec fn is_standard_layout(self) -> bool {
        &&& self.wf()
        &&& forall|v: int| 0 <= v < 256 ==> self.entries()[v] == table_layout(v)
    }

    /// Read one slot.
    pub fn slot(&self, vector: u8) -> (r: Option<Registration>)
        requires
            self.wf(),
        ensures
            r == self.entries()[vector as int],
    {
        self.slots[vector as usize]
    }
}

/// The registration that `init_idt` puts in slot `vector`.
fn registration_for(vector: u8) -> (r: Option<Registration>)
    ensures
        r == table_layout(vector as int),
{
    let handler = match vector {
        0 => HandlerKind::DivideError,
        1 => HandlerKind::Debug,
        2 => HandlerKind::NonMaskableInterrupt,
        3 => HandlerKind::Breakpoint,
        4 => HandlerKind::Overflow,
        5 => HandlerKind::BoundRangeExceeded,
        6 => HandlerKind::InvalidOpcode,
        7 => HandlerKind::DeviceNotAvailable,
        8 => HandlerKind::DoubleFault,
        10 => HandlerKind::InvalidTss,
        11 => HandlerKind::SegmentNotPresent,
        12 => HandlerKind::StackSegmentFault,
        13 => HandlerKind::GeneralProtectionFault,
        14 => HandlerKind::PageFault,
        16 => HandlerKind::X87FloatingPoint,
        17 => HandlerKind::AlignmentCheck,
        18 => HandlerKind::MachineCheck,
        19 => HandlerKind::SimdFloatingPoint,
        20 => HandlerKind::Virtualization,
        30 => HandlerKind::SecurityException,
        32 => HandlerKind::Timer,
        33 => HandlerKind::Keyboard,
        _ => {
            return None;
        },
    };
    let stack_index = if vector == 8 {
        Some(DOUBLE_FAULT_IST_INDEX)
    } else {
        None
    };
    Some(Registration { handler, stack_index })
}

/// Build the trap vector table.
///
/// Must run before interrupts are globally unmasked; the caller loads the
/// result into the CPU once and never rebuilds it.
pub fn init_idt() -> (t: TrapVectorTable)
    ensures
        t.is_standard_layout(),
{
    let mut slots: Vec<Option<Registration>> = Vec::new();
    for v in 0..256usize
        invariant
            slots@.len() == v,
            forall|j: int| 0 <= j < v ==> slots@[j] == table_layout(j),
    {
        slots.push(registration_for(v as u8));
    }
    TrapVectorTable { slots }
}

/// Law: after initialization, every vector of the policy table has a
/// registered handler, and no two policy vectors share one: the aliasing of
/// several fault vectors onto a single handler is excluded.
pub proof fn lemma_policy_vectors_registered(t: TrapVectorTable)
    requires
        t.is_standard_layout(),
    ensures
        forall|v: int|
            is_policy_vector(v) ==> #[trigger] t.entries()[v] == Some(
                Registration {
                    handler: expected_handler(v),
                    stack_index: if v == 8 {
                        Some(DOUBLE_FAULT_IST_INDEX)
                    } else {
                        None
                    },
                },
            ),
        forall|v1: int, v2: int|
            is_policy_vector(v1) && is_policy_vector(v2) && v1 != v2 ==> expected_handler(v1)
                != expected_handler(v2),
{
    assert forall|v: int| is_policy_vector(v) implies #[trigger] t.entries()[v] == Some(
        Registration {
            handler: expected_handler(v),
            stack_index: if v == 8 {
                Some(DOUBLE_FAULT_IST_INDEX)
            } else {
                None
            },
        },
    ) by {
        assert(0 <= v < 256);
        assert(t.entries()[v] == table_layout(v));
    }
}

/// The dedicated-stack index of slot `v`, `None` for the default stack and
/// for an empty slot.
pub open spec fn stack_index_at(t: Seq<Option<Registration>>, v: int) -> Option<u8> {
    match t[v] {
        Some(r) => r.stack_index,
        None => None,
    }
}

/// Law: the double-fault handler runs on a dedicated stack whose index is
/// distinct from the default stack used by every other vector.
pub proof fn lemma_double_fault_stack_distinct(t: TrapVectorTable)
    requires
        t.is_standard_layout(),
    ensures
        stack_index_at(t.entries(), 8) == Some(DOUBLE_FAULT_IST_INDEX),
        forall|v: int|
            0 <= v < 256 && v != 8 ==> #[trigger] stack_index_at(t.entries(), v)
                == Option::<u8>::None,
{
    assert(t.entries()[8] == table_layout(8));
    assert forall|v: int| 0 <= v < 256 && v != 8 implies #[trigger] stack_index_at(
        t.entries(),
        v,
    ) == Option::<u8>::None by {
        assert(t.entries()[v] == table_layout(v));
    }
}

/// The record a handler logs for its vector.
pub open spec fn record_for(
    v: int,
    frame: InterruptFrame,
    error_code: u64,
    faulting_address: u64,
) -> FaultRecord {
    FaultRecord {
        vector: v as u8,
        instruction_pointer: frame.instruction_pointer,
        detail: if v == 14 {
            faulting_address
        } else if vector_has_error_code(v) {
            error_code
        } else {
            0
        },
    }
}

/// The error code as a plain value; zero where the vector pushes none.
pub open spec fn code_of(error_code: Option<u64>) -> u64 {
    match error_code {
        Some(c) => c,
        None => 0,
    }
}

/// Whether the slot's handler is a hardware-interrupt handler, which needs
/// device state and runs through its own entry point.
pub open spec fn is_device_handler(k: HandlerKind) -> bool {
    k == HandlerKind::Timer || k == HandlerKind::Keyboard
}

/// What dispatching vector `v` against table `t` returns.
pub open spec fn spec_dispatch(t: Seq<Option<Registration>>, v: int) -> DispatchOutcome {
    match t[v] {
        None => DispatchOutcome::Unregistered,
        Some(reg) => if is_device_handler(reg.handler) {
            DispatchOutcome::DevicePending
        } else {
            match policy_of(reg.handler) {
                Policy::Resume => DispatchOutcome::Resumed,
                Policy::Fatal => DispatchOutcome::Halted,
                Policy::IdleHalt => DispatchOutcome::IdleHalted,
            }
        },
    }
}

/// The log an exception dispatch leaves behind: one record per registered
/// fault vector, nothing for empty slots and hardware-interrupt slots.
pub open spec fn spec_dispatch_log(
    t: Seq<Option<Registration>>,
    v: int,
    frame: InterruptFrame,
    error_code: u64,
    faulting_address: u64,
    log: Seq<FaultRecord>,
) -> Seq<FaultRecord> {
    match t[v] {
        None => log,
        Some(reg) => if is_device_handler(reg.handler) {
            log
        } else {
            log.push(record_for(v, frame, error_code, faulting_address))
        },
    }
}

/// Divide error: diagnostic log, then resume.
pub fn divide_by_zero_handler(stack_frame: &InterruptFrame, log: &mut Vec<FaultRecord>) -> (r:
    DispatchOutcome)
    ensures
        final(log)@ == old(log)@.push(record_for(0, *stack_frame, 0, 0)),
        r == DispatchOutcome::Resumed,
{
    log.push(
        FaultRecord {
            vector: 0,
            instruction_pointer: stack_frame.instruction_pointer,
            detail: 0,
        },
    );
    DispatchOutcome::Resumed
}

/// Debug trap: diagnostic log, then resume.
pub fn debug_handler(stack_frame: &InterruptFrame, log: &mut Vec<FaultRecord>) -> (r:
    DispatchOutcome)
    ensures
        final(log)@ == old(log)@.push(record_for(1, *stack_frame, 0, 0)),
        r == DispatchOutcome::Resumed,
{
    log.push(
        FaultRecord {
            vector: 1,
            instruction_pointer: stack_frame.instruction_pointer,
            detail: 0,
        },
    );
    DispatchOutcome::Resumed
}

/// Non-maskable interrupt: diagnostic log, then resume.
pub fn non_maskable_interrupt_handler(
    stack_frame: &InterruptFrame,
    log: &mut Vec<FaultRecord>,
) -> (r: DispatchOutcome)
    ensures
        final(log)@ == old(log)@.push(record_for(2, *stack_frame, 0, 0)),
        r == DispatchOutcome::Resumed,
{
    log.push(
        FaultRecord {
            vector: 2,
            instruction_pointer: stack_frame.instruction_pointer,
            detail: 0,
        },
    );
    DispatchOutcome::Resumed
}

/// Breakpoint: diagnostic log, then resume.  Synchronously triggerable as a
/// self-test of dispatch; control returns to the caller.
pub fn breakpoint_handler(stack_frame: &InterruptFrame, log: &mut Vec<FaultRecord>) -> (r:
    DispatchOutcome)
    ensures
        final(log)@ == old(log)@.push(record_for(3, *stack_frame, 0, 0)),
        r == DispatchOutcome::Resumed,
{
    log.push(
        FaultRecord {
            vector: 3,
            instruction_pointer: stack_frame.instruction_pointer,
            detail: 0,
        },
    );
    DispatchOutcome::Resumed
}

/// Overflow: diagnostic log, then resume.
pub fn overflow_handler(stack_frame: &InterruptFrame, log: &mut Vec<FaultRecord>) -> (r:
    DispatchOutcome)
    ensures
        final(log)@ == old(log)@.push(record_for(4, *stack_frame, 0, 0)),
        r == DispatchOutcome::Resumed,
{
    log.push(
        FaultRecord {
            vector: 4,
            instruction_pointer: stack_frame.instruction_pointer,
            detail: 0,
        },
    );
    DispatchOutcome::Resumed
}

/// Bound range exceeded: diagnostic log, then resume.
pub fn bound_range_exceeded_handler(
    stack_frame: &InterruptFrame,
    log: &mut Vec<FaultRecord>,
) -> (r: DispatchOutcome)
    ensures
        final(log)@ == old(log)@.push(record_for(5, *stack_frame, 0, 0)),
        r == DispatchOutcome::Resumed,
{
    log.push(
        FaultRecord {
            vector: 5,
            instruction_pointer: stack_frame.instruction_pointer,
            detail: 0,
        },
    );
    DispatchOutcome::Resumed
}

/// Invalid opcode: diagnostic log, then resume.
pub fn invalid_opcode_handler(stack_frame: &InterruptFrame, log: &mut Vec<FaultRecord>) -> (r:
    DispatchOutcome)
    ensures
        final(log)@ == old(log)@.push(record_for(6, *stack_frame, 0, 0)),
        r == DispatchOutcome::Resumed,
{
    log.push(
        FaultRecord {
            vector: 6,
            instruction_pointer: stack_frame.instruction_pointer,
            detail: 0,
        },
    );
    DispatchOutcome::Resumed
}

/// Device not available: diagnostic log, then resume.
pub fn device_not_available_handler(
    stack_frame: &InterruptFrame,
    log: &mut Vec<FaultRecord>,
) -> (r: DispatchOutcome)
    ensures
        final(log)@ == old(log)@.push(record_for(7, *stack_frame, 0, 0)),
        r == DispatchOutcome::Resumed,
{
    log.push(
        FaultRecord {
            vector: 7,
            instruction_pointer: stack_frame.instruction_pointer,
            detail: 0,
        },
    );
    DispatchOutcome::Resumed
}

/// Double fault: fatal.  Runs on the dedicated stack; resume is impossible.
pub fn double_fault_handler(
    stack_frame: &InterruptFrame,
    error_code: u64,
    log: &mut Vec<FaultRecord>,
) -> (r: DispatchOutcome)
    ensures
        final(log)@ == old(log)@.push(record_for(8, *stack_frame, error_code, 0)),
        r == DispatchOutcome::Halted,
{
    log.push(
        FaultRecord {
            vector: 8,
            instruction_pointer: stack_frame.instruction_pointer,
            detail: error_code,
        },
    );
    DispatchOutcome::Halted
}

/// Invalid task-state segment: fatal.
pub fn invalid_tss_handler(
    stack_frame: &InterruptFrame,
    error_code: u64,
    log: &mut Vec<FaultRecord>,
) -> (r: DispatchOutcome)
    ensures
        final(log)@ == old(log)@.push(record_for(10, *stack_frame, error_code, 0)),
        r == DispatchOutcome::Halted,
{
    log.push(
        FaultRecord {
            vector: 10,
            instruction_pointer: stack_frame.instruction_pointer,
            detail: error_code,
        },
    );
    DispatchOutcome::Halted
}

/// Segment not present: fatal.
pub fn segment_not_present_handler(
    stack_frame: &InterruptFrame,
    error_code: u64,
    log: &mut Vec<FaultRecord>,
) -> (r: DispatchOutcome)
    ensures
        final(log)@ == old(log)@.push(record_for(11, *stack_frame, error_code, 0)),
        r == DispatchOutcome::Halted,
{
    log.push(
        FaultRecord {
            vector: 11,
            instruction_pointer: stack_frame.instruction_pointer,
            detail: error_code,
        },
    );
    DispatchOutcome::Halted
}

/// Stack segment fault: fatal.
pub fn stack_segment_fault_handler(
    stack_frame: &InterruptFrame,
    error_code: u64,
    log: &mut Vec<FaultRecord>,
) -> (r: DispatchOutcome)
    ensures
        final(log)@ == old(log)@.push(record_for(12, *stack_frame, error_code, 0)),
        r == DispatchOutcome::Halted,
{
    log.push(
        FaultRecord {
            vector: 12,
            instruction_pointer: stack_frame.instruction_pointer,
            detail: error_code,
        },
    );
    DispatchOutcome::Halted
}

/// General protection fault: fatal.
pub fn general_protection_fault_handler(
    stack_frame: &InterruptFrame,
    error_code: u64,
    log: &mut Vec<FaultRecord>,
) -> (r: DispatchOutcome)
    ensures
        final(log)@ == old(log)@.push(record_for(13, *stack_frame, error_code, 0)),
        r == DispatchOutcome::Halted,
{
    log.push(
        FaultRecord {
            vector: 13,
            instruction_pointer: stack_frame.instruction_pointer,
            detail: error_code,
        },
    );
    DispatchOutcome::Halted
}

/// Page fault: log the faulting address and the frame, then enter the idle
/// halt loop instead of a hard panic, so the state can still be inspected.
pub fn page_fault_handler(
    stack_frame: &InterruptFrame,
    error_code: u64,
    faulting_address: u64,
    log: &mut Vec<FaultRecord>,
) -> (r: DispatchOutcome)
    ensures
        final(log)@ == old(log)@.push(record_for(14, *stack_frame, error_code, faulting_address)),
        r == DispatchOutcome::IdleHalted,
{
    log.push(
        FaultRecord {
            vector: 14,
            instruction_pointer: stack_frame.instruction_pointer,
            detail: faulting_address,
        },
    );
    DispatchOutcome::IdleHalted
}

/// x87 floating-point exception: diagnostic log, then resume.
pub fn x87_floating_point_handler(
    stack_frame: &InterruptFrame,
    log: &mut Vec<FaultRecord>,
) -> (r: DispatchOutcome)
    ensures
        final(log)@ == old(log)@.push(record_for(16, *stack_frame, 0, 0)),
        r == DispatchOutcome::Resumed,
{
    log.push(
        FaultRecord {
            vector: 16,
            instruction_pointer: stack_frame.instruction_pointer,
            detail: 0,
        },
    );
    DispatchOutcome::Resumed
}

/// Alignment check: fatal.
pub fn alignment_check_handler(
    stack_frame: &InterruptFrame,
    error_code: u64,
    log: &mut Vec<FaultRecord>,
) -> (r: DispatchOutcome)
    ensures
        final(log)@ == old(log)@.push(record_for(17, *stack_frame, error_code, 0)),
        r == DispatchOutcome::Halted,
{
    log.push(
        FaultRecord {
            vector: 17,
            instruction_pointer: stack_frame.instruction_pointer,
            detail: error_code,
        },
    );
    DispatchOutcome::Halted
}

/// Machine check: diagnostic log, then resume.
pub fn machine_check_handler(stack_frame: &InterruptFrame, log: &mut Vec<FaultRecord>) -> (r:
    DispatchOutcome)
    ensures
        final(log)@ == old(log)@.push(record_for(18, *stack_frame, 0, 0)),
        r == DispatchOutcome::Resumed,
{
    log.push(
        FaultRecord {
            vector: 18,
            instruction_pointer: stack_frame.instruction_pointer,
            detail: 0,
        },
    );
    DispatchOutcome::Resumed
}

/// SIMD floating-point exception: diagnostic log, then resume.
pub fn simd_floating_point_handler(
    stack_frame: &InterruptFrame,
    log: &mut Vec<FaultRecord>,
) -> (r: DispatchOutcome)
    ensures
        final(log)@ == old(log)@.push(record_for(19, *stack_frame, 0, 0)),
        r == DispatchOutcome::Resumed,
{
    log.push(
        FaultRecord {
            vector: 19,
            instruction_pointer: stack_frame.instruction_pointer,
            detail: 0,
        },
    );
    DispatchOutcome::Resumed
}

/// Virtualization exception: diagnostic log, then resume.
pub fn virtualization_handler(stack_frame: &InterruptFrame, log: &mut Vec<FaultRecord>) -> (r:
    DispatchOutcome)
    ensures
        final(log)@ == old(log)@.push(record_for(20, *stack_frame, 0, 0)),
        r == DispatchOutcome::Resumed,
{
    log.push(
        FaultRecord {
            vector: 20,
            instruction_pointer: stack_frame.instruction_pointer,
            detail: 0,
        },
    );
    DispatchOutcome::Resumed
}

/// Security exception: fatal.
pub fn security_exception_handler(
    stack_frame: &InterruptFrame,
    error_code: u64,
    log: &mut Vec<FaultRecord>,
) -> (r: DispatchOutcome)
    ensures
        final(log)@ == old(log)@.push(record_for(30, *stack_frame, error_code, 0)),
        r == DispatchOutcome::Halted,
{
    log.push(
        FaultRecord {
            vector: 30,
            instruction_pointer: stack_frame.instruction_pointer,
            detail: error_code,
        },
    );
    DispatchOutcome::Halted
}

/// Dispatch a raised vector against the table, as the CPU does: look up the
/// slot and run the registered fault handler.  Hardware-interrupt slots are
/// reported as pending, since their handlers need device state and run
/// through their own entry points.
///
/// The error code must be present exactly for the vectors that push one;
/// a mismatch would misread the stack.
pub fn dispatch(
    table: &TrapVectorTable,
    vector: u8,
    stack_frame: &InterruptFrame,
    error_code: Option<u64>,
    faulting_address: u64,
    log: &mut Vec<FaultRecord>,
) -> (r: DispatchOutcome)
    requires
        table.is_standard_layout(),
        error_code is Some <==> vector_has_error_code(vector as int),
    ensures
        r == spec_dispatch(table.entries(), vector as int),
        final(log)@ == spec_dispatch_log(
            table.entries(),
            vector as int,
            *stack_frame,
            code_of(error_code),
            faulting_address,
            old(log)@,
        ),
{
    let code: u64 = match error_code {
        Some(c) => c,
        None => 0,
    };
    let entry = table.slot(vector);
    proof {
        assert(table.entries()[vector as int] == table_layout(vector as int));
    }
    match entry {
        None => DispatchOutcome::Unregistered,
        Some(reg) => match reg.handler {
            HandlerKind::DivideError => divide_by_zero_handler(stack_frame, log),
            HandlerKind::Debug => debug_handler(stack_frame, log),
            HandlerKind::NonMaskableInterrupt => non_maskable_interrupt_handler(stack_frame, log),
            HandlerKind::Breakpoint => breakpoint_handler(stack_frame, log),
            HandlerKind::Overflow => overflow_handler(stack_frame, log),
            HandlerKind::BoundRangeExceeded => bound_range_exceeded_handler(stack_frame, log),
            HandlerKind::InvalidOpcode => invalid_opcode_handler(stack_frame, log),
            HandlerKind::DeviceNotAvailable => device_not_available_handler(stack_frame, log),
            HandlerKind::DoubleFault => double_fault_handler(stack_frame, code, log),
            HandlerKind::InvalidTss => invalid_tss_handler(stack_frame, code, log),
            HandlerKind::SegmentNotPresent => segment_not_present_handler(stack_frame, code, log),
            HandlerKind::StackSegmentFault => stack_segment_fault_handler(stack_frame, code, log),
            HandlerKind::GeneralProtectionFault => general_protection_fault_handler(
                stack_frame,
                code,
                log,
            ),
            HandlerKind::PageFault => page_fault_handler(stack_frame, code, faulting_address, log),
            HandlerKind::X87FloatingPoint => x87_floating_point_handler(stack_frame, log),
            HandlerKind::AlignmentCheck => alignment_check_handler(stack_frame, code, log),
            HandlerKind::MachineCheck => machine_check_handler(stack_frame, log),
            HandlerKind::SimdFloatingPoint => simd_floating_point_handler(stack_frame, log),
            HandlerKind::Virtualization => virtualization_handler(stack_frame, log),
            HandlerKind::SecurityException => security_exception_handler(stack_frame, code, log),
            HandlerKind::Timer => DispatchOutcome::DevicePending,
            HandlerKind::Keyboard => DispatchOutcome::DevicePending,
        },
    }
}

/// Law: dispatching the breakpoint vector against the built table returns
/// control to the caller; it neither halts nor goes unhandled.
pub proof fn lemma_breakpoint_returns_to_caller(t: TrapVectorTable)
    requires
        t.is_standard_layout(),
    ensures
        spec_dispatch(t.entries(), 3) == DispatchOutcome::Resumed,
{
    assert(t.entries()[3] == table_layout(3));
}

/// The hardware-interrupt vectors after the controllers are remapped.
#[derive(Debug, Clone, Copy)]
pub enum InterruptIndex {
    Timer,
    Keyboard,
}

impl InterruptIndex {
    /// The vector number this interrupt is delivered on.
    pub open spec fn spec_vector(self) -> u8 {
        match self {
            InterruptIndex::Timer => PIC_1_OFFSET,
            InterruptIndex::Keyboard => (PIC_1_OFFSET + 1) as u8,
        }
    }

    /// The vector number as a byte.
    pub fn as_u8(self) -> (r: u8)
        ensures
            r == self.spec_vector(),
    {
        match self {
            InterruptIndex::Timer => PIC_1_OFFSET,
            InterruptIndex::Keyboard => PIC_1_OFFSET + 1,
        }
    }

    /// The vector number as a table index.
    pub fn as_usize(self) -> (r: usize)
        ensures
            r == self.spec_vector() as usize,
    {
        self.as_u8() as usize
    }
}

/// Timer interrupt handler.  The frame is irrelevant; the whole effect is
/// the mandatory end-of-interrupt acknowledgment, issued exactly once.
pub fn timer_interrupt_handler(bridge: &mut ControllerBridge)
    requires
        old(bridge).is_initialized(),
        old(bridge).handles(InterruptIndex::Timer.spec_vector()),
    ensures
        final(bridge).acks() == old(bridge).acks().push(InterruptIndex::Timer.spec_vector()),
        final(bridge).is_initialized(),
        final(bridge).primary() == old(bridge).primary(),
        final(bridge).secondary() == old(bridge).secondary(),
{
    bridge.acknowledge(InterruptIndex::Timer.as_u8());
}

} // verus!
