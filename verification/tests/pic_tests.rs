use curi_os::pic::{ControllerBridge, PIC_1_OFFSET, PIC_2_OFFSET};

#[test]
fn test_offsets() {
    assert_eq!(PIC_1_OFFSET, 32);
    assert_eq!(PIC_2_OFFSET, 40);
}

#[test]
fn test_new_bridge_has_acknowledged_nothing() {
    let bridge = ControllerBridge::new(PIC_1_OFFSET, PIC_2_OFFSET);
    assert!(bridge.eoi_log().is_empty());
}

#[test]
fn test_acknowledge_in_range() {
    let mut bridge = ControllerBridge::new(PIC_1_OFFSET, PIC_2_OFFSET);
    bridge.initialize();
    bridge.acknowledge(32);
    bridge.acknowledge(40);
    bridge.acknowledge(47);
    assert_eq!(bridge.eoi_log().as_slice(), &[32, 40, 47]);
}

#[test]
fn test_acknowledge_same_vector_twice_tolerated() {
    let mut bridge = ControllerBridge::new(PIC_1_OFFSET, PIC_2_OFFSET);
    bridge.initialize();
    bridge.acknowledge(33);
    bridge.acknowledge(33);
    assert_eq!(bridge.eoi_log().as_slice(), &[33, 33]);
}

#[test]
fn test_acknowledge_out_of_range_ignored() {
    let mut bridge = ControllerBridge::new(PIC_1_OFFSET, PIC_2_OFFSET);
    bridge.initialize();
    bridge.acknowledge(3);
    bridge.acknowledge(48);
    bridge.acknowledge(255);
    assert!(bridge.eoi_log().is_empty());
}

#[test]
fn test_handles_vector_ranges() {
    let bridge = ControllerBridge::new(PIC_1_OFFSET, PIC_2_OFFSET);
    assert!(!bridge.handles_vector(31));
    assert!(bridge.handles_vector(32));
    assert!(bridge.handles_vector(39));
    assert!(bridge.handles_vector(40));
    assert!(bridge.handles_vector(47));
    assert!(!bridge.handles_vector(48));
}
