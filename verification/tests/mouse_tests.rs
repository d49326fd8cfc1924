use curi_os::mouse::{
    decode_packet, init_mouse, mouse_read, mouse_wait_for_status, mouse_write, read_packet,
    MousePortStatus, PortPair, COMMAND_STATUS_PORT, DATA_PORT, POLL_BUDGET,
};

/// A status byte that satisfies both waits: data ready, input buffer empty.
const READY: u8 = 0x01;

#[test]
fn test_decode_packet_positive_deltas() {
    let m = decode_packet([0x08, 0x10, 0xf0]);
    assert_eq!(m.left_button, false);
    assert_eq!(m.right_button, false);
    assert_eq!(m.middle_button, false);
    assert_eq!(m.delta_x, 16);
    assert_eq!(m.delta_y, 240);
}

#[test]
fn test_decode_packet_sign_extension() {
    // bits 4 and 5 of byte 0 are the ninth (sign) bits of the deltas
    let m = decode_packet([0x38, 0x10, 0xf0]);
    assert_eq!(m.delta_x, 16 - 256);
    assert_eq!(m.delta_y, 240 - 256);
}

#[test]
fn test_decode_packet_buttons() {
    let m = decode_packet([0x0b, 0x00, 0x00]);
    assert_eq!(m.left_button, true);
    assert_eq!(m.right_button, true);
    assert_eq!(m.middle_button, false);
    assert_eq!(m.delta_x, 0);
    assert_eq!(m.delta_y, 0);
}

#[test]
fn test_wait_returns_on_first_ready_poll() {
    let mut port = PortPair::new(vec![0x02, 0x02, READY, READY], vec![]);
    let polls = mouse_wait_for_status(&mut port, MousePortStatus::Signal);
    assert_eq!(polls, 3);
}

#[test]
fn test_wait_exhausts_budget_when_never_ready() {
    // an empty script means the status port answers busy forever
    let mut port = PortPair::new(vec![], vec![]);
    let polls = mouse_wait_for_status(&mut port, MousePortStatus::Signal);
    assert_eq!(polls, POLL_BUDGET);
    let polls = mouse_wait_for_status(&mut port, MousePortStatus::Data);
    assert_eq!(polls, POLL_BUDGET);
}

#[test]
fn test_mouse_write_sends_prefix_then_data() {
    let mut port = PortPair::new(vec![READY; 8], vec![]);
    mouse_write(&mut port, 0xf6);
    assert_eq!(
        port.write_log().as_slice(),
        &[(COMMAND_STATUS_PORT, 0xd4), (DATA_PORT, 0xf6)]
    );
}

#[test]
fn test_mouse_read_returns_scripted_byte() {
    let mut port = PortPair::new(vec![READY; 4], vec![0xfa, 0x55]);
    assert_eq!(mouse_read(&mut port), 0xfa);
    assert_eq!(mouse_read(&mut port), 0x55);
    assert!(port.write_log().is_empty());
}

#[test]
fn test_init_mouse_command_sequence() {
    let mut port = PortPair::new(vec![READY; 16], vec![0x20, 0xfa, 0xfa]);
    init_mouse(&mut port);
    assert_eq!(
        port.write_log().as_slice(),
        &[
            (COMMAND_STATUS_PORT, 0xa8),
            (COMMAND_STATUS_PORT, 0x20),
            (COMMAND_STATUS_PORT, 0x60),
            (DATA_PORT, 0x20 | 2),
            (COMMAND_STATUS_PORT, 0xd4),
            (DATA_PORT, 0xf6),
            (COMMAND_STATUS_PORT, 0xd4),
            (DATA_PORT, 0xf4),
        ]
    );
}

#[test]
fn test_init_mouse_completes_when_never_ready() {
    // the ready bit never shows and no data ever arrives; bring-up still
    // finishes, with the same command sequence and a zero status byte
    let mut port = PortPair::new(vec![], vec![]);
    init_mouse(&mut port);
    assert_eq!(
        port.write_log().as_slice(),
        &[
            (COMMAND_STATUS_PORT, 0xa8),
            (COMMAND_STATUS_PORT, 0x20),
            (COMMAND_STATUS_PORT, 0x60),
            (DATA_PORT, 0x02),
            (COMMAND_STATUS_PORT, 0xd4),
            (DATA_PORT, 0xf6),
            (COMMAND_STATUS_PORT, 0xd4),
            (DATA_PORT, 0xf4),
        ]
    );
}

#[test]
fn test_read_packet_decodes_three_bytes() {
    let mut port = PortPair::new(vec![READY; 8], vec![0x08, 0x10, 0xf0]);
    let m = read_packet(&mut port);
    assert_eq!(m, decode_packet([0x08, 0x10, 0xf0]));
}
